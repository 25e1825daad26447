//! Data model of a DLT message: headers, type descriptors, argument values
//! and payload variants, together with their ghost views and the
//! well-formedness conditions that the codec relies on.
//!
//! Textual fields (identifiers, argument names, units, string values) are
//! held as UTF-8 byte vectors: the wire format speaks bytes, and every
//! well-formedness condition on text is stated over bytes.
use vstd::prelude::*;

verus! {

use vstd::utf8::valid_utf8;

/// Byte order of a message's wire representation.
#[derive(Debug, Clone, Copy, PartialEq, Eq, Structural)]
pub enum Endianness {
    Little,
    Big,
}

/// Why a decode attempt failed.
#[derive(Debug, Clone, Copy, PartialEq, Eq, Structural)]
pub enum DecodeError {
    /// A header is malformed: bad storage magic, or an overall length that
    /// contradicts the flag bits.
    InvalidHeader,
    /// The 32-bit type descriptor of a verbose argument is malformed.
    InvalidTypeInfo,
    /// A textual field is not valid UTF-8.
    InvalidStringData,
    /// A declared length reaches past the end of the payload.
    ArgumentTruncated,
    /// A value's tag cannot be paired with the given type descriptor.
    ArgumentTypeMismatch,
    /// A non-verbose signal sequence reaches past the end of the payload.
    NonVerboseTruncated,
    /// Not enough bytes for a whole message; in a streaming context this
    /// means "no message yet".
    Incomplete,
}

/// Timestamp of a storage header: seconds and microseconds since the
/// Unix epoch.
#[derive(Debug, Clone, Copy, PartialEq, Eq, Structural)]
pub struct DltTimeStamp {
    pub seconds: u32,
    pub microseconds: u32,
}

impl DltTimeStamp {
    /// Build a timestamp from a millisecond count. Sub-millisecond
    /// information does not exist in the input, so the microsecond part is
    /// a whole number of thousands below one million.
    pub fn from_ms(ms: u64) -> (r: DltTimeStamp)
        ensures
            r.seconds == (ms / 1000) as u32,
            r.microseconds == (ms % 1000) * 1000,
            r.microseconds < 1_000_000,
    {
        DltTimeStamp {
            seconds: #[verifier::truncate] ((ms / 1000) as u32),
            microseconds: (ms % 1000) as u32 * 1000,
        }
    }
}

/// Receive-time record that a storage layer prepends to a message:
/// timestamp plus the identifier of the receiving ECU (at most four bytes,
/// zero-padded on the wire).
#[derive(Debug, Clone, PartialEq)]
pub struct StorageHeader {
    pub timestamp: DltTimeStamp,
    pub ecu_id: Vec<u8>,
}

/// Ghost image of a storage header.
pub struct StorageHeaderV {
    pub timestamp: DltTimeStamp,
    pub ecu_id: Seq<u8>,
}

impl View for StorageHeader {
    type V = StorageHeaderV;

    open spec fn view(&self) -> StorageHeaderV {
        StorageHeaderV { timestamp: self.timestamp, ecu_id: self.ecu_id@ }
    }
}

/// Text that is rendered into a line verbatim: none of the three reserved
/// separator bytes, and no raw newline, may appear in it.
pub open spec fn display_clean(s: Seq<u8>) -> bool {
    forall|i: int|
        0 <= i < s.len() ==> s[i] != 0x04u8 && s[i] != 0x05u8 && s[i] != 0x06u8 && s[i] != 0x0Au8
}

/// A short identifier as the wire carries it: at most `max` bytes, no NUL
/// byte (NUL is the pad), valid UTF-8, and free of the reserved separator
/// and newline bytes, which must not appear in a rendered line.
pub open spec fn id_wf(s: Seq<u8>, max: int) -> bool {
    &&& s.len() <= max
    &&& forall|i: int| 0 <= i < s.len() ==> s[i] != 0u8
    &&& valid_utf8(s)
    &&& display_clean(s)
}

impl StorageHeaderV {
    /// The decoder trims the zero padding away, so a representable
    /// ecu_id holds no NUL and at most four bytes.
    pub open spec fn wf(self) -> bool {
        id_wf(self.ecu_id, 4)
    }
}

/// The standard header: always present, written in big-endian byte order
/// regardless of the message's payload endianness.
#[derive(Debug, Clone, PartialEq)]
pub struct StandardHeader {
    pub version: u8,
    pub endianness: Endianness,
    pub has_extended_header: bool,
    pub message_counter: u8,
    pub ecu_id: Option<Vec<u8>>,
    pub session_id: Option<u32>,
    pub timestamp: Option<u32>,
    pub payload_length: u16,
}

/// Ghost image of a standard header.
pub struct StandardHeaderV {
    pub version: u8,
    pub endianness: Endianness,
    pub has_extended_header: bool,
    pub message_counter: u8,
    pub ecu_id: Option<Seq<u8>>,
    pub session_id: Option<u32>,
    pub timestamp: Option<u32>,
    pub payload_length: u16,
}

impl View for StandardHeader {
    type V = StandardHeaderV;

    open spec fn view(&self) -> StandardHeaderV {
        StandardHeaderV {
            version: self.version,
            endianness: self.endianness,
            has_extended_header: self.has_extended_header,
            message_counter: self.message_counter,
            ecu_id: match self.ecu_id {
                Some(ref v) => Some(v@),
                None => None,
            },
            session_id: self.session_id,
            timestamp: self.timestamp,
            payload_length: self.payload_length,
        }
    }
}

impl StandardHeaderV {
    /// Length in bytes of the standard header itself: four fixed bytes plus
    /// four for each optional field that is present.
    pub open spec fn spec_header_len(self) -> int {
        4 + (if self.ecu_id is Some { 4int } else { 0 })
            + (if self.session_id is Some { 4int } else { 0 })
            + (if self.timestamp is Some { 4int } else { 0 })
    }

    /// Length in bytes of everything the overall-length field counts:
    /// standard header, optional extended header, payload.
    pub open spec fn spec_overall_len(self) -> int {
        self.spec_header_len() + (if self.has_extended_header { 10int } else { 0 })
            + self.payload_length
    }

    pub open spec fn wf(self) -> bool {
        &&& self.version <= 7
        &&& match self.ecu_id {
            Some(s) => id_wf(s, 4),
            None => true,
        }
        &&& self.spec_overall_len() <= 0xFFFF
    }
}

/// Severity of a log message, as carried in the extended header's
/// message-info nibble.
#[derive(Debug, Clone, Copy, PartialEq, Eq, Structural)]
pub enum LogLevel {
    Fatal,
    Error,
    Warn,
    Info,
    Debug,
    Verbose,
    Invalid(u8),
}

/// Kind of an application-trace message.
#[derive(Debug, Clone, Copy, PartialEq, Eq, Structural)]
pub enum ApplicationTraceType {
    Variable,
    FunctionIn,
    FunctionOut,
    State,
    Vfb,
    Invalid(u8),
}

/// Kind of a network-trace message.
#[derive(Debug, Clone, Copy, PartialEq, Eq, Structural)]
pub enum NetworkTraceType {
    Ipc,
    Can,
    Flexray,
    Most,
    Ethernet,
    Someip,
    Invalid,
    UserDefined(u8),
}

/// Kind of a control message.
#[derive(Debug, Clone, Copy, PartialEq, Eq, Structural)]
pub enum ControlType {
    Request,
    Response,
    Unknown(u8),
}

impl ControlType {
    /// Service byte written in front of a control payload.
    pub open spec fn spec_value(self) -> u8 {
        match self {
            ControlType::Request => 1,
            ControlType::Response => 2,
            ControlType::Unknown(n) => n,
        }
    }

    pub fn value(&self) -> (r: u8)
        ensures
            r == self.spec_value(),
    {
        match *self {
            ControlType::Request => 1,
            ControlType::Response => 2,
            ControlType::Unknown(n) => n,
        }
    }

    pub open spec fn spec_from_value(t: u8) -> ControlType {
        if t == 1 {
            ControlType::Request
        } else if t == 2 {
            ControlType::Response
        } else {
            ControlType::Unknown(t)
        }
    }

    pub fn from_value(t: u8) -> (r: ControlType)
        ensures
            r == ControlType::spec_from_value(t),
    {
        match t {
            1 => ControlType::Request,
            2 => ControlType::Response,
            t => ControlType::Unknown(t),
        }
    }

    /// The `Unknown` variant never shadows the two named service values.
    pub open spec fn wf(self) -> bool {
        match self {
            ControlType::Unknown(n) => n != 1 && n != 2,
            _ => true,
        }
    }
}

/// Message classification carried in the extended header: the three
/// message-type bits select the variant, the four message-info bits select
/// the inner kind.
#[derive(Debug, Clone, Copy, PartialEq, Eq, Structural)]
pub enum MessageType {
    Log(LogLevel),
    ApplicationTrace(ApplicationTraceType),
    NetworkTrace(NetworkTraceType),
    Control(ControlType),
    Unknown(u8, u8),
}

/// String coding declared by a type descriptor.
#[derive(Debug, Clone, Copy, PartialEq, Eq, Structural)]
pub enum StringCoding {
    ASCII,
    UTF8,
}

/// Width of a float or fixed-point quantity: 32 or 64 bits.
#[derive(Debug, Clone, Copy, PartialEq, Eq, Structural)]
pub enum FloatWidth {
    Width32,
    Width64,
}

impl FloatWidth {
    pub open spec fn spec_bytes(self) -> int {
        match self {
            FloatWidth::Width32 => 4,
            FloatWidth::Width64 => 8,
        }
    }

    pub open spec fn spec_bits(self) -> int {
        match self {
            FloatWidth::Width32 => 32,
            FloatWidth::Width64 => 64,
        }
    }
}

/// Bit width of an integer argument.
#[derive(Debug, Clone, Copy, PartialEq, Eq, Structural)]
pub enum TypeLength {
    BitLength8,
    BitLength16,
    BitLength32,
    BitLength64,
    BitLength128,
}

impl TypeLength {
    pub open spec fn spec_bytes(self) -> int {
        match self {
            TypeLength::BitLength8 => 1,
            TypeLength::BitLength16 => 2,
            TypeLength::BitLength32 => 4,
            TypeLength::BitLength64 => 8,
            TypeLength::BitLength128 => 16,
        }
    }

    pub open spec fn spec_bits(self) -> int {
        match self {
            TypeLength::BitLength8 => 8,
            TypeLength::BitLength16 => 16,
            TypeLength::BitLength32 => 32,
            TypeLength::BitLength64 => 64,
            TypeLength::BitLength128 => 128,
        }
    }
}

pub fn float_width_to_type_length(width: FloatWidth) -> (r: TypeLength)
    ensures
        r.spec_bytes() == width.spec_bytes(),
{
    match width {
        FloatWidth::Width32 => TypeLength::BitLength32,
        FloatWidth::Width64 => TypeLength::BitLength64,
    }
}

/// The kind bits of a 32-bit type descriptor.
#[derive(Debug, Clone, Copy, PartialEq, Eq, Structural)]
pub enum TypeInfoKind {
    Bool,
    Signed(TypeLength),
    SignedFixedPoint(FloatWidth),
    Unsigned(TypeLength),
    UnsignedFixedPoint(FloatWidth),
    Float(FloatWidth),
    StringType,
    Raw,
}

/// Decoded form of the 32-bit type descriptor in front of each verbose
/// argument.
#[derive(Debug, Clone, Copy, PartialEq, Eq, Structural)]
pub struct TypeInfo {
    pub kind: TypeInfoKind,
    pub coding: StringCoding,
    pub has_variable_info: bool,
    pub has_trace_info: bool,
}

impl TypeInfo {
    /// Width in bits of the value this descriptor announces: 8 to 128 for
    /// integers, 32 or 64 for floats and fixed-point values, and zero for
    /// kinds whose value carries its own length.
    pub open spec fn spec_type_width(self) -> int {
        match self.kind {
            TypeInfoKind::Signed(l) => l.spec_bits(),
            TypeInfoKind::SignedFixedPoint(w) => w.spec_bits(),
            TypeInfoKind::Unsigned(l) => l.spec_bits(),
            TypeInfoKind::UnsignedFixedPoint(w) => w.spec_bits(),
            TypeInfoKind::Float(w) => w.spec_bits(),
            _ => 0,
        }
    }

    /// The bit width of the announced value.
    pub fn type_width(&self) -> (r: usize)
        ensures
            r == self.spec_type_width(),
    {
        match self.kind {
            TypeInfoKind::Signed(l) => type_length_bits_of(l),
            TypeInfoKind::SignedFixedPoint(w) => float_width_bits_of(w),
            TypeInfoKind::Unsigned(l) => type_length_bits_of(l),
            TypeInfoKind::UnsignedFixedPoint(w) => float_width_bits_of(w),
            TypeInfoKind::Float(w) => float_width_bits_of(w),
            _ => 0,
        }
    }

    pub open spec fn spec_is_fixed_point(self) -> bool {
        self.kind is SignedFixedPoint || self.kind is UnsignedFixedPoint
    }

    pub fn is_fixed_point(&self) -> (r: bool)
        ensures
            r == self.spec_is_fixed_point(),
    {
        match self.kind {
            TypeInfoKind::SignedFixedPoint(_) => true,
            TypeInfoKind::UnsignedFixedPoint(_) => true,
            _ => false,
        }
    }
}

pub fn type_length_bytes(l: TypeLength) -> (r: usize)
    ensures
        r == l.spec_bytes(),
{
    match l {
        TypeLength::BitLength8 => 1,
        TypeLength::BitLength16 => 2,
        TypeLength::BitLength32 => 4,
        TypeLength::BitLength64 => 8,
        TypeLength::BitLength128 => 16,
    }
}

pub fn float_width_bytes(w: FloatWidth) -> (r: usize)
    ensures
        r == w.spec_bytes(),
{
    match w {
        FloatWidth::Width32 => 4,
        FloatWidth::Width64 => 8,
    }
}

fn type_length_bits_of(l: TypeLength) -> (r: usize)
    ensures
        r == l.spec_bits(),
{
    match l {
        TypeLength::BitLength8 => 8,
        TypeLength::BitLength16 => 16,
        TypeLength::BitLength32 => 32,
        TypeLength::BitLength64 => 64,
        TypeLength::BitLength128 => 128,
    }
}

fn float_width_bits_of(w: FloatWidth) -> (r: usize)
    ensures
        r == w.spec_bits(),
{
    match w {
        FloatWidth::Width32 => 32,
        FloatWidth::Width64 => 64,
    }
}

/// Offset of a fixed-point block: a 32-bit or 64-bit signed integer,
/// matching the descriptor's width.
#[derive(Debug, Clone, Copy, PartialEq, Eq, Structural)]
pub enum FixedPointValue {
    I32(i32),
    I64(i64),
}

pub fn fixed_point_value_width(v: &FixedPointValue) -> (r: usize)
    ensures
        r == match v {
            FixedPointValue::I32(_) => 4int,
            FixedPointValue::I64(_) => 8int,
        },
{
    match v {
        FixedPointValue::I32(_) => 4,
        FixedPointValue::I64(_) => 8,
    }
}

/// Fixed-point scaling block: the logical value is
/// `physical * quantization + offset`. The quantization is an IEEE-754
/// single, held here as its bit pattern, exactly as the wire carries it.
#[derive(Debug, Clone, Copy, PartialEq, Eq, Structural)]
pub struct FixedPoint {
    pub quantization_bits: u32,
    pub offset: FixedPointValue,
}

/// The value of one verbose argument. Float values are held as their
/// IEEE-754 bit patterns; string and raw values as byte vectors.
#[derive(Debug, Clone, PartialEq)]
pub enum Value {
    Bool(bool),
    U8(u8),
    U16(u16),
    U32(u32),
    U64(u64),
    U128(u128),
    I8(i8),
    I16(i16),
    I32(i32),
    I64(i64),
    I128(i128),
    F32(u32),
    F64(u64),
    StringVal(Vec<u8>),
    Raw(Vec<u8>),
}

/// Ghost image of a value.
pub enum ValueV {
    Bool(bool),
    U8(u8),
    U16(u16),
    U32(u32),
    U64(u64),
    U128(u128),
    I8(i8),
    I16(i16),
    I32(i32),
    I64(i64),
    I128(i128),
    F32(u32),
    F64(u64),
    StringVal(Seq<u8>),
    Raw(Seq<u8>),
}

impl View for Value {
    type V = ValueV;

    open spec fn view(&self) -> ValueV {
        match self {
            Value::Bool(b) => ValueV::Bool(*b),
            Value::U8(v) => ValueV::U8(*v),
            Value::U16(v) => ValueV::U16(*v),
            Value::U32(v) => ValueV::U32(*v),
            Value::U64(v) => ValueV::U64(*v),
            Value::U128(v) => ValueV::U128(*v),
            Value::I8(v) => ValueV::I8(*v),
            Value::I16(v) => ValueV::I16(*v),
            Value::I32(v) => ValueV::I32(*v),
            Value::I64(v) => ValueV::I64(*v),
            Value::I128(v) => ValueV::I128(*v),
            Value::F32(v) => ValueV::F32(*v),
            Value::F64(v) => ValueV::F64(*v),
            Value::StringVal(s) => ValueV::StringVal(s@),
            Value::Raw(r) => ValueV::Raw(r@),
        }
    }
}

/// One verbose argument: type descriptor, optional variable info,
/// optional fixed-point block, and the value itself.
#[derive(Debug, Clone, PartialEq)]
pub struct Argument {
    pub type_info: TypeInfo,
    pub name: Option<Vec<u8>>,
    pub unit: Option<Vec<u8>>,
    pub fixed_point: Option<FixedPoint>,
    pub value: Value,
}

/// Ghost image of an argument.
pub struct ArgumentV {
    pub type_info: TypeInfo,
    pub name: Option<Seq<u8>>,
    pub unit: Option<Seq<u8>>,
    pub fixed_point: Option<FixedPoint>,
    pub value: ValueV,
}

impl View for Argument {
    type V = ArgumentV;

    open spec fn view(&self) -> ArgumentV {
        ArgumentV {
            type_info: self.type_info,
            name: match self.name {
                Some(ref n) => Some(n@),
                None => None,
            },
            unit: match self.unit {
                Some(ref u) => Some(u@),
                None => None,
            },
            fixed_point: self.fixed_point,
            value: self.value@,
        }
    }
}

impl Argument {
    /// The check the original applied before encoding: booleans and floats
    /// must carry a matching value; other kinds are not examined here (the
    /// builder's full invariant is `ArgumentV::wf`).
    pub fn valid(&self) -> (r: bool)
        ensures
            r == match self.type_info.kind {
                TypeInfoKind::Bool => self@.value is Bool,
                TypeInfoKind::Float(FloatWidth::Width32) => self@.value is F32,
                TypeInfoKind::Float(FloatWidth::Width64) => self@.value is F64,
                _ => true,
            },
    {
        match self.type_info.kind {
            TypeInfoKind::Bool => match self.value {
                Value::Bool(_) => true,
                _ => false,
            },
            TypeInfoKind::Float(FloatWidth::Width32) => match self.value {
                Value::F32(_) => true,
                _ => false,
            },
            TypeInfoKind::Float(FloatWidth::Width64) => match self.value {
                Value::F64(_) => true,
                _ => false,
            },
            _ => true,
        }
    }
}

/// A textual field of an argument (name, unit, string value) as the codec
/// round-trips it: valid UTF-8 without NUL bytes, short enough that its
/// length plus the terminating NUL fits the 16-bit length field.
pub open spec fn text_wf(s: Seq<u8>) -> bool {
    &&& s.len() + 1 <= 0xFFFF
    &&& forall|i: int| 0 <= i < s.len() ==> s[i] != 0u8
    &&& valid_utf8(s)
}

/// A name or unit field: a well-formed text that is not empty (the wire
/// encodes an absent name as the empty text, so an empty present name is
/// not representable) and that can stand verbatim in a rendered line.
pub open spec fn opt_text_wf(t: Option<Seq<u8>>) -> bool {
    match t {
        Some(s) => text_wf(s) && s.len() > 0 && display_clean(s),
        None => true,
    }
}

impl ArgumentV {
    /// The value's tag and width agree with the type descriptor.
    pub open spec fn value_matches(self) -> bool {
        match self.type_info.kind {
            TypeInfoKind::Bool => self.value is Bool,
            TypeInfoKind::Signed(l) => match self.value {
                ValueV::I8(_) => l == TypeLength::BitLength8,
                ValueV::I16(_) => l == TypeLength::BitLength16,
                ValueV::I32(_) => l == TypeLength::BitLength32,
                ValueV::I64(_) => l == TypeLength::BitLength64,
                ValueV::I128(_) => l == TypeLength::BitLength128,
                _ => false,
            },
            TypeInfoKind::Unsigned(l) => match self.value {
                ValueV::U8(_) => l == TypeLength::BitLength8,
                ValueV::U16(_) => l == TypeLength::BitLength16,
                ValueV::U32(_) => l == TypeLength::BitLength32,
                ValueV::U64(_) => l == TypeLength::BitLength64,
                ValueV::U128(_) => l == TypeLength::BitLength128,
                _ => false,
            },
            TypeInfoKind::SignedFixedPoint(w) => match self.value {
                ValueV::I32(_) => w == FloatWidth::Width32,
                ValueV::I64(_) => w == FloatWidth::Width64,
                _ => false,
            },
            TypeInfoKind::UnsignedFixedPoint(w) => match self.value {
                ValueV::U32(_) => w == FloatWidth::Width32,
                ValueV::U64(_) => w == FloatWidth::Width64,
                _ => false,
            },
            TypeInfoKind::Float(w) => match self.value {
                ValueV::F32(_) => w == FloatWidth::Width32,
                ValueV::F64(_) => w == FloatWidth::Width64,
                _ => false,
            },
            TypeInfoKind::StringType => self.value is StringVal,
            TypeInfoKind::Raw => self.value is Raw,
        }
    }

    /// The fixed-point block is present exactly for fixed-point kinds and
    /// its offset width matches the descriptor.
    pub open spec fn fixed_point_matches(self) -> bool {
        match self.type_info.kind {
            TypeInfoKind::SignedFixedPoint(w) | TypeInfoKind::UnsignedFixedPoint(w) => {
                match self.fixed_point {
                    Some(fp) => match fp.offset {
                        FixedPointValue::I32(_) => w == FloatWidth::Width32,
                        FixedPointValue::I64(_) => w == FloatWidth::Width64,
                    },
                    None => false,
                }
            },
            _ => self.fixed_point is None,
        }
    }

    /// Full consistency of an argument, as the builder establishes it and
    /// as encoding requires it.
    pub open spec fn wf(self) -> bool {
        &&& self.value_matches()
        &&& self.fixed_point_matches()
        &&& opt_text_wf(self.name)
        &&& opt_text_wf(self.unit)
        &&& self.name is Some ==> self.type_info.has_variable_info
        &&& self.unit is Some ==> self.type_info.has_variable_info
        &&& match self.type_info.kind {
            TypeInfoKind::StringType | TypeInfoKind::Raw => self.unit is None,
            _ => true,
        }
        &&& match self.value {
            ValueV::StringVal(s) => text_wf(s) && forall|i: int|
                0 <= i < s.len() ==> s[i] != 0x04u8 && s[i] != 0x05u8 && s[i] != 0x06u8,
            ValueV::Raw(r) => r.len() <= 0xFFFF,
            _ => true,
        }
    }
}

/// Payload of a message: self-describing arguments, an opaque non-verbose
/// record behind a message id, or a control record behind a service byte.
#[derive(Debug, Clone, PartialEq)]
pub enum PayloadContent {
    Verbose(Vec<Argument>),
    NonVerbose(u32, Vec<u8>),
    ControlMsg(ControlType, Vec<u8>),
}

/// Ghost image of a payload.
pub enum PayloadContentV {
    Verbose(Seq<ArgumentV>),
    NonVerbose(u32, Seq<u8>),
    ControlMsg(ControlType, Seq<u8>),
}

impl View for PayloadContent {
    type V = PayloadContentV;

    open spec fn view(&self) -> PayloadContentV {
        match self {
            PayloadContent::Verbose(args) => PayloadContentV::Verbose(
                Seq::new(args@.len(), |i: int| args@[i]@),
            ),
            PayloadContent::NonVerbose(id, data) => PayloadContentV::NonVerbose(*id, data@),
            PayloadContent::ControlMsg(ct, data) => PayloadContentV::ControlMsg(*ct, data@),
        }
    }
}

/// A message's payload together with the operations that depend only on
/// its content.
#[derive(Debug, Clone, PartialEq)]
pub struct Payload2 {
    pub payload_content: PayloadContent,
}

impl View for Payload2 {
    type V = PayloadContentV;

    open spec fn view(&self) -> PayloadContentV {
        self.payload_content@
    }
}

impl PayloadContentV {
    /// Number of arguments mirrored into the extended header: the argument
    /// count of a verbose payload saturated at 255, zero otherwise.
    pub open spec fn spec_arg_count(self) -> u8 {
        match self {
            PayloadContentV::Verbose(args) => if args.len() >= 255 {
                255u8
            } else {
                args.len() as u8
            },
            _ => 0,
        }
    }
}

impl Payload2 {
    /// Argument count as the extended header mirrors it: saturated at 255
    /// for verbose payloads, zero for the other variants.
    pub fn arg_count(&self) -> (r: u8)
        ensures
            r == self@.spec_arg_count(),
    {
        match &self.payload_content {
            PayloadContent::Verbose(args) => {
                if args.len() >= 255 {
                    255
                } else {
                    args.len() as u8
                }
            },
            _ => 0,
        }
    }

    pub fn is_verbose(&self) -> (r: bool)
        ensures
            r == (self@ is Verbose),
    {
        match self.payload_content {
            PayloadContent::Verbose(_) => true,
            _ => false,
        }
    }
}

/// The extended header: verbosity, argument count, message type, and the
/// application and context identifiers.
#[derive(Debug, Clone, PartialEq)]
pub struct ExtendedHeader {
    pub verbose: bool,
    pub argument_count: u8,
    pub message_type: MessageType,
    pub application_id: Vec<u8>,
    pub context_id: Vec<u8>,
}

/// Ghost image of an extended header.
pub struct ExtendedHeaderV {
    pub verbose: bool,
    pub argument_count: u8,
    pub message_type: MessageType,
    pub application_id: Seq<u8>,
    pub context_id: Seq<u8>,
}

impl View for ExtendedHeader {
    type V = ExtendedHeaderV;

    open spec fn view(&self) -> ExtendedHeaderV {
        ExtendedHeaderV {
            verbose: self.verbose,
            argument_count: self.argument_count,
            message_type: self.message_type,
            application_id: self.application_id@,
            context_id: self.context_id@,
        }
    }
}

impl ExtendedHeaderV {
    pub open spec fn wf(self) -> bool {
        &&& message_type_wf(self.message_type)
        &&& id_wf(self.application_id, 4)
        &&& id_wf(self.context_id, 4)
    }
}

/// The four message-info bits of the extended header's first byte.
pub open spec fn spec_mtin(t: MessageType) -> u8 {
    match t {
        MessageType::Log(l) => match l {
            LogLevel::Fatal => 1,
            LogLevel::Error => 2,
            LogLevel::Warn => 3,
            LogLevel::Info => 4,
            LogLevel::Debug => 5,
            LogLevel::Verbose => 6,
            LogLevel::Invalid(v) => v,
        },
        MessageType::ApplicationTrace(a) => match a {
            ApplicationTraceType::Variable => 1,
            ApplicationTraceType::FunctionIn => 2,
            ApplicationTraceType::FunctionOut => 3,
            ApplicationTraceType::State => 4,
            ApplicationTraceType::Vfb => 5,
            ApplicationTraceType::Invalid(n) => n,
        },
        MessageType::NetworkTrace(n) => match n {
            NetworkTraceType::Invalid => 0,
            NetworkTraceType::Ipc => 1,
            NetworkTraceType::Can => 2,
            NetworkTraceType::Flexray => 3,
            NetworkTraceType::Most => 4,
            NetworkTraceType::Ethernet => 5,
            NetworkTraceType::Someip => 6,
            NetworkTraceType::UserDefined(v) => v,
        },
        MessageType::Control(c) => c.spec_value(),
        MessageType::Unknown(_mstp, mtin) => mtin,
    }
}

/// The three message-type bits of the extended header's first byte.
pub open spec fn spec_mstp(t: MessageType) -> u8 {
    match t {
        MessageType::Log(_) => 0,
        MessageType::ApplicationTrace(_) => 1,
        MessageType::NetworkTrace(_) => 2,
        MessageType::Control(_) => 3,
        MessageType::Unknown(mstp, _) => mstp,
    }
}

/// A message type that the extended header byte can carry and give back:
/// the info bits fit a nibble and no catch-all variant shadows a named one.
pub open spec fn message_type_wf(t: MessageType) -> bool {
    &&& spec_mtin(t) <= 15
    &&& match t {
        MessageType::Log(LogLevel::Invalid(v)) => v == 0 || v >= 7,
        MessageType::ApplicationTrace(ApplicationTraceType::Invalid(n)) => n == 0 || n >= 6,
        MessageType::NetworkTrace(NetworkTraceType::UserDefined(v)) => v >= 7,
        MessageType::Control(c) => c.wf(),
        MessageType::Unknown(mstp, _) => 4 <= mstp <= 7,
        _ => true,
    }
}

/// Map a log-level nibble back to its named level; values outside the six
/// named ones have no level.
pub fn u8_to_log_level(v: u8) -> (r: Option<LogLevel>)
    ensures
        r == match v {
            1u8 => Some(LogLevel::Fatal),
            2u8 => Some(LogLevel::Error),
            3u8 => Some(LogLevel::Warn),
            4u8 => Some(LogLevel::Info),
            5u8 => Some(LogLevel::Debug),
            6u8 => Some(LogLevel::Verbose),
            _ => None::<LogLevel>,
        },
{
    match v {
        1 => Some(LogLevel::Fatal),
        2 => Some(LogLevel::Error),
        3 => Some(LogLevel::Warn),
        4 => Some(LogLevel::Info),
        5 => Some(LogLevel::Debug),
        6 => Some(LogLevel::Verbose),
        _ => None,
    }
}

impl ExtendedHeader {
    /// Whether a message of this header's level should be skipped under a
    /// floor `level`: log messages strictly above the floor are skipped;
    /// invalid levels sort after every valid one.
    pub fn skip_with_level(&self, level: LogLevel) -> (r: bool)
        ensures
            r == match self.message_type {
                MessageType::Log(n) => match (n, level) {
                    (LogLevel::Invalid(a), LogLevel::Invalid(b)) => a < b,
                    (LogLevel::Invalid(_), _) => false,
                    (_, LogLevel::Invalid(_)) => true,
                    _ => spec_mtin(MessageType::Log(level)) < spec_mtin(MessageType::Log(n)),
                },
                _ => false,
            },
    {
        match self.message_type {
            MessageType::Log(n) => match (n, level) {
                (LogLevel::Invalid(a), LogLevel::Invalid(b)) => a < b,
                (LogLevel::Invalid(_), _) => false,
                (_, LogLevel::Invalid(_)) => true,
                (n, level) => log_level_rank(level) < log_level_rank(n),
            },
            _ => false,
        }
    }
}

/// Numeric rank of a named log level (its message-info value).
fn log_level_rank(l: LogLevel) -> (r: u8)
    ensures
        r == spec_mtin(MessageType::Log(l)),
{
    match l {
        LogLevel::Fatal => 1,
        LogLevel::Error => 2,
        LogLevel::Warn => 3,
        LogLevel::Info => 4,
        LogLevel::Debug => 5,
        LogLevel::Verbose => 6,
        LogLevel::Invalid(v) => v,
    }
}

} // verus!
