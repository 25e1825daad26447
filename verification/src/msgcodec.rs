//! Codec for whole messages: storage header, standard header, extended
//! header, payload dispatch, and the message assembler, with the
//! round-trip and length laws.
use vstd::prelude::*;

verus! {

use std::rc::Rc;
use crate::types::{
    Argument, ArgumentV, ControlType, DecodeError, DltTimeStamp, Endianness, ExtendedHeader,
    ExtendedHeaderV,
    LogLevel, MessageType, PayloadContent, PayloadContentV, Payload2, StandardHeader, StorageHeader,
    StandardHeaderV, StorageHeaderV, spec_mstp, spec_mtin, message_type_wf,
    id_wf, u8_to_log_level, ApplicationTraceType, NetworkTraceType,
};
use crate::wire::{
    enc_u16, dec_u16, put_u16, get_u16, enc_u32, dec_u32, put_u32, get_u32, enc_id4, trim_at_nul,
    put_id4, get_id4, lemma_u16_rt, lemma_u32_rt, lemma_trim_pad_id, lemma_bytes_add_assoc,
};
use crate::argcodec::{enc_argument, sd_argument, put_argument, get_argument, lemma_peel};
use crate::nonverbose::FibexMetadata;

/// The four magic bytes in front of a storage header.
pub open spec fn storage_magic() -> Seq<u8> {
    seq![0x44u8, 0x4Cu8, 0x54u8, 0x01u8]
}

/// Wire image of a storage header: magic, seconds and microseconds in
/// little-endian order, then the four-byte ECU field.
pub open spec fn enc_storage_header(h: StorageHeaderV) -> Seq<u8>
    recommends
        h.wf(),
{
    storage_magic() + enc_u32(Endianness::Little, h.timestamp.seconds) + enc_u32(
        Endianness::Little,
        h.timestamp.microseconds,
    ) + enc_id4(h.ecu_id)
}

/// The header-type byte: flag bits for the extended header, byte order and
/// the optional fields, and the version in the top three bits.
pub open spec fn spec_header_type_byte(h: StandardHeaderV) -> u8 {
    (if h.has_extended_header {
        1u8
    } else {
        0u8
    }) | (if h.endianness is Big {
        2u8
    } else {
        0u8
    }) | (if h.ecu_id is Some {
        4u8
    } else {
        0u8
    }) | (if h.session_id is Some {
        8u8
    } else {
        0u8
    }) | (if h.timestamp is Some {
        16u8
    } else {
        0u8
    }) | ((h.version & 7) << 5)
}

/// Wire image of a standard header: type byte, counter, overall length in
/// big-endian order, then the optional fields in their fixed order.
pub open spec fn enc_standard_header(h: StandardHeaderV) -> Seq<u8>
    recommends
        h.wf(),
{
    seq![spec_header_type_byte(h), h.message_counter] + enc_u16(
        Endianness::Big,
        h.spec_overall_len() as u16,
    ) + (match h.ecu_id {
        Some(id) => enc_id4(id),
        None => Seq::empty(),
    }) + (match h.session_id {
        Some(s) => enc_u32(Endianness::Big, s),
        None => Seq::empty(),
    }) + (match h.timestamp {
        Some(t) => enc_u32(Endianness::Big, t),
        None => Seq::empty(),
    })
}

/// First byte of the extended header: message-type bits, message-info
/// bits, and the verbose bit.
pub open spec fn spec_msin_byte(x: ExtendedHeaderV) -> u8
    recommends
        x.wf(),
{
    ((spec_mstp(x.message_type) & 7) << 1) | ((spec_mtin(x.message_type) & 0xf) << 4) | (
    if x.verbose {
        1u8
    } else {
        0u8
    })
}

/// Wire image of an extended header.
pub open spec fn enc_extended_header(x: ExtendedHeaderV) -> Seq<u8>
    recommends
        x.wf(),
{
    seq![spec_msin_byte(x), x.argument_count] + enc_id4(x.application_id) + enc_id4(x.context_id)
}

/// Wire image of a verbose argument sequence: each argument's encoding in
/// declared order.
pub open spec fn enc_args(e: Endianness, args: Seq<ArgumentV>) -> Seq<u8>
    decreases args.len(),
{
    if args.len() == 0 {
        Seq::empty()
    } else {
        enc_argument(e, args[0]) + enc_args(e, args.skip(1))
    }
}

/// Wire image of a payload in the message's byte order.
pub open spec fn enc_payload(e: Endianness, p: PayloadContentV) -> Seq<u8> {
    match p {
        PayloadContentV::Verbose(args) => enc_args(e, args),
        PayloadContentV::NonVerbose(id, data) => enc_u32(e, id) + data,
        PayloadContentV::ControlMsg(ct, data) => seq![ct.spec_value()] + data,
    }
}

/// Ghost image of a whole message. The FIBEX handle is a lookup aid, not
/// part of the wire form, so it has no place here.
pub struct MessageV {
    pub storage_header: Option<StorageHeaderV>,
    pub header: StandardHeaderV,
    pub extended_header: Option<ExtendedHeaderV>,
    pub payload: PayloadContentV,
}

/// Wire image of a whole message: optional storage header, standard
/// header, optional extended header, payload.
pub open spec fn enc_message(m: MessageV) -> Seq<u8>
    recommends
        m.wf(),
{
    (match m.storage_header {
        Some(sh) => enc_storage_header(sh),
        None => Seq::empty(),
    }) + enc_standard_header(m.header) + (match m.extended_header {
        Some(x) => enc_extended_header(x),
        None => Seq::empty(),
    }) + enc_payload(m.header.endianness, m.payload)
}

impl MessageV {
    /// Consistency of payload, headers and counts, as the assembler
    /// establishes it and as the round trip needs it.
    pub open spec fn wf(self) -> bool {
        &&& self.header.wf()
        &&& match self.storage_header {
            Some(sh) => sh.wf(),
            None => true,
        }
        &&& self.header.has_extended_header == (self.extended_header is Some)
        &&& match self.extended_header {
            Some(x) => x.wf(),
            None => true,
        }
        &&& self.header.payload_length == enc_payload(self.header.endianness, self.payload).len()
        &&& match self.payload {
            PayloadContentV::Verbose(args) => {
                &&& self.extended_header is Some
                &&& self.extended_header->0.verbose
                &&& args.len() <= 255
                &&& self.extended_header->0.argument_count == args.len()
                &&& forall|i: int| 0 <= i < args.len() ==> (#[trigger] args[i]).wf()
            },
            PayloadContentV::NonVerbose(_id, _data) => match self.extended_header {
                Some(x) => !x.verbose && !(x.message_type is Control) && x.argument_count == 0,
                None => true,
            },
            PayloadContentV::ControlMsg(ct, _data) => {
                &&& self.extended_header is Some
                &&& !self.extended_header->0.verbose
                &&& self.extended_header->0.message_type is Control
                &&& ct.wf()
                &&& self.extended_header->0.argument_count == 0
            },
        }
    }
}

/// A whole message, together with the optional FIBEX catalog handle that
/// non-verbose rendering consults.
#[derive(Debug, Clone, PartialEq)]
pub struct Message {
    pub storage_header: Option<StorageHeader>,
    pub header: StandardHeader,
    pub extended_header: Option<ExtendedHeader>,
    pub payload: Payload2,
    pub fibex_metadata: Option<Rc<FibexMetadata>>,
}

impl View for Message {
    type V = MessageV;

    open spec fn view(&self) -> MessageV {
        MessageV {
            storage_header: match self.storage_header {
                Some(ref sh) => Some(sh@),
                None => None,
            },
            header: self.header@,
            extended_header: match self.extended_header {
                Some(ref x) => Some(x@),
                None => None,
            },
            payload: self.payload@,
        }
    }
}

impl StorageHeader {
    /// Wire image of this storage header (always little-endian).
    pub fn as_bytes(&self) -> (r: Vec<u8>)
        requires
            self@.wf(),
        ensures
            r@ == enc_storage_header(self@),
    {
        let mut buf: Vec<u8> = Vec::new();
        buf.push(0x44);
        buf.push(0x4C);
        buf.push(0x54);
        buf.push(0x01);
        assert(buf@ =~= storage_magic());
        put_u32(&mut buf, Endianness::Little, self.timestamp.seconds);
        put_u32(&mut buf, Endianness::Little, self.timestamp.microseconds);
        put_id4(&mut buf, &self.ecu_id);
        proof {
            broadcast use lemma_bytes_add_assoc;
        }
        buf
    }
}

impl StandardHeader {
    /// Compose the header-type byte from the flags and version.
    pub fn header_type_byte(&self) -> (r: u8)
        ensures
            r == spec_header_type_byte(self@),
    {
        let b1: u8 = if self.has_extended_header {
            1
        } else {
            0
        };
        let b2: u8 = match self.endianness {
            Endianness::Big => 2,
            Endianness::Little => 0,
        };
        let b3: u8 = if self.ecu_id.is_some() {
            4
        } else {
            0
        };
        let b4: u8 = if self.session_id.is_some() {
            8
        } else {
            0
        };
        let b5: u8 = if self.timestamp.is_some() {
            16
        } else {
            0
        };
        b1 | b2 | b3 | b4 | b5 | ((self.version & 7) << 5)
    }

    /// Length of everything the overall-length field counts: headers plus
    /// payload.
    pub fn overall_length(&self) -> (r: u16)
        requires
            self@.wf(),
        ensures
            r == self@.spec_overall_len(),
    {
        let mut length: u16 = 4;
        if self.ecu_id.is_some() {
            length += 4;
        }
        if self.session_id.is_some() {
            length += 4;
        }
        if self.timestamp.is_some() {
            length += 4;
        }
        if self.has_extended_header {
            length += 10;
        }
        length + self.payload_length
    }

}

impl StandardHeader {
    /// Wire image of this standard header.
    pub fn header_as_bytes(&self) -> (r: Vec<u8>)
        requires
            self@.wf(),
        ensures
            r@ == enc_standard_header(self@),
    {
        let mut buf: Vec<u8> = Vec::new();
        let tb = self.header_type_byte();
        buf.push(tb);
        buf.push(self.message_counter);
        assert(buf@ =~= seq![spec_header_type_byte(self@), self@.message_counter]);
        put_u16(&mut buf, Endianness::Big, self.overall_length());
        match &self.ecu_id {
            Some(id) => {
                put_id4(&mut buf, id);
            },
            None => {},
        }
        match &self.session_id {
            Some(s) => {
                put_u32(&mut buf, Endianness::Big, *s);
            },
            None => {},
        }
        match &self.timestamp {
            Some(t) => {
                put_u32(&mut buf, Endianness::Big, *t);
            },
            None => {},
        }
        proof {
            broadcast use lemma_bytes_add_assoc;

            assert(buf@ =~= enc_standard_header(self@));
        }
        buf
    }
}


impl StandardHeader {
    /// Plain constructor, field for field.
    #[allow(clippy::too_many_arguments)]
    pub fn new(
        version: u8,
        endianness: Endianness,
        message_counter: u8,
        has_extended_header: bool,
        payload_length: u16,
        ecu_id: Option<Vec<u8>>,
        session_id: Option<u32>,
        timestamp: Option<u32>,
    ) -> (r: StandardHeader)
        ensures
            r.version == version,
            r.endianness == endianness,
            r.message_counter == message_counter,
            r.has_extended_header == has_extended_header,
            r.payload_length == payload_length,
            r@.ecu_id == match ecu_id {
                Some(ref id) => Some(id@),
                None => None::<Seq<u8>>,
            },
            r.session_id == session_id,
            r.timestamp == timestamp,
    {
        StandardHeader {
            version,
            endianness,
            has_extended_header,
            message_counter,
            ecu_id,
            session_id,
            timestamp,
            payload_length,
        }
    }
}

/// The length of a standard header whose type byte this is: four fixed
/// bytes plus four for each optional-field flag that is set.
pub fn calculate_standard_header_length(header_type: u8) -> (r: u16)
    ensures
        r == 4 + (if header_type & 4 != 0 {
            4int
        } else {
            0int
        }) + (if header_type & 8 != 0 {
            4int
        } else {
            0int
        }) + (if header_type & 16 != 0 {
            4int
        } else {
            0int
        }),
{
    let mut length: u16 = 4;
    if header_type & 4 != 0 {
        length += 4;
    }
    if header_type & 8 != 0 {
        length += 4;
    }
    if header_type & 16 != 0 {
        length += 4;
    }
    length
}

/// The length of all headers the type byte announces: the standard header
/// plus ten bytes when the extended-header flag is set.
pub fn calculate_all_headers_length(header_type: u8) -> (r: u16)
    ensures
        r == 4 + (if header_type & 4 != 0 {
            4int
        } else {
            0int
        }) + (if header_type & 8 != 0 {
            4int
        } else {
            0int
        }) + (if header_type & 16 != 0 {
            4int
        } else {
            0int
        }) + (if header_type & 1 != 0 {
            10int
        } else {
            0int
        }),
{
    let mut length = calculate_standard_header_length(header_type);
    if header_type & 1 != 0 {
        length += 10;
    }
    length
}

/// Compose the message-info nibble of a message type.
pub fn mtin_of(t: &MessageType) -> (r: u8)
    ensures
        r == spec_mtin(*t),
{
    match t {
        MessageType::Log(l) => match l {
            LogLevel::Fatal => 1,
            LogLevel::Error => 2,
            LogLevel::Warn => 3,
            LogLevel::Info => 4,
            LogLevel::Debug => 5,
            LogLevel::Verbose => 6,
            LogLevel::Invalid(v) => *v,
        },
        MessageType::ApplicationTrace(a) => match a {
            ApplicationTraceType::Variable => 1,
            ApplicationTraceType::FunctionIn => 2,
            ApplicationTraceType::FunctionOut => 3,
            ApplicationTraceType::State => 4,
            ApplicationTraceType::Vfb => 5,
            ApplicationTraceType::Invalid(n) => *n,
        },
        MessageType::NetworkTrace(n) => match n {
            NetworkTraceType::Invalid => 0,
            NetworkTraceType::Ipc => 1,
            NetworkTraceType::Can => 2,
            NetworkTraceType::Flexray => 3,
            NetworkTraceType::Most => 4,
            NetworkTraceType::Ethernet => 5,
            NetworkTraceType::Someip => 6,
            NetworkTraceType::UserDefined(v) => *v,
        },
        MessageType::Control(c) => c.value(),
        MessageType::Unknown(_mstp, mtin) => *mtin,
    }
}

/// Compose the message-type bits of a message type.
pub fn mstp_of(t: &MessageType) -> (r: u8)
    ensures
        r == spec_mstp(*t),
{
    match t {
        MessageType::Log(_) => 0,
        MessageType::ApplicationTrace(_) => 1,
        MessageType::NetworkTrace(_) => 2,
        MessageType::Control(_) => 3,
        MessageType::Unknown(mstp, _) => *mstp,
    }
}

impl ExtendedHeader {
    /// Wire image of this extended header.
    pub fn as_bytes(&self) -> (r: Vec<u8>)
        requires
            self@.wf(),
        ensures
            r@ == enc_extended_header(self@),
    {
        let mut buf: Vec<u8> = Vec::new();
        let mstp = mstp_of(&self.message_type);
        let mtin = mtin_of(&self.message_type);
        let vb: u8 = if self.verbose {
            1
        } else {
            0
        };
        let b0 = ((mstp & 7) << 1) | ((mtin & 0xf) << 4) | vb;
        buf.push(b0);
        buf.push(self.argument_count);
        assert(buf@ =~= seq![spec_msin_byte(self@), self@.argument_count]);
        put_id4(&mut buf, &self.application_id);
        put_id4(&mut buf, &self.context_id);
        proof {
            broadcast use lemma_bytes_add_assoc;

            assert(buf@ =~= enc_extended_header(self@));
        }
        buf
    }
}

/// Appending one argument to a sequence appends its encoding.
pub proof fn lemma_enc_args_snoc(e: Endianness, args: Seq<ArgumentV>, a: ArgumentV)
    ensures
        enc_args(e, args.push(a)) == enc_args(e, args) + enc_argument(e, a),
    decreases args.len(),
{
    if args.len() == 0 {
        let p = args.push(a);
        assert(p.skip(1) =~= Seq::<ArgumentV>::empty());
        assert(p[0] == a);
        assert(enc_args(e, p) == enc_argument(e, p[0]) + enc_args(e, p.skip(1)));
        assert(enc_args(e, p.skip(1)) == Seq::<u8>::empty());
        assert(enc_argument(e, a) + Seq::<u8>::empty() =~= enc_argument(e, a));
        assert(enc_args(e, args) == Seq::<u8>::empty());
        assert(Seq::<u8>::empty() + enc_argument(e, a) =~= enc_argument(e, a));
    } else {
        assert(args.push(a).skip(1) =~= args.skip(1).push(a));
        assert(args.push(a)[0] == args[0]);
        lemma_enc_args_snoc(e, args.skip(1), a);
        assert(enc_argument(e, args[0]) + (enc_args(e, args.skip(1)) + enc_argument(e, a)) =~= (
        enc_argument(e, args[0]) + enc_args(e, args.skip(1))) + enc_argument(e, a));
    }
}

impl Payload2 {
    /// Wire image of this payload in the given byte order.
    pub fn as_bytes(&self, e: Endianness) -> (r: Vec<u8>)
        requires
            payload_encodable(self@),
        ensures
            r@ == enc_payload(e, self@),
    {
        let mut buf: Vec<u8> = Vec::new();
        match &self.payload_content {
            PayloadContent::Verbose(args) => {
                let ghost views = Seq::new(args@.len(), |k: int| args@[k]@);
                proof {
                    assert(views =~= self@->Verbose_0);
                    assert(views.take(0) =~= Seq::<ArgumentV>::empty());
                    assert(enc_args(e, views.take(0)) == Seq::<u8>::empty());
                }
                let n = args.len();
                let mut i: usize = 0;
                while i < n
                    invariant
                        n == args@.len(),
                        i <= n,
                        views == Seq::new(args@.len(), |k: int| args@[k]@),
                        forall|j: int| 0 <= j < n ==> (#[trigger] views[j]).wf(),
                        buf@ == enc_args(e, views.take(i as int)),
                    decreases n - i,
                {
                    assert(args@[i as int]@ == views[i as int]);
                    put_argument(&mut buf, e, &args[i]);
                    proof {
                        lemma_enc_args_snoc(e, views.take(i as int), views[i as int]);
                        assert(views.take(i + 1) =~= views.take(i as int).push(views[i as int]));
                    }
                    i = i + 1;
                }
                proof {
                    assert(views.take(n as int) =~= views);
                }
            },
            PayloadContent::NonVerbose(id, data) => {
                put_u32(&mut buf, e, *id);
                buf.extend_from_slice(data.as_slice());
                assert(buf@ =~= enc_payload(e, self@));
            },
            PayloadContent::ControlMsg(ct, data) => {
                let v = ct.value();
                buf.push(v);
                buf.extend_from_slice(data.as_slice());
                assert(buf@ =~= enc_payload(e, self@));
            },
        }
        buf
    }
}

/// Every argument of a verbose payload is well formed (nothing is asked of
/// the other payload kinds).
pub open spec fn payload_encodable(p: PayloadContentV) -> bool {
    match p {
        PayloadContentV::Verbose(args) => forall|i: int|
            0 <= i < args.len() ==> (#[trigger] args[i]).wf(),
        _ => true,
    }
}

impl Message {
    /// Wire image of the whole message: optional storage header, standard
    /// header, optional extended header, payload.
    pub fn as_bytes(&self) -> (r: Vec<u8>)
        requires
            self@.wf(),
        ensures
            r@ == enc_message(self@),
    {
        broadcast use lemma_bytes_add_assoc;

        let mut buf: Vec<u8> = Vec::new();
        match &self.storage_header {
            Some(sh) => {
                let shb = sh.as_bytes();
                buf.extend_from_slice(shb.as_slice());
            },
            None => {},
        }
        let hb = self.header.header_as_bytes();
        buf.extend_from_slice(hb.as_slice());
        match &self.extended_header {
            Some(x) => {
                proof {
                    lemma_wf_payload_encodable(self@);
                }
                let xb = x.as_bytes();
                buf.extend_from_slice(xb.as_slice());
            },
            None => {},
        }
        proof {
            lemma_wf_payload_encodable(self@);
        }
        let pb = self.payload.as_bytes(self.header.endianness);
        buf.extend_from_slice(pb.as_slice());
        proof {
            assert(buf@ =~= enc_message(self@));
        }
        buf
    }
}

/// A well-formed message's payload is encodable.
pub proof fn lemma_wf_payload_encodable(m: MessageV)
    requires
        m.wf(),
    ensures
        payload_encodable(m.payload),
{
}

/// Configuration of an extended header handed to the assembler.
#[derive(Debug, Clone, PartialEq)]
pub struct ExtendedHeaderConfig {
    pub message_type: MessageType,
    pub app_id: Vec<u8>,
    pub context_id: Vec<u8>,
}

/// Configuration of a whole message handed to the assembler.
#[derive(Debug, Clone, PartialEq)]
pub struct MessageConfig {
    pub version: u8,
    pub counter: u8,
    pub endianness: Endianness,
    pub ecu_id: Option<Vec<u8>>,
    pub session_id: Option<u32>,
    pub timestamp: Option<u32>,
    pub payload: Payload2,
    pub extended_header_info: Option<ExtendedHeaderConfig>,
}

/// The payload kind a configuration carries fits its extended-header
/// choice, so that the assembled message is well formed: verbose payloads
/// need an extended header, control payloads a control message type, and
/// every identifier and argument is in wire shape.
pub open spec fn config_wf(c: MessageConfig) -> bool {
    &&& c.version <= 7
    &&& match c.ecu_id {
        Some(ref id) => id_wf(id@, 4),
        None => true,
    }
    &&& match c.extended_header_info {
        Some(ref x) => message_type_wf(x.message_type) && id_wf(x.app_id@, 4) && id_wf(
            x.context_id@,
            4,
        ),
        None => true,
    }
    &&& match c.payload@ {
        PayloadContentV::Verbose(args) => {
            &&& c.extended_header_info is Some
            &&& args.len() <= 255
            &&& forall|i: int| 0 <= i < args.len() ==> (#[trigger] args[i]).wf()
        },
        PayloadContentV::NonVerbose(_id, _data) => match c.extended_header_info {
            Some(ref x) => !(x.message_type is Control),
            None => true,
        },
        PayloadContentV::ControlMsg(ct, _data) => {
            &&& c.extended_header_info is Some
            &&& c.extended_header_info->Some_0.message_type is Control
            &&& ct.wf()
        },
    }
}

impl Message {
    /// Assemble a message from its configuration: the payload length is
    /// measured from the payload's own encoding, and the extended header's
    /// verbose flag and argument count mirror the payload.
    pub fn new(
        conf: MessageConfig,
        fibex: Option<Rc<FibexMetadata>>,
        storage_header: Option<StorageHeader>,
    ) -> (r: Message)
        requires
            config_wf(conf),
            match storage_header {
                Some(ref sh) => sh@.wf(),
                None => true,
            },
            26 + enc_payload(conf.endianness, conf.payload@).len() <= 0xFFFF,
        ensures
            r@.wf(),
            r@.header.endianness == conf.endianness,
            r@.header.version == conf.version,
            r@.header.message_counter == conf.counter,
            r@.header.ecu_id == match conf.ecu_id {
                Some(id) => Some(id@),
                None => None::<Seq<u8>>,
            },
            r@.header.session_id == conf.session_id,
            r@.header.timestamp == conf.timestamp,
            r@.payload == conf.payload@,
            r@.header.payload_length == enc_payload(conf.endianness, conf.payload@).len(),
            r@.storage_header == match storage_header {
                Some(ref sh) => Some(sh@),
                None => None::<StorageHeaderV>,
            },
            match conf.extended_header_info {
                Some(x) => r@.extended_header matches Some(ext) && ext.message_type
                    == x.message_type && ext.application_id == x.app_id@ && ext.context_id
                    == x.context_id@ && ext.verbose == (conf.payload@ is Verbose)
                    && ext.argument_count == conf.payload@.spec_arg_count(),
                None => r@.extended_header is None,
            },
    {
        proof {
            lemma_config_payload_encodable(conf);
        }
        let payload_bytes = conf.payload.as_bytes(conf.endianness);
        let payload_length = payload_bytes.len() as u16;
        let extended_header: Option<ExtendedHeader> = match conf.extended_header_info {
            Some(ext_info) => Some(
                ExtendedHeader {
                    verbose: conf.payload.is_verbose(),
                    argument_count: conf.payload.arg_count(),
                    message_type: ext_info.message_type,
                    application_id: ext_info.app_id,
                    context_id: ext_info.context_id,
                },
            ),
            None => None,
        };
        let msg = Message {
            header: StandardHeader {
                version: conf.version,
                endianness: conf.endianness,
                message_counter: conf.counter,
                ecu_id: conf.ecu_id,
                session_id: conf.session_id,
                timestamp: conf.timestamp,
                has_extended_header: extended_header.is_some(),
                payload_length,
            },
            extended_header,
            payload: conf.payload,
            fibex_metadata: fibex,
            storage_header,
        };
        proof {
            assert(msg@.header.spec_overall_len() <= 26 + enc_payload(
                conf.endianness,
                conf.payload@,
            ).len());
        }
        msg
    }
}

/// A well-formed configuration's payload is encodable.
pub proof fn lemma_config_payload_encodable(c: MessageConfig)
    requires
        config_wf(c),
    ensures
        payload_encodable(c.payload@),
{
}

/// The overall-length field counts exactly the bytes that follow the
/// storage header: the encoded message is the storage header plus
/// overall-length bytes long.
pub proof fn lemma_overall_length_is_encoded_length(m: MessageV)
    requires
        m.wf(),
    ensures
        enc_message(m).len() == (match m.storage_header {
            Some(_sh) => 16int,
            None => 0int,
        }) + m.header.spec_overall_len(),
{
    lemma_u16_rt(Endianness::Big, m.header.spec_overall_len() as u16, Seq::empty());
    match m.storage_header {
        Some(sh) => {
            lemma_u32_rt(Endianness::Little, sh.timestamp.seconds, Seq::empty());
            lemma_u32_rt(Endianness::Little, sh.timestamp.microseconds, Seq::empty());
        },
        None => {},
    }
    match m.header.ecu_id {
        Some(_id) => {},
        None => {},
    }
    match m.header.session_id {
        Some(sid) => {
            lemma_u32_rt(Endianness::Big, sid, Seq::empty());
        },
        None => {},
    }
    match m.header.timestamp {
        Some(t) => {
            lemma_u32_rt(Endianness::Big, t, Seq::empty());
        },
        None => {},
    }
}

/// The header-type byte survives a round trip: recomposing it from the
/// flags and version it announces gives the byte back.
pub proof fn lemma_header_type_byte_round_trip(b: u8)
    ensures
        spec_header_type_byte(
            StandardHeaderV {
                version: (b >> 5) & 7,
                endianness: if b & 2 != 0 {
                    Endianness::Big
                } else {
                    Endianness::Little
                },
                has_extended_header: b & 1 != 0,
                message_counter: 0,
                ecu_id: if b & 4 != 0 {
                    Some(Seq::<u8>::empty())
                } else {
                    None
                },
                session_id: if b & 8 != 0 {
                    Some(0u32)
                } else {
                    None
                },
                timestamp: if b & 16 != 0 {
                    Some(0u32)
                } else {
                    None
                },
                payload_length: 0,
            },
        ) == b,
{
    let e: u8 = if b & 1 != 0 {
        1
    } else {
        0
    };
    let bg: u8 = if b & 2 != 0 {
        2
    } else {
        0
    };
    let ec: u8 = if b & 4 != 0 {
        4
    } else {
        0
    };
    let se: u8 = if b & 8 != 0 {
        8
    } else {
        0
    };
    let ts: u8 = if b & 16 != 0 {
        16
    } else {
        0
    };
    let v: u8 = (b >> 5) & 7;
    assert(((if b & 1 != 0 { 1u8 } else { 0u8 }) | (if b & 2 != 0 { 2u8 } else { 0u8 }) | (
    if b & 4 != 0 {
        4u8
    } else {
        0u8
    }) | (if b & 8 != 0 { 8u8 } else { 0u8 }) | (if b & 16 != 0 { 16u8 } else { 0u8 }) | ((((b
        >> 5) & 7) & 7) << 5)) == b) by (bit_vector);
}

// ---------------------------------------------------------------------
// Spec-level decoding of whole messages.
// ---------------------------------------------------------------------

use vstd::utf8::valid_utf8;

/// Read a storage header at `pos`.
pub open spec fn sd_storage_header(b: Seq<u8>, pos: int) -> Result<(StorageHeaderV, int),
    DecodeError,
> {
    if pos + 16 > b.len() {
        Err(DecodeError::Incomplete)
    } else if b.subrange(pos, pos + 4) != storage_magic() {
        Err(DecodeError::InvalidHeader)
    } else {
        let secs = dec_u32(Endianness::Little, b.subrange(pos + 4, pos + 8));
        let micros = dec_u32(Endianness::Little, b.subrange(pos + 8, pos + 12));
        let ecu = trim_at_nul(b.subrange(pos + 12, pos + 16));
        if !valid_utf8(ecu) {
            Err(DecodeError::InvalidHeader)
        } else {
            Ok(
                (
                    StorageHeaderV {
                        timestamp: DltTimeStamp { seconds: secs, microseconds: micros },
                        ecu_id: ecu,
                    },
                    pos + 16,
                ),
            )
        }
    }
}

/// The message type a message-type/message-info bit pair announces; every
/// pair decodes to something.
pub open spec fn spec_mt_of(mstp: u8, mtin: u8) -> MessageType {
    if mstp == 0 {
        MessageType::Log(
            if mtin == 1 {
                LogLevel::Fatal
            } else if mtin == 2 {
                LogLevel::Error
            } else if mtin == 3 {
                LogLevel::Warn
            } else if mtin == 4 {
                LogLevel::Info
            } else if mtin == 5 {
                LogLevel::Debug
            } else if mtin == 6 {
                LogLevel::Verbose
            } else {
                LogLevel::Invalid(mtin)
            },
        )
    } else if mstp == 1 {
        MessageType::ApplicationTrace(
            if mtin == 1 {
                ApplicationTraceType::Variable
            } else if mtin == 2 {
                ApplicationTraceType::FunctionIn
            } else if mtin == 3 {
                ApplicationTraceType::FunctionOut
            } else if mtin == 4 {
                ApplicationTraceType::State
            } else if mtin == 5 {
                ApplicationTraceType::Vfb
            } else {
                ApplicationTraceType::Invalid(mtin)
            },
        )
    } else if mstp == 2 {
        MessageType::NetworkTrace(
            if mtin == 0 {
                NetworkTraceType::Invalid
            } else if mtin == 1 {
                NetworkTraceType::Ipc
            } else if mtin == 2 {
                NetworkTraceType::Can
            } else if mtin == 3 {
                NetworkTraceType::Flexray
            } else if mtin == 4 {
                NetworkTraceType::Most
            } else if mtin == 5 {
                NetworkTraceType::Ethernet
            } else if mtin == 6 {
                NetworkTraceType::Someip
            } else {
                NetworkTraceType::UserDefined(mtin)
            },
        )
    } else if mstp == 3 {
        MessageType::Control(ControlType::spec_from_value(mtin))
    } else {
        MessageType::Unknown(mstp, mtin)
    }
}

/// A well-formed message type decodes back from its own bit pair.
pub proof fn lemma_mt_round_trip(t: MessageType)
    requires
        message_type_wf(t),
    ensures
        spec_mt_of(spec_mstp(t), spec_mtin(t)) == t,
{
}

/// Read an extended header at `pos` (ten bytes).
pub open spec fn sd_extended_header(b: Seq<u8>, pos: int) -> Result<(ExtendedHeaderV, int),
    DecodeError,
> {
    if pos + 10 > b.len() {
        Err(DecodeError::Incomplete)
    } else {
        let b0 = b[pos];
        let app = trim_at_nul(b.subrange(pos + 2, pos + 6));
        let ctx = trim_at_nul(b.subrange(pos + 6, pos + 10));
        if !valid_utf8(app) || !valid_utf8(ctx) {
            Err(DecodeError::InvalidHeader)
        } else {
            Ok(
                (
                    ExtendedHeaderV {
                        verbose: b0 & 1 != 0,
                        argument_count: b[pos + 1],
                        message_type: spec_mt_of((b0 >> 1) & 7, (b0 >> 4) & 0xf),
                        application_id: app,
                        context_id: ctx,
                    },
                    pos + 10,
                ),
            )
        }
    }
}

/// Read `count` verbose arguments one after the other.
pub open spec fn sd_args(e: Endianness, b: Seq<u8>, pos: int, count: nat) -> Result<
    (Seq<ArgumentV>, int),
    DecodeError,
>
    decreases count,
{
    if count == 0 {
        Ok((Seq::empty(), pos))
    } else {
        match sd_argument(e, b, pos) {
            Err(er) => Err(er),
            Ok((a, p2)) => match sd_args(e, b, p2, (count - 1) as nat) {
                Err(er) => Err(er),
                Ok((rest, p3)) => Ok((seq![a] + rest, p3)),
            },
        }
    }
}

/// Read one whole message from the front of `b`: optional storage header,
/// standard header, optional extended header, then the payload, cut to the
/// length the standard header announces.
pub open spec fn sd_message(b: Seq<u8>, with_storage: bool) -> Result<(MessageV, int),
    DecodeError,
> {
    let st: Result<(Option<StorageHeaderV>, int), DecodeError> = if with_storage {
        match sd_storage_header(b, 0) {
            Ok((sh, p)) => Ok((Some(sh), p)),
            Err(er) => Err(er),
        }
    } else {
        Ok((None, 0))
    };
    match st {
        Err(er) => Err(er),
        Ok((sh, p)) => {
            if p + 4 > b.len() {
                Err(DecodeError::Incomplete)
            } else {
                let tb = b[p];
                let has_ext = tb & 1 != 0;
                let endianness = if tb & 2 != 0 {
                    Endianness::Big
                } else {
                    Endianness::Little
                };
                let has_ecu = tb & 4 != 0;
                let has_sess = tb & 8 != 0;
                let has_ts = tb & 16 != 0;
                let version = (tb >> 5) & 7;
                let counter = b[p + 1];
                let overall = dec_u16(Endianness::Big, b.subrange(p + 2, p + 4)) as int;
                let hl: int = 4 + (if has_ecu {
                    4int
                } else {
                    0int
                }) + (if has_sess {
                    4int
                } else {
                    0int
                }) + (if has_ts {
                    4int
                } else {
                    0int
                });
                let hx: int = hl + (if has_ext {
                    10int
                } else {
                    0int
                });
                if overall < hx {
                    Err(DecodeError::InvalidHeader)
                } else if p + overall > b.len() {
                    Err(DecodeError::Incomplete)
                } else {
                    let q0 = p + 4;
                    let ecu: Option<Seq<u8>> = if has_ecu {
                        Some(trim_at_nul(b.subrange(q0, q0 + 4)))
                    } else {
                        None
                    };
                    let q1 = q0 + (if has_ecu {
                        4int
                    } else {
                        0int
                    });
                    let sess: Option<u32> = if has_sess {
                        Some(dec_u32(Endianness::Big, b.subrange(q1, q1 + 4)))
                    } else {
                        None
                    };
                    let q2 = q1 + (if has_sess {
                        4int
                    } else {
                        0int
                    });
                    let ts: Option<u32> = if has_ts {
                        Some(dec_u32(Endianness::Big, b.subrange(q2, q2 + 4)))
                    } else {
                        None
                    };
                    let ecu_utf8_ok = match ecu {
                        Some(id) => valid_utf8(id),
                        None => true,
                    };
                    if !ecu_utf8_ok {
                        Err(DecodeError::InvalidHeader)
                    } else {
                        let hdr = StandardHeaderV {
                            version,
                            endianness,
                            has_extended_header: has_ext,
                            message_counter: counter,
                            ecu_id: ecu,
                            session_id: sess,
                            timestamp: ts,
                            payload_length: (overall - hx) as u16,
                        };
                        let extr: Result<Option<ExtendedHeaderV>, DecodeError> = if has_ext {
                            match sd_extended_header(b, p + hl) {
                                Ok((x, _px)) => Ok(Some(x)),
                                Err(er) => Err(er),
                            }
                        } else {
                            Ok(None)
                        };
                        match extr {
                            Err(er) => Err(er),
                            Ok(ext) => {
                                let pay = b.subrange(p + hx, p + overall);
                                let pl = overall - hx;
                                let payr: Result<PayloadContentV, DecodeError> = match ext {
                                    Some(x) => if x.verbose {
                                        match sd_args(endianness, pay, 0, x.argument_count as nat) {
                                            Ok((args, _pend)) => Ok(PayloadContentV::Verbose(args)),
                                            Err(er) => Err(er),
                                        }
                                    } else if x.message_type is Control {
                                        if pl < 1 {
                                            Err(DecodeError::InvalidHeader)
                                        } else {
                                            Ok(
                                                PayloadContentV::ControlMsg(
                                                    ControlType::spec_from_value(pay[0]),
                                                    pay.skip(1),
                                                ),
                                            )
                                        }
                                    } else {
                                        if pl < 4 {
                                            Err(DecodeError::InvalidHeader)
                                        } else {
                                            Ok(
                                                PayloadContentV::NonVerbose(
                                                    dec_u32(endianness, pay.subrange(0, 4)),
                                                    pay.skip(4),
                                                ),
                                            )
                                        }
                                    },
                                    None => if pl < 4 {
                                        Err(DecodeError::InvalidHeader)
                                    } else {
                                        Ok(
                                            PayloadContentV::NonVerbose(
                                                dec_u32(endianness, pay.subrange(0, 4)),
                                                pay.skip(4),
                                            ),
                                        )
                                    },
                                };
                                match payr {
                                    Err(er) => Err(er),
                                    Ok(payload) => Ok(
                                        (
                                            MessageV {
                                                storage_header: sh,
                                                header: hdr,
                                                extended_header: ext,
                                                payload,
                                            },
                                            p + overall,
                                        ),
                                    ),
                                }
                            },
                        }
                    }
                }
            }
        },
    }
}

// ---------------------------------------------------------------------
// Round trip of whole messages.
// ---------------------------------------------------------------------

/// How the flag bits of a composed header-type byte read back out.
proof fn lemma_type_byte_fields(e: u8, bg: u8, ec: u8, se: u8, ts: u8, ver: u8)
    requires
        e == 0 || e == 1,
        bg == 0 || bg == 2,
        ec == 0 || ec == 4,
        se == 0 || se == 8,
        ts == 0 || ts == 16,
        ver <= 7,
    ensures
        ((e | bg | ec | se | ts | (ver << 5)) & 1 != 0) == (e != 0),
        ((e | bg | ec | se | ts | (ver << 5)) & 2 != 0) == (bg != 0),
        ((e | bg | ec | se | ts | (ver << 5)) & 4 != 0) == (ec != 0),
        ((e | bg | ec | se | ts | (ver << 5)) & 8 != 0) == (se != 0),
        ((e | bg | ec | se | ts | (ver << 5)) & 16 != 0) == (ts != 0),
        ((e | bg | ec | se | ts | (ver << 5)) >> 5) & 7 == ver,
{
    assert(((e | bg | ec | se | ts | (ver << 5)) & 1 != 0) == (e != 0) && ((e | bg | ec | se | ts
        | (ver << 5)) & 2 != 0) == (bg != 0) && ((e | bg | ec | se | ts | (ver << 5)) & 4 != 0) == (
    ec != 0) && ((e | bg | ec | se | ts | (ver << 5)) & 8 != 0) == (se != 0) && ((e | bg | ec | se
        | ts | (ver << 5)) & 16 != 0) == (ts != 0) && ((e | bg | ec | se | ts | (ver << 5)) >> 5)
        & 7 == ver) by (bit_vector)
        requires
            e == 0 || e == 1,
            bg == 0 || bg == 2,
            ec == 0 || ec == 4,
            se == 0 || se == 8,
            ts == 0 || ts == 16,
            ver <= 7,
    ;
}

/// How the fields of a composed extended-header first byte read back out.
proof fn lemma_msin_fields(mstp: u8, mtin: u8, vb: u8)
    requires
        mstp <= 7,
        mtin <= 15,
        vb == 0 || vb == 1,
    ensures
        ((((mstp & 7) << 1) | ((mtin & 0xf) << 4) | vb) & 1 != 0) == (vb == 1),
        ((((mstp & 7) << 1) | ((mtin & 0xf) << 4) | vb) >> 1) & 7 == mstp,
        ((((mstp & 7) << 1) | ((mtin & 0xf) << 4) | vb) >> 4) & 0xf == mtin,
{
    assert(((((mstp & 7) << 1) | ((mtin & 0xf) << 4) | vb) & 1 != 0) == (vb == 1) && ((((mstp & 7)
        << 1) | ((mtin & 0xf) << 4) | vb) >> 1) & 7 == mstp && ((((mstp & 7) << 1) | ((mtin & 0xf)
        << 4) | vb) >> 4) & 0xf == mtin) by (bit_vector)
        requires
            mstp <= 7,
            mtin <= 15,
            vb == 0 || vb == 1,
    ;
}

/// A well-formed control type decodes back from its own service value.
pub proof fn lemma_control_type_round_trip(ct: ControlType)
    requires
        ct.wf(),
    ensures
        ControlType::spec_from_value(ct.spec_value()) == ct,
{
}

/// Reading back a storage header gives the header that was written.
proof fn lemma_storage_rt(sh: StorageHeaderV, b: Seq<u8>, pos: int)
    requires
        sh.wf(),
        0 <= pos,
        pos + 16 <= b.len(),
        b.subrange(pos, pos + 16) == enc_storage_header(sh),
    ensures
        sd_storage_header(b, pos) == Ok::<(StorageHeaderV, int), DecodeError>((sh, pos + 16)),
{
    broadcast use lemma_bytes_add_assoc;

    let enc = enc_storage_header(sh);
    let sb = enc_u32(Endianness::Little, sh.timestamp.seconds);
    let mb = enc_u32(Endianness::Little, sh.timestamp.microseconds);
    let eb = enc_id4(sh.ecu_id);
    lemma_u32_rt(Endianness::Little, sh.timestamp.seconds, Seq::empty());
    lemma_u32_rt(Endianness::Little, sh.timestamp.microseconds, Seq::empty());
    lemma_trim_pad_id(sh.ecu_id);
    assert(enc =~= storage_magic() + (sb + mb + eb));
    lemma_peel(b, pos, storage_magic(), sb + mb + eb);
    assert(sb + mb + eb =~= sb + (mb + eb));
    lemma_peel(b, pos + 4, sb, mb + eb);
    lemma_peel(b, pos + 8, mb, eb);
    assert(b.subrange(pos + 12, pos + 16) == eb);
}

/// Reading back an extended header gives the header that was written.
proof fn lemma_ext_rt(x: ExtendedHeaderV, b: Seq<u8>, pos: int)
    requires
        x.wf(),
        0 <= pos,
        pos + 10 <= b.len(),
        b.subrange(pos, pos + 10) == enc_extended_header(x),
    ensures
        sd_extended_header(b, pos) == Ok::<(ExtendedHeaderV, int), DecodeError>((x, pos + 10)),
{
    broadcast use lemma_bytes_add_assoc;

    let enc = enc_extended_header(x);
    let head = seq![spec_msin_byte(x), x.argument_count];
    let ab = enc_id4(x.application_id);
    let cb = enc_id4(x.context_id);
    lemma_trim_pad_id(x.application_id);
    lemma_trim_pad_id(x.context_id);
    assert(enc =~= head + (ab + cb));
    lemma_peel(b, pos, head, ab + cb);
    lemma_peel(b, pos + 2, ab, cb);
    assert(b[pos] == head[0]);
    assert(b[pos + 1] == head[1]);
    let vb: u8 = if x.verbose {
        1
    } else {
        0
    };
    let mstp_v = spec_mstp(x.message_type);
    let mtin_v = spec_mtin(x.message_type);
    lemma_msin_fields(mstp_v, mtin_v, vb);
    assert((mstp_v & 7) == mstp_v) by (bit_vector)
        requires
            mstp_v <= 7,
    ;
    assert((mtin_v & 0xf) == mtin_v) by (bit_vector)
        requires
            mtin_v <= 15,
    ;
    lemma_mt_round_trip(x.message_type);
}

/// Reading back an argument sequence gives every argument in order.
proof fn lemma_args_rt(e: Endianness, args: Seq<ArgumentV>, b: Seq<u8>, pos: int)
    requires
        forall|i: int| 0 <= i < args.len() ==> (#[trigger] args[i]).wf(),
        0 <= pos,
        pos + enc_args(e, args).len() <= b.len(),
        b.subrange(pos, pos + enc_args(e, args).len()) == enc_args(e, args),
    ensures
        sd_args(e, b, pos, args.len()) == Ok::<(Seq<ArgumentV>, int), DecodeError>(
            (args, pos + enc_args(e, args).len()),
        ),
    decreases args.len(),
{
    broadcast use lemma_bytes_add_assoc;

    if args.len() == 0 {
        assert(args =~= Seq::<ArgumentV>::empty());
    } else {
        let a0 = args[0];
        let rest = args.skip(1);
        let e0 = enc_argument(e, a0);
        let er = enc_args(e, rest);
        assert(enc_args(e, args) == e0 + er);
        lemma_peel(b, pos, e0, er);
        crate::argcodec::lemma_argument_rt(e, a0, b, pos);
        assert(forall|i: int| 0 <= i < rest.len() ==> (#[trigger] rest[i]).wf()) by {
            assert(forall|i: int|
                0 <= i < rest.len() ==> rest[i] == #[trigger] args[i + 1]);
        }
        lemma_args_rt(e, rest, b, pos + e0.len());
        assert(seq![a0] + rest =~= args);
    }
}

/// The common header part of the message round trip: at the positions the
/// decoder reads, the encoded message holds exactly the storage header,
/// type byte, counter, overall length, optional fields, extended header
/// and payload slice of the message.
#[verifier::rlimit(100)]
#[verifier::spinoff_prover]
proof fn lemma_message_rt_header(m: MessageV)
    requires
        m.wf(),
    ensures
        ({
            let b = enc_message(m);
            let h = m.header;
            let p: int = if m.storage_header is Some {
                16
            } else {
                0
            };
            let tb = spec_header_type_byte(h);
            let pp = p + h.spec_header_len() + (if h.has_extended_header {
                10int
            } else {
                0int
            });
            &&& b.len() == p + h.spec_overall_len()
            &&& match m.storage_header {
                Some(sh) => sd_storage_header(b, 0) == Ok::<(StorageHeaderV, int), DecodeError>(
                    (sh, 16),
                ),
                None => true,
            }
            &&& b[p] == tb
            &&& (tb & 1 != 0) == h.has_extended_header
            &&& (tb & 2 != 0) == (h.endianness is Big)
            &&& (tb & 4 != 0) == (h.ecu_id is Some)
            &&& (tb & 8 != 0) == (h.session_id is Some)
            &&& (tb & 16 != 0) == (h.timestamp is Some)
            &&& (tb >> 5) & 7 == h.version
            &&& b[p + 1] == h.message_counter
            &&& dec_u16(Endianness::Big, b.subrange(p + 2, p + 4)) == h.spec_overall_len() as u16
            &&& match h.ecu_id {
                Some(id) => trim_at_nul(b.subrange(p + 4, p + 8)) == id,
                None => true,
            }
            &&& match h.session_id {
                Some(sid) => dec_u32(
                    Endianness::Big,
                    b.subrange(
                        p + 4 + (if h.ecu_id is Some {
                            4int
                        } else {
                            0int
                        }),
                        p + 8 + (if h.ecu_id is Some {
                            4int
                        } else {
                            0int
                        }),
                    ),
                ) == sid,
                None => true,
            }
            &&& match h.timestamp {
                Some(t) => dec_u32(
                    Endianness::Big,
                    b.subrange(p + h.spec_header_len() - 4, p + h.spec_header_len()),
                ) == t,
                None => true,
            }
            &&& match m.extended_header {
                Some(x) => sd_extended_header(b, p + h.spec_header_len()) == Ok::<
                    (ExtendedHeaderV, int),
                    DecodeError,
                >((x, p + h.spec_header_len() + 10)),
                None => true,
            }
            &&& b.subrange(pp, p + h.spec_overall_len()) == enc_payload(h.endianness, m.payload)
        }),
{
    let b = enc_message(m);
    let h = m.header;
    lemma_overall_length_is_encoded_length(m);
    assert(b.subrange(0, b.len() as int) =~= b);
    let shb: Seq<u8> = match m.storage_header {
        Some(sh) => enc_storage_header(sh),
        None => Seq::empty(),
    };
    let hb = enc_standard_header(h);
    let xb: Seq<u8> = match m.extended_header {
        Some(x) => enc_extended_header(x),
        None => Seq::empty(),
    };
    let pb = enc_payload(h.endianness, m.payload);
    // lengths of the header pieces
    lemma_u16_rt(Endianness::Big, h.spec_overall_len() as u16, Seq::empty());
    let seg_ecu: Seq<u8> = match h.ecu_id {
        Some(id) => enc_id4(id),
        None => Seq::empty(),
    };
    let seg_sess: Seq<u8> = match h.session_id {
        Some(sid) => enc_u32(Endianness::Big, sid),
        None => Seq::empty(),
    };
    let seg_ts: Seq<u8> = match h.timestamp {
        Some(t) => enc_u32(Endianness::Big, t),
        None => Seq::empty(),
    };
    match h.session_id {
        Some(sid) => {
            lemma_u32_rt(Endianness::Big, sid, Seq::empty());
        },
        None => {},
    }
    match h.timestamp {
        Some(t) => {
            lemma_u32_rt(Endianness::Big, t, Seq::empty());
        },
        None => {},
    }
    match h.ecu_id {
        Some(id) => {
            lemma_trim_pad_id(id);
        },
        None => {},
    }
    // peel the four big segments
    assert(b =~= shb + (hb + xb + pb));
    lemma_peel(b, 0, shb, hb + xb + pb);
    assert(hb + xb + pb =~= hb + (xb + pb));
    let p = shb.len() as int;
    lemma_peel(b, p, hb, xb + pb);
    lemma_peel(b, p + hb.len(), xb, pb);
    match m.storage_header {
        Some(sh) => {
            lemma_storage_rt(sh, b, 0);
        },
        None => {},
    }
    // peel the standard header fields
    let head2 = seq![spec_header_type_byte(h), h.message_counter];
    let lenb = enc_u16(Endianness::Big, h.spec_overall_len() as u16);
    assert(hb =~= head2 + (lenb + (seg_ecu + (seg_sess + seg_ts))));
    lemma_peel(b, p, head2, lenb + (seg_ecu + (seg_sess + seg_ts)));
    lemma_peel(b, p + 2, lenb, seg_ecu + (seg_sess + seg_ts));
    lemma_peel(b, p + 4, seg_ecu, seg_sess + seg_ts);
    lemma_peel(b, p + 4 + seg_ecu.len(), seg_sess, seg_ts);
    assert(b[p] == head2[0]);
    assert(b[p + 1] == head2[1]);
    // the flag bits read back out
    let e_: u8 = if h.has_extended_header {
        1
    } else {
        0
    };
    let bg_: u8 = if h.endianness is Big {
        2
    } else {
        0
    };
    let ec_: u8 = if h.ecu_id is Some {
        4
    } else {
        0
    };
    let se_: u8 = if h.session_id is Some {
        8
    } else {
        0
    };
    let ts_: u8 = if h.timestamp is Some {
        16
    } else {
        0
    };
    let ver_v = h.version;
    lemma_type_byte_fields(e_, bg_, ec_, se_, ts_, ver_v);
    assert((ver_v & 7) == ver_v) by (bit_vector)
        requires
            ver_v <= 7,
    ;
    let q3 = p + h.spec_header_len();
    match m.extended_header {
        Some(x) => {
            lemma_ext_rt(x, b, q3);
        },
        None => {},
    }
    // the payload slice is exactly the payload encoding
    let pp = p + h.spec_header_len() + (if h.has_extended_header {
        10int
    } else {
        0int
    });
    assert(b.subrange(pp, pp + pb.len()) == pb);
    assert(pp + pb.len() == p + h.spec_overall_len());
}

/// Round trip of a whole message whose payload is verbose.
#[verifier::rlimit(100)]
#[verifier::spinoff_prover]
proof fn lemma_message_rt_verbose(m: MessageV)
    requires
        m.wf(),
        m.payload is Verbose,
    ensures
        sd_message(enc_message(m), m.storage_header is Some) == Ok::<(MessageV, int), DecodeError>(
            (m, enc_message(m).len() as int),
        ),
{
    lemma_message_rt_header(m);
    let b = enc_message(m);
    let h = m.header;
    let pb = enc_payload(h.endianness, m.payload);
    match m.payload {
        PayloadContentV::Verbose(args) => {
            assert(pb.subrange(0, pb.len() as int) =~= pb);
            lemma_args_rt(h.endianness, args, pb, 0);
        },
        _ => {},
    }
}

/// Round trip of a whole message whose payload is nonverbose.
#[verifier::rlimit(100)]
#[verifier::spinoff_prover]
proof fn lemma_message_rt_nonverbose(m: MessageV)
    requires
        m.wf(),
        m.payload is NonVerbose,
    ensures
        sd_message(enc_message(m), m.storage_header is Some) == Ok::<(MessageV, int), DecodeError>(
            (m, enc_message(m).len() as int),
        ),
{
    lemma_message_rt_header(m);
    let h = m.header;
    let pb = enc_payload(h.endianness, m.payload);
    match m.payload {
        PayloadContentV::NonVerbose(id, data) => {
            let idb = enc_u32(h.endianness, id);
            lemma_u32_rt(h.endianness, id, Seq::empty());
            assert(pb =~= idb + data);
            assert(pb.subrange(0, pb.len() as int) =~= pb);
            lemma_peel(pb, 0, idb, data);
            assert(pb.subrange(0, 4) == idb);
            assert(pb.skip(4) =~= data);
        },
        _ => {},
    }
}

/// Round trip of a whole message whose payload is control.
#[verifier::rlimit(100)]
#[verifier::spinoff_prover]
proof fn lemma_message_rt_control(m: MessageV)
    requires
        m.wf(),
        m.payload is ControlMsg,
    ensures
        sd_message(enc_message(m), m.storage_header is Some) == Ok::<(MessageV, int), DecodeError>(
            (m, enc_message(m).len() as int),
        ),
{
    lemma_message_rt_header(m);
    let h = m.header;
    let pb = enc_payload(h.endianness, m.payload);
    match m.payload {
        PayloadContentV::ControlMsg(ct, data) => {
            lemma_control_type_round_trip(ct);
            assert(pb[0] == ct.spec_value());
            assert(pb.skip(1) =~= data);
        },
        _ => {},
    }
}

/// Round trip of a whole message (the first law of the codec): a
/// well-formed message, encoded with or without its storage header,
/// decodes back to itself, every byte accounted for, in both byte orders.
pub proof fn lemma_message_round_trip(m: MessageV)
    requires
        m.wf(),
    ensures
        sd_message(enc_message(m), m.storage_header is Some) == Ok::<(MessageV, int), DecodeError>(
            (m, enc_message(m).len() as int),
        ),
{
    match m.payload {
        PayloadContentV::Verbose(_args) => lemma_message_rt_verbose(m),
        PayloadContentV::NonVerbose(_id, _data) => lemma_message_rt_nonverbose(m),
        PayloadContentV::ControlMsg(_ct, _data) => lemma_message_rt_control(m),
    }
}

// ---------------------------------------------------------------------
// Executable decoding.
// ---------------------------------------------------------------------

/// Read `count` verbose arguments one after the other.
pub fn get_args(b: &[u8], pos: usize, count: u8, e: Endianness) -> (r: Result<
    (Vec<Argument>, usize),
    DecodeError,
>)
    requires
        pos <= b@.len(),
    ensures
        match r {
            Ok((args, p)) => sd_args(e, b@, pos as int, count as nat) == Ok::<
                (Seq<ArgumentV>, int),
                DecodeError,
            >((Seq::new(args@.len(), |i: int| args@[i]@), p as int)) && pos <= p <= b@.len(),
            Err(er) => sd_args(e, b@, pos as int, count as nat) == Err::<
                (Seq<ArgumentV>, int),
                DecodeError,
            >(er),
        },
    decreases count,
{
    if count == 0 {
        let empty: Vec<Argument> = Vec::new();
        proof {
            assert(Seq::new(0, |i: int| empty@[i]@) =~= Seq::<ArgumentV>::empty());
        }
        return Ok((empty, pos));
    }
    let (a, p2) = match get_argument(b, pos, e) {
        Ok(x) => x,
        Err(er) => {
            return Err(er);
        },
    };
    let (mut rest, p3) = match get_args(b, p2, count - 1, e) {
        Ok(x) => x,
        Err(er) => {
            return Err(er);
        },
    };
    let ghost pre = rest@;
    rest.insert(0, a);
    proof {
        assert(rest@ =~= seq![a] + pre);
        let whole = Seq::new(rest@.len(), |i: int| rest@[i]@);
        let tail = Seq::new(pre.len(), |i: int| pre[i]@);
        assert(whole =~= seq![a@] + tail);
    }
    Ok((rest, p3))
}

/// Read one whole message from `b` at offset `pos`, expecting a storage
/// header exactly when `with_storage` holds. On success the message comes
/// back with the offset just after it, so that a buffer holding several
/// concatenated messages can be walked; the error is exactly what the spec
/// decoder gives, with `Incomplete` meaning that more bytes may complete
/// the message.
#[verifier::rlimit(100)]
#[verifier::spinoff_prover]
pub fn decode_message(b: &[u8], with_storage: bool) -> (r: Result<(Message, usize), DecodeError>)
    ensures
        match r {
            Ok((m, p)) => sd_message(b@, with_storage) == Ok::<(MessageV, int), DecodeError>(
                (m@, p as int),
            ) && p <= b@.len() && m.fibex_metadata is None,
            Err(er) => sd_message(b@, with_storage) == Err::<(MessageV, int), DecodeError>(er),
        },
{
    let blen = b.len();
    let mut p: usize = 0;
    let storage_header: Option<StorageHeader> = if with_storage {
        if blen < 16 {
            return Err(DecodeError::Incomplete);
        }
        if !(b[0] == 0x44 && b[1] == 0x4C && b[2] == 0x54 && b[3] == 0x01) {
            proof {
                if b@.subrange(0, 4) == storage_magic() {
                    assert(b@[0] == 0x44 && b@[1] == 0x4C && b@[2] == 0x54 && b@[3] == 0x01);
                }
            }
            return Err(DecodeError::InvalidHeader);
        }
        proof {
            assert(b@.subrange(0, 4) =~= storage_magic());
        }
        let secs = get_u32(b, 4, Endianness::Little);
        let micros = get_u32(b, 8, Endianness::Little);
        let ecu = get_id4(b, 12);
        if !crate::outside::utf8_ok(ecu.as_slice()) {
            return Err(DecodeError::InvalidHeader);
        }
        p = 16;
        Some(
            StorageHeader {
                timestamp: DltTimeStamp { seconds: secs, microseconds: micros },
                ecu_id: ecu,
            },
        )
    } else {
        None
    };
    if blen - p < 4 {
        return Err(DecodeError::Incomplete);
    }
    let tb = b[p];
    let has_ext = tb & 1 != 0;
    let endianness = if tb & 2 != 0 {
        Endianness::Big
    } else {
        Endianness::Little
    };
    let has_ecu = tb & 4 != 0;
    let has_sess = tb & 8 != 0;
    let has_ts = tb & 16 != 0;
    let version = (tb >> 5) & 7;
    let counter = b[p + 1];
    let overall = get_u16(b, p + 2, Endianness::Big) as usize;
    let mut hl: usize = 4;
    if has_ecu {
        hl += 4;
    }
    if has_sess {
        hl += 4;
    }
    if has_ts {
        hl += 4;
    }
    let hx = hl + (if has_ext {
        10
    } else {
        0
    });
    if overall < hx {
        return Err(DecodeError::InvalidHeader);
    }
    if blen - p < overall {
        return Err(DecodeError::Incomplete);
    }
    let mut q: usize = p + 4;
    let ecu_id: Option<Vec<u8>> = if has_ecu {
        let id = get_id4(b, q);
        q += 4;
        Some(id)
    } else {
        None
    };
    let session_id: Option<u32> = if has_sess {
        let v = get_u32(b, q, Endianness::Big);
        q += 4;
        Some(v)
    } else {
        None
    };
    let timestamp: Option<u32> = if has_ts {
        let v = get_u32(b, q, Endianness::Big);
        q += 4;
        Some(v)
    } else {
        None
    };
    match &ecu_id {
        Some(id) => {
            if !crate::outside::utf8_ok(id.as_slice()) {
                return Err(DecodeError::InvalidHeader);
            }
        },
        None => {},
    }
    let header = StandardHeader {
        version,
        endianness,
        has_extended_header: has_ext,
        message_counter: counter,
        ecu_id,
        session_id,
        timestamp,
        payload_length: (overall - hx) as u16,
    };
    let extended_header: Option<ExtendedHeader> = if has_ext {
        let b0 = b[p + hl];
        let argc = b[p + hl + 1];
        let app = get_id4(b, p + hl + 2);
        let ctx = get_id4(b, p + hl + 6);
        if !crate::outside::utf8_ok(app.as_slice()) || !crate::outside::utf8_ok(ctx.as_slice()) {
            return Err(DecodeError::InvalidHeader);
        }
        Some(
            ExtendedHeader {
                verbose: b0 & 1 != 0,
                argument_count: argc,
                message_type: mt_of_bits((b0 >> 1) & 7, (b0 >> 4) & 0xf),
                application_id: app,
                context_id: ctx,
            },
        )
    } else {
        None
    };
    let pp = p + hx;
    let pl = overall - hx;
    let pay = vstd::slice::slice_subrange(b, pp, pp + pl);
    let payload_content: PayloadContent = match &extended_header {
        Some(x) => {
            if x.verbose {
                match get_args(pay, 0, x.argument_count, endianness) {
                    Ok((args, _pend)) => PayloadContent::Verbose(args),
                    Err(er) => {
                        return Err(er);
                    },
                }
            } else {
                match &x.message_type {
                    MessageType::Control(_c) => {
                        if pl < 1 {
                            return Err(DecodeError::InvalidHeader);
                        }
                        let ct = ControlType::from_value(pay[0]);
                        let data = vstd::slice::slice_to_vec(
                            vstd::slice::slice_subrange(pay, 1, pl),
                        );
                        proof {
                            assert(pay@.subrange(1, pl as int) =~= pay@.skip(1));
                        }
                        PayloadContent::ControlMsg(ct, data)
                    },
                    _ => {
                        if pl < 4 {
                            return Err(DecodeError::InvalidHeader);
                        }
                        let id = get_u32(pay, 0, endianness);
                        let data = vstd::slice::slice_to_vec(
                            vstd::slice::slice_subrange(pay, 4, pl),
                        );
                        proof {
                            assert(pay@.subrange(4, pl as int) =~= pay@.skip(4));
                        }
                        PayloadContent::NonVerbose(id, data)
                    },
                }
            }
        },
        None => {
            if pl < 4 {
                return Err(DecodeError::InvalidHeader);
            }
            let id = get_u32(pay, 0, endianness);
            let data = vstd::slice::slice_to_vec(vstd::slice::slice_subrange(pay, 4, pl));
            proof {
                assert(pay@.subrange(4, pl as int) =~= pay@.skip(4));
            }
            PayloadContent::NonVerbose(id, data)
        },
    };
    let msg = Message {
        storage_header,
        header,
        extended_header,
        payload: Payload2 { payload_content },
        fibex_metadata: None,
    };
    Ok((msg, p + overall))
}

/// Decode the message-type bits and message-info bits of an extended
/// header's first byte.
fn mt_of_bits(mstp: u8, mtin: u8) -> (r: MessageType)
    ensures
        r == spec_mt_of(mstp, mtin),
{
    if mstp == 0 {
        MessageType::Log(
            match mtin {
                1 => LogLevel::Fatal,
                2 => LogLevel::Error,
                3 => LogLevel::Warn,
                4 => LogLevel::Info,
                5 => LogLevel::Debug,
                6 => LogLevel::Verbose,
                v => LogLevel::Invalid(v),
            },
        )
    } else if mstp == 1 {
        MessageType::ApplicationTrace(
            match mtin {
                1 => ApplicationTraceType::Variable,
                2 => ApplicationTraceType::FunctionIn,
                3 => ApplicationTraceType::FunctionOut,
                4 => ApplicationTraceType::State,
                5 => ApplicationTraceType::Vfb,
                n => ApplicationTraceType::Invalid(n),
            },
        )
    } else if mstp == 2 {
        MessageType::NetworkTrace(
            match mtin {
                0 => NetworkTraceType::Invalid,
                1 => NetworkTraceType::Ipc,
                2 => NetworkTraceType::Can,
                3 => NetworkTraceType::Flexray,
                4 => NetworkTraceType::Most,
                5 => NetworkTraceType::Ethernet,
                6 => NetworkTraceType::Someip,
                v => NetworkTraceType::UserDefined(v),
            },
        )
    } else if mstp == 3 {
        MessageType::Control(ControlType::from_value(mtin))
    } else {
        MessageType::Unknown(mstp, mtin)
    }
}

} // verus!
