//! Rendering of decoded messages as tagged lines: decimal and hex texts,
//! the reserved separators, newline substitution in string values, and the
//! non-verbose path through the FIBEX catalog.
use vstd::prelude::*;

verus! {

use crate::types::{
    Argument, ArgumentV, ControlType, DecodeError, DltTimeStamp, Endianness, ExtendedHeader,
    FixedPoint, FixedPointValue, FloatWidth, LogLevel, MessageType, PayloadContent,
    PayloadContentV,
    StandardHeader, StorageHeader, TypeInfo, TypeInfoKind, TypeLength, Value, ValueV,
    ApplicationTraceType, NetworkTraceType,
};
use crate::msgcodec::{Message, MessageV};
use crate::nonverbose::{FibexMetadata, FrameMetadata, Pdu, bytes_eq};
use crate::outside::{
    rfc3339_of, rfc3339_text, f32_text_of, f32_text, f64_text_of, f64_text,
    fixed_product_signed_of, fixed_product_signed, fixed_product_unsigned_of,
    fixed_product_unsigned,
};
use crate::wire::{i64_bits, i64_to_bits, dec_u16, get_u16, lemma_u16_rt};
use vstd::string::StringSliceAdditionalSpecFns;

/// The column separator of a rendered line.
pub const COLUMN_SENTINEL: u8 = 0x04;

/// The argument separator inside the payload column.
pub const ARGUMENT_SENTINEL: u8 = 0x05;

/// The byte substituted for newlines inside string values.
pub const NEWLINE_SENTINEL: u8 = 0x06;

/// Decimal digits of a number, most significant first.
pub open spec fn dec_digits(n: nat) -> Seq<u8>
    decreases n,
{
    if n < 10 {
        seq![(48 + n) as u8]
    } else {
        dec_digits(n / 10) + seq![(48 + n % 10) as u8]
    }
}

/// Decimal text of an unsigned value.
pub fn dec_u128_text(n: u128) -> (r: Vec<u8>)
    ensures
        r@ == dec_digits(n as nat),
    decreases n,
{
    if n < 10 {
        let mut v: Vec<u8> = Vec::new();
        v.push(48 + n as u8);
        assert(v@ =~= dec_digits(n as nat));
        v
    } else {
        let mut v = dec_u128_text(n / 10);
        v.push(48 + (n % 10) as u8);
        v
    }
}

pub fn dec_u64_text(n: u64) -> (r: Vec<u8>)
    ensures
        r@ == dec_digits(n as nat),
{
    dec_u128_text(n as u128)
}

/// Decimal text of a signed value: a leading minus sign for negatives.
pub open spec fn dec_signed(n: int) -> Seq<u8> {
    if n < 0 {
        seq![45u8] + dec_digits((-n) as nat)
    } else {
        dec_digits(n as nat)
    }
}

pub fn dec_i128_text(n: i128) -> (r: Vec<u8>)
    ensures
        r@ == dec_signed(n as int),
{
    if n >= 0 {
        dec_u128_text(n as u128)
    } else {
        let mag: u128 = ((-(n + 1)) as u128) + 1;
        let mut v = dec_u128_text(mag);
        v.insert(0, 45);
        proof {
            assert(v@ =~= seq![45u8] + dec_digits(mag as nat));
        }
        v
    }
}

/// The hexadecimal digit of a value below sixteen, upper case.
pub open spec fn hex_digit(n: u8) -> u8
    recommends
        n < 16,
{
    if n < 10 {
        (48 + n) as u8
    } else {
        (55 + n) as u8
    }
}

/// Two hexadecimal digits of a byte.
pub open spec fn hex_byte(b: u8) -> Seq<u8> {
    seq![hex_digit(b / 16), hex_digit(b % 16)]
}

/// The items of a hex dump from index `i` on: two digits per byte,
/// separated by a comma and a space.
pub open spec fn hex_items(s: Seq<u8>, i: int) -> Seq<u8>
    decreases s.len() - i,
{
    if i < 0 || i >= s.len() {
        Seq::empty()
    } else {
        (if i == 0 {
            Seq::<u8>::empty()
        } else {
            seq![44u8, 32u8]
        }) + hex_byte(s[i]) + hex_items(s, i + 1)
    }
}

/// A byte vector rendered as a bracketed hex dump.
pub open spec fn hex_dump(s: Seq<u8>) -> Seq<u8> {
    seq![91u8] + hex_items(s, 0) + seq![93u8]
}

fn hex_digit_of(n: u8) -> (r: u8)
    requires
        n < 16,
    ensures
        r == hex_digit(n),
{
    if n < 10 {
        48 + n
    } else {
        55 + n
    }
}

/// Render a byte vector as a bracketed hex dump.
pub fn hex_dump_text(s: &Vec<u8>) -> (r: Vec<u8>)
    ensures
        r@ == hex_dump(s@),
{
    let mut out: Vec<u8> = Vec::new();
    out.push(91);
    let n = s.len();
    let mut i: usize = 0;
    proof {
        assert(out@ =~= seq![91u8]);
    }
    while i < n
        invariant
            n == s@.len(),
            i <= n,
            out@ + hex_items(s@, i as int) == seq![91u8] + hex_items(s@, 0),
        decreases n - i,
    {
        let ghost prev = out@;
        if i > 0 {
            out.push(44);
            out.push(32);
        }
        let b = s[i];
        out.push(hex_digit_of(b / 16));
        out.push(hex_digit_of(b % 16));
        proof {
            let sep: Seq<u8> = if i == 0 {
                Seq::empty()
            } else {
                seq![44u8, 32u8]
            };
            assert(out@ =~= prev + (sep + hex_byte(s@[i as int])));
            assert(hex_items(s@, i as int) == sep + hex_byte(s@[i as int]) + hex_items(
                s@,
                i + 1,
            ));
            assert(prev + (sep + hex_byte(s@[i as int])) + hex_items(s@, i + 1) =~= prev
                + hex_items(s@, i as int));
        }
        i = i + 1;
    }
    out.push(93);
    proof {
        assert(hex_items(s@, n as int) =~= Seq::<u8>::empty());
        assert(out@ =~= hex_dump(s@));
    }
    out
}

/// String-value text from index `i` on: every newline, with or without a
/// carriage return in front, becomes the newline sentinel.
pub open spec fn subst_nl(s: Seq<u8>, i: int) -> Seq<u8>
    decreases s.len() - i,
{
    if i < 0 || i >= s.len() {
        Seq::empty()
    } else if s[i] == 13u8 && i + 1 < s.len() && s[i + 1] == 10u8 {
        seq![NEWLINE_SENTINEL] + subst_nl(s, i + 2)
    } else if s[i] == 10u8 {
        seq![NEWLINE_SENTINEL] + subst_nl(s, i + 1)
    } else {
        seq![s[i]] + subst_nl(s, i + 1)
    }
}

/// The end of the text once a single trailing newline (or carriage return
/// and newline) is dropped.
pub open spec fn stripped_len(s: Seq<u8>) -> int {
    if s.len() >= 2 && s[s.len() - 2] == 13u8 && s[s.len() - 1] == 10u8 {
        s.len() - 2
    } else if s.len() >= 1 && s[s.len() - 1] == 10u8 {
        s.len() - 1
    } else {
        s.len() as int
    }
}

/// A string value as a rendered line carries it: one trailing newline
/// dropped, every other newline replaced by the newline sentinel.
pub open spec fn sr_string_val(s: Seq<u8>) -> Seq<u8> {
    subst_nl(s.take(stripped_len(s)), 0)
}

/// Render a string value with newline substitution.
pub fn string_val_text(s: &Vec<u8>) -> (r: Vec<u8>)
    ensures
        r@ == sr_string_val(s@),
{
    let slen = s.len();
    let m: usize = if slen >= 2 && s[slen - 2] == 13 && s[slen - 1] == 10 {
        slen - 2
    } else if slen >= 1 && s[slen - 1] == 10 {
        slen - 1
    } else {
        slen
    };
    let ghost t = s@.take(m as int);
    let mut out: Vec<u8> = Vec::new();
    let mut i: usize = 0;
    while i < m
        invariant
            m <= s@.len(),
            t == s@.take(m as int),
            i <= m,
            out@ + subst_nl(t, i as int) == subst_nl(t, 0),
        decreases m - i,
    {
        let ghost prev = out@;
        let c = s[i];
        if c == 13 && i + 1 < m && s[i + 1] == 10 {
            out.push(NEWLINE_SENTINEL);
            proof {
                assert(t[i as int] == 13u8 && t[i + 1] == 10u8);
                assert(subst_nl(t, i as int) == seq![NEWLINE_SENTINEL] + subst_nl(t, i + 2));
                assert(prev + seq![NEWLINE_SENTINEL] + subst_nl(t, i + 2) =~= prev + subst_nl(
                    t,
                    i as int,
                ));
                assert(out@ =~= prev + seq![NEWLINE_SENTINEL]);
            }
            i = i + 2;
        } else if c == 10 {
            out.push(NEWLINE_SENTINEL);
            proof {
                assert(t[i as int] == 10u8);
                assert(subst_nl(t, i as int) == seq![NEWLINE_SENTINEL] + subst_nl(t, i + 1));
                assert(prev + seq![NEWLINE_SENTINEL] + subst_nl(t, i + 1) =~= prev + subst_nl(
                    t,
                    i as int,
                ));
                assert(out@ =~= prev + seq![NEWLINE_SENTINEL]);
            }
            i = i + 1;
        } else {
            out.push(c);
            proof {
                assert(t[i as int] == c);
                if c == 13 && i + 1 < m {
                    assert(t[i + 1] != 10u8);
                }
                assert(subst_nl(t, i as int) == seq![c] + subst_nl(t, i + 1));
                assert(prev + seq![c] + subst_nl(t, i + 1) =~= prev + subst_nl(t, i as int));
                assert(out@ =~= prev + seq![c]);
            }
            i = i + 1;
        }
    }
    proof {
        assert(subst_nl(t, m as int) =~= Seq::<u8>::empty());
        assert(out@ + Seq::<u8>::empty() =~= out@);
    }
    out
}

/// No raw newline survives the substitution: the rendered form of a string
/// value never contains the byte 0x0A.
pub proof fn lemma_subst_nl_no_newline(s: Seq<u8>, i: int)
    ensures
        forall|j: int| 0 <= j < subst_nl(s, i).len() ==> subst_nl(s, i)[j] != 10u8,
    decreases s.len() - i,
{
    if i < 0 || i >= s.len() {
    } else if s[i] == 13u8 && i + 1 < s.len() && s[i + 1] == 10u8 {
        lemma_subst_nl_no_newline(s, i + 2);
        assert forall|j: int| 0 <= j < subst_nl(s, i).len() implies subst_nl(s, i)[j] != 10u8 by {
            assert(subst_nl(s, i) == seq![NEWLINE_SENTINEL] + subst_nl(s, i + 2));
            if j > 0 {
                assert(subst_nl(s, i)[j] == subst_nl(s, i + 2)[j - 1]);
            }
        }
    } else if s[i] == 10u8 {
        lemma_subst_nl_no_newline(s, i + 1);
        assert forall|j: int| 0 <= j < subst_nl(s, i).len() implies subst_nl(s, i)[j] != 10u8 by {
            assert(subst_nl(s, i) == seq![NEWLINE_SENTINEL] + subst_nl(s, i + 1));
            if j > 0 {
                assert(subst_nl(s, i)[j] == subst_nl(s, i + 1)[j - 1]);
            }
        }
    } else {
        lemma_subst_nl_no_newline(s, i + 1);
        assert forall|j: int| 0 <= j < subst_nl(s, i).len() implies subst_nl(s, i)[j] != 10u8 by {
            assert(subst_nl(s, i) == seq![s[i]] + subst_nl(s, i + 1));
            if j > 0 {
                assert(subst_nl(s, i)[j] == subst_nl(s, i + 1)[j - 1]);
            }
        }
    }
}

/// Every newline in a string value is substituted: the rendered value
/// holds no raw newline byte.
pub proof fn lemma_rendered_string_no_newline(s: Seq<u8>)
    ensures
        forall|j: int| 0 <= j < sr_string_val(s).len() ==> sr_string_val(s)[j] != 10u8,
{
    lemma_subst_nl_no_newline(s.take(stripped_len(s)), 0);
}

/// The logical value a fixed-point argument renders: the physical value
/// times the quantization, truncated, plus the offset's unsigned image,
/// wrapping on overflow.
pub open spec fn spec_real_value(a: ArgumentV) -> Option<u64> {
    match (a.type_info.kind, a.fixed_point) {
        (TypeInfoKind::SignedFixedPoint(_w), Some(fp)) => match a.value {
            ValueV::I32(v) => Some(
                wrap_add_u64(fixed_product_signed_of(v as i64, fp.quantization_bits), offset_u64(fp)),
            ),
            ValueV::I64(v) => Some(
                wrap_add_u64(fixed_product_signed_of(v, fp.quantization_bits), offset_u64(fp)),
            ),
            _ => None,
        },
        (TypeInfoKind::UnsignedFixedPoint(_w), Some(fp)) => match a.value {
            ValueV::U32(v) => Some(
                wrap_add_u64(
                    fixed_product_unsigned_of(v as u64, fp.quantization_bits),
                    offset_u64(fp),
                ),
            ),
            ValueV::U64(v) => Some(
                wrap_add_u64(fixed_product_unsigned_of(v, fp.quantization_bits), offset_u64(fp)),
            ),
            _ => None,
        },
        _ => None,
    }
}

/// The unsigned 64-bit image of a fixed-point offset.
pub open spec fn offset_u64(fp: FixedPoint) -> u64 {
    match fp.offset {
        FixedPointValue::I32(v) => i64_bits(v as i64),
        FixedPointValue::I64(v) => i64_bits(v),
    }
}

/// Wrapping 64-bit addition.
pub open spec fn wrap_add_u64(a: u64, b: u64) -> u64 {
    ((a + b) % 0x1_0000_0000_0000_0000) as u64
}

fn wrap_add(a: u64, b: u64) -> (r: u64)
    ensures
        r == wrap_add_u64(a, b),
{
    if a <= u64::MAX - b {
        a + b
    } else {
        let r = a - (u64::MAX - b) - 1;
        proof {
            assert(a + b == r + 0x1_0000_0000_0000_0000);
        }
        r
    }
}

impl Argument {
    /// The rendered logical value of a fixed-point argument, if this is
    /// one.
    pub fn to_real_value(&self) -> (r: Option<u64>)
        ensures
            r == spec_real_value(self@),
    {
        match (&self.type_info.kind, &self.fixed_point) {
            (TypeInfoKind::SignedFixedPoint(_w), Some(fp)) => match &self.value {
                Value::I32(v) => Some(
                    wrap_add(
                        fixed_product_signed(*v as i64, fp.quantization_bits),
                        offset_bits(fp),
                    ),
                ),
                Value::I64(v) => Some(
                    wrap_add(fixed_product_signed(*v, fp.quantization_bits), offset_bits(fp)),
                ),
                _ => None,
            },
            (TypeInfoKind::UnsignedFixedPoint(_w), Some(fp)) => match &self.value {
                Value::U32(v) => Some(
                    wrap_add(
                        fixed_product_unsigned(*v as u64, fp.quantization_bits),
                        offset_bits(fp),
                    ),
                ),
                Value::U64(v) => Some(
                    wrap_add(fixed_product_unsigned(*v, fp.quantization_bits), offset_bits(fp)),
                ),
                _ => None,
            },
            _ => None,
        }
    }
}

fn offset_bits(fp: &FixedPoint) -> (r: u64)
    ensures
        r == offset_u64(*fp),
{
    match fp.offset {
        FixedPointValue::I32(v) => i64_to_bits(v as i64),
        FixedPointValue::I64(v) => i64_to_bits(v),
    }
}

/// Text of one value.
pub open spec fn sr_value(v: ValueV) -> Seq<u8> {
    match v {
        ValueV::Bool(b) => if b {
            seq![116u8, 114u8, 117u8, 101u8]
        } else {
            seq![102u8, 97u8, 108u8, 115u8, 101u8]
        },
        ValueV::U8(x) => dec_digits(x as nat),
        ValueV::U16(x) => dec_digits(x as nat),
        ValueV::U32(x) => dec_digits(x as nat),
        ValueV::U64(x) => dec_digits(x as nat),
        ValueV::U128(x) => dec_digits(x as nat),
        ValueV::I8(x) => dec_signed(x as int),
        ValueV::I16(x) => dec_signed(x as int),
        ValueV::I32(x) => dec_signed(x as int),
        ValueV::I64(x) => dec_signed(x as int),
        ValueV::I128(x) => dec_signed(x as int),
        ValueV::F32(bits) => f32_text_of(bits),
        ValueV::F64(bits) => f64_text_of(bits),
        ValueV::StringVal(s) => sr_string_val(s),
        ValueV::Raw(r) => hex_dump(r),
    }
}

/// Render one value. The result never holds a raw newline byte: numbers
/// and dumps are digits and punctuation, string values are substituted,
/// and float texts carry the formatter's own guarantee.
pub fn value_text(v: &Value) -> (r: Vec<u8>)
    ensures
        r@ == sr_value(v@),
        nl_free(r@),
{
    match v {
        Value::Bool(b) => {
            let mut out: Vec<u8> = Vec::new();
            if *b {
                out.push(116);
                out.push(114);
                out.push(117);
                out.push(101);
                assert(out@ =~= sr_value(v@));
            } else {
                out.push(102);
                out.push(97);
                out.push(108);
                out.push(115);
                out.push(101);
                assert(out@ =~= sr_value(v@));
            }
            out
        },
        Value::U8(x) => {
            proof {
                lemma_dec_digits_nl(*x as nat);
            }
            dec_u128_text(*x as u128)
        },
        Value::U16(x) => {
            proof {
                lemma_dec_digits_nl(*x as nat);
            }
            dec_u128_text(*x as u128)
        },
        Value::U32(x) => {
            proof {
                lemma_dec_digits_nl(*x as nat);
            }
            dec_u128_text(*x as u128)
        },
        Value::U64(x) => {
            proof {
                lemma_dec_digits_nl(*x as nat);
            }
            dec_u128_text(*x as u128)
        },
        Value::U128(x) => {
            proof {
                lemma_dec_digits_nl(*x as nat);
            }
            dec_u128_text(*x)
        },
        Value::I8(x) => {
            proof {
                lemma_dec_signed_nl(*x as int);
            }
            dec_i128_text(*x as i128)
        },
        Value::I16(x) => {
            proof {
                lemma_dec_signed_nl(*x as int);
            }
            dec_i128_text(*x as i128)
        },
        Value::I32(x) => {
            proof {
                lemma_dec_signed_nl(*x as int);
            }
            dec_i128_text(*x as i128)
        },
        Value::I64(x) => {
            proof {
                lemma_dec_signed_nl(*x as int);
            }
            dec_i128_text(*x as i128)
        },
        Value::I128(x) => {
            proof {
                lemma_dec_signed_nl(*x as int);
            }
            dec_i128_text(*x)
        },
        Value::F32(bits) => f32_text(*bits),
        Value::F64(bits) => f64_text(*bits),
        Value::StringVal(s) => {
            proof {
                lemma_string_val_nl(s@);
            }
            string_val_text(s)
        },
        Value::Raw(r) => {
            proof {
                lemma_hex_dump_nl(r@);
            }
            hex_dump_text(r)
        },
    }
}

/// Text of one argument: optional name with a colon, optional unit, then
/// the logical or raw value.
pub open spec fn sr_argument(a: ArgumentV) -> Seq<u8> {
    (match a.name {
        Some(n) => n + seq![58u8, 32u8],
        None => Seq::empty(),
    }) + (match a.unit {
        Some(u) => u,
        None => Seq::empty(),
    }) + (match spec_real_value(a) {
        Some(rv) => dec_digits(rv as nat),
        None => sr_value(a.value),
    })
}

/// Render one argument. When the name and unit are free of the reserved
/// and newline bytes (as well-formed arguments are), so is the whole
/// rendering.
pub fn argument_text(a: &Argument) -> (r: Vec<u8>)
    ensures
        r@ == sr_argument(a@),
        opt_clean(a@.name) && opt_clean(a@.unit) ==> nl_free(r@),
{
    let mut out: Vec<u8> = Vec::new();
    match &a.name {
        Some(n) => {
            out.extend_from_slice(n.as_slice());
            out.push(58);
            out.push(32);
        },
        None => {},
    }
    match &a.unit {
        Some(u) => {
            out.extend_from_slice(u.as_slice());
        },
        None => {},
    }
    let ghost head = out@;
    match a.to_real_value() {
        Some(rv) => {
            let t = dec_u64_text(rv);
            out.extend_from_slice(t.as_slice());
            proof {
                lemma_dec_digits_nl(rv as nat);
            }
        },
        None => {
            let t = value_text(&a.value);
            out.extend_from_slice(t.as_slice());
        },
    }
    proof {
        broadcast use lemma_nl_free_concat;

        assert(out@ =~= sr_argument(a@));
        if opt_clean(a@.name) && opt_clean(a@.unit) {
            assert(nl_free(head)) by {
                assert forall|i: int| 0 <= i < head.len() implies head[i] != 10u8 by {}
            }
        }
    }
    out
}

/// Text of a timestamp column: RFC-3339 UTC, or the diagnostic
/// placeholder when the microsecond count is beyond the calendar range.
pub open spec fn sr_timestamp(ts: DltTimeStamp) -> Seq<u8> {
    if ts.microseconds >= 2_000_000 {
        "no valid timestamp for ".spec_bytes() + dec_digits(ts.seconds as nat)
            + "s/".spec_bytes() + dec_digits(ts.microseconds as nat) + "us".spec_bytes()
    } else {
        rfc3339_of(
            (ts.seconds + ts.microseconds / 1_000_000) as u64,
            ((ts.microseconds % 1_000_000) * 1000) as u32,
        )
    }
}

/// Render a timestamp column; the text never holds a raw newline byte.
pub fn timestamp_text(ts: &DltTimeStamp) -> (r: Vec<u8>)
    ensures
        r@ == sr_timestamp(*ts),
        nl_free(r@),
{
    if ts.microseconds >= 2_000_000 {
        let mut out: Vec<u8> = Vec::new();
        out.extend_from_slice("no valid timestamp for ".as_bytes());
        let t1 = dec_u128_text(ts.seconds as u128);
        out.extend_from_slice(t1.as_slice());
        out.extend_from_slice("s/".as_bytes());
        let t2 = dec_u128_text(ts.microseconds as u128);
        out.extend_from_slice(t2.as_slice());
        out.extend_from_slice("us".as_bytes());
        proof {
            broadcast use lemma_nl_free_concat;

            assert(out@ =~= sr_timestamp(*ts));
            reveal_strlit("no valid timestamp for ");
            reveal_strlit("s/");
            reveal_strlit("us");
            lemma_ascii_nl_free("no valid timestamp for ");
            lemma_ascii_nl_free("s/");
            lemma_ascii_nl_free("us");
            lemma_dec_digits_nl(ts.seconds as nat);
            lemma_dec_digits_nl(ts.microseconds as nat);
        }
        out
    } else {
        let secs: u64 = ts.seconds as u64 + (ts.microseconds / 1_000_000) as u64;
        let nanos: u32 = (ts.microseconds % 1_000_000) * 1000;
        rfc3339_text(secs, nanos)
    }
}

/// Text of a message type, as the type column shows it.
pub open spec fn sr_message_type(t: MessageType) -> Seq<u8> {
    match t {
        MessageType::Log(l) => match l {
            LogLevel::Fatal => "FATAL".spec_bytes(),
            LogLevel::Error => "Error".spec_bytes(),
            LogLevel::Warn => "WARN".spec_bytes(),
            LogLevel::Info => "INFO".spec_bytes(),
            LogLevel::Debug => "DEBUG".spec_bytes(),
            LogLevel::Verbose => "VERBOSE".spec_bytes(),
            LogLevel::Invalid(v) => "INVALID (0x".spec_bytes() + hex_byte(v) + ")".spec_bytes(),
        },
        MessageType::ApplicationTrace(a) => match a {
            ApplicationTraceType::Variable => "VARIABLE".spec_bytes(),
            ApplicationTraceType::FunctionIn => "FUNC_IN".spec_bytes(),
            ApplicationTraceType::FunctionOut => "FUNC_OUT".spec_bytes(),
            ApplicationTraceType::State => "STATE".spec_bytes(),
            ApplicationTraceType::Vfb => "VFB".spec_bytes(),
            ApplicationTraceType::Invalid(n) => "invalid(".spec_bytes() + dec_digits(n as nat)
                + ")".spec_bytes(),
        },
        MessageType::NetworkTrace(n) => match n {
            NetworkTraceType::Invalid => "INVALID".spec_bytes(),
            NetworkTraceType::Ipc => "IPC".spec_bytes(),
            NetworkTraceType::Can => "CAN".spec_bytes(),
            NetworkTraceType::Flexray => "FLEXRAY".spec_bytes(),
            NetworkTraceType::Most => "MOST".spec_bytes(),
            NetworkTraceType::Ethernet => "ETHERNET".spec_bytes(),
            NetworkTraceType::Someip => "SOMEIP".spec_bytes(),
            NetworkTraceType::UserDefined(v) => "USERDEFINED(".spec_bytes() + dec_digits(
                v as nat,
            ) + ")".spec_bytes(),
        },
        MessageType::Control(c) => match c {
            ControlType::Request => "REQ".spec_bytes(),
            ControlType::Response => "RES".spec_bytes(),
            ControlType::Unknown(n) => dec_digits(n as nat),
        },
        MessageType::Unknown(a, b) => "Unkown MSTP (".spec_bytes() + dec_digits(a as nat)
            + ", ".spec_bytes() + dec_digits(b as nat) + ")".spec_bytes(),
    }
}

/// Render a message type column.
pub fn message_type_text(t: &MessageType) -> (r: Vec<u8>)
    ensures
        r@ == sr_message_type(*t),
        nl_free(r@),
{
    proof {
        lemma_message_type_nl(*t);
    }
    let mut out: Vec<u8> = Vec::new();
    match t {
        MessageType::Log(l) => match l {
            LogLevel::Fatal => out.extend_from_slice("FATAL".as_bytes()),
            LogLevel::Error => out.extend_from_slice("Error".as_bytes()),
            LogLevel::Warn => out.extend_from_slice("WARN".as_bytes()),
            LogLevel::Info => out.extend_from_slice("INFO".as_bytes()),
            LogLevel::Debug => out.extend_from_slice("DEBUG".as_bytes()),
            LogLevel::Verbose => out.extend_from_slice("VERBOSE".as_bytes()),
            LogLevel::Invalid(v) => {
                out.extend_from_slice("INVALID (0x".as_bytes());
                out.push(hex_digit_of(v / 16));
                out.push(hex_digit_of(v % 16));
                out.extend_from_slice(")".as_bytes());
                proof {
                    assert(out@ =~= sr_message_type(*t));
                }
            },
        },
        MessageType::ApplicationTrace(a) => match a {
            ApplicationTraceType::Variable => out.extend_from_slice("VARIABLE".as_bytes()),
            ApplicationTraceType::FunctionIn => out.extend_from_slice("FUNC_IN".as_bytes()),
            ApplicationTraceType::FunctionOut => out.extend_from_slice("FUNC_OUT".as_bytes()),
            ApplicationTraceType::State => out.extend_from_slice("STATE".as_bytes()),
            ApplicationTraceType::Vfb => out.extend_from_slice("VFB".as_bytes()),
            ApplicationTraceType::Invalid(n) => {
                out.extend_from_slice("invalid(".as_bytes());
                let d = dec_u128_text(*n as u128);
                out.extend_from_slice(d.as_slice());
                out.extend_from_slice(")".as_bytes());
                proof {
                    assert(out@ =~= sr_message_type(*t));
                }
            },
        },
        MessageType::NetworkTrace(n) => match n {
            NetworkTraceType::Invalid => out.extend_from_slice("INVALID".as_bytes()),
            NetworkTraceType::Ipc => out.extend_from_slice("IPC".as_bytes()),
            NetworkTraceType::Can => out.extend_from_slice("CAN".as_bytes()),
            NetworkTraceType::Flexray => out.extend_from_slice("FLEXRAY".as_bytes()),
            NetworkTraceType::Most => out.extend_from_slice("MOST".as_bytes()),
            NetworkTraceType::Ethernet => out.extend_from_slice("ETHERNET".as_bytes()),
            NetworkTraceType::Someip => out.extend_from_slice("SOMEIP".as_bytes()),
            NetworkTraceType::UserDefined(v) => {
                out.extend_from_slice("USERDEFINED(".as_bytes());
                let d = dec_u128_text(*v as u128);
                out.extend_from_slice(d.as_slice());
                out.extend_from_slice(")".as_bytes());
                proof {
                    assert(out@ =~= sr_message_type(*t));
                }
            },
        },
        MessageType::Control(c) => match c {
            ControlType::Request => out.extend_from_slice("REQ".as_bytes()),
            ControlType::Response => out.extend_from_slice("RES".as_bytes()),
            ControlType::Unknown(n) => {
                let d = dec_u128_text(*n as u128);
                out.extend_from_slice(d.as_slice());
            },
        },
        MessageType::Unknown(a, b) => {
            out.extend_from_slice("Unkown MSTP (".as_bytes());
            let d1 = dec_u128_text(*a as u128);
            out.extend_from_slice(d1.as_slice());
            out.extend_from_slice(", ".as_bytes());
            let d2 = dec_u128_text(*b as u128);
            out.extend_from_slice(d2.as_slice());
            out.extend_from_slice(")".as_bytes());
            proof {
                assert(out@ =~= sr_message_type(*t));
            }
        },
    }
    out
}

/// Read one non-verbose signal at `off`: the bytes a signal of this
/// descriptor consumes, and the argument it reconstructs. A fixed-point
/// signal carries its quantization and value; the frame supplies no
/// offset, so it is taken as zero.
pub open spec fn sd_signal(e: Endianness, d: Seq<u8>, off: int, ti: TypeInfo) -> Result<
    (ArgumentV, int),
    DecodeError,
> {
    match ti.kind {
        TypeInfoKind::StringType | TypeInfoKind::Raw => {
            if off + 2 > d.len() {
                Err(DecodeError::NonVerboseTruncated)
            } else {
                let n = dec_u16(e, d.subrange(off, off + 2)) as int;
                if off + 2 + n > d.len() {
                    Err(DecodeError::NonVerboseTruncated)
                } else {
                    let body = d.subrange(off + 2, off + 2 + n);
                    if ti.kind is StringType {
                        if !vstd::utf8::valid_utf8(body) {
                            Err(DecodeError::InvalidStringData)
                        } else {
                            Ok((nv_arg(ti, None, ValueV::StringVal(body)), off + 2 + n))
                        }
                    } else {
                        Ok((nv_arg(ti, None, ValueV::Raw(body)), off + 2 + n))
                    }
                }
            }
        },
        TypeInfoKind::Bool => if off + 1 > d.len() {
            Err(DecodeError::NonVerboseTruncated)
        } else {
            Ok((nv_arg(ti, None, ValueV::Bool(d[off] != 0u8)), off + 1))
        },
        _ => {
            if ti.spec_is_fixed_point() {
                match crate::argcodec::sd_fixed_block_nv(e, d, off, ti) {
                    Err(er) => Err(er),
                    Ok(x) => Ok(x),
                }
            } else {
                match crate::argcodec::sd_num_value(e, d, off, ti.kind) {
                    Err(_er) => Err(DecodeError::NonVerboseTruncated),
                    Ok((v, p)) => Ok((nv_arg(ti, None, v), p)),
                }
            }
        },
    }
}

/// An argument reconstructed from a non-verbose signal.
pub open spec fn nv_arg(ti: TypeInfo, fp: Option<FixedPoint>, v: ValueV) -> ArgumentV {
    ArgumentV { type_info: ti, name: None, unit: None, fixed_point: fp, value: v }
}

/// Read one non-verbose signal.
pub fn get_signal(d: &[u8], off: usize, e: Endianness, ti: &TypeInfo) -> (r: Result<
    (Argument, usize),
    DecodeError,
>)
    requires
        off <= d@.len(),
    ensures
        match r {
            Ok((a, p)) => sd_signal(e, d@, off as int, *ti) == Ok::<(ArgumentV, int), DecodeError>(
                (a@, p as int),
            ) && off <= p <= d@.len(),
            Err(er) => sd_signal(e, d@, off as int, *ti) == Err::<(ArgumentV, int), DecodeError>(
                er,
            ),
        },
{
    let dlen = d.len();
    match ti.kind {
        TypeInfoKind::StringType | TypeInfoKind::Raw => {
            if dlen - off < 2 {
                return Err(DecodeError::NonVerboseTruncated);
            }
            let n = get_u16(d, off, e) as usize;
            if dlen - off - 2 < n {
                return Err(DecodeError::NonVerboseTruncated);
            }
            let body = vstd::slice::slice_to_vec(
                vstd::slice::slice_subrange(d, off + 2, off + 2 + n),
            );
            match ti.kind {
                TypeInfoKind::StringType => {
                    if !crate::outside::utf8_ok(body.as_slice()) {
                        return Err(DecodeError::InvalidStringData);
                    }
                    Ok(
                        (
                            Argument {
                                type_info: *ti,
                                name: None,
                                unit: None,
                                fixed_point: None,
                                value: Value::StringVal(body),
                            },
                            off + 2 + n,
                        ),
                    )
                },
                _ => Ok(
                    (
                        Argument {
                            type_info: *ti,
                            name: None,
                            unit: None,
                            fixed_point: None,
                            value: Value::Raw(body),
                        },
                        off + 2 + n,
                    ),
                ),
            }
        },
        TypeInfoKind::Bool => {
            if dlen - off < 1 {
                return Err(DecodeError::NonVerboseTruncated);
            }
            Ok(
                (
                    Argument {
                        type_info: *ti,
                        name: None,
                        unit: None,
                        fixed_point: None,
                        value: Value::Bool(d[off] != 0),
                    },
                    off + 1,
                ),
            )
        },
        _ => {
            if ti.is_fixed_point() {
                crate::argcodec::get_fixed_block_nv(d, off, e, ti)
            } else {
                match crate::argcodec::get_num_value(d, off, e, ti.kind) {
                    Err(_er) => Err(DecodeError::NonVerboseTruncated),
                    Ok((v, p)) => Ok(
                        (
                            Argument {
                                type_info: *ti,
                                name: None,
                                unit: None,
                                fixed_point: None,
                                value: v,
                            },
                            p,
                        ),
                    ),
                }
            }
        },
    }
}

/// Text of a signal sequence from index `i` on: each reconstructed
/// argument behind an argument separator, with a trailing space.
pub open spec fn sr_signals(e: Endianness, d: Seq<u8>, off: int, types: Seq<TypeInfo>, i: int)
    -> Result<(Seq<u8>, int), DecodeError>
    decreases types.len() - i,
{
    if i < 0 || i >= types.len() {
        Ok((Seq::empty(), off))
    } else {
        match sd_signal(e, d, off, types[i]) {
            Err(er) => Err(er),
            Ok((a, off2)) => match sr_signals(e, d, off2, types, i + 1) {
                Err(er) => Err(er),
                Ok((rest, off3)) => Ok(
                    (
                        seq![ARGUMENT_SENTINEL] + sr_argument(a) + seq![32u8] + rest,
                        off3,
                    ),
                ),
            },
        }
    }
}

/// Render a signal sequence.
pub fn signals_text(d: &[u8], off: usize, e: Endianness, types: &Vec<TypeInfo>, i: usize) -> (r:
    Result<(Vec<u8>, usize), DecodeError>)
    requires
        off <= d@.len(),
        i <= types@.len(),
    ensures
        match r {
            Ok((t, p)) => sr_signals(e, d@, off as int, types@, i as int) == Ok::<
                (Seq<u8>, int),
                DecodeError,
            >((t@, p as int)) && off <= p <= d@.len() && nl_free(t@),
            Err(er) => sr_signals(e, d@, off as int, types@, i as int) == Err::<
                (Seq<u8>, int),
                DecodeError,
            >(er),
        },
    decreases types@.len() - i,
{
    if i >= types.len() {
        let empty: Vec<u8> = Vec::new();
        proof {
            assert(empty@ =~= Seq::<u8>::empty());
        }
        return Ok((empty, off));
    }
    let (a, off2) = match get_signal(d, off, e, &types[i]) {
        Ok(x) => x,
        Err(er) => {
            return Err(er);
        },
    };
    let (rest, off3) = match signals_text(d, off2, e, types, i + 1) {
        Ok(x) => x,
        Err(er) => {
            return Err(er);
        },
    };
    let mut out: Vec<u8> = Vec::new();
    out.push(ARGUMENT_SENTINEL);
    let at = argument_text(&a);
    out.extend_from_slice(at.as_slice());
    out.push(32);
    out.extend_from_slice(rest.as_slice());
    proof {
        assert(out@ =~= seq![ARGUMENT_SENTINEL] + sr_argument(a@) + seq![32u8] + rest@);
        assert(nl_free(out@)) by {
            assert(opt_clean(a@.name) && opt_clean(a@.unit));
            assert forall|j: int| 0 <= j < out@.len() implies out@[j] != 10u8 by {
                if 1 <= j < 1 + at@.len() {
                    assert(out@[j] == at@[j - 1]);
                } else if j >= 2 + at@.len() {
                    assert(out@[j] == rest@[j - 2 - at@.len()]);
                }
            }
        }
    }
    Ok((out, off3))
}

/// Text of the pdu sequence from index `i` on: a description pdu renders
/// as one string argument, a signal pdu as its reconstructed arguments,
/// consuming payload bytes at a running offset.
pub open spec fn sr_pdus(
    e: Endianness,
    d: Seq<u8>,
    off: int,
    pdus: Seq<crate::nonverbose::PduV>,
    i: int,
) -> Result<(Seq<u8>, int), DecodeError>
    decreases pdus.len() - i,
{
    if i < 0 || i >= pdus.len() {
        Ok((Seq::empty(), off))
    } else {
        let head: Result<(Seq<u8>, int), DecodeError> = match pdus[i].description {
            Some(desc) => Ok(
                (
                    seq![ARGUMENT_SENTINEL] + sr_string_val(desc) + seq![32u8],
                    off,
                ),
            ),
            None => sr_signals(e, d, off, pdus[i].signal_types, 0),
        };
        match head {
            Err(er) => Err(er),
            Ok((ht, off2)) => match sr_pdus(e, d, off2, pdus, i + 1) {
                Err(er) => Err(er),
                Ok((rest, off3)) => Ok((ht + rest, off3)),
            },
        }
    }
}

/// Render the pdu sequence of a frame.
pub fn pdus_text(
    d: &[u8],
    off: usize,
    e: Endianness,
    pdus: &Vec<Pdu>,
    i: usize,
) -> (r: Result<(Vec<u8>, usize), DecodeError>)
    requires
        off <= d@.len(),
        i <= pdus@.len(),
    ensures
        match r {
            Ok((t, p)) => sr_pdus(
                e,
                d@,
                off as int,
                Seq::new(pdus@.len(), |k: int| pdus@[k]@),
                i as int,
            ) == Ok::<(Seq<u8>, int), DecodeError>((t@, p as int)) && off <= p <= d@.len()
                && nl_free(t@),
            Err(er) => sr_pdus(
                e,
                d@,
                off as int,
                Seq::new(pdus@.len(), |k: int| pdus@[k]@),
                i as int,
            ) == Err::<(Seq<u8>, int), DecodeError>(er),
        },
    decreases pdus@.len() - i,
{
    let ghost pv = Seq::new(pdus@.len(), |k: int| pdus@[k]@);
    if i >= pdus.len() {
        let empty: Vec<u8> = Vec::new();
        proof {
            assert(empty@ =~= Seq::<u8>::empty());
        }
        return Ok((empty, off));
    }
    proof {
        assert(pv[i as int] == pdus@[i as int]@);
    }
    let (ht, off2): (Vec<u8>, usize) = match &pdus[i].description {
        Some(desc) => {
            let mut h: Vec<u8> = Vec::new();
            h.push(ARGUMENT_SENTINEL);
            let dt = string_val_text(desc);
            h.extend_from_slice(dt.as_slice());
            h.push(32);
            proof {
                broadcast use lemma_nl_free_concat;

                assert(h@ =~= seq![ARGUMENT_SENTINEL] + sr_string_val(desc@) + seq![32u8]);
                lemma_string_val_nl(desc@);
                assert(nl_free(seq![ARGUMENT_SENTINEL]));
                assert(nl_free(seq![32u8]));
            }
            (h, off)
        },
        None => {
            match signals_text(d, off, e, &pdus[i].signal_types, 0) {
                Ok(x) => x,
                Err(er) => {
                    return Err(er);
                },
            }
        },
    };
    let (rest, off3) = match pdus_text(d, off2, e, pdus, i + 1) {
        Ok(x) => x,
        Err(er) => {
            return Err(er);
        },
    };
    let ghost ht_v = ht@;
    let mut out = ht;
    out.extend_from_slice(rest.as_slice());
    proof {
        broadcast use lemma_nl_free_concat;

        assert(out@ == sr_pdus(e, d@, off as int, pv, i as int)->Ok_0.0);
        assert(nl_free(ht_v));
        assert(out@ == ht_v + rest@);
    }
    Ok((out, off3))
}

/// The message type a FIBEX message-info text announces, if it names one
/// of the six log levels.
pub open spec fn spec_mt_from_info(mi: Seq<u8>) -> Option<MessageType> {
    if mi == "DLT_LOG_FATAL".spec_bytes() {
        Some(MessageType::Log(LogLevel::Fatal))
    } else if mi == "DLT_LOG_ERROR".spec_bytes() {
        Some(MessageType::Log(LogLevel::Error))
    } else if mi == "DLT_LOG_WARN".spec_bytes() {
        Some(MessageType::Log(LogLevel::Warn))
    } else if mi == "DLT_LOG_INFO".spec_bytes() {
        Some(MessageType::Log(LogLevel::Info))
    } else if mi == "DLT_LOG_DEBUG".spec_bytes() {
        Some(MessageType::Log(LogLevel::Debug))
    } else if mi == "DLT_LOG_VERBOSE".spec_bytes() {
        Some(MessageType::Log(LogLevel::Verbose))
    } else {
        None
    }
}

fn bytes_eq_slice(a: &Vec<u8>, b: &[u8]) -> (r: bool)
    ensures
        r == (a@ == b@),
{
    if a.len() != b.len() {
        proof {
            assert(a@ != b@);
        }
        return false;
    }
    let n = a.len();
    let mut i: usize = 0;
    while i < n
        invariant
            n == a@.len() == b@.len(),
            i <= n,
            forall|j: int| 0 <= j < i ==> a@[j] == b@[j],
        decreases n - i,
    {
        if a[i] != b[i] {
            return false;
        }
        i = i + 1;
    }
    proof {
        assert(a@ =~= b@);
    }
    true
}

/// Map a FIBEX message-info text to the log level it names.
pub fn mt_from_info(mi: &Vec<u8>) -> (r: Option<MessageType>)
    ensures
        r == spec_mt_from_info(mi@),
{
    if bytes_eq_slice(mi, "DLT_LOG_FATAL".as_bytes()) {
        Some(MessageType::Log(LogLevel::Fatal))
    } else if bytes_eq_slice(mi, "DLT_LOG_ERROR".as_bytes()) {
        Some(MessageType::Log(LogLevel::Error))
    } else if bytes_eq_slice(mi, "DLT_LOG_WARN".as_bytes()) {
        Some(MessageType::Log(LogLevel::Warn))
    } else if bytes_eq_slice(mi, "DLT_LOG_INFO".as_bytes()) {
        Some(MessageType::Log(LogLevel::Info))
    } else if bytes_eq_slice(mi, "DLT_LOG_DEBUG".as_bytes()) {
        Some(MessageType::Log(LogLevel::Debug))
    } else if bytes_eq_slice(mi, "DLT_LOG_VERBOSE".as_bytes()) {
        Some(MessageType::Log(LogLevel::Verbose))
    } else {
        None
    }
}

/// The textual hint behind an unmatched non-verbose id, derived from the
/// extended header's message type.
pub open spec fn sr_nv_hint(ext: Option<crate::types::ExtendedHeaderV>) -> Seq<u8> {
    match ext {
        Some(x) => match x.message_type {
            MessageType::Control(ControlType::Request) => "control request".spec_bytes(),
            MessageType::Control(ControlType::Response) => "control response".spec_bytes(),
            MessageType::Control(ControlType::Unknown(_)) => "unknown control".spec_bytes(),
            MessageType::NetworkTrace(NetworkTraceType::Ipc) => "Ipc".spec_bytes(),
            MessageType::NetworkTrace(NetworkTraceType::Can) => "Can".spec_bytes(),
            MessageType::NetworkTrace(NetworkTraceType::Flexray) => "Flexray".spec_bytes(),
            MessageType::NetworkTrace(NetworkTraceType::Most) => "Most".spec_bytes(),
            MessageType::NetworkTrace(NetworkTraceType::Ethernet) => "Ethernet".spec_bytes(),
            MessageType::NetworkTrace(NetworkTraceType::Someip) => "Someip".spec_bytes(),
            MessageType::NetworkTrace(NetworkTraceType::Invalid) => "Invalid".spec_bytes(),
            MessageType::NetworkTrace(NetworkTraceType::UserDefined(_)) =>
                "unknown network trace".spec_bytes(),
            _ => "- fibex missing -".spec_bytes(),
        },
        None => "- fibex missing -".spec_bytes(),
    }
}

fn nv_hint_text(ext: &Option<ExtendedHeader>) -> (r: Vec<u8>)
    ensures
        r@ == sr_nv_hint(match *ext {
            Some(ref x) => Some(x@),
            None => None,
        }),
        nl_free(r@),
{
    proof {
        reveal_strlit("control request");
        reveal_strlit("control response");
        reveal_strlit("unknown control");
        reveal_strlit("Ipc");
        reveal_strlit("Can");
        reveal_strlit("Flexray");
        reveal_strlit("Most");
        reveal_strlit("Ethernet");
        reveal_strlit("Someip");
        reveal_strlit("Invalid");
        reveal_strlit("unknown network trace");
        reveal_strlit("- fibex missing -");
        lemma_ascii_nl_free("control request");
        lemma_ascii_nl_free("control response");
        lemma_ascii_nl_free("unknown control");
        lemma_ascii_nl_free("Ipc");
        lemma_ascii_nl_free("Can");
        lemma_ascii_nl_free("Flexray");
        lemma_ascii_nl_free("Most");
        lemma_ascii_nl_free("Ethernet");
        lemma_ascii_nl_free("Someip");
        lemma_ascii_nl_free("Invalid");
        lemma_ascii_nl_free("unknown network trace");
        lemma_ascii_nl_free("- fibex missing -");
    }
    let mut out: Vec<u8> = Vec::new();
    match ext {
        Some(x) => match &x.message_type {
            MessageType::Control(ControlType::Request) => out.extend_from_slice(
                "control request".as_bytes(),
            ),
            MessageType::Control(ControlType::Response) => out.extend_from_slice(
                "control response".as_bytes(),
            ),
            MessageType::Control(ControlType::Unknown(_)) => out.extend_from_slice(
                "unknown control".as_bytes(),
            ),
            MessageType::NetworkTrace(NetworkTraceType::Ipc) => out.extend_from_slice(
                "Ipc".as_bytes(),
            ),
            MessageType::NetworkTrace(NetworkTraceType::Can) => out.extend_from_slice(
                "Can".as_bytes(),
            ),
            MessageType::NetworkTrace(NetworkTraceType::Flexray) => out.extend_from_slice(
                "Flexray".as_bytes(),
            ),
            MessageType::NetworkTrace(NetworkTraceType::Most) => out.extend_from_slice(
                "Most".as_bytes(),
            ),
            MessageType::NetworkTrace(NetworkTraceType::Ethernet) => out.extend_from_slice(
                "Ethernet".as_bytes(),
            ),
            MessageType::NetworkTrace(NetworkTraceType::Someip) => out.extend_from_slice(
                "Someip".as_bytes(),
            ),
            MessageType::NetworkTrace(NetworkTraceType::Invalid) => out.extend_from_slice(
                "Invalid".as_bytes(),
            ),
            MessageType::NetworkTrace(NetworkTraceType::UserDefined(_)) => out.extend_from_slice(
                "unknown network trace".as_bytes(),
            ),
            _ => out.extend_from_slice("- fibex missing -".as_bytes()),
        },
        None => out.extend_from_slice("- fibex missing -".as_bytes()),
    }
    out
}

/// The application, context and message-type columns, each followed by a
/// column separator, taken from the extended header, or dashes without
/// one.
pub open spec fn sr_ids_and_type(ext: Option<crate::types::ExtendedHeaderV>) -> Seq<u8> {
    match ext {
        Some(x) => x.application_id + seq![COLUMN_SENTINEL] + x.context_id + seq![
            COLUMN_SENTINEL,
        ] + sr_message_type(x.message_type) + seq![COLUMN_SENTINEL],
        None => seq![
            45u8,
            COLUMN_SENTINEL,
            45u8,
            COLUMN_SENTINEL,
            45u8,
            COLUMN_SENTINEL,
        ],
    }
}

fn ids_and_type_text(ext: &Option<ExtendedHeader>) -> (r: Vec<u8>)
    ensures
        r@ == sr_ids_and_type(match *ext {
            Some(ref x) => Some(x@),
            None => None,
        }),
        (match *ext {
            Some(ref x) => crate::types::display_clean(x@.application_id)
                && crate::types::display_clean(x@.context_id),
            None => true,
        }) ==> nl_free(r@),
{
    proof {
        broadcast use lemma_nl_free_concat;

    }
    let mut out: Vec<u8> = Vec::new();
    match ext {
        Some(x) => {
            out.extend_from_slice(x.application_id.as_slice());
            out.push(COLUMN_SENTINEL);
            out.extend_from_slice(x.context_id.as_slice());
            out.push(COLUMN_SENTINEL);
            let mt = message_type_text(&x.message_type);
            out.extend_from_slice(mt.as_slice());
            out.push(COLUMN_SENTINEL);
            proof {
                assert(out@ =~= sr_ids_and_type(Some(x@)));
            }
        },
        None => {
            out.push(45);
            out.push(COLUMN_SENTINEL);
            out.push(45);
            out.push(COLUMN_SENTINEL);
            out.push(45);
            out.push(COLUMN_SENTINEL);
            proof {
                assert(out@ =~= sr_ids_and_type(None));
            }
        },
    }
    out
}

/// The unmatched non-verbose tail: the id in brackets behind an argument
/// separator, then the hint.
pub open spec fn sr_nv_fallback(id: u32, ext: Option<crate::types::ExtendedHeaderV>) -> Seq<u8> {
    seq![ARGUMENT_SENTINEL, 91u8] + dec_digits(id as nat) + seq![93u8, ARGUMENT_SENTINEL, 32u8]
        + sr_nv_hint(ext)
}

/// Text of the non-verbose part of a line: columns and payload column,
/// rendered against the catalog when a frame matches.
pub open spec fn sr_nonverbose(
    id: u32,
    data: Seq<u8>,
    e: Endianness,
    ext: Option<crate::types::ExtendedHeaderV>,
    fib: Option<crate::nonverbose::FibexV>,
) -> Result<Seq<u8>, DecodeError> {
    let frame: Option<crate::nonverbose::FrameMetadataV> = match (fib, ext) {
        (Some(f), Some(x)) => crate::nonverbose::spec_lookup_keyed(
            f.keyed,
            x.context_id,
            x.application_id,
            id,
            0,
        ),
        (Some(f), None) => crate::nonverbose::spec_lookup_plain(f.plain, id, 0),
        _ => None,
    };
    match frame {
        Some(fm) => sr_frame(fm, id, data, e, ext),
        None => Ok(sr_ids_and_type(ext) + sr_nv_fallback(id, ext)),
    }
}

/// Text of the non-verbose part when a frame matched: columns from the
/// frame with header fallbacks, then the pdu renderings, or the bracketed
/// id when the frame is empty.
pub open spec fn sr_frame_cols(
    fm: crate::nonverbose::FrameMetadataV,
    ext: Option<crate::types::ExtendedHeaderV>,
) -> Seq<u8> {
    let app: Seq<u8> = match (fm.application_id, ext) {
        (Some(a), _) => a,
        (None, Some(x)) => x.application_id,
        (None, None) => seq![45u8],
    };
    let ctx: Seq<u8> = match (fm.context_id, ext) {
        (Some(c), _) => c,
        (None, Some(x)) => x.context_id,
        (None, None) => seq![45u8],
    };
    let mtt: Seq<u8> = match fm.message_info {
        Some(mi) => match spec_mt_from_info(mi) {
            Some(mt) => sr_message_type(mt),
            None => match ext {
                Some(x) => sr_message_type(x.message_type),
                None => seq![45u8],
            },
        },
        None => match ext {
            Some(x) => sr_message_type(x.message_type),
            None => seq![45u8],
        },
    };
    app + seq![COLUMN_SENTINEL] + ctx + seq![COLUMN_SENTINEL] + mtt + seq![COLUMN_SENTINEL]
}

pub open spec fn sr_frame(
    fm: crate::nonverbose::FrameMetadataV,
    id: u32,
    data: Seq<u8>,
    e: Endianness,
    ext: Option<crate::types::ExtendedHeaderV>,
) -> Result<Seq<u8>, DecodeError> {
    let cols = sr_frame_cols(fm, ext);
    if fm.pdus.len() == 0 {
        Ok(cols + sr_nv_fallback(id, ext))
    } else {
        match sr_pdus(e, data, 0, fm.pdus, 0) {
            Err(er) => Err(er),
            Ok((t, _off)) => Ok(cols + t),
        }
    }
}

/// Render the non-verbose part of a line.
pub fn nonverbose_text(
    id: u32,
    data: &Vec<u8>,
    e: Endianness,
    ext: &Option<ExtendedHeader>,
    fib: &Option<std::rc::Rc<FibexMetadata>>,
) -> (r: Result<Vec<u8>, DecodeError>)
    ensures
        ({
            let extv = match *ext {
                Some(ref x) => Some(x@),
                None => None,
            };
            let fibv = match *fib {
                Some(ref f) => Some(f@),
                None => None,
            };
            match r {
                Ok(t) => sr_nonverbose(id, data@, e, extv, fibv) == Ok::<Seq<u8>, DecodeError>(
                    t@,
                ) && (ext_clean(extv) && (match fibv {
                    Some(f) => crate::nonverbose::catalog_clean(f),
                    None => true,
                }) ==> nl_free(t@)),
                Err(er) => sr_nonverbose(id, data@, e, extv, fibv) == Err::<Seq<u8>, DecodeError>(
                    er,
                ),
            }
        }),
{
    let frame: Option<&FrameMetadata> = match (fib, ext) {
        (Some(f), Some(x)) => {
            let cat: &FibexMetadata = &**f;
            cat.lookup_with_key(&x.context_id, &x.application_id, id)
        },
        (Some(f), None) => {
            let cat: &FibexMetadata = &**f;
            cat.lookup(id)
        },
        _ => None,
    };
    match frame {
        Some(fm) => {
            let ghost extv: Option<crate::types::ExtendedHeaderV> = match *ext {
                Some(ref x) => Some(x@),
                None => None,
            };
            let ghost fibv: Option<crate::nonverbose::FibexV> = match *fib {
                Some(ref f) => Some(f@),
                None => None,
            };
            proof {
                assert(sr_nonverbose(id, data@, e, extv, fibv) == sr_frame(
                    fm@,
                    id,
                    data@,
                    e,
                    extv,
                ));
                match fibv {
                    Some(f) => {
                        if crate::nonverbose::catalog_clean(f) {
                            match extv {
                                Some(_x) => {
                                    crate::nonverbose::lemma_lookup_keyed_clean(
                                        f.keyed,
                                        ext->Some_0.context_id@,
                                        ext->Some_0.application_id@,
                                        id,
                                        0,
                                    );
                                },
                                None => {
                                    crate::nonverbose::lemma_lookup_plain_clean(f.plain, id, 0);
                                },
                            }
                        }
                    },
                    None => {},
                }
            }
            match frame_text(fm, id, data, e, ext) {
                Ok(t) => {
                    proof {
                        assert(sr_frame(fm@, id, data@, e, extv) == Ok::<Seq<u8>, DecodeError>(
                            t@,
                        ));
                        assert(sr_nonverbose(id, data@, e, extv, fibv) == Ok::<
                            Seq<u8>,
                            DecodeError,
                        >(t@));
                    }
                    Ok(t)
                },
                Err(er) => {
                    proof {
                        assert(sr_nonverbose(id, data@, e, extv, fibv) == Err::<
                            Seq<u8>,
                            DecodeError,
                        >(er));
                    }
                    Err(er)
                },
            }
        },
        None => {
            let mut out = ids_and_type_text(ext);
            let fb = nv_fallback_text(id, ext);
            out.extend_from_slice(fb.as_slice());
            proof {
                let extv = match *ext {
                    Some(ref x) => Some(x@),
                    None => None,
                };
                let fibv = match *fib {
                    Some(ref f) => Some(f@),
                    None => None,
                };
                assert(sr_nonverbose(id, data@, e, extv, fibv) == Ok::<Seq<u8>, DecodeError>(
                    sr_ids_and_type(extv) + sr_nv_fallback(id, extv),
                ));
                assert(out@ == sr_ids_and_type(extv) + sr_nv_fallback(id, extv));
                broadcast use lemma_nl_free_concat;

            }
            Ok(out)
        },
    }
}

/// Render the non-verbose part for a matched frame.
#[verifier::rlimit(60)]
#[verifier::spinoff_prover]
fn frame_cols_text(fm: &FrameMetadata, ext: &Option<ExtendedHeader>) -> (r: Vec<u8>)
    ensures
        r@ == sr_frame_cols(fm@, match *ext {
            Some(ref x) => Some(x@),
            None => None,
        }),
        crate::nonverbose::frame_fields_clean(fm@) && ext_clean(match *ext {
            Some(ref x) => Some(x@),
            None => None,
        }) ==> nl_free(r@),
{
    proof {
        broadcast use lemma_nl_free_concat;

    }
    let mut out: Vec<u8> = Vec::new();
    match (&fm.application_id, ext) {
        (Some(a), _) => out.extend_from_slice(a.as_slice()),
        (None, Some(x)) => out.extend_from_slice(x.application_id.as_slice()),
        (None, None) => out.push(45),
    }
    out.push(COLUMN_SENTINEL);
    match (&fm.context_id, ext) {
        (Some(c), _) => out.extend_from_slice(c.as_slice()),
        (None, Some(x)) => out.extend_from_slice(x.context_id.as_slice()),
        (None, None) => out.push(45),
    }
    out.push(COLUMN_SENTINEL);
    match &fm.message_info {
        Some(mi) => match mt_from_info(mi) {
            Some(mt) => {
                let t = message_type_text(&mt);
                out.extend_from_slice(t.as_slice());
            },
            None => match ext {
                Some(x) => {
                    let t = message_type_text(&x.message_type);
                    out.extend_from_slice(t.as_slice());
                },
                None => out.push(45),
            },
        },
        None => match ext {
            Some(x) => {
                let t = message_type_text(&x.message_type);
                out.extend_from_slice(t.as_slice());
            },
            None => out.push(45),
        },
    }
    out.push(COLUMN_SENTINEL);
    proof {
        assert(out@ =~= sr_frame_cols(fm@, match *ext {
            Some(ref x) => Some(x@),
            None => None,
        }));
    }
    out
}

/// Render the non-verbose part for a matched frame.
#[verifier::rlimit(60)]
#[verifier::spinoff_prover]
fn frame_text(
    fm: &FrameMetadata,
    id: u32,
    data: &Vec<u8>,
    e: Endianness,
    ext: &Option<ExtendedHeader>,
) -> (r: Result<Vec<u8>, DecodeError>)
    ensures
        ({
            let extv = match *ext {
                Some(ref x) => Some(x@),
                None => None,
            };
            match r {
                Ok(t) => sr_frame(fm@, id, data@, e, extv) == Ok::<Seq<u8>, DecodeError>(t@) && (
                crate::nonverbose::frame_fields_clean(fm@) && ext_clean(extv) ==> nl_free(t@)),
                Err(er) => sr_frame(fm@, id, data@, e, extv) == Err::<Seq<u8>, DecodeError>(er),
            }
        }),
{
    proof {
        broadcast use lemma_nl_free_concat;

    }
    let ghost cols_v;
    let mut out = frame_cols_text(fm, ext);
    proof {
        cols_v = out@;
    }
    if fm.pdus.len() == 0 {
        let fb = nv_fallback_text(id, ext);
        out.extend_from_slice(fb.as_slice());
        proof {
            let extv = match *ext {
                Some(ref x) => Some(x@),
                None => None,
            };
            assert(out@ =~= sr_frame(fm@, id, data@, e, extv)->Ok_0);
            assert(out@ == cols_v + fb@);
        }
        Ok(out)
    } else {
        proof {
            assert(Seq::new(fm.pdus@.len(), |k: int| fm.pdus@[k]@) =~= fm@.pdus);
        }
        match pdus_text(data.as_slice(), 0, e, &fm.pdus, 0) {
            Ok((t, _off)) => {
                out.extend_from_slice(t.as_slice());
                proof {
                    let extv = match *ext {
                        Some(ref x) => Some(x@),
                        None => None,
                    };
                    assert(out@ =~= sr_frame(fm@, id, data@, e, extv)->Ok_0);
                    assert(out@ == cols_v + t@);
                }
                Ok(out)
            },
            Err(er) => Err(er),
        }
    }
}

fn nv_fallback_text(id: u32, ext: &Option<ExtendedHeader>) -> (r: Vec<u8>)
    ensures
        r@ == sr_nv_fallback(id, match *ext {
            Some(ref x) => Some(x@),
            None => None,
        }),
        nl_free(r@),
{
    proof {
        broadcast use lemma_nl_free_concat;

        lemma_dec_digits_nl(id as nat);
    }
    let mut out: Vec<u8> = Vec::new();
    out.push(ARGUMENT_SENTINEL);
    out.push(91);
    let d = dec_u128_text(id as u128);
    out.extend_from_slice(d.as_slice());
    out.push(93);
    out.push(ARGUMENT_SENTINEL);
    out.push(32);
    let h = nv_hint_text(ext);
    out.extend_from_slice(h.as_slice());
    proof {
        assert(out@ =~= sr_nv_fallback(id, match *ext {
            Some(ref x) => Some(x@),
            None => None,
        }));
    }
    out
}

/// Text of the verbose argument list from index `i` on: each argument
/// behind an argument separator.
pub open spec fn sr_args_text(args: Seq<ArgumentV>, i: int) -> Seq<u8>
    decreases args.len() - i,
{
    if i < 0 || i >= args.len() {
        Seq::empty()
    } else {
        seq![ARGUMENT_SENTINEL] + sr_argument(args[i]) + sr_args_text(args, i + 1)
    }
}

/// Render the verbose argument list from index `i` on.
pub fn args_text(args: &Vec<Argument>, i: usize) -> (r: Vec<u8>)
    requires
        i <= args@.len(),
    ensures
        r@ == sr_args_text(Seq::new(args@.len(), |k: int| args@[k]@), i as int),
        (forall|k: int|
            i <= k < args@.len() ==> opt_clean(#[trigger] args@[k]@.name) && opt_clean(
                args@[k]@.unit,
            )) ==> nl_free(r@),
    decreases args@.len() - i,
{
    proof {
        broadcast use lemma_nl_free_concat;

    }
    let ghost av = Seq::new(args@.len(), |k: int| args@[k]@);
    if i >= args.len() {
        let empty: Vec<u8> = Vec::new();
        proof {
            assert(empty@ =~= Seq::<u8>::empty());
        }
        return empty;
    }
    let mut out: Vec<u8> = Vec::new();
    out.push(ARGUMENT_SENTINEL);
    proof {
        assert(av[i as int] == args@[i as int]@);
    }
    let at = argument_text(&args[i]);
    out.extend_from_slice(at.as_slice());
    let rest = args_text(args, i + 1);
    out.extend_from_slice(rest.as_slice());
    proof {
        assert(out@ =~= sr_args_text(av, i as int));
    }
    out
}

/// The payload column of a control message: the known service name of the
/// service value, or the placeholder.
pub open spec fn sr_control(ct: ControlType) -> Seq<u8> {
    if ct.spec_value() == 1 {
        "[set_log_level]".spec_bytes()
    } else if ct.spec_value() == 2 {
        "[set_trace_status]".spec_bytes()
    } else {
        "[Unknown CtrlCommand]".spec_bytes()
    }
}

fn control_text(ct: &ControlType) -> (r: Vec<u8>)
    ensures
        r@ == sr_control(*ct),
        nl_free(r@),
{
    proof {
        reveal_strlit("[set_log_level]");
        reveal_strlit("[set_trace_status]");
        reveal_strlit("[Unknown CtrlCommand]");
        lemma_ascii_nl_free("[set_log_level]");
        lemma_ascii_nl_free("[set_trace_status]");
        lemma_ascii_nl_free("[Unknown CtrlCommand]");
    }
    let v = ct.value();
    let mut out: Vec<u8> = Vec::new();
    if v == 1 {
        out.extend_from_slice("[set_log_level]".as_bytes());
    } else if v == 2 {
        out.extend_from_slice("[set_trace_status]".as_bytes());
    } else {
        out.extend_from_slice("[Unknown CtrlCommand]".as_bytes());
    }
    out
}

/// The whole rendered line of a message: storage columns (dashes when the
/// storage header is absent), header columns, then the payload column
/// behind its own separators.
/// The leading columns of a line: storage timestamp and ECU (or dashes),
/// then version, session, counter, timestamp and ECU of the standard
/// header, each closed by a column separator.
pub open spec fn sr_front(m: MessageV) -> Seq<u8> {
    let storage_cols: Seq<u8> = match m.storage_header {
        Some(sh) => sr_timestamp(sh.timestamp) + seq![COLUMN_SENTINEL] + sh.ecu_id,
        None => seq![45u8, COLUMN_SENTINEL, 45u8],
    };
    let header_cols: Seq<u8> = dec_digits(m.header.version as nat) + seq![COLUMN_SENTINEL] + (
    match m.header.session_id {
        Some(sid) => dec_digits(sid as nat),
        None => Seq::<u8>::empty(),
    }) + seq![COLUMN_SENTINEL] + dec_digits(m.header.message_counter as nat) + seq![
        COLUMN_SENTINEL,
    ] + (match m.header.timestamp {
        Some(t) => dec_digits(t as nat),
        None => Seq::<u8>::empty(),
    }) + seq![COLUMN_SENTINEL] + (match m.header.ecu_id {
        Some(id) => id,
        None => Seq::<u8>::empty(),
    }) + seq![COLUMN_SENTINEL];
    storage_cols + seq![COLUMN_SENTINEL] + header_cols
}

pub open spec fn sr_message(m: MessageV, fib: Option<crate::nonverbose::FibexV>) -> Result<
    Seq<u8>,
    DecodeError,
> {
    let front = sr_front(m);
    match m.payload {
        PayloadContentV::Verbose(args) => Ok(
            front + sr_ids_and_type(m.extended_header) + sr_args_text(args, 0),
        ),
        PayloadContentV::ControlMsg(ct, _data) => Ok(
            front + sr_ids_and_type(m.extended_header) + sr_control(ct),
        ),
        PayloadContentV::NonVerbose(id, data) => match sr_nonverbose(
            id,
            data,
            m.header.endianness,
            m.extended_header,
            fib,
        ) {
            Ok(t) => Ok(front + t),
            Err(er) => Err(er),
        },
    }
}

/// Render the leading columns of a line.
#[verifier::rlimit(100)]
#[verifier::spinoff_prover]
fn front_cols_text(m: &Message) -> (r: Vec<u8>)
    ensures
        r@ == sr_front(m@),
        (match m@.storage_header {
            Some(sh) => crate::types::display_clean(sh.ecu_id),
            None => true,
        }) && (match m@.header.ecu_id {
            Some(id) => crate::types::display_clean(id),
            None => true,
        }) ==> nl_free(r@),
{
    proof {
        broadcast use lemma_nl_free_concat;

        lemma_dec_digits_nl(m@.header.version as nat);
        lemma_dec_digits_nl(m@.header.message_counter as nat);
        match m@.header.session_id {
            Some(sid) => {
                lemma_dec_digits_nl(sid as nat);
            },
            None => {},
        }
        match m@.header.timestamp {
            Some(t) => {
                lemma_dec_digits_nl(t as nat);
            },
            None => {},
        }
    }
    let mut out: Vec<u8> = Vec::new();
    match &m.storage_header {
        Some(sh) => {
            let tt = timestamp_text(&sh.timestamp);
            out.extend_from_slice(tt.as_slice());
            out.push(COLUMN_SENTINEL);
            out.extend_from_slice(sh.ecu_id.as_slice());
        },
        None => {
            out.push(45);
            out.push(COLUMN_SENTINEL);
            out.push(45);
        },
    }
    out.push(COLUMN_SENTINEL);
    let d1 = dec_u128_text(m.header.version as u128);
    out.extend_from_slice(d1.as_slice());
    out.push(COLUMN_SENTINEL);
    match &m.header.session_id {
        Some(sid) => {
            let d = dec_u128_text(*sid as u128);
            out.extend_from_slice(d.as_slice());
        },
        None => {},
    }
    out.push(COLUMN_SENTINEL);
    let d2 = dec_u128_text(m.header.message_counter as u128);
    out.extend_from_slice(d2.as_slice());
    out.push(COLUMN_SENTINEL);
    match &m.header.timestamp {
        Some(t) => {
            let d = dec_u128_text(*t as u128);
            out.extend_from_slice(d.as_slice());
        },
        None => {},
    }
    out.push(COLUMN_SENTINEL);
    match &m.header.ecu_id {
        Some(id) => {
            out.extend_from_slice(id.as_slice());
        },
        None => {},
    }
    out.push(COLUMN_SENTINEL);
    proof {
        assert(out@ =~= sr_front(m@));
    }
    out
}

/// Render a message as one line (without the tag prefix). A non-verbose
/// payload that undershoots its frame's signals fails with
/// `NonVerboseTruncated`.
///
/// One message is always one output line: for a well-formed message (and,
/// when a catalog is attached, a clean one), the rendered line holds no
/// raw newline byte — every newline inside a string value was substituted
/// by the newline sentinel, and no other field may carry one.
#[verifier::rlimit(100)]
#[verifier::spinoff_prover]
pub fn render_message(m: &Message) -> (r: Result<Vec<u8>, DecodeError>)
    ensures
        ({
            let fibv = match m.fibex_metadata {
                Some(ref f) => Some(f@),
                None => None,
            };
            match r {
                Ok(t) => sr_message(m@, fibv) == Ok::<Seq<u8>, DecodeError>(t@) && (m@.wf() && (
                match fibv {
                    Some(f) => crate::nonverbose::catalog_clean(f),
                    None => true,
                }) ==> nl_free(t@)),
                Err(er) => sr_message(m@, fibv) == Err::<Seq<u8>, DecodeError>(er),
            }
        }),
{
    proof {
        broadcast use lemma_nl_free_concat;

    }
    let ghost front_v;
    let mut out: Vec<u8> = front_cols_text(m);
    proof {
        front_v = out@;
    }
    let ghost fibv: Option<crate::nonverbose::FibexV> = match m.fibex_metadata {
        Some(ref f) => Some(f@),
        None => None,
    };
    match &m.payload.payload_content {
        PayloadContent::Verbose(args) => {
            let it = ids_and_type_text(&m.extended_header);
            out.extend_from_slice(it.as_slice());
            let at = args_text(args, 0);
            out.extend_from_slice(at.as_slice());
            proof {
                assert(out@ =~= sr_message(m@, fibv)->Ok_0);
                if m@.wf() {
                    let av = Seq::new(args@.len(), |k: int| args@[k]@);
                    assert(av =~= m@.payload->Verbose_0);
                    assert forall|k: int|
                        0 <= k < args@.len() implies opt_clean(#[trigger] args@[k]@.name)
                        && opt_clean(args@[k]@.unit) by {
                        assert(av[k] == args@[k]@);
                        assert((m@.payload->Verbose_0)[k].wf());
                    }
                    assert(out@ == front_v + it@ + at@);
                }
            }
            Ok(out)
        },
        PayloadContent::ControlMsg(ct, _data) => {
            let it = ids_and_type_text(&m.extended_header);
            out.extend_from_slice(it.as_slice());
            let c = control_text(ct);
            out.extend_from_slice(c.as_slice());
            proof {
                assert(out@ =~= sr_message(m@, fibv)->Ok_0);
                if m@.wf() {
                    assert(out@ == front_v + it@ + c@);
                }
            }
            Ok(out)
        },
        PayloadContent::NonVerbose(id, data) => {
            match nonverbose_text(
                *id,
                data,
                m.header.endianness,
                &m.extended_header,
                &m.fibex_metadata,
            ) {
                Ok(t) => {
                    out.extend_from_slice(t.as_slice());
                    proof {
                        assert(out@ =~= sr_message(m@, fibv)->Ok_0);
                        if m@.wf() {
                            assert(out@ == front_v + t@);
                        }
                    }
                    Ok(out)
                },
                Err(er) => Err(er),
            }
        },
    }
}

/// The full output line for a message: tag, tab, decimal line number, tab,
/// the message rendering, newline.
pub open spec fn sr_tagged_line(tag: Seq<u8>, line_nr: u64, body: Seq<u8>) -> Seq<u8> {
    tag + seq![9u8] + dec_digits(line_nr as nat) + seq![9u8] + body + seq![10u8]
}

/// Build the tagged output line around a rendered message body.
pub fn tagged_line(tag: &Vec<u8>, line_nr: u64, body: &Vec<u8>) -> (r: Vec<u8>)
    ensures
        r@ == sr_tagged_line(tag@, line_nr, body@),
{
    let mut out: Vec<u8> = Vec::new();
    out.extend_from_slice(tag.as_slice());
    out.push(9);
    let d = dec_u64_text(line_nr);
    out.extend_from_slice(d.as_slice());
    out.push(9);
    out.extend_from_slice(body.as_slice());
    out.push(10);
    proof {
        assert(out@ =~= sr_tagged_line(tag@, line_nr, body@));
    }
    out
}

/// No byte of the text is a raw newline.
pub open spec fn nl_free(s: Seq<u8>) -> bool {
    forall|i: int| 0 <= i < s.len() ==> s[i] != 10u8
}

/// The bytes of an ASCII text without newline characters hold no newline
/// byte.
proof fn lemma_ascii_nl_free(s: &str)
    requires
        vstd::utf8::is_ascii_chars(s@),
        forall|i: int| 0 <= i < s@.len() ==> s@[i] != '\n',
    ensures
        nl_free(s.spec_bytes()),
{
    broadcast use vstd::string::is_ascii_spec_bytes;
    broadcast use vstd::utf8::char_u32_cast;

    assert(vstd::string::is_ascii(s));
    assert forall|j: int| 0 <= j < s.spec_bytes().len() implies s.spec_bytes()[j] != 10u8 by {
        assert(s.spec_bytes()[j] == s@[j] as u8);
        let c = s@[j];
        if c as u8 == 10u8 {
            assert(c as u32 <= 0x7f);
            assert(c as u32 == 10) by {
                assert(c as u8 == (c as u32) as u8);
            }
            assert((10u32 as char) == c);
            assert(('\n' as u32) == 10);
            assert((10u32 as char) == '\n');
            assert(false);
        }
    }
}

/// Joining newline-free texts keeps them newline-free.
broadcast proof fn lemma_nl_free_concat(a: Seq<u8>, b: Seq<u8>)
    ensures
        nl_free(a) && nl_free(b) ==> #[trigger] nl_free(a + b),
{
    if nl_free(a) && nl_free(b) {
        assert forall|i: int| 0 <= i < (a + b).len() implies (a + b)[i] != 10u8 by {
            if i < a.len() {
                assert((a + b)[i] == a[i]);
            } else {
                assert((a + b)[i] == b[i - a.len()]);
            }
        }
    }
}

/// Decimal digits hold no newline byte.
proof fn lemma_dec_digits_nl(n: nat)
    ensures
        nl_free(dec_digits(n)),
    decreases n,
{
    if n >= 10 {
        lemma_dec_digits_nl(n / 10);
        assert forall|i: int| 0 <= i < dec_digits(n).len() implies dec_digits(n)[i] != 10u8 by {
            if i < dec_digits(n / 10).len() {
                assert(dec_digits(n)[i] == dec_digits(n / 10)[i]);
            } else {
                assert(dec_digits(n)[i] == (48 + n % 10) as u8);
            }
        }
    }
}

/// A signed decimal text holds no newline byte.
proof fn lemma_dec_signed_nl(n: int)
    ensures
        nl_free(dec_signed(n)),
{
    if n < 0 {
        lemma_dec_digits_nl((-n) as nat);
        assert forall|i: int| 0 <= i < dec_signed(n).len() implies dec_signed(n)[i] != 10u8 by {
            if i == 0 {
                assert(dec_signed(n)[0] == 45u8);
            } else {
                assert(dec_signed(n)[i] == dec_digits((-n) as nat)[i - 1]);
            }
        }
    } else {
        lemma_dec_digits_nl(n as nat);
    }
}

/// A hex dump holds no newline byte.
proof fn lemma_hex_items_nl(s: Seq<u8>, i: int)
    ensures
        nl_free(hex_items(s, i)),
    decreases s.len() - i,
{
    broadcast use lemma_nl_free_concat;

    if 0 <= i < s.len() {
        lemma_hex_items_nl(s, i + 1);
        let sep: Seq<u8> = if i == 0 {
            Seq::empty()
        } else {
            seq![44u8, 32u8]
        };
        assert(nl_free(sep));
        assert(nl_free(hex_byte(s[i])));
        assert(hex_items(s, i) == sep + hex_byte(s[i]) + hex_items(s, i + 1));
    }
}

proof fn lemma_hex_dump_nl(s: Seq<u8>)
    ensures
        nl_free(hex_dump(s)),
{
    broadcast use lemma_nl_free_concat;

    lemma_hex_items_nl(s, 0);
    assert(nl_free(seq![91u8]));
    assert(nl_free(seq![93u8]));
}

/// A rendered string value holds no newline byte.
proof fn lemma_string_val_nl(s: Seq<u8>)
    ensures
        nl_free(sr_string_val(s)),
{
    lemma_rendered_string_no_newline(s);
}

/// A rendered message type holds no newline byte.
proof fn lemma_message_type_nl(t: MessageType)
    ensures
        nl_free(sr_message_type(t)),
{
    broadcast use lemma_nl_free_concat;

    reveal_strlit("FATAL");
    reveal_strlit("Error");
    reveal_strlit("WARN");
    reveal_strlit("INFO");
    reveal_strlit("DEBUG");
    reveal_strlit("VERBOSE");
    reveal_strlit("INVALID (0x");
    reveal_strlit(")");
    reveal_strlit("VARIABLE");
    reveal_strlit("FUNC_IN");
    reveal_strlit("FUNC_OUT");
    reveal_strlit("STATE");
    reveal_strlit("VFB");
    reveal_strlit("invalid(");
    reveal_strlit("INVALID");
    reveal_strlit("IPC");
    reveal_strlit("CAN");
    reveal_strlit("FLEXRAY");
    reveal_strlit("MOST");
    reveal_strlit("ETHERNET");
    reveal_strlit("SOMEIP");
    reveal_strlit("USERDEFINED(");
    reveal_strlit("REQ");
    reveal_strlit("RES");
    reveal_strlit("Unkown MSTP (");
    reveal_strlit(", ");
    lemma_ascii_nl_free("FATAL");
    lemma_ascii_nl_free("Error");
    lemma_ascii_nl_free("WARN");
    lemma_ascii_nl_free("INFO");
    lemma_ascii_nl_free("DEBUG");
    lemma_ascii_nl_free("VERBOSE");
    lemma_ascii_nl_free("INVALID (0x");
    lemma_ascii_nl_free(")");
    lemma_ascii_nl_free("VARIABLE");
    lemma_ascii_nl_free("FUNC_IN");
    lemma_ascii_nl_free("FUNC_OUT");
    lemma_ascii_nl_free("STATE");
    lemma_ascii_nl_free("VFB");
    lemma_ascii_nl_free("invalid(");
    lemma_ascii_nl_free("INVALID");
    lemma_ascii_nl_free("IPC");
    lemma_ascii_nl_free("CAN");
    lemma_ascii_nl_free("FLEXRAY");
    lemma_ascii_nl_free("MOST");
    lemma_ascii_nl_free("ETHERNET");
    lemma_ascii_nl_free("SOMEIP");
    lemma_ascii_nl_free("USERDEFINED(");
    lemma_ascii_nl_free("REQ");
    lemma_ascii_nl_free("RES");
    lemma_ascii_nl_free("Unkown MSTP (");
    lemma_ascii_nl_free(", ");
    match t {
        MessageType::Log(l) => match l {
            LogLevel::Invalid(v) => {
                assert(nl_free(hex_byte(v)));
            },
            _ => {},
        },
        MessageType::ApplicationTrace(a) => match a {
            ApplicationTraceType::Invalid(n) => {
                lemma_dec_digits_nl(n as nat);
            },
            _ => {},
        },
        MessageType::NetworkTrace(n) => match n {
            NetworkTraceType::UserDefined(v) => {
                lemma_dec_digits_nl(v as nat);
            },
            _ => {},
        },
        MessageType::Control(c) => match c {
            ControlType::Unknown(n) => {
                lemma_dec_digits_nl(n as nat);
            },
            _ => {},
        },
        MessageType::Unknown(a, b) => {
            lemma_dec_digits_nl(a as nat);
            lemma_dec_digits_nl(b as nat);
        },
    }
}

/// The identifiers of an extended header, when present, can stand
/// verbatim in a rendered line.
pub open spec fn ext_clean(x: Option<crate::types::ExtendedHeaderV>) -> bool {
    match x {
        Some(h) => crate::types::display_clean(h.application_id) && crate::types::display_clean(
            h.context_id,
        ),
        None => true,
    }
}

/// A name or unit that may stand verbatim in a line.
pub open spec fn opt_clean(t: Option<Seq<u8>>) -> bool {
    match t {
        Some(s) => crate::types::display_clean(s),
        None => true,
    }
}

} // verus!
