//! Codec for one verbose argument: type descriptor, optional variable
//! info (name and unit), optional fixed-point block, and the value bytes,
//! all in the message's byte order.
use vstd::prelude::*;

verus! {

use vstd::utf8::valid_utf8;
use vstd::slice::slice_subrange;
use crate::types::{
    Argument, ArgumentV, DecodeError, Endianness, FixedPoint, FixedPointValue, FloatWidth,
    TypeInfo, TypeInfoKind, TypeLength, Value, ValueV,
};
use crate::wire::{
    lemma_bytes_add_assoc,
    enc_u16, dec_u16, put_u16, get_u16, enc_u32, dec_u32, put_u32, get_u32, enc_u64, dec_u64,
    put_u64, get_u64, enc_u128, dec_u128, put_u128, get_u128, i8_bits, i8_of_bits, i16_bits,
    i16_of_bits, i32_bits, i32_of_bits, i64_bits, i64_of_bits, i128_bits, i128_of_bits,
    i8_to_bits, i8_from_bits, i16_to_bits, i16_from_bits, i32_to_bits, i32_from_bits,
    i64_to_bits, i64_from_bits, i128_to_bits, i128_from_bits, trim_at_nul, take_to_nul,
    lemma_trim_terminated, lemma_u16_rt, lemma_u32_rt, lemma_u64_rt, lemma_u128_rt,
    lemma_i8_bits_rt, lemma_i16_bits_rt, lemma_i32_bits_rt, lemma_i64_bits_rt,
    lemma_i128_bits_rt,
};
use crate::typeinfo::{enc_type_info, spec_ti_word, spec_ti_of_word, put_type_info,
    get_type_info, lemma_type_info_round_trip};

/// Body of a name or unit field: the text and its NUL terminator; an
/// absent text is a lone NUL.
pub open spec fn enc_opt_text(t: Option<Seq<u8>>) -> Seq<u8> {
    match t {
        Some(s) => s + seq![0u8],
        None => seq![0u8],
    }
}

/// Value of the length field in front of a name or unit: text length plus
/// one for the terminator; one when absent.
pub open spec fn opt_text_len(t: Option<Seq<u8>>) -> int {
    match t {
        Some(s) => s.len() as int + 1,
        None => 1,
    }
}

/// The variable-info block of a numeric argument: both length fields, then
/// both terminated texts.
pub open spec fn enc_var_block(e: Endianness, name: Option<Seq<u8>>, unit: Option<Seq<u8>>)
    -> Seq<u8> {
    enc_u16(e, opt_text_len(name) as u16) + enc_u16(e, opt_text_len(unit) as u16)
        + enc_opt_text(name) + enc_opt_text(unit)
}

/// The fixed-point block: quantization bits, then the offset in the
/// descriptor's width.
pub open spec fn enc_fixed_block(e: Endianness, fp: FixedPoint) -> Seq<u8> {
    enc_u32(e, fp.quantization_bits) + match fp.offset {
        FixedPointValue::I32(v) => enc_u32(e, i32_bits(v)),
        FixedPointValue::I64(v) => enc_u64(e, i64_bits(v)),
    }
}

/// Bytes of a numeric or boolean value (string and raw values are encoded
/// by their own layouts).
pub open spec fn enc_num_value(e: Endianness, v: ValueV) -> Seq<u8> {
    match v {
        ValueV::Bool(b) => seq![if b { 1u8 } else { 0u8 }],
        ValueV::U8(x) => seq![x],
        ValueV::U16(x) => enc_u16(e, x),
        ValueV::U32(x) => enc_u32(e, x),
        ValueV::U64(x) => enc_u64(e, x),
        ValueV::U128(x) => enc_u128(e, x),
        ValueV::I8(x) => seq![i8_bits(x)],
        ValueV::I16(x) => enc_u16(e, i16_bits(x)),
        ValueV::I32(x) => enc_u32(e, i32_bits(x)),
        ValueV::I64(x) => enc_u64(e, i64_bits(x)),
        ValueV::I128(x) => enc_u128(e, i128_bits(x)),
        ValueV::F32(bits) => enc_u32(e, bits),
        ValueV::F64(bits) => enc_u64(e, bits),
        ValueV::StringVal(_) => Seq::empty(),
        ValueV::Raw(_) => Seq::empty(),
    }
}

/// Wire image of one argument.
pub open spec fn enc_argument(e: Endianness, a: ArgumentV) -> Seq<u8>
    recommends
        a.wf(),
{
    let ti = enc_type_info(e, a.type_info);
    match a.type_info.kind {
        TypeInfoKind::StringType => match a.value {
            ValueV::StringVal(s) => ti + enc_u16(e, (s.len() + 1) as u16) + (
            if a.type_info.has_variable_info {
                enc_u16(e, opt_text_len(a.name) as u16) + enc_opt_text(a.name)
            } else {
                Seq::empty()
            }) + s + seq![0u8],
            _ => Seq::empty(),
        },
        TypeInfoKind::Raw => match a.value {
            ValueV::Raw(r) => ti + enc_u16(e, r.len() as u16) + (
            if a.type_info.has_variable_info {
                enc_u16(e, opt_text_len(a.name) as u16) + enc_opt_text(a.name)
            } else {
                Seq::empty()
            }) + r,
            _ => Seq::empty(),
        },
        _ => ti + (if a.type_info.has_variable_info {
            enc_var_block(e, a.name, a.unit)
        } else {
            Seq::empty()
        }) + (match a.fixed_point {
            Some(fp) => enc_fixed_block(e, fp),
            None => Seq::empty(),
        }) + enc_num_value(e, a.value),
    }
}

// ---------------------------------------------------------------------
// Spec-level decoding. Each function consumes from `b` at `pos` and gives
// back the decoded piece with the next position, or the exact error.
// ---------------------------------------------------------------------

/// Read a counted, NUL-terminated text (a name or unit): empty text means
/// absent.
pub open spec fn sd_counted_text(e: Endianness, b: Seq<u8>, pos: int) -> Result<
    (Option<Seq<u8>>, int),
    DecodeError,
> {
    if pos + 2 > b.len() {
        Err(DecodeError::ArgumentTruncated)
    } else {
        let n = dec_u16(e, b.subrange(pos, pos + 2)) as int;
        let p = pos + 2;
        if p + n > b.len() {
            Err(DecodeError::ArgumentTruncated)
        } else {
            let t = trim_at_nul(b.subrange(p, p + n));
            if !valid_utf8(t) {
                Err(DecodeError::InvalidStringData)
            } else if t.len() == 0 {
                Ok((None, p + n))
            } else {
                Ok((Some(t), p + n))
            }
        }
    }
}

/// Read the variable-info block of a numeric argument: both length fields
/// first, then both texts.
pub open spec fn sd_var_block(e: Endianness, b: Seq<u8>, pos: int) -> Result<
    (Option<Seq<u8>>, Option<Seq<u8>>, int),
    DecodeError,
> {
    if pos + 4 > b.len() {
        Err(DecodeError::ArgumentTruncated)
    } else {
        let nlen = dec_u16(e, b.subrange(pos, pos + 2)) as int;
        let ulen = dec_u16(e, b.subrange(pos + 2, pos + 4)) as int;
        let p = pos + 4;
        if p + nlen + ulen > b.len() {
            Err(DecodeError::ArgumentTruncated)
        } else {
            let name = trim_at_nul(b.subrange(p, p + nlen));
            let unit = trim_at_nul(b.subrange(p + nlen, p + nlen + ulen));
            if !valid_utf8(name) || !valid_utf8(unit) {
                Err(DecodeError::InvalidStringData)
            } else {
                Ok(
                    (
                        if name.len() == 0 {
                            None
                        } else {
                            Some(name)
                        },
                        if unit.len() == 0 {
                            None
                        } else {
                            Some(unit)
                        },
                        p + nlen + ulen,
                    ),
                )
            }
        }
    }
}

/// Read the fixed-point block in the given width.
pub open spec fn sd_fixed_block(e: Endianness, b: Seq<u8>, pos: int, w: FloatWidth) -> Result<
    (FixedPoint, int),
    DecodeError,
> {
    let osize: int = w.spec_bytes();
    if pos + 4 + osize > b.len() {
        Err(DecodeError::ArgumentTruncated)
    } else {
        let q = dec_u32(e, b.subrange(pos, pos + 4));
        let offset = match w {
            FloatWidth::Width32 => FixedPointValue::I32(
                i32_of_bits(dec_u32(e, b.subrange(pos + 4, pos + 8))),
            ),
            FloatWidth::Width64 => FixedPointValue::I64(
                i64_of_bits(dec_u64(e, b.subrange(pos + 4, pos + 12))),
            ),
        };
        Ok((FixedPoint { quantization_bits: q, offset }, pos + 4 + osize))
    }
}

/// Read the value bytes of a numeric or boolean kind.
pub open spec fn sd_num_value(e: Endianness, b: Seq<u8>, pos: int, kind: TypeInfoKind) -> Result<
    (ValueV, int),
    DecodeError,
> {
    match kind {
        TypeInfoKind::Bool => if pos + 1 > b.len() {
            Err(DecodeError::ArgumentTruncated)
        } else {
            Ok((ValueV::Bool(b[pos] != 0u8), pos + 1))
        },
        TypeInfoKind::Signed(l) => {
            let n = l.spec_bytes();
            if pos + n > b.len() {
                Err(DecodeError::ArgumentTruncated)
            } else {
                let v = match l {
                    TypeLength::BitLength8 => ValueV::I8(i8_of_bits(b[pos])),
                    TypeLength::BitLength16 => ValueV::I16(
                        i16_of_bits(dec_u16(e, b.subrange(pos, pos + 2))),
                    ),
                    TypeLength::BitLength32 => ValueV::I32(
                        i32_of_bits(dec_u32(e, b.subrange(pos, pos + 4))),
                    ),
                    TypeLength::BitLength64 => ValueV::I64(
                        i64_of_bits(dec_u64(e, b.subrange(pos, pos + 8))),
                    ),
                    TypeLength::BitLength128 => ValueV::I128(
                        i128_of_bits(dec_u128(e, b.subrange(pos, pos + 16))),
                    ),
                };
                Ok((v, pos + n))
            }
        },
        TypeInfoKind::Unsigned(l) => {
            let n = l.spec_bytes();
            if pos + n > b.len() {
                Err(DecodeError::ArgumentTruncated)
            } else {
                let v = match l {
                    TypeLength::BitLength8 => ValueV::U8(b[pos]),
                    TypeLength::BitLength16 => ValueV::U16(dec_u16(e, b.subrange(pos, pos + 2))),
                    TypeLength::BitLength32 => ValueV::U32(dec_u32(e, b.subrange(pos, pos + 4))),
                    TypeLength::BitLength64 => ValueV::U64(dec_u64(e, b.subrange(pos, pos + 8))),
                    TypeLength::BitLength128 => ValueV::U128(
                        dec_u128(e, b.subrange(pos, pos + 16)),
                    ),
                };
                Ok((v, pos + n))
            }
        },
        TypeInfoKind::SignedFixedPoint(w) => {
            let n = w.spec_bytes();
            if pos + n > b.len() {
                Err(DecodeError::ArgumentTruncated)
            } else {
                let v = match w {
                    FloatWidth::Width32 => ValueV::I32(
                        i32_of_bits(dec_u32(e, b.subrange(pos, pos + 4))),
                    ),
                    FloatWidth::Width64 => ValueV::I64(
                        i64_of_bits(dec_u64(e, b.subrange(pos, pos + 8))),
                    ),
                };
                Ok((v, pos + n))
            }
        },
        TypeInfoKind::UnsignedFixedPoint(w) => {
            let n = w.spec_bytes();
            if pos + n > b.len() {
                Err(DecodeError::ArgumentTruncated)
            } else {
                let v = match w {
                    FloatWidth::Width32 => ValueV::U32(dec_u32(e, b.subrange(pos, pos + 4))),
                    FloatWidth::Width64 => ValueV::U64(dec_u64(e, b.subrange(pos, pos + 8))),
                };
                Ok((v, pos + n))
            }
        },
        TypeInfoKind::Float(w) => {
            let n = w.spec_bytes();
            if pos + n > b.len() {
                Err(DecodeError::ArgumentTruncated)
            } else {
                let v = match w {
                    FloatWidth::Width32 => ValueV::F32(dec_u32(e, b.subrange(pos, pos + 4))),
                    FloatWidth::Width64 => ValueV::F64(dec_u64(e, b.subrange(pos, pos + 8))),
                };
                Ok((v, pos + n))
            }
        },
        _ => Err(DecodeError::ArgumentTypeMismatch),
    }
}

/// Read a whole numeric or boolean argument after its descriptor.
pub open spec fn sd_num_arg(e: Endianness, b: Seq<u8>, pos: int, ti: TypeInfo) -> Result<
    (ArgumentV, int),
    DecodeError,
> {
    let vb: Result<(Option<Seq<u8>>, Option<Seq<u8>>, int), DecodeError> =
        if ti.has_variable_info {
        sd_var_block(e, b, pos)
    } else {
        Ok((None, None, pos))
    };
    match vb {
        Err(er) => Err(er),
        Ok((name, unit, p2)) => {
            let fb: Result<(Option<FixedPoint>, int), DecodeError> = match ti.kind {
                TypeInfoKind::SignedFixedPoint(w) | TypeInfoKind::UnsignedFixedPoint(w) => {
                    match sd_fixed_block(e, b, p2, w) {
                        Err(er) => Err(er),
                        Ok((fp, p3)) => Ok((Some(fp), p3)),
                    }
                },
                _ => Ok((None, p2)),
            };
            match fb {
                Err(er) => Err(er),
                Ok((fp, p3)) => match sd_num_value(e, b, p3, ti.kind) {
                    Err(er) => Err(er),
                    Ok((v, p4)) => Ok(
                        (ArgumentV { type_info: ti, name, unit, fixed_point: fp, value: v }, p4),
                    ),
                },
            }
        },
    }
}

/// Read a string argument after its descriptor: counted length first, then
/// the optional name field, then the terminated text.
pub open spec fn sd_string_arg(e: Endianness, b: Seq<u8>, pos: int, ti: TypeInfo) -> Result<
    (ArgumentV, int),
    DecodeError,
> {
    if pos + 2 > b.len() {
        Err(DecodeError::ArgumentTruncated)
    } else {
        let slen = dec_u16(e, b.subrange(pos, pos + 2)) as int;
        let p = pos + 2;
        let nm: Result<(Option<Seq<u8>>, int), DecodeError> = if ti.has_variable_info {
            sd_counted_text(e, b, p)
        } else {
            Ok((None, p))
        };
        match nm {
            Err(er) => Err(er),
            Ok((name, p2)) => if p2 + slen > b.len() {
                Err(DecodeError::ArgumentTruncated)
            } else {
                let s = trim_at_nul(b.subrange(p2, p2 + slen));
                if !valid_utf8(s) {
                    Err(DecodeError::InvalidStringData)
                } else {
                    Ok(
                        (
                            ArgumentV {
                                type_info: ti,
                                name,
                                unit: None,
                                fixed_point: None,
                                value: ValueV::StringVal(s),
                            },
                            p2 + slen,
                        ),
                    )
                }
            },
        }
    }
}

/// Read a raw argument after its descriptor: counted length, optional name
/// field, then exactly that many bytes.
pub open spec fn sd_raw_arg(e: Endianness, b: Seq<u8>, pos: int, ti: TypeInfo) -> Result<
    (ArgumentV, int),
    DecodeError,
> {
    if pos + 2 > b.len() {
        Err(DecodeError::ArgumentTruncated)
    } else {
        let rlen = dec_u16(e, b.subrange(pos, pos + 2)) as int;
        let p = pos + 2;
        let nm: Result<(Option<Seq<u8>>, int), DecodeError> = if ti.has_variable_info {
            sd_counted_text(e, b, p)
        } else {
            Ok((None, p))
        };
        match nm {
            Err(er) => Err(er),
            Ok((name, p2)) => if p2 + rlen > b.len() {
                Err(DecodeError::ArgumentTruncated)
            } else {
                Ok(
                    (
                        ArgumentV {
                            type_info: ti,
                            name,
                            unit: None,
                            fixed_point: None,
                            value: ValueV::Raw(b.subrange(p2, p2 + rlen)),
                        },
                        p2 + rlen,
                    ),
                )
            },
        }
    }
}

/// Read one whole argument at `pos`.
pub open spec fn sd_argument(e: Endianness, b: Seq<u8>, pos: int) -> Result<
    (ArgumentV, int),
    DecodeError,
> {
    if pos + 4 > b.len() {
        Err(DecodeError::ArgumentTruncated)
    } else {
        match spec_ti_of_word(dec_u32(e, b.subrange(pos, pos + 4))) {
            None => Err(DecodeError::InvalidTypeInfo),
            Some(ti) => match ti.kind {
                TypeInfoKind::StringType => sd_string_arg(e, b, pos + 4, ti),
                TypeInfoKind::Raw => sd_raw_arg(e, b, pos + 4, ti),
                _ => sd_num_arg(e, b, pos + 4, ti),
            },
        }
    }
}


// ---------------------------------------------------------------------
// Executable encoding.
// ---------------------------------------------------------------------

/// Ghost image of an optional byte vector.
pub open spec fn opt_view(t: Option<Vec<u8>>) -> Option<Seq<u8>> {
    match t {
        Some(v) => Some(v@),
        None => None,
    }
}

/// Length field value of a name or unit.
fn opt_text_len_val(t: &Option<Vec<u8>>) -> (r: u16)
    requires
        crate::types::opt_text_wf(opt_view(*t)),
    ensures
        r == opt_text_len(opt_view(*t)),
{
    match t {
        Some(s) => (s.len() + 1) as u16,
        None => 1,
    }
}

/// Append a name or unit body: the text, then the NUL terminator.
fn put_opt_text(buf: &mut Vec<u8>, t: &Option<Vec<u8>>)
    ensures
        final(buf)@ == old(buf)@ + enc_opt_text(opt_view(*t)),
{
    match t {
        Some(s) => {
            buf.extend_from_slice(s.as_slice());
            buf.push(0);
            assert(buf@ =~= old(buf)@ + (s@ + seq![0u8]));
        },
        None => {
            buf.push(0);
            assert(buf@ =~= old(buf)@ + seq![0u8]);
        },
    }
}

/// Append the fixed-point block.
fn put_fixed_block(buf: &mut Vec<u8>, e: Endianness, fp: &FixedPoint)
    ensures
        final(buf)@ == old(buf)@ + enc_fixed_block(e, *fp),
{
    put_u32(buf, e, fp.quantization_bits);
    match fp.offset {
        FixedPointValue::I32(v) => {
            put_u32(buf, e, i32_to_bits(v));
        },
        FixedPointValue::I64(v) => {
            put_u64(buf, e, i64_to_bits(v));
        },
    }
    assert(buf@ =~= old(buf)@ + enc_fixed_block(e, *fp));
}

/// Append the body of a string argument: counted length, optional name
/// field, the text, and its terminator.
#[verifier::spinoff_prover]
fn put_string_body(buf: &mut Vec<u8>, e: Endianness, vari: bool, name: &Option<Vec<u8>>,
    s: &Vec<u8>)
    requires
        crate::types::opt_text_wf(opt_view(*name)),
        s@.len() + 1 <= 0xFFFF,
    ensures
        final(buf)@ == old(buf)@ + enc_u16(e, (s@.len() + 1) as u16) + (if vari {
            enc_u16(e, opt_text_len(opt_view(*name)) as u16) + enc_opt_text(opt_view(*name))
        } else {
            Seq::empty()
        }) + s@ + seq![0u8],
{
    put_u16(buf, e, (s.len() + 1) as u16);
    if vari {
        let nl = opt_text_len_val(name);
        put_u16(buf, e, nl);
        put_opt_text(buf, name);
    }
    buf.extend_from_slice(s.as_slice());
    buf.push(0);
    assert(buf@ =~= old(buf)@ + enc_u16(e, (s@.len() + 1) as u16) + (if vari {
        enc_u16(e, opt_text_len(opt_view(*name)) as u16) + enc_opt_text(opt_view(*name))
    } else {
        Seq::empty()
    }) + s@ + seq![0u8]);
}

/// Append the body of a raw argument: counted length, optional name field,
/// then the bytes with no terminator.
#[verifier::spinoff_prover]
fn put_raw_body(buf: &mut Vec<u8>, e: Endianness, vari: bool, name: &Option<Vec<u8>>,
    r: &Vec<u8>)
    requires
        crate::types::opt_text_wf(opt_view(*name)),
        r@.len() <= 0xFFFF,
    ensures
        final(buf)@ == old(buf)@ + enc_u16(e, r@.len() as u16) + (if vari {
            enc_u16(e, opt_text_len(opt_view(*name)) as u16) + enc_opt_text(opt_view(*name))
        } else {
            Seq::empty()
        }) + r@,
{
    put_u16(buf, e, r.len() as u16);
    if vari {
        let nl = opt_text_len_val(name);
        put_u16(buf, e, nl);
        put_opt_text(buf, name);
    }
    buf.extend_from_slice(r.as_slice());
    assert(buf@ =~= old(buf)@ + enc_u16(e, r@.len() as u16) + (if vari {
        enc_u16(e, opt_text_len(opt_view(*name)) as u16) + enc_opt_text(opt_view(*name))
    } else {
        Seq::empty()
    }) + r@);
}

/// Append the body of a numeric or boolean argument: optional variable
/// info, optional fixed-point block, then the value bytes.
#[verifier::spinoff_prover]
fn put_numeric_body(buf: &mut Vec<u8>, e: Endianness, vari: bool, name: &Option<Vec<u8>>,
    unit: &Option<Vec<u8>>, fixed_point: &Option<FixedPoint>, value: &Value)
    requires
        crate::types::opt_text_wf(opt_view(*name)),
        crate::types::opt_text_wf(opt_view(*unit)),
        !(value@ is StringVal),
        !(value@ is Raw),
    ensures
        final(buf)@ == old(buf)@ + (if vari {
            enc_var_block(e, opt_view(*name), opt_view(*unit))
        } else {
            Seq::empty()
        }) + (match *fixed_point {
            Some(fp) => enc_fixed_block(e, fp),
            None => Seq::empty(),
        }) + enc_num_value(e, value@),
{
    if vari {
        let nl = opt_text_len_val(name);
        let ul = opt_text_len_val(unit);
        put_u16(buf, e, nl);
        put_u16(buf, e, ul);
        put_opt_text(buf, name);
        put_opt_text(buf, unit);
        assert(buf@ =~= old(buf)@ + enc_var_block(e, opt_view(*name), opt_view(*unit)));
    }
    match fixed_point {
        Some(fp) => {
            put_fixed_block(buf, e, fp);
        },
        None => {},
    }
    put_num_value(buf, e, value);
    assert(buf@ =~= old(buf)@ + (if vari {
        enc_var_block(e, opt_view(*name), opt_view(*unit))
    } else {
        Seq::empty()
    }) + (match *fixed_point {
        Some(fp) => enc_fixed_block(e, fp),
        None => Seq::empty(),
    }) + enc_num_value(e, value@));
}

/// Append one argument's wire image.
#[verifier::rlimit(100)]
#[verifier::spinoff_prover]
pub fn put_argument(buf: &mut Vec<u8>, e: Endianness, a: &Argument)
    requires
        a@.wf(),
    ensures
        final(buf)@ == old(buf)@ + enc_argument(e, a@),
{
    broadcast use lemma_bytes_add_assoc;

    put_type_info(buf, e, &a.type_info);
    match (&a.type_info.kind, &a.value) {
        (TypeInfoKind::StringType, Value::StringVal(s)) => {
            put_string_body(buf, e, a.type_info.has_variable_info, &a.name, s);
        },
        (TypeInfoKind::Raw, Value::Raw(r)) => {
            put_raw_body(buf, e, a.type_info.has_variable_info, &a.name, r);
        },
        (TypeInfoKind::StringType, _) | (TypeInfoKind::Raw, _) => {
            vstd::pervasive::unreached()
        },
        _ => {
            put_numeric_body(
                buf,
                e,
                a.type_info.has_variable_info,
                &a.name,
                &a.unit,
                &a.fixed_point,
                &a.value,
            );
        },
    }
}

/// Append the bytes of a numeric or boolean value.
fn put_num_value(buf: &mut Vec<u8>, e: Endianness, v: &Value)
    requires
        !(v@ is StringVal),
        !(v@ is Raw),
    ensures
        final(buf)@ == old(buf)@ + enc_num_value(e, v@),
{
    match v {
        Value::Bool(b) => {
            buf.push(if *b { 1 } else { 0 });
            assert(buf@ =~= old(buf)@ + enc_num_value(e, v@));
        },
        Value::U8(x) => {
            buf.push(*x);
            assert(buf@ =~= old(buf)@ + enc_num_value(e, v@));
        },
        Value::U16(x) => {
            put_u16(buf, e, *x);
        },
        Value::U32(x) => {
            put_u32(buf, e, *x);
        },
        Value::U64(x) => {
            put_u64(buf, e, *x);
        },
        Value::U128(x) => {
            put_u128(buf, e, *x);
        },
        Value::I8(x) => {
            buf.push(i8_to_bits(*x));
            assert(buf@ =~= old(buf)@ + enc_num_value(e, v@));
        },
        Value::I16(x) => {
            put_u16(buf, e, i16_to_bits(*x));
        },
        Value::I32(x) => {
            put_u32(buf, e, i32_to_bits(*x));
        },
        Value::I64(x) => {
            put_u64(buf, e, i64_to_bits(*x));
        },
        Value::I128(x) => {
            put_u128(buf, e, i128_to_bits(*x));
        },
        Value::F32(bits) => {
            put_u32(buf, e, *bits);
        },
        Value::F64(bits) => {
            put_u64(buf, e, *bits);
        },
        Value::StringVal(_) | Value::Raw(_) => {
            vstd::pervasive::unreached()
        },
    }
}

impl Argument {
    /// Length in bytes of this argument's wire image.
    pub fn len(&self, e: Endianness) -> (r: usize)
        requires
            self@.wf(),
        ensures
            r == enc_argument(e, self@).len(),
    {
        let bytes = argument_as_bytes(self, e);
        bytes.len()
    }

    /// Whether this argument's wire image is empty (a well-formed argument
    /// always carries at least its descriptor, so it never is).
    pub fn is_empty(&self, e: Endianness) -> (r: bool)
        requires
            self@.wf(),
        ensures
            r == (enc_argument(e, self@).len() == 0),
    {
        self.len(e) == 0
    }
}

/// Wire image of an argument as a fresh vector.
pub fn argument_as_bytes(a: &Argument, e: Endianness) -> (r: Vec<u8>)
    requires
        a@.wf(),
    ensures
        r@ == enc_argument(e, a@),
{
    let mut buf: Vec<u8> = Vec::new();
    put_argument(&mut buf, e, a);
    buf
}

// ---------------------------------------------------------------------
// Executable decoding. Every function's result is pinned to the matching
// spec-level decoder.
// ---------------------------------------------------------------------

/// Read a counted, NUL-terminated text field.
pub fn get_counted_text(b: &[u8], pos: usize, e: Endianness) -> (r: Result<
    (Option<Vec<u8>>, usize),
    DecodeError,
>)
    requires
        pos <= b@.len(),
    ensures
        match r {
            Ok((t, p)) => sd_counted_text(e, b@, pos as int) == Ok::<
                (Option<Seq<u8>>, int),
                DecodeError,
            >((opt_view(t), p as int)) && pos <= p <= b@.len(),
            Err(er) => sd_counted_text(e, b@, pos as int) == Err::<
                (Option<Seq<u8>>, int),
                DecodeError,
            >(er),
        },
{
    let blen = b.len();
    if blen - pos < 2 {
        return Err(DecodeError::ArgumentTruncated);
    }
    let n = get_u16(b, pos, e) as usize;
    let p = pos + 2;
    if blen - p < n {
        return Err(DecodeError::ArgumentTruncated);
    }
    let t = take_to_nul(b, p, n);
    if !crate::outside::utf8_ok(t.as_slice()) {
        return Err(DecodeError::InvalidStringData);
    }
    if t.len() == 0 {
        Ok((None, p + n))
    } else {
        Ok((Some(t), p + n))
    }
}

/// Read the variable-info block of a numeric argument.
pub fn get_var_block(b: &[u8], pos: usize, e: Endianness) -> (r: Result<
    (Option<Vec<u8>>, Option<Vec<u8>>, usize),
    DecodeError,
>)
    requires
        pos <= b@.len(),
    ensures
        match r {
            Ok((name, unit, p)) => sd_var_block(e, b@, pos as int) == Ok::<
                (Option<Seq<u8>>, Option<Seq<u8>>, int),
                DecodeError,
            >((opt_view(name), opt_view(unit), p as int)) && pos <= p <= b@.len(),
            Err(er) => sd_var_block(e, b@, pos as int) == Err::<
                (Option<Seq<u8>>, Option<Seq<u8>>, int),
                DecodeError,
            >(er),
        },
{
    let blen = b.len();
    if blen - pos < 4 {
        return Err(DecodeError::ArgumentTruncated);
    }
    let nlen = get_u16(b, pos, e) as usize;
    let ulen = get_u16(b, pos + 2, e) as usize;
    let p = pos + 4;
    if blen - p < nlen || blen - p - nlen < ulen {
        return Err(DecodeError::ArgumentTruncated);
    }
    let name = take_to_nul(b, p, nlen);
    let unit = take_to_nul(b, p + nlen, ulen);
    if !crate::outside::utf8_ok(name.as_slice()) || !crate::outside::utf8_ok(unit.as_slice()) {
        return Err(DecodeError::InvalidStringData);
    }
    let p2 = p + nlen + ulen;
    let name_opt: Option<Vec<u8>> = if name.len() == 0 {
        None
    } else {
        Some(name)
    };
    let unit_opt: Option<Vec<u8>> = if unit.len() == 0 {
        None
    } else {
        Some(unit)
    };
    Ok((name_opt, unit_opt, p2))
}

/// Read the fixed-point block in the given width.
pub fn get_fixed_block(b: &[u8], pos: usize, e: Endianness, w: FloatWidth) -> (r: Result<
    (FixedPoint, usize),
    DecodeError,
>)
    requires
        pos <= b@.len(),
    ensures
        match r {
            Ok((fp, p)) => sd_fixed_block(e, b@, pos as int, w) == Ok::<
                (FixedPoint, int),
                DecodeError,
            >((fp, p as int)) && pos <= p <= b@.len(),
            Err(er) => sd_fixed_block(e, b@, pos as int, w) == Err::<
                (FixedPoint, int),
                DecodeError,
            >(er),
        },
{
    let blen = b.len();
    let osize = float_width_bytes_local(w);
    if blen - pos < 4 + osize {
        return Err(DecodeError::ArgumentTruncated);
    }
    let q = get_u32(b, pos, e);
    let offset = match w {
        FloatWidth::Width32 => FixedPointValue::I32(i32_from_bits(get_u32(b, pos + 4, e))),
        FloatWidth::Width64 => FixedPointValue::I64(i64_from_bits(get_u64(b, pos + 4, e))),
    };
    Ok((FixedPoint { quantization_bits: q, offset }, pos + 4 + osize))
}

fn float_width_bytes_local(w: FloatWidth) -> (r: usize)
    ensures
        r == w.spec_bytes(),
{
    match w {
        FloatWidth::Width32 => 4,
        FloatWidth::Width64 => 8,
    }
}

/// Read the value bytes of a numeric or boolean kind.
pub fn get_num_value(b: &[u8], pos: usize, e: Endianness, kind: TypeInfoKind) -> (r: Result<
    (Value, usize),
    DecodeError,
>)
    requires
        pos <= b@.len(),
    ensures
        match r {
            Ok((v, p)) => sd_num_value(e, b@, pos as int, kind) == Ok::<
                (ValueV, int),
                DecodeError,
            >((v@, p as int)) && pos <= p <= b@.len(),
            Err(er) => sd_num_value(e, b@, pos as int, kind) == Err::<
                (ValueV, int),
                DecodeError,
            >(er),
        },
{
    let blen = b.len();
    match kind {
        TypeInfoKind::Bool => {
            if blen - pos < 1 {
                return Err(DecodeError::ArgumentTruncated);
            }
            Ok((Value::Bool(b[pos] != 0), pos + 1))
        },
        TypeInfoKind::Signed(l) => {
            let n = crate::types::type_length_bytes(l);
            if blen - pos < n {
                return Err(DecodeError::ArgumentTruncated);
            }
            let v = match l {
                TypeLength::BitLength8 => Value::I8(i8_from_bits(b[pos])),
                TypeLength::BitLength16 => Value::I16(i16_from_bits(get_u16(b, pos, e))),
                TypeLength::BitLength32 => Value::I32(i32_from_bits(get_u32(b, pos, e))),
                TypeLength::BitLength64 => Value::I64(i64_from_bits(get_u64(b, pos, e))),
                TypeLength::BitLength128 => Value::I128(i128_from_bits(get_u128(b, pos, e))),
            };
            Ok((v, pos + n))
        },
        TypeInfoKind::Unsigned(l) => {
            let n = crate::types::type_length_bytes(l);
            if blen - pos < n {
                return Err(DecodeError::ArgumentTruncated);
            }
            let v = match l {
                TypeLength::BitLength8 => Value::U8(b[pos]),
                TypeLength::BitLength16 => Value::U16(get_u16(b, pos, e)),
                TypeLength::BitLength32 => Value::U32(get_u32(b, pos, e)),
                TypeLength::BitLength64 => Value::U64(get_u64(b, pos, e)),
                TypeLength::BitLength128 => Value::U128(get_u128(b, pos, e)),
            };
            Ok((v, pos + n))
        },
        TypeInfoKind::SignedFixedPoint(w) => {
            let n = float_width_bytes_local(w);
            if blen - pos < n {
                return Err(DecodeError::ArgumentTruncated);
            }
            let v = match w {
                FloatWidth::Width32 => Value::I32(i32_from_bits(get_u32(b, pos, e))),
                FloatWidth::Width64 => Value::I64(i64_from_bits(get_u64(b, pos, e))),
            };
            Ok((v, pos + n))
        },
        TypeInfoKind::UnsignedFixedPoint(w) => {
            let n = float_width_bytes_local(w);
            if blen - pos < n {
                return Err(DecodeError::ArgumentTruncated);
            }
            let v = match w {
                FloatWidth::Width32 => Value::U32(get_u32(b, pos, e)),
                FloatWidth::Width64 => Value::U64(get_u64(b, pos, e)),
            };
            Ok((v, pos + n))
        },
        TypeInfoKind::Float(w) => {
            let n = float_width_bytes_local(w);
            if blen - pos < n {
                return Err(DecodeError::ArgumentTruncated);
            }
            let v = match w {
                FloatWidth::Width32 => Value::F32(get_u32(b, pos, e)),
                FloatWidth::Width64 => Value::F64(get_u64(b, pos, e)),
            };
            Ok((v, pos + n))
        },
        _ => Err(DecodeError::ArgumentTypeMismatch),
    }
}

/// Read one whole argument at `pos`, giving back the argument and the
/// position just after it, or the exact error the spec decoder gives.
#[verifier::rlimit(30)]
#[verifier::spinoff_prover]
pub fn get_argument(b: &[u8], pos: usize, e: Endianness) -> (r: Result<
    (Argument, usize),
    DecodeError,
>)
    requires
        pos <= b@.len(),
    ensures
        match r {
            Ok((a, p)) => sd_argument(e, b@, pos as int) == Ok::<(ArgumentV, int), DecodeError>(
                (a@, p as int),
            ) && pos <= p <= b@.len(),
            Err(er) => sd_argument(e, b@, pos as int) == Err::<(ArgumentV, int), DecodeError>(er),
        },
{
    let blen = b.len();
    if blen - pos < 4 {
        return Err(DecodeError::ArgumentTruncated);
    }
    let ti = match get_type_info(b, pos, e) {
        Ok(t) => t,
        Err(er) => {
            return Err(er);
        },
    };
    let p = pos + 4;
    match ti.kind {
        TypeInfoKind::StringType => {
            let blen2 = b.len();
            if blen2 - p < 2 {
                return Err(DecodeError::ArgumentTruncated);
            }
            let slen = get_u16(b, p, e) as usize;
            let p1 = p + 2;
            let (name, p2) = if ti.has_variable_info {
                match get_counted_text(b, p1, e) {
                    Ok(x) => x,
                    Err(er) => {
                        return Err(er);
                    },
                }
            } else {
                (None, p1)
            };
            if blen2 - p2 < slen {
                return Err(DecodeError::ArgumentTruncated);
            }
            let s = take_to_nul(b, p2, slen);
            if !crate::outside::utf8_ok(s.as_slice()) {
                return Err(DecodeError::InvalidStringData);
            }
            let arg = Argument {
                type_info: ti,
                name,
                unit: None,
                fixed_point: None,
                value: Value::StringVal(s),
            };
            Ok((arg, p2 + slen))
        },
        TypeInfoKind::Raw => {
            let blen2 = b.len();
            if blen2 - p < 2 {
                return Err(DecodeError::ArgumentTruncated);
            }
            let rlen = get_u16(b, p, e) as usize;
            let p1 = p + 2;
            let (name, p2) = if ti.has_variable_info {
                match get_counted_text(b, p1, e) {
                    Ok(x) => x,
                    Err(er) => {
                        return Err(er);
                    },
                }
            } else {
                (None, p1)
            };
            if blen2 - p2 < rlen {
                return Err(DecodeError::ArgumentTruncated);
            }
            let raw = vstd::slice::slice_to_vec(slice_subrange(b, p2, p2 + rlen));
            let arg = Argument {
                type_info: ti,
                name,
                unit: None,
                fixed_point: None,
                value: Value::Raw(raw),
            };
            Ok((arg, p2 + rlen))
        },
        _ => {
            let (name, unit, p2) = if ti.has_variable_info {
                match get_var_block(b, p, e) {
                    Ok(x) => x,
                    Err(er) => {
                        return Err(er);
                    },
                }
            } else {
                (None, None, p)
            };
            let (fp, p3) = match ti.kind {
                TypeInfoKind::SignedFixedPoint(w) | TypeInfoKind::UnsignedFixedPoint(w) => {
                    match get_fixed_block(b, p2, e, w) {
                        Ok((f, q)) => (Some(f), q),
                        Err(er) => {
                            return Err(er);
                        },
                    }
                },
                _ => (None, p2),
            };
            let (v, p4) = match get_num_value(b, p3, e, ti.kind) {
                Ok(x) => x,
                Err(er) => {
                    return Err(er);
                },
            };
            let arg = Argument { type_info: ti, name, unit, fixed_point: fp, value: v };
            Ok((arg, p4))
        },
    }
}

// ---------------------------------------------------------------------
// Round-trip proofs: decoding an encoded argument gives the argument
// back, byte position included.
// ---------------------------------------------------------------------

/// A concatenation sitting inside a larger buffer splits into its parts.
pub proof fn lemma_peel(b: Seq<u8>, pos: int, x: Seq<u8>, rest: Seq<u8>)
    requires
        0 <= pos,
        pos + x.len() + rest.len() <= b.len(),
        b.subrange(pos, pos + x.len() + rest.len()) == x + rest,
    ensures
        b.subrange(pos, pos + x.len()) == x,
        b.subrange(pos + x.len(), pos + x.len() + rest.len()) == rest,
{
    let t = x.len() + rest.len();
    assert forall|i: int| 0 <= i < t implies b[pos + i] == (x + rest)[i] by {
        assert(b.subrange(pos, pos + t)[i] == (x + rest)[i]);
    }
    assert forall|i: int| 0 <= i < x.len() implies b.subrange(pos, pos + x.len() as int)[i]
        == x[i] by {
        assert(b[pos + i] == (x + rest)[i]);
    }
    assert forall|i: int| 0 <= i < rest.len() implies b.subrange(
        pos + x.len(),
        pos + t,
    )[i] == rest[i] by {
        assert(b[pos + (x.len() + i)] == (x + rest)[x.len() + i]);
        assert(b.subrange(pos + x.len(), pos + t)[i] == b[pos + x.len() + i]);
    }
    assert(b.subrange(pos, pos + x.len()) =~= x);
    assert(b.subrange(pos + x.len(), pos + t) =~= rest);
}

/// The body of a name or unit is as long as its length field says.
proof fn lemma_opt_text_len(t: Option<Seq<u8>>)
    ensures
        enc_opt_text(t).len() == opt_text_len(t),
{
}

/// Reading back a counted text gives the text that was written.
proof fn lemma_counted_text_rt(e: Endianness, t: Option<Seq<u8>>, b: Seq<u8>, pos: int)
    requires
        crate::types::opt_text_wf(t),
        0 <= pos,
        pos + 2 + opt_text_len(t) <= b.len(),
        b.subrange(pos, pos + 2 + opt_text_len(t)) == enc_u16(e, opt_text_len(t) as u16)
            + enc_opt_text(t),
    ensures
        sd_counted_text(e, b, pos) == Ok::<(Option<Seq<u8>>, int), DecodeError>(
            (t, pos + 2 + opt_text_len(t)),
        ),
{
    let n = opt_text_len(t);
    let lenb = enc_u16(e, n as u16);
    let body = enc_opt_text(t);
    lemma_u16_rt(e, n as u16, Seq::empty());
    lemma_opt_text_len(t);
    lemma_peel(b, pos, lenb, body);
    assert(dec_u16(e, b.subrange(pos, pos + 2)) == n as u16);
    assert(b.subrange(pos + 2, pos + 2 + n) == body);
    match t {
        Some(s) => {
            lemma_trim_terminated(s);
            assert(trim_at_nul(body) == s);
        },
        None => {
            assert(body == seq![0u8]);
            assert(body[0] == 0u8);
            assert(trim_at_nul(body) =~= Seq::<u8>::empty());
            assert(valid_utf8(Seq::<u8>::empty()));
        },
    }
}

/// Reading back a variable-info block gives the name and unit that were
/// written.
proof fn lemma_var_block_rt(
    e: Endianness,
    name: Option<Seq<u8>>,
    unit: Option<Seq<u8>>,
    b: Seq<u8>,
    pos: int,
)
    requires
        crate::types::opt_text_wf(name),
        crate::types::opt_text_wf(unit),
        0 <= pos,
        pos + 4 + opt_text_len(name) + opt_text_len(unit) <= b.len(),
        b.subrange(pos, pos + 4 + opt_text_len(name) + opt_text_len(unit)) == enc_var_block(
            e,
            name,
            unit,
        ),
    ensures
        sd_var_block(e, b, pos) == Ok::<(Option<Seq<u8>>, Option<Seq<u8>>, int), DecodeError>(
            (name, unit, pos + 4 + opt_text_len(name) + opt_text_len(unit)),
        ),
{
    broadcast use lemma_bytes_add_assoc;

    let nl = opt_text_len(name);
    let ul = opt_text_len(unit);
    let lenn = enc_u16(e, nl as u16);
    let lenu = enc_u16(e, ul as u16);
    let bodyn = enc_opt_text(name);
    let bodyu = enc_opt_text(unit);
    lemma_u16_rt(e, nl as u16, Seq::empty());
    lemma_u16_rt(e, ul as u16, Seq::empty());
    lemma_opt_text_len(name);
    lemma_opt_text_len(unit);
    lemma_peel(b, pos, lenn, lenu + bodyn + bodyu);
    lemma_peel(b, pos + 2, lenu, bodyn + bodyu);
    lemma_peel(b, pos + 4, bodyn, bodyu);
    assert(dec_u16(e, b.subrange(pos, pos + 2)) == nl as u16);
    assert(dec_u16(e, b.subrange(pos + 2, pos + 4)) == ul as u16);
    assert(b.subrange(pos + 4, pos + 4 + nl) == bodyn);
    assert(b.subrange(pos + 4 + nl, pos + 4 + nl + ul) == bodyu);
    match name {
        Some(s) => {
            lemma_trim_terminated(s);
        },
        None => {
            assert(bodyn[0] == 0u8);
            assert(trim_at_nul(bodyn) =~= Seq::<u8>::empty());
        },
    }
    match unit {
        Some(s) => {
            lemma_trim_terminated(s);
        },
        None => {
            assert(bodyu[0] == 0u8);
            assert(trim_at_nul(bodyu) =~= Seq::<u8>::empty());
        },
    }
    assert(valid_utf8(Seq::<u8>::empty()));
}

/// Reading back a fixed-point block gives the block that was written.
proof fn lemma_fixed_block_rt(e: Endianness, fp: FixedPoint, b: Seq<u8>, pos: int, w: FloatWidth)
    requires
        0 <= pos,
        match fp.offset {
            FixedPointValue::I32(_) => w == FloatWidth::Width32,
            FixedPointValue::I64(_) => w == FloatWidth::Width64,
        },
        pos + 4 + w.spec_bytes() <= b.len(),
        b.subrange(pos, pos + 4 + w.spec_bytes()) == enc_fixed_block(e, fp),
    ensures
        sd_fixed_block(e, b, pos, w) == Ok::<(FixedPoint, int), DecodeError>(
            (fp, pos + 4 + w.spec_bytes()),
        ),
{
    let qb = enc_u32(e, fp.quantization_bits);
    lemma_u32_rt(e, fp.quantization_bits, Seq::empty());
    match fp.offset {
        FixedPointValue::I32(v) => {
            let ob = enc_u32(e, i32_bits(v));
            lemma_u32_rt(e, i32_bits(v), Seq::empty());
            lemma_peel(b, pos, qb, ob);
            lemma_i32_bits_rt(v, 0);
        },
        FixedPointValue::I64(v) => {
            let ob = enc_u64(e, i64_bits(v));
            lemma_u64_rt(e, i64_bits(v), Seq::empty());
            lemma_peel(b, pos, qb, ob);
            lemma_i64_bits_rt(v, 0);
        },
    }
}

/// Reading back a numeric or boolean value gives the value that was
/// written.
proof fn lemma_num_value_rt(e: Endianness, v: ValueV, b: Seq<u8>, pos: int, kind: TypeInfoKind)
    requires
        0 <= pos,
        (ArgumentV {
            type_info: TypeInfo {
                kind,
                coding: crate::types::StringCoding::UTF8,
                has_variable_info: false,
                has_trace_info: false,
            },
            name: None,
            unit: None,
            fixed_point: None,
            value: v,
        }).value_matches(),
        !(kind is StringType),
        !(kind is Raw),
        pos + enc_num_value(e, v).len() <= b.len(),
        b.subrange(pos, pos + enc_num_value(e, v).len()) == enc_num_value(e, v),
    ensures
        sd_num_value(e, b, pos, kind) == Ok::<(ValueV, int), DecodeError>(
            (v, pos + enc_num_value(e, v).len()),
        ),
{
    match v {
        ValueV::Bool(x) => {
            assert(b[pos] == enc_num_value(e, v)[0]);
        },
        ValueV::U8(x) => {
            assert(b[pos] == enc_num_value(e, v)[0]);
        },
        ValueV::U16(x) => {
            lemma_u16_rt(e, x, Seq::empty());
        },
        ValueV::U32(x) => {
            lemma_u32_rt(e, x, Seq::empty());
        },
        ValueV::U64(x) => {
            lemma_u64_rt(e, x, Seq::empty());
        },
        ValueV::U128(x) => {
            lemma_u128_rt(e, x, Seq::empty());
        },
        ValueV::I8(x) => {
            assert(b[pos] == enc_num_value(e, v)[0]);
            lemma_i8_bits_rt(x, 0);
        },
        ValueV::I16(x) => {
            lemma_u16_rt(e, i16_bits(x), Seq::empty());
            lemma_i16_bits_rt(x, 0);
        },
        ValueV::I32(x) => {
            lemma_u32_rt(e, i32_bits(x), Seq::empty());
            lemma_i32_bits_rt(x, 0);
        },
        ValueV::I64(x) => {
            lemma_u64_rt(e, i64_bits(x), Seq::empty());
            lemma_i64_bits_rt(x, 0);
        },
        ValueV::I128(x) => {
            lemma_u128_rt(e, i128_bits(x), Seq::empty());
            lemma_i128_bits_rt(x, 0);
        },
        ValueV::F32(bits) => {
            lemma_u32_rt(e, bits, Seq::empty());
        },
        ValueV::F64(bits) => {
            lemma_u64_rt(e, bits, Seq::empty());
        },
        ValueV::StringVal(_) => {},
        ValueV::Raw(_) => {},
    }
}

/// Round trip of a string argument inside a larger buffer.
#[verifier::rlimit(60)]
#[verifier::spinoff_prover]
proof fn lemma_argument_rt_string(e: Endianness, a: ArgumentV, b: Seq<u8>, pos: int)
    requires
        a.wf(),
        a.type_info.kind is StringType,
        0 <= pos,
        pos + enc_argument(e, a).len() <= b.len(),
        b.subrange(pos, pos + enc_argument(e, a).len()) == enc_argument(e, a),
    ensures
        sd_argument(e, b, pos) == Ok::<(ArgumentV, int), DecodeError>(
            (a, pos + enc_argument(e, a).len()),
        ),
{
    broadcast use lemma_bytes_add_assoc;

    let enc = enc_argument(e, a);
    let ti = enc_type_info(e, a.type_info);
    lemma_u32_rt(e, crate::typeinfo::spec_ti_word(a.type_info), Seq::empty());
    crate::typeinfo::lemma_ti_word_round_trip(a.type_info);
    let s = a.value->StringVal_0;
    let slenb = enc_u16(e, (s.len() + 1) as u16);
    let namef: Seq<u8> = if a.type_info.has_variable_info {
        enc_u16(e, opt_text_len(a.name) as u16) + enc_opt_text(a.name)
    } else {
        Seq::empty()
    };
    lemma_u16_rt(e, (s.len() + 1) as u16, Seq::empty());
    lemma_u16_rt(e, opt_text_len(a.name) as u16, Seq::empty());
    lemma_opt_text_len(a.name);
    assert(enc =~= ti + (slenb + namef + s + seq![0u8]));
    lemma_peel(b, pos, ti, slenb + namef + s + seq![0u8]);
    assert(slenb + namef + s + seq![0u8] =~= slenb + (namef + s + seq![0u8]));
    lemma_peel(b, pos + 4, slenb, namef + s + seq![0u8]);
    assert(namef + s + seq![0u8] =~= namef + (s + seq![0u8]));
    lemma_peel(b, pos + 6, namef, s + seq![0u8]);
    assert(dec_u32(e, b.subrange(pos, pos + 4)) == crate::typeinfo::spec_ti_word(a.type_info));
    if a.type_info.has_variable_info {
        lemma_counted_text_rt(e, a.name, b, pos + 6);
    }
    let p2 = pos + 6 + namef.len();
    assert(b.subrange(p2, p2 + s.len() + 1) == s + seq![0u8]);
    lemma_trim_terminated(s);
    assert(trim_at_nul(b.subrange(p2, p2 + s.len() + 1)) == s);
}

/// Round trip of a raw argument inside a larger buffer.
#[verifier::rlimit(60)]
#[verifier::spinoff_prover]
proof fn lemma_argument_rt_raw(e: Endianness, a: ArgumentV, b: Seq<u8>, pos: int)
    requires
        a.wf(),
        a.type_info.kind is Raw,
        0 <= pos,
        pos + enc_argument(e, a).len() <= b.len(),
        b.subrange(pos, pos + enc_argument(e, a).len()) == enc_argument(e, a),
    ensures
        sd_argument(e, b, pos) == Ok::<(ArgumentV, int), DecodeError>(
            (a, pos + enc_argument(e, a).len()),
        ),
{
    broadcast use lemma_bytes_add_assoc;

    let enc = enc_argument(e, a);
    let ti = enc_type_info(e, a.type_info);
    lemma_u32_rt(e, crate::typeinfo::spec_ti_word(a.type_info), Seq::empty());
    crate::typeinfo::lemma_ti_word_round_trip(a.type_info);
    let rr = a.value->Raw_0;
    let rlenb = enc_u16(e, rr.len() as u16);
    let namef: Seq<u8> = if a.type_info.has_variable_info {
        enc_u16(e, opt_text_len(a.name) as u16) + enc_opt_text(a.name)
    } else {
        Seq::empty()
    };
    lemma_u16_rt(e, rr.len() as u16, Seq::empty());
    lemma_u16_rt(e, opt_text_len(a.name) as u16, Seq::empty());
    lemma_opt_text_len(a.name);
    assert(enc =~= ti + (rlenb + namef + rr));
    lemma_peel(b, pos, ti, rlenb + namef + rr);
    assert(rlenb + namef + rr =~= rlenb + (namef + rr));
    lemma_peel(b, pos + 4, rlenb, namef + rr);
    lemma_peel(b, pos + 6, namef, rr);
    if a.type_info.has_variable_info {
        lemma_counted_text_rt(e, a.name, b, pos + 6);
    }
    let p2 = pos + 6 + namef.len();
    assert(b.subrange(p2, p2 + rr.len()) == rr);
}

/// Round trip of a numeric or boolean argument inside a larger buffer.
#[verifier::rlimit(60)]
#[verifier::spinoff_prover]
proof fn lemma_argument_rt_num(e: Endianness, a: ArgumentV, b: Seq<u8>, pos: int)
    requires
        a.wf(),
        !(a.type_info.kind is StringType),
        !(a.type_info.kind is Raw),
        0 <= pos,
        pos + enc_argument(e, a).len() <= b.len(),
        b.subrange(pos, pos + enc_argument(e, a).len()) == enc_argument(e, a),
    ensures
        sd_argument(e, b, pos) == Ok::<(ArgumentV, int), DecodeError>(
            (a, pos + enc_argument(e, a).len()),
        ),
{
    broadcast use lemma_bytes_add_assoc;

    let enc = enc_argument(e, a);
    let ti = enc_type_info(e, a.type_info);
    lemma_u32_rt(e, crate::typeinfo::spec_ti_word(a.type_info), Seq::empty());
    crate::typeinfo::lemma_ti_word_round_trip(a.type_info);
    let varb: Seq<u8> = if a.type_info.has_variable_info {
        enc_var_block(e, a.name, a.unit)
    } else {
        Seq::empty()
    };
    let fixb: Seq<u8> = match a.fixed_point {
        Some(fp) => enc_fixed_block(e, fp),
        None => Seq::empty(),
    };
    let valb = enc_num_value(e, a.value);
    lemma_u16_rt(e, opt_text_len(a.name) as u16, Seq::empty());
    lemma_u16_rt(e, opt_text_len(a.unit) as u16, Seq::empty());
    lemma_opt_text_len(a.name);
    lemma_opt_text_len(a.unit);
    match a.fixed_point {
        Some(fp) => {
            lemma_u32_rt(e, fp.quantization_bits, Seq::empty());
            match fp.offset {
                FixedPointValue::I32(v) => {
                    lemma_u32_rt(e, i32_bits(v), Seq::empty());
                },
                FixedPointValue::I64(v) => {
                    lemma_u64_rt(e, i64_bits(v), Seq::empty());
                },
            }
        },
        None => {},
    }
    assert(enc =~= ti + (varb + fixb + valb));
    lemma_peel(b, pos, ti, varb + fixb + valb);
    assert(varb + fixb + valb =~= varb + (fixb + valb));
    lemma_peel(b, pos + 4, varb, fixb + valb);
    lemma_peel(b, pos + 4 + varb.len(), fixb, valb);
    if a.type_info.has_variable_info {
        lemma_var_block_rt(e, a.name, a.unit, b, pos + 4);
    }
    let p2 = pos + 4 + varb.len();
    match a.fixed_point {
        Some(fp) => {
            let w = match a.type_info.kind {
                TypeInfoKind::SignedFixedPoint(w) => w,
                TypeInfoKind::UnsignedFixedPoint(w) => w,
                _ => FloatWidth::Width32,
            };
            lemma_fixed_block_rt(e, fp, b, p2, w);
        },
        None => {},
    }
    let p3 = p2 + fixb.len();
    lemma_num_value_rt(e, a.value, b, p3, a.type_info.kind);
}

/// Round trip of one whole argument inside a larger buffer: decoding at
/// the position where an encoded argument sits gives the argument back and
/// stops exactly after it.
pub proof fn lemma_argument_rt(e: Endianness, a: ArgumentV, b: Seq<u8>, pos: int)
    requires
        a.wf(),
        0 <= pos,
        pos + enc_argument(e, a).len() <= b.len(),
        b.subrange(pos, pos + enc_argument(e, a).len()) == enc_argument(e, a),
    ensures
        sd_argument(e, b, pos) == Ok::<(ArgumentV, int), DecodeError>(
            (a, pos + enc_argument(e, a).len()),
        ),
{
    match a.type_info.kind {
        TypeInfoKind::StringType => lemma_argument_rt_string(e, a, b, pos),
        TypeInfoKind::Raw => lemma_argument_rt_raw(e, a, b, pos),
        _ => lemma_argument_rt_num(e, a, b, pos),
    }
}

/// Round trip of one argument: decoding an argument's own encoding gives
/// the argument back and consumes every byte.
pub proof fn lemma_argument_round_trip(e: Endianness, a: ArgumentV)
    requires
        a.wf(),
    ensures
        sd_argument(e, enc_argument(e, a), 0) == Ok::<(ArgumentV, int), DecodeError>(
            (a, enc_argument(e, a).len() as int),
        ),
{
    let enc = enc_argument(e, a);
    assert(enc.subrange(0, enc.len() as int) =~= enc);
    lemma_argument_rt(e, a, enc, 0);
}

/// Read a non-verbose fixed-point signal: quantization bits, then the
/// physical value in the descriptor's width. The frame supplies no offset,
/// so the reconstructed block carries an offset of zero.
pub open spec fn sd_fixed_block_nv(e: Endianness, d: Seq<u8>, off: int, ti: TypeInfo) -> Result<
    (ArgumentV, int),
    DecodeError,
> {
    let w: FloatWidth = match ti.kind {
        TypeInfoKind::SignedFixedPoint(w) => w,
        TypeInfoKind::UnsignedFixedPoint(w) => w,
        _ => FloatWidth::Width32,
    };
    let n = w.spec_bytes();
    if off + 4 + n > d.len() {
        Err(DecodeError::NonVerboseTruncated)
    } else {
        let q = dec_u32(e, d.subrange(off, off + 4));
        let fp = FixedPoint {
            quantization_bits: q,
            offset: match w {
                FloatWidth::Width32 => FixedPointValue::I32(0),
                FloatWidth::Width64 => FixedPointValue::I64(0),
            },
        };
        let v: ValueV = match ti.kind {
            TypeInfoKind::SignedFixedPoint(_w) => match w {
                FloatWidth::Width32 => ValueV::I32(
                    i32_of_bits(dec_u32(e, d.subrange(off + 4, off + 8))),
                ),
                FloatWidth::Width64 => ValueV::I64(
                    i64_of_bits(dec_u64(e, d.subrange(off + 4, off + 12))),
                ),
            },
            _ => match w {
                FloatWidth::Width32 => ValueV::U32(dec_u32(e, d.subrange(off + 4, off + 8))),
                FloatWidth::Width64 => ValueV::U64(dec_u64(e, d.subrange(off + 4, off + 12))),
            },
        };
        Ok(
            (
                ArgumentV {
                    type_info: ti,
                    name: None,
                    unit: None,
                    fixed_point: Some(fp),
                    value: v,
                },
                off + 4 + n,
            ),
        )
    }
}

/// Read a non-verbose fixed-point signal.
pub fn get_fixed_block_nv(d: &[u8], off: usize, e: Endianness, ti: &TypeInfo) -> (r: Result<
    (Argument, usize),
    DecodeError,
>)
    requires
        off <= d@.len(),
        ti.spec_is_fixed_point(),
    ensures
        match r {
            Ok((a, p)) => sd_fixed_block_nv(e, d@, off as int, *ti) == Ok::<
                (ArgumentV, int),
                DecodeError,
            >((a@, p as int)) && off <= p <= d@.len(),
            Err(er) => sd_fixed_block_nv(e, d@, off as int, *ti) == Err::<
                (ArgumentV, int),
                DecodeError,
            >(er),
        },
{
    let dlen = d.len();
    let w: FloatWidth = match ti.kind {
        TypeInfoKind::SignedFixedPoint(w) => w,
        TypeInfoKind::UnsignedFixedPoint(w) => w,
        _ => FloatWidth::Width32,
    };
    let n = crate::types::float_width_bytes(w);
    if dlen - off < 4 || dlen - off - 4 < n {
        return Err(DecodeError::NonVerboseTruncated);
    }
    let q = get_u32(d, off, e);
    let fp = FixedPoint {
        quantization_bits: q,
        offset: match w {
            FloatWidth::Width32 => FixedPointValue::I32(0),
            FloatWidth::Width64 => FixedPointValue::I64(0),
        },
    };
    let v: Value = match ti.kind {
        TypeInfoKind::SignedFixedPoint(_w) => match w {
            FloatWidth::Width32 => Value::I32(i32_from_bits(get_u32(d, off + 4, e))),
            FloatWidth::Width64 => Value::I64(i64_from_bits(get_u64(d, off + 4, e))),
        },
        _ => match w {
            FloatWidth::Width32 => Value::U32(get_u32(d, off + 4, e)),
            FloatWidth::Width64 => Value::U64(get_u64(d, off + 4, e)),
        },
    };
    Ok(
        (
            Argument { type_info: *ti, name: None, unit: None, fixed_point: Some(fp), value: v },
            off + 4 + n,
        ),
    )
}

} // verus!
