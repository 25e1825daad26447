//! Codec for the 32-bit type descriptor that precedes every verbose
//! argument: bit layout, encoder, decoder, and the round-trip law.
use vstd::prelude::*;

verus! {

use crate::types::{
    DecodeError, Endianness, FloatWidth, StringCoding, TypeInfo, TypeInfoKind, TypeLength,
};
use crate::wire::{enc_u32, dec_u32, put_u32, get_u32, lemma_u32_rt};

/// Length code held in the low nibble: 1 for 8 bits up to 5 for 128 bits;
/// booleans are encoded with code 1, strings and raw data with 0.
pub open spec fn spec_len_code(k: TypeInfoKind) -> u32 {
    match k {
        TypeInfoKind::Bool => 1,
        TypeInfoKind::Signed(l) => spec_int_len_code(l),
        TypeInfoKind::SignedFixedPoint(w) => spec_float_len_code(w),
        TypeInfoKind::Unsigned(l) => spec_int_len_code(l),
        TypeInfoKind::UnsignedFixedPoint(w) => spec_float_len_code(w),
        TypeInfoKind::Float(w) => spec_float_len_code(w),
        TypeInfoKind::StringType => 0,
        TypeInfoKind::Raw => 0,
    }
}

pub open spec fn spec_int_len_code(l: TypeLength) -> u32 {
    match l {
        TypeLength::BitLength8 => 1,
        TypeLength::BitLength16 => 2,
        TypeLength::BitLength32 => 3,
        TypeLength::BitLength64 => 4,
        TypeLength::BitLength128 => 5,
    }
}

pub open spec fn spec_float_len_code(w: FloatWidth) -> u32 {
    match w {
        FloatWidth::Width32 => 3,
        FloatWidth::Width64 => 4,
    }
}

/// The one-hot kind flag in bits 4 to 10.
pub open spec fn spec_kind_flag(k: TypeInfoKind) -> u32 {
    match k {
        TypeInfoKind::Bool => 0x10,
        TypeInfoKind::Signed(_) => 0x20,
        TypeInfoKind::SignedFixedPoint(_) => 0x20,
        TypeInfoKind::Unsigned(_) => 0x40,
        TypeInfoKind::UnsignedFixedPoint(_) => 0x40,
        TypeInfoKind::Float(_) => 0x80,
        TypeInfoKind::StringType => 0x200,
        TypeInfoKind::Raw => 0x400,
    }
}

/// The full 32-bit descriptor word for a type descriptor.
pub open spec fn spec_ti_word(t: TypeInfo) -> u32 {
    spec_len_code(t.kind) | spec_kind_flag(t.kind) | (if t.has_variable_info {
        0x800u32
    } else {
        0
    }) | (if t.spec_is_fixed_point() {
        0x1000u32
    } else {
        0
    }) | (if t.has_trace_info {
        0x2000u32
    } else {
        0
    }) | (match t.coding {
        StringCoding::ASCII => 0u32,
        StringCoding::UTF8 => 0x8000u32,
    })
}

/// The integer length a descriptor's low nibble announces, if any.
pub open spec fn spec_int_len_of(w: u32) -> Option<TypeLength> {
    if w & 0xf == 1 {
        Some(TypeLength::BitLength8)
    } else if w & 0xf == 2 {
        Some(TypeLength::BitLength16)
    } else if w & 0xf == 3 {
        Some(TypeLength::BitLength32)
    } else if w & 0xf == 4 {
        Some(TypeLength::BitLength64)
    } else if w & 0xf == 5 {
        Some(TypeLength::BitLength128)
    } else {
        None
    }
}

/// The float width a descriptor's low nibble announces, if any: floats and
/// fixed-point quantities exist only in 32-bit and 64-bit widths.
pub open spec fn spec_float_len_of(w: u32) -> Option<FloatWidth> {
    if w & 0xf == 3 {
        Some(FloatWidth::Width32)
    } else if w & 0xf == 4 {
        Some(FloatWidth::Width64)
    } else {
        None
    }
}

/// The kind a descriptor word announces: exactly one of the six kind bits
/// must be set, and integer kinds need a known length code.
pub open spec fn spec_kind_of(w: u32) -> Option<TypeInfoKind> {
    let fixed = w & 0x1000 != 0;
    let kb = (w >> 4) & 0x7f;
    if kb == 0x01 {
        Some(TypeInfoKind::Bool)
    } else if kb == 0x02 {
        if fixed {
            match spec_float_len_of(w) {
                Some(fw) => Some(TypeInfoKind::SignedFixedPoint(fw)),
                None => None,
            }
        } else {
            match spec_int_len_of(w) {
                Some(l) => Some(TypeInfoKind::Signed(l)),
                None => None,
            }
        }
    } else if kb == 0x04 {
        if fixed {
            match spec_float_len_of(w) {
                Some(fw) => Some(TypeInfoKind::UnsignedFixedPoint(fw)),
                None => None,
            }
        } else {
            match spec_int_len_of(w) {
                Some(l) => Some(TypeInfoKind::Unsigned(l)),
                None => None,
            }
        }
    } else if kb == 0x08 {
        match spec_float_len_of(w) {
            Some(fw) => Some(TypeInfoKind::Float(fw)),
            None => None,
        }
    } else if kb == 0x20 {
        Some(TypeInfoKind::StringType)
    } else if kb == 0x40 {
        Some(TypeInfoKind::Raw)
    } else {
        None
    }
}

/// The descriptor a 32-bit word decodes to, if it is well formed. Unknown
/// string codings decode leniently as UTF-8.
pub open spec fn spec_ti_of_word(w: u32) -> Option<TypeInfo> {
    match spec_kind_of(w) {
        None => None,
        Some(kind) => Some(
            TypeInfo {
                kind,
                coding: if (w >> 15) & 0x7 == 0 {
                    StringCoding::ASCII
                } else {
                    StringCoding::UTF8
                },
                has_variable_info: w & 0x800 != 0,
                has_trace_info: w & 0x2000 != 0,
            },
        ),
    }
}

/// How the fields of a composed descriptor word read back out.
proof fn lemma_word_fields(lc: u32, kf: u32, vari: u32, fixp: u32, trai: u32, cod: u32)
    requires
        lc <= 5,
        kf == 0x10 || kf == 0x20 || kf == 0x40 || kf == 0x80 || kf == 0x200 || kf == 0x400,
        vari == 0 || vari == 0x800,
        fixp == 0 || fixp == 0x1000,
        trai == 0 || trai == 0x2000,
        cod == 0 || cod == 0x8000,
    ensures
        (lc | kf | vari | fixp | trai | cod) & 0xf == lc,
        ((lc | kf | vari | fixp | trai | cod) >> 4) & 0x7f == kf >> 4,
        ((lc | kf | vari | fixp | trai | cod) & 0x800 != 0) == (vari != 0),
        ((lc | kf | vari | fixp | trai | cod) & 0x1000 != 0) == (fixp != 0),
        ((lc | kf | vari | fixp | trai | cod) & 0x2000 != 0) == (trai != 0),
        (((lc | kf | vari | fixp | trai | cod) >> 15) & 0x7) == (if cod == 0 {
            0u32
        } else {
            1u32
        }),
{
    assert((lc | kf | vari | fixp | trai | cod) & 0xf == lc
        && ((lc | kf | vari | fixp | trai | cod) >> 4) & 0x7f == kf >> 4
        && ((lc | kf | vari | fixp | trai | cod) & 0x800 != 0) == (vari != 0)
        && ((lc | kf | vari | fixp | trai | cod) & 0x1000 != 0) == (fixp != 0)
        && ((lc | kf | vari | fixp | trai | cod) & 0x2000 != 0) == (trai != 0)
        && (((lc | kf | vari | fixp | trai | cod) >> 15) & 0x7) == (if cod == 0 {
            0u32
        } else {
            1u32
        })) by (bit_vector)
        requires
            lc <= 5,
            kf == 0x10 || kf == 0x20 || kf == 0x40 || kf == 0x80 || kf == 0x200 || kf == 0x400,
            vari == 0 || vari == 0x800,
            fixp == 0 || fixp == 0x1000,
            trai == 0 || trai == 0x2000,
            cod == 0 || cod == 0x8000,
    ;
}

/// Round trip of the descriptor word: every type descriptor decodes back
/// from its own encoding.
pub proof fn lemma_ti_word_round_trip(t: TypeInfo)
    ensures
        spec_ti_of_word(spec_ti_word(t)) == Some(t),
{
    let lc = spec_len_code(t.kind);
    let kf = spec_kind_flag(t.kind);
    let vari: u32 = if t.has_variable_info {
        0x800
    } else {
        0
    };
    let fixp: u32 = if t.spec_is_fixed_point() {
        0x1000
    } else {
        0
    };
    let trai: u32 = if t.has_trace_info {
        0x2000
    } else {
        0
    };
    let cod: u32 = match t.coding {
        StringCoding::ASCII => 0,
        StringCoding::UTF8 => 0x8000,
    };
    lemma_word_fields(lc, kf, vari, fixp, trai, cod);
    assert(0x10u32 >> 4 == 0x01 && 0x20u32 >> 4 == 0x02 && 0x40u32 >> 4 == 0x04 && 0x80u32 >> 4
        == 0x08 && 0x200u32 >> 4 == 0x20 && 0x400u32 >> 4 == 0x40) by (bit_vector);
}

/// Bytes of a type descriptor in the message's byte order.
pub open spec fn enc_type_info(e: Endianness, t: TypeInfo) -> Seq<u8> {
    enc_u32(e, spec_ti_word(t))
}

impl TypeInfo {
    /// The length code an integer width writes into the low nibble.
    pub fn type_length_bits(len: TypeLength) -> (r: u32)
        ensures
            r == spec_int_len_code(len),
    {
        int_len_code(len)
    }

    /// The length code a float or fixed-point width writes into the low
    /// nibble.
    pub fn type_length_bits_float(len: FloatWidth) -> (r: u32)
        ensures
            r == spec_float_len_code(len),
    {
        float_len_code(len)
    }
}

/// Compose the descriptor word of a type descriptor.
pub fn type_info_word(t: &TypeInfo) -> (w: u32)
    ensures
        w == spec_ti_word(*t),
{
    let lc: u32 = match t.kind {
        TypeInfoKind::Bool => 1,
        TypeInfoKind::Signed(l) => int_len_code(l),
        TypeInfoKind::SignedFixedPoint(w) => float_len_code(w),
        TypeInfoKind::Unsigned(l) => int_len_code(l),
        TypeInfoKind::UnsignedFixedPoint(w) => float_len_code(w),
        TypeInfoKind::Float(w) => float_len_code(w),
        TypeInfoKind::StringType => 0,
        TypeInfoKind::Raw => 0,
    };
    let kf: u32 = match t.kind {
        TypeInfoKind::Bool => 0x10,
        TypeInfoKind::Signed(_) => 0x20,
        TypeInfoKind::SignedFixedPoint(_) => 0x20,
        TypeInfoKind::Unsigned(_) => 0x40,
        TypeInfoKind::UnsignedFixedPoint(_) => 0x40,
        TypeInfoKind::Float(_) => 0x80,
        TypeInfoKind::StringType => 0x200,
        TypeInfoKind::Raw => 0x400,
    };
    let vari: u32 = if t.has_variable_info {
        0x800
    } else {
        0
    };
    let fixp: u32 = if t.is_fixed_point() {
        0x1000
    } else {
        0
    };
    let trai: u32 = if t.has_trace_info {
        0x2000
    } else {
        0
    };
    let cod: u32 = match t.coding {
        StringCoding::ASCII => 0,
        StringCoding::UTF8 => 0x8000,
    };
    lc | kf | vari | fixp | trai | cod
}

fn int_len_code(l: TypeLength) -> (r: u32)
    ensures
        r == spec_int_len_code(l),
{
    match l {
        TypeLength::BitLength8 => 1,
        TypeLength::BitLength16 => 2,
        TypeLength::BitLength32 => 3,
        TypeLength::BitLength64 => 4,
        TypeLength::BitLength128 => 5,
    }
}

fn float_len_code(w: FloatWidth) -> (r: u32)
    ensures
        r == spec_float_len_code(w),
{
    match w {
        FloatWidth::Width32 => 3,
        FloatWidth::Width64 => 4,
    }
}

/// Append the four descriptor bytes of a type descriptor.
pub fn put_type_info(buf: &mut Vec<u8>, e: Endianness, t: &TypeInfo)
    ensures
        final(buf)@ == old(buf)@ + enc_type_info(e, *t),
{
    let w = type_info_word(t);
    put_u32(buf, e, w);
}

/// Decode the descriptor word, with `InvalidTypeInfo` exactly on the words
/// that announce no well-formed descriptor.
pub fn type_info_of_word(w: u32) -> (r: Result<TypeInfo, DecodeError>)
    ensures
        match r {
            Ok(t) => spec_ti_of_word(w) == Some(t),
            Err(err) => spec_ti_of_word(w) is None && err == DecodeError::InvalidTypeInfo,
        },
{
    let fixed = w & 0x1000 != 0;
    let kb = (w >> 4) & 0x7f;
    let kind: TypeInfoKind = if kb == 0x01 {
        TypeInfoKind::Bool
    } else if kb == 0x02 {
        if fixed {
            match float_len_of(w) {
                Some(fw) => TypeInfoKind::SignedFixedPoint(fw),
                None => {
                    return Err(DecodeError::InvalidTypeInfo);
                },
            }
        } else {
            match int_len_of(w) {
                Some(l) => TypeInfoKind::Signed(l),
                None => {
                    return Err(DecodeError::InvalidTypeInfo);
                },
            }
        }
    } else if kb == 0x04 {
        if fixed {
            match float_len_of(w) {
                Some(fw) => TypeInfoKind::UnsignedFixedPoint(fw),
                None => {
                    return Err(DecodeError::InvalidTypeInfo);
                },
            }
        } else {
            match int_len_of(w) {
                Some(l) => TypeInfoKind::Unsigned(l),
                None => {
                    return Err(DecodeError::InvalidTypeInfo);
                },
            }
        }
    } else if kb == 0x08 {
        match float_len_of(w) {
            Some(fw) => TypeInfoKind::Float(fw),
            None => {
                return Err(DecodeError::InvalidTypeInfo);
            },
        }
    } else if kb == 0x20 {
        TypeInfoKind::StringType
    } else if kb == 0x40 {
        TypeInfoKind::Raw
    } else {
        return Err(DecodeError::InvalidTypeInfo);
    };
    Ok(
        TypeInfo {
            kind,
            coding: if (w >> 15) & 0x7 == 0 {
                StringCoding::ASCII
            } else {
                StringCoding::UTF8
            },
            has_variable_info: w & 0x800 != 0,
            has_trace_info: w & 0x2000 != 0,
        },
    )
}

fn int_len_of(w: u32) -> (r: Option<TypeLength>)
    ensures
        r == spec_int_len_of(w),
{
    let lc = w & 0xf;
    if lc == 1 {
        Some(TypeLength::BitLength8)
    } else if lc == 2 {
        Some(TypeLength::BitLength16)
    } else if lc == 3 {
        Some(TypeLength::BitLength32)
    } else if lc == 4 {
        Some(TypeLength::BitLength64)
    } else if lc == 5 {
        Some(TypeLength::BitLength128)
    } else {
        None
    }
}

fn float_len_of(w: u32) -> (r: Option<FloatWidth>)
    ensures
        r == spec_float_len_of(w),
{
    let lc = w & 0xf;
    if lc == 3 {
        Some(FloatWidth::Width32)
    } else if lc == 4 {
        Some(FloatWidth::Width64)
    } else {
        None
    }
}

/// Read a type descriptor from four bytes at `pos`, in the message's byte
/// order.
pub fn get_type_info(b: &[u8], pos: usize, e: Endianness) -> (r: Result<TypeInfo, DecodeError>)
    requires
        pos + 4 <= b@.len(),
    ensures
        match r {
            Ok(t) => spec_ti_of_word(dec_u32(e, b@.subrange(pos as int, pos + 4))) == Some(t),
            Err(err) => spec_ti_of_word(dec_u32(e, b@.subrange(pos as int, pos + 4))) is None
                && err == DecodeError::InvalidTypeInfo,
        },
{
    let w = get_u32(b, pos, e);
    type_info_of_word(w)
}

/// Round trip through bytes: a type descriptor encoded in either byte
/// order decodes back to itself.
pub proof fn lemma_type_info_round_trip(e: Endianness, t: TypeInfo)
    ensures
        enc_type_info(e, t).len() == 4,
        spec_ti_of_word(dec_u32(e, enc_type_info(e, t))) == Some(t),
{
    lemma_u32_rt(e, spec_ti_word(t), Seq::<u8>::empty());
    lemma_ti_word_round_trip(t);
}

/// A descriptor word whose kind bits announce an integer or float kind but
/// whose length code is zero is rejected as `InvalidTypeInfo`.
pub proof fn lemma_length_code_zero_rejected(w: u32)
    requires
        w & 0xf == 0,
        ((w >> 4) & 0x7f == 0x02) || ((w >> 4) & 0x7f == 0x04) || ((w >> 4) & 0x7f == 0x08),
    ensures
        spec_ti_of_word(w) is None,
{
}

} // verus!
