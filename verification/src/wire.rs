//! Byte-level primitives of the codec: endian-aware integer encodings,
//! two's-complement bit conversions for signed values, and zero-padded
//! identifier fields, each with its round-trip lemma.
use vstd::prelude::*;

verus! {

use vstd::bytes::{
    spec_u16_to_le_bytes, spec_u16_from_le_bytes, lemma_auto_spec_u16_to_from_le_bytes,
    u16_to_le_bytes, u16_from_le_bytes, spec_u32_to_le_bytes, spec_u32_from_le_bytes,
    lemma_auto_spec_u32_to_from_le_bytes, u32_to_le_bytes, u32_from_le_bytes,
    spec_u64_to_le_bytes, spec_u64_from_le_bytes, lemma_auto_spec_u64_to_from_le_bytes,
    u64_to_le_bytes, u64_from_le_bytes, spec_u128_to_le_bytes, spec_u128_from_le_bytes,
    lemma_auto_spec_u128_to_from_le_bytes, u128_to_le_bytes, u128_from_le_bytes,
};
use vstd::slice::slice_subrange;
use crate::types::Endianness;

/// Bytes of a `u16` in the given byte order.
pub open spec fn enc_u16(e: Endianness, v: u16) -> Seq<u8> {
    match e {
        Endianness::Little => spec_u16_to_le_bytes(v),
        Endianness::Big => spec_u16_to_le_bytes(v).reverse(),
    }
}

/// The `u16` a two-byte sequence holds in the given byte order.
pub open spec fn dec_u16(e: Endianness, s: Seq<u8>) -> u16
    recommends
        s.len() == 2,
{
    match e {
        Endianness::Little => spec_u16_from_le_bytes(s),
        Endianness::Big => spec_u16_from_le_bytes(s.reverse()),
    }
}

pub open spec fn enc_u32(e: Endianness, v: u32) -> Seq<u8> {
    match e {
        Endianness::Little => spec_u32_to_le_bytes(v),
        Endianness::Big => spec_u32_to_le_bytes(v).reverse(),
    }
}

pub open spec fn dec_u32(e: Endianness, s: Seq<u8>) -> u32
    recommends
        s.len() == 4,
{
    match e {
        Endianness::Little => spec_u32_from_le_bytes(s),
        Endianness::Big => spec_u32_from_le_bytes(s.reverse()),
    }
}

pub open spec fn enc_u64(e: Endianness, v: u64) -> Seq<u8> {
    match e {
        Endianness::Little => spec_u64_to_le_bytes(v),
        Endianness::Big => spec_u64_to_le_bytes(v).reverse(),
    }
}

pub open spec fn dec_u64(e: Endianness, s: Seq<u8>) -> u64
    recommends
        s.len() == 8,
{
    match e {
        Endianness::Little => spec_u64_from_le_bytes(s),
        Endianness::Big => spec_u64_from_le_bytes(s.reverse()),
    }
}

pub open spec fn enc_u128(e: Endianness, v: u128) -> Seq<u8> {
    match e {
        Endianness::Little => spec_u128_to_le_bytes(v),
        Endianness::Big => spec_u128_to_le_bytes(v).reverse(),
    }
}

pub open spec fn dec_u128(e: Endianness, s: Seq<u8>) -> u128
    recommends
        s.len() == 16,
{
    match e {
        Endianness::Little => spec_u128_from_le_bytes(s),
        Endianness::Big => spec_u128_from_le_bytes(s.reverse()),
    }
}

/// Round trip of the `u16` encoding: decoding what was encoded gives the
/// value back, and any two-byte sequence re-encodes to itself.
pub proof fn lemma_u16_rt(e: Endianness, v: u16, s: Seq<u8>)
    ensures
        enc_u16(e, v).len() == 2,
        dec_u16(e, enc_u16(e, v)) == v,
        s.len() == 2 ==> enc_u16(e, dec_u16(e, s)) == s,
{
    lemma_auto_spec_u16_to_from_le_bytes();
    let le = spec_u16_to_le_bytes(v);
    match e {
        Endianness::Little => {},
        Endianness::Big => {
            assert(le.reverse().reverse() =~= le);
            assert(dec_u16(e, enc_u16(e, v)) == spec_u16_from_le_bytes(le));
            if s.len() == 2 {
                let sr = s.reverse();
                assert(spec_u16_to_le_bytes(spec_u16_from_le_bytes(sr)) == sr);
                assert(sr.reverse() =~= s);
            }
        },
    }
}

pub proof fn lemma_u32_rt(e: Endianness, v: u32, s: Seq<u8>)
    ensures
        enc_u32(e, v).len() == 4,
        dec_u32(e, enc_u32(e, v)) == v,
        s.len() == 4 ==> enc_u32(e, dec_u32(e, s)) == s,
{
    lemma_auto_spec_u32_to_from_le_bytes();
    let le = spec_u32_to_le_bytes(v);
    match e {
        Endianness::Little => {},
        Endianness::Big => {
            assert(le.reverse().reverse() =~= le);
            assert(dec_u32(e, enc_u32(e, v)) == spec_u32_from_le_bytes(le));
            if s.len() == 4 {
                let sr = s.reverse();
                assert(spec_u32_to_le_bytes(spec_u32_from_le_bytes(sr)) == sr);
                assert(sr.reverse() =~= s);
            }
        },
    }
}

pub proof fn lemma_u64_rt(e: Endianness, v: u64, s: Seq<u8>)
    ensures
        enc_u64(e, v).len() == 8,
        dec_u64(e, enc_u64(e, v)) == v,
        s.len() == 8 ==> enc_u64(e, dec_u64(e, s)) == s,
{
    lemma_auto_spec_u64_to_from_le_bytes();
    let le = spec_u64_to_le_bytes(v);
    match e {
        Endianness::Little => {},
        Endianness::Big => {
            assert(le.reverse().reverse() =~= le);
            assert(dec_u64(e, enc_u64(e, v)) == spec_u64_from_le_bytes(le));
            if s.len() == 8 {
                let sr = s.reverse();
                assert(spec_u64_to_le_bytes(spec_u64_from_le_bytes(sr)) == sr);
                assert(sr.reverse() =~= s);
            }
        },
    }
}

pub proof fn lemma_u128_rt(e: Endianness, v: u128, s: Seq<u8>)
    ensures
        enc_u128(e, v).len() == 16,
        dec_u128(e, enc_u128(e, v)) == v,
        s.len() == 16 ==> enc_u128(e, dec_u128(e, s)) == s,
{
    lemma_auto_spec_u128_to_from_le_bytes();
    let le = spec_u128_to_le_bytes(v);
    match e {
        Endianness::Little => {},
        Endianness::Big => {
            assert(le.reverse().reverse() =~= le);
            assert(dec_u128(e, enc_u128(e, v)) == spec_u128_from_le_bytes(le));
            if s.len() == 16 {
                let sr = s.reverse();
                assert(spec_u128_to_le_bytes(spec_u128_from_le_bytes(sr)) == sr);
                assert(sr.reverse() =~= s);
            }
        },
    }
}

/// Append a vector's contents reversed.
fn push_reversed(buf: &mut Vec<u8>, src: &Vec<u8>)
    ensures
        final(buf)@ == old(buf)@ + src@.reverse(),
{
    let n = src.len();
    let mut i: usize = 0;
    while i < n
        invariant
            n == src@.len(),
            i <= n,
            buf@ == old(buf)@ + src@.reverse().take(i as int),
        decreases n - i,
    {
        buf.push(src[n - 1 - i]);
        assert(src@.reverse().take(i + 1) =~= src@.reverse().take(i as int).push(
            src@[n - 1 - i],
        ));
        i = i + 1;
    }
    assert(src@.reverse().take(n as int) =~= src@.reverse());
}

pub fn put_u16(buf: &mut Vec<u8>, e: Endianness, v: u16)
    ensures
        final(buf)@ == old(buf)@ + enc_u16(e, v),
{
    let bytes = u16_to_le_bytes(v);
    match e {
        Endianness::Little => {
            buf.extend_from_slice(bytes.as_slice());
        },
        Endianness::Big => {
            push_reversed(buf, &bytes);
        },
    }
}

pub fn put_u32(buf: &mut Vec<u8>, e: Endianness, v: u32)
    ensures
        final(buf)@ == old(buf)@ + enc_u32(e, v),
{
    let bytes = u32_to_le_bytes(v);
    match e {
        Endianness::Little => {
            buf.extend_from_slice(bytes.as_slice());
        },
        Endianness::Big => {
            push_reversed(buf, &bytes);
        },
    }
}

pub fn put_u64(buf: &mut Vec<u8>, e: Endianness, v: u64)
    ensures
        final(buf)@ == old(buf)@ + enc_u64(e, v),
{
    let bytes = u64_to_le_bytes(v);
    match e {
        Endianness::Little => {
            buf.extend_from_slice(bytes.as_slice());
        },
        Endianness::Big => {
            push_reversed(buf, &bytes);
        },
    }
}

pub fn put_u128(buf: &mut Vec<u8>, e: Endianness, v: u128)
    ensures
        final(buf)@ == old(buf)@ + enc_u128(e, v),
{
    let bytes = u128_to_le_bytes(v);
    match e {
        Endianness::Little => {
            buf.extend_from_slice(bytes.as_slice());
        },
        Endianness::Big => {
            push_reversed(buf, &bytes);
        },
    }
}

/// Copy `n` bytes starting at `pos` reversed into a fresh vector.
fn sub_reversed(b: &[u8], pos: usize, n: usize) -> (r: Vec<u8>)
    requires
        pos + n <= b@.len(),
    ensures
        r@ == b@.subrange(pos as int, pos + n).reverse(),
{
    let blen = b.len();
    let mut out: Vec<u8> = Vec::new();
    let ghost sub = b@.subrange(pos as int, pos + n);
    let mut i: usize = 0;
    while i < n
        invariant
            pos + n <= b@.len() <= usize::MAX,
            sub == b@.subrange(pos as int, pos + n),
            i <= n,
            out@ == sub.reverse().take(i as int),
        decreases n - i,
    {
        let idx = pos + n - 1 - i;
        out.push(b[idx]);
        assert(sub.reverse().take(i + 1) =~= sub.reverse().take(i as int).push(
            sub[n - 1 - i],
        ));
        i = i + 1;
    }
    assert(sub.reverse().take(n as int) =~= sub.reverse());
    out
}

pub fn get_u16(b: &[u8], pos: usize, e: Endianness) -> (r: u16)
    requires
        pos + 2 <= b@.len(),
    ensures
        r == dec_u16(e, b@.subrange(pos as int, pos + 2)),
{
    let blen = b.len();
    match e {
        Endianness::Little => u16_from_le_bytes(slice_subrange(b, pos, pos + 2)),
        Endianness::Big => {
            let rev = sub_reversed(b, pos, 2);
            u16_from_le_bytes(rev.as_slice())
        },
    }
}

pub fn get_u32(b: &[u8], pos: usize, e: Endianness) -> (r: u32)
    requires
        pos + 4 <= b@.len(),
    ensures
        r == dec_u32(e, b@.subrange(pos as int, pos + 4)),
{
    let blen = b.len();
    match e {
        Endianness::Little => u32_from_le_bytes(slice_subrange(b, pos, pos + 4)),
        Endianness::Big => {
            let rev = sub_reversed(b, pos, 4);
            u32_from_le_bytes(rev.as_slice())
        },
    }
}

pub fn get_u64(b: &[u8], pos: usize, e: Endianness) -> (r: u64)
    requires
        pos + 8 <= b@.len(),
    ensures
        r == dec_u64(e, b@.subrange(pos as int, pos + 8)),
{
    let blen = b.len();
    match e {
        Endianness::Little => u64_from_le_bytes(slice_subrange(b, pos, pos + 8)),
        Endianness::Big => {
            let rev = sub_reversed(b, pos, 8);
            u64_from_le_bytes(rev.as_slice())
        },
    }
}

pub fn get_u128(b: &[u8], pos: usize, e: Endianness) -> (r: u128)
    requires
        pos + 16 <= b@.len(),
    ensures
        r == dec_u128(e, b@.subrange(pos as int, pos + 16)),
{
    let blen = b.len();
    match e {
        Endianness::Little => u128_from_le_bytes(slice_subrange(b, pos, pos + 16)),
        Endianness::Big => {
            let rev = sub_reversed(b, pos, 16);
            u128_from_le_bytes(rev.as_slice())
        },
    }
}

/// Two's-complement bit image of an `i16`.
pub open spec fn i16_bits(v: i16) -> u16 {
    if v >= 0 {
        v as u16
    } else {
        (v + 0x1_0000) as u16
    }
}

/// The `i16` whose bit image a `u16` is.
pub open spec fn i16_of_bits(u: u16) -> i16 {
    if u < 0x8000 {
        u as i16
    } else {
        (u - 0x1_0000) as i16
    }
}

pub proof fn lemma_i16_bits_rt(v: i16, u: u16)
    ensures
        i16_of_bits(i16_bits(v)) == v,
        i16_bits(i16_of_bits(u)) == u,
{
}

pub open spec fn i32_bits(v: i32) -> u32 {
    if v >= 0 {
        v as u32
    } else {
        (v + 0x1_0000_0000) as u32
    }
}

pub open spec fn i32_of_bits(u: u32) -> i32 {
    if u < 0x8000_0000 {
        u as i32
    } else {
        (u - 0x1_0000_0000) as i32
    }
}

pub proof fn lemma_i32_bits_rt(v: i32, u: u32)
    ensures
        i32_of_bits(i32_bits(v)) == v,
        i32_bits(i32_of_bits(u)) == u,
{
}

pub open spec fn i64_bits(v: i64) -> u64 {
    if v >= 0 {
        v as u64
    } else {
        (v + 0x1_0000_0000_0000_0000) as u64
    }
}

pub open spec fn i64_of_bits(u: u64) -> i64 {
    if u < 0x8000_0000_0000_0000 {
        u as i64
    } else {
        (u - 0x1_0000_0000_0000_0000) as i64
    }
}

pub proof fn lemma_i64_bits_rt(v: i64, u: u64)
    ensures
        i64_of_bits(i64_bits(v)) == v,
        i64_bits(i64_of_bits(u)) == u,
{
}

pub open spec fn i128_bits(v: i128) -> u128 {
    if v >= 0 {
        v as u128
    } else {
        (v + 0x1_0000_0000_0000_0000_0000_0000_0000_0000) as u128
    }
}

pub open spec fn i128_of_bits(u: u128) -> i128 {
    if u < 0x8000_0000_0000_0000_0000_0000_0000_0000 {
        u as i128
    } else {
        (u - 0x1_0000_0000_0000_0000_0000_0000_0000_0000) as i128
    }
}

pub proof fn lemma_i128_bits_rt(v: i128, u: u128)
    ensures
        i128_of_bits(i128_bits(v)) == v,
        i128_bits(i128_of_bits(u)) == u,
{
}

/// Two's-complement bit image of an `i8`.
pub open spec fn i8_bits(v: i8) -> u8 {
    if v >= 0 {
        v as u8
    } else {
        (v + 0x100) as u8
    }
}

pub open spec fn i8_of_bits(u: u8) -> i8 {
    if u < 0x80 {
        u as i8
    } else {
        (u - 0x100) as i8
    }
}

pub proof fn lemma_i8_bits_rt(v: i8, u: u8)
    ensures
        i8_of_bits(i8_bits(v)) == v,
        i8_bits(i8_of_bits(u)) == u,
{
}

pub fn i8_to_bits(v: i8) -> (r: u8)
    ensures
        r == i8_bits(v),
{
    if v >= 0 {
        v as u8
    } else {
        ((v as i16) + 0x100) as u8
    }
}

pub fn i8_from_bits(u: u8) -> (r: i8)
    ensures
        r == i8_of_bits(u),
{
    if u < 0x80 {
        u as i8
    } else {
        (((u as i16) - 0x100) as i8)
    }
}

pub fn i16_to_bits(v: i16) -> (r: u16)
    ensures
        r == i16_bits(v),
{
    if v >= 0 {
        v as u16
    } else {
        ((v as i32) + 0x1_0000) as u16
    }
}

pub fn i16_from_bits(u: u16) -> (r: i16)
    ensures
        r == i16_of_bits(u),
{
    if u < 0x8000 {
        u as i16
    } else {
        (((u as i32) - 0x1_0000) as i16)
    }
}

pub fn i32_to_bits(v: i32) -> (r: u32)
    ensures
        r == i32_bits(v),
{
    if v >= 0 {
        v as u32
    } else {
        ((v as i64) + 0x1_0000_0000) as u32
    }
}

pub fn i32_from_bits(u: u32) -> (r: i32)
    ensures
        r == i32_of_bits(u),
{
    if u < 0x8000_0000 {
        u as i32
    } else {
        (((u as i64) - 0x1_0000_0000) as i32)
    }
}

pub fn i64_to_bits(v: i64) -> (r: u64)
    ensures
        r == i64_bits(v),
{
    if v >= 0 {
        v as u64
    } else {
        ((v as i128) + 0x1_0000_0000_0000_0000) as u64
    }
}

pub fn i64_from_bits(u: u64) -> (r: i64)
    ensures
        r == i64_of_bits(u),
{
    if u < 0x8000_0000_0000_0000 {
        u as i64
    } else {
        (((u as i128) - 0x1_0000_0000_0000_0000) as i64)
    }
}

pub fn i128_to_bits(v: i128) -> (r: u128)
    ensures
        r == i128_bits(v),
{
    if v >= 0 {
        v as u128
    } else {
        // -(v + 1) is the complement of the magnitude, always in range.
        let m = (-(v + 1)) as u128;
        u128::MAX - m
    }
}

pub fn i128_from_bits(u: u128) -> (r: i128)
    ensures
        r == i128_of_bits(u),
{
    if u < 0x8000_0000_0000_0000_0000_0000_0000_0000 {
        u as i128
    } else {
        let m = (u128::MAX - u) as i128;
        -m - 1
    }
}

/// An identifier field, zero-padded to four bytes.
pub open spec fn enc_id4(s: Seq<u8>) -> Seq<u8>
    recommends
        s.len() <= 4,
{
    s + Seq::new((4 - s.len()) as nat, |_i: int| 0u8)
}

/// The identifier a four-byte field holds: everything before the first NUL.
pub open spec fn trim_at_nul(s: Seq<u8>) -> Seq<u8> {
    let cut = first_nul(s, 0);
    s.take(cut)
}

/// Index of the first NUL byte at or after `i`, or the length if none.
pub open spec fn first_nul(s: Seq<u8>, i: int) -> int
    recommends
        0 <= i <= s.len(),
    decreases s.len() - i,
{
    if i >= s.len() {
        s.len() as int
    } else if s[i] == 0u8 {
        i
    } else {
        first_nul(s, i + 1)
    }
}

pub proof fn lemma_first_nul_bounds(s: Seq<u8>, i: int)
    requires
        0 <= i <= s.len(),
    ensures
        i <= first_nul(s, i) <= s.len(),
        forall|j: int| i <= j < first_nul(s, i) ==> s[j] != 0u8,
        first_nul(s, i) < s.len() ==> s[first_nul(s, i)] == 0u8,
    decreases s.len() - i,
{
    if i < s.len() && s[i] != 0u8 {
        lemma_first_nul_bounds(s, i + 1);
    }
}

/// A sequence without NUL bytes, zero-padded and trimmed again, is itself.
pub proof fn lemma_trim_pad_id(s: Seq<u8>)
    requires
        s.len() <= 4,
        forall|i: int| 0 <= i < s.len() ==> s[i] != 0u8,
    ensures
        enc_id4(s).len() == 4,
        trim_at_nul(enc_id4(s)) == s,
{
    let p = enc_id4(s);
    lemma_first_nul_bounds(p, 0);
    if s.len() < 4 {
        assert(p[s.len() as int] == 0u8);
        lemma_first_nul_not_before(p, 0, s.len() as int);
        assert(first_nul(p, 0) == s.len());
    } else {
        assert(forall|i: int| 0 <= i < 4 ==> p[i] == s[i] && s[i] != 0u8);
        assert(first_nul(p, 0) == 4) by {
            lemma_first_nul_bounds(p, 0);
            if first_nul(p, 0) < 4 {
                assert(p[first_nul(p, 0)] == 0u8);
            }
        }
    }
    assert(p.take(s.len() as int) =~= s);
}

/// If no byte before `j` is NUL and `s[j]` is NUL, the first NUL from `i`
/// is exactly `j`.
pub proof fn lemma_first_nul_not_before(s: Seq<u8>, i: int, j: int)
    requires
        0 <= i <= j < s.len(),
        forall|k: int| i <= k < j ==> s[k] != 0u8,
        s[j] == 0u8,
    ensures
        first_nul(s, i) == j,
    decreases j - i,
{
    if i < j {
        lemma_first_nul_not_before(s, i + 1, j);
    }
}

/// Append an identifier zero-padded to four bytes.
pub fn put_id4(buf: &mut Vec<u8>, s: &Vec<u8>)
    requires
        s@.len() <= 4,
    ensures
        final(buf)@ == old(buf)@ + enc_id4(s@),
{
    buf.extend_from_slice(s.as_slice());
    let mut i: usize = s.len();
    while i < 4
        invariant
            s@.len() <= i <= 4,
            buf@ == old(buf)@ + s@ + Seq::new((i - s@.len()) as nat, |_j: int| 0u8),
        decreases 4 - i,
    {
        buf.push(0);
        assert(Seq::new((i + 1 - s@.len()) as nat, |_j: int| 0u8) =~= Seq::new(
            (i - s@.len()) as nat,
            |_j: int| 0u8,
        ).push(0u8));
        assert((old(buf)@ + s@ + Seq::new((i - s@.len()) as nat, |_j: int| 0u8)).push(0u8)
            =~= old(buf)@ + s@ + Seq::new((i + 1 - s@.len()) as nat, |_j: int| 0u8));
        i = i + 1;
    }
}

/// Read a four-byte identifier field at `pos`, trimmed at the first NUL.
pub fn get_id4(b: &[u8], pos: usize) -> (r: Vec<u8>)
    requires
        pos + 4 <= b@.len(),
    ensures
        r@ == trim_at_nul(b@.subrange(pos as int, pos + 4)),
{
    let blen = b.len();
    let ghost field = b@.subrange(pos as int, pos + 4);
    proof {
        lemma_first_nul_bounds(field, 0);
    }
    let mut out: Vec<u8> = Vec::new();
    let mut i: usize = 0;
    while i < 4
        invariant
            pos + 4 <= b@.len() <= usize::MAX,
            field == b@.subrange(pos as int, pos + 4),
            i <= 4,
            forall|j: int| 0 <= j < i ==> field[j] != 0u8,
            out@ == field.take(i as int),
        decreases 4 - i,
    {
        let byte = b[pos + i];
        if byte == 0 {
            proof {
                lemma_first_nul_not_before(field, 0, i as int);
            }
            return out;
        }
        out.push(byte);
        assert(field.take(i + 1) =~= field.take(i as int).push(field[i as int]));
        i = i + 1;
    }
    proof {
        lemma_first_nul_bounds(field, 0);
        assert(first_nul(field, 0) == 4) by {
            if first_nul(field, 0) < 4 {
                assert(field[first_nul(field, 0)] == 0u8);
            }
        }
        assert(field.take(4) =~= field);
    }
    out
}

/// Bytes before the first NUL in a counted field (text values are encoded
/// with a trailing NUL inside their length).
pub fn take_to_nul(b: &[u8], pos: usize, n: usize) -> (r: Vec<u8>)
    requires
        pos + n <= b@.len(),
    ensures
        r@ == trim_at_nul(b@.subrange(pos as int, pos + n)),
{
    let blen = b.len();
    let ghost field = b@.subrange(pos as int, pos + n);
    proof {
        lemma_first_nul_bounds(field, 0);
    }
    let mut out: Vec<u8> = Vec::new();
    let mut i: usize = 0;
    while i < n
        invariant
            pos + n <= b@.len() <= usize::MAX,
            field == b@.subrange(pos as int, pos + n),
            i <= n,
            forall|j: int| 0 <= j < i ==> field[j] != 0u8,
            out@ == field.take(i as int),
        decreases n - i,
    {
        let byte = b[pos + i];
        if byte == 0 {
            proof {
                lemma_first_nul_not_before(field, 0, i as int);
            }
            return out;
        }
        out.push(byte);
        assert(field.take(i + 1) =~= field.take(i as int).push(field[i as int]));
        i = i + 1;
    }
    proof {
        assert(first_nul(field, 0) == n) by {
            lemma_first_nul_bounds(field, 0);
            if first_nul(field, 0) < n {
                assert(field[first_nul(field, 0)] == 0u8);
            }
        }
        assert(field.take(n as int) =~= field);
    }
    out
}

/// The text a counted field holds: the bytes before the first NUL, which
/// must be valid UTF-8.
pub fn zero_terminated_string(raw: &[u8]) -> (r: Result<Vec<u8>, crate::types::DecodeError>)
    ensures
        match r {
            Ok(t) => t@ == trim_at_nul(raw@) && vstd::utf8::valid_utf8(t@),
            Err(er) => !vstd::utf8::valid_utf8(trim_at_nul(raw@)) && er
                == crate::types::DecodeError::InvalidStringData,
        },
{
    let n = raw.len();
    let t = take_to_nul(raw, 0, n);
    proof {
        assert(raw@.subrange(0, n as int) =~= raw@);
    }
    if crate::outside::utf8_ok(t.as_slice()) {
        Ok(t)
    } else {
        Err(crate::types::DecodeError::InvalidStringData)
    }
}

/// Trimming a NUL-free sequence gives it back whole.
pub proof fn lemma_trim_nul_free(s: Seq<u8>)
    requires
        forall|i: int| 0 <= i < s.len() ==> s[i] != 0u8,
    ensures
        trim_at_nul(s) == s,
{
    lemma_first_nul_bounds(s, 0);
    if first_nul(s, 0) < s.len() {
        assert(s[first_nul(s, 0)] == 0u8);
    }
    assert(s.take(s.len() as int) =~= s);
}

/// Trimming a NUL-free sequence with a NUL terminator appended gives the
/// sequence back.
pub proof fn lemma_trim_terminated(s: Seq<u8>)
    requires
        forall|i: int| 0 <= i < s.len() ==> s[i] != 0u8,
    ensures
        trim_at_nul(s + seq![0u8]) == s,
{
    let p = s + seq![0u8];
    assert(p[s.len() as int] == 0u8);
    lemma_first_nul_not_before(p, 0, s.len() as int);
    assert(p.take(s.len() as int) =~= s);
}

/// Concatenation of byte sequences is associative.
pub broadcast proof fn lemma_bytes_add_assoc(a: Seq<u8>, b: Seq<u8>, c: Seq<u8>)
    ensures
        #[trigger] ((a + b) + c) == a + (b + c),
{
    assert((a + b) + c =~= a + (b + c));
}

} // verus!
