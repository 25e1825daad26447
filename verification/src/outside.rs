//! Trusted declarations for the outside functions the library leans on.
//! Each wrapper's body only makes the call and converts values; Verus
//! believes the stated contract, so each doc comment names exactly what is
//! relied on.
use vstd::prelude::*;

verus! {

use vstd::utf8::valid_utf8;

/// Relies on `core::str::from_utf8`: it accepts a byte slice exactly when
/// the bytes are valid UTF-8, which is what `vstd::utf8::valid_utf8`
/// states.
#[verifier::external_body]
pub fn utf8_ok(b: &[u8]) -> (r: bool)
    ensures
        r == valid_utf8(b@),
{
    core::str::from_utf8(b).is_ok()
}

/// Text of the RFC-3339 UTC timestamp for a given second and nanosecond
/// count since the Unix epoch: a pure function of its arguments.
pub uninterp spec fn rfc3339_of(secs: u64, nanos: u32) -> Seq<u8>;

/// Relies on `humantime::format_rfc3339`: it renders any time below the
/// year-10000 bound as RFC-3339 UTC text, from the seconds and nanoseconds
/// alone; the text is digits, date and time punctuation, `T` and `Z`, so
/// it never holds a newline byte.
#[verifier::external_body]
pub fn rfc3339_text(secs: u64, nanos: u32) -> (r: Vec<u8>)
    requires
        nanos < 1_000_000_000,
        secs < 253_402_300_800,
    ensures
        r@ == rfc3339_of(secs, nanos),
        forall|i: int| 0 <= i < r@.len() ==> r@[i] != 10u8,
{
    let t = std::time::UNIX_EPOCH + std::time::Duration::new(secs, nanos);
    format!("{}", humantime::format_rfc3339(t)).into_bytes()
}

/// Decimal text of the IEEE-754 single with the given bit pattern: a pure
/// function of the bits.
pub uninterp spec fn f32_text_of(bits: u32) -> Seq<u8>;

/// Relies on `rustc_apfloat::ieee::Single`: `from_bits` and its `Display`
/// render the value from the bit pattern alone; the text is digits, sign,
/// dot, `E` and the NaN/Inf words, so it never holds a newline byte.
#[verifier::external_body]
pub fn f32_text(bits: u32) -> (r: Vec<u8>)
    ensures
        r@ == f32_text_of(bits),
        forall|i: int| 0 <= i < r@.len() ==> r@[i] != 10u8,
{
    let v = <rustc_apfloat::ieee::Single as rustc_apfloat::Float>::from_bits(bits as u128);
    format!("{}", v).into_bytes()
}

/// Decimal text of the IEEE-754 double with the given bit pattern: a pure
/// function of the bits.
pub uninterp spec fn f64_text_of(bits: u64) -> Seq<u8>;

/// Relies on `rustc_apfloat::ieee::Double`: `from_bits` and its `Display`
/// render the value from the bit pattern alone; as with the single width,
/// the text never holds a newline byte.
#[verifier::external_body]
pub fn f64_text(bits: u64) -> (r: Vec<u8>)
    ensures
        r@ == f64_text_of(bits),
        forall|i: int| 0 <= i < r@.len() ==> r@[i] != 10u8,
{
    let v = <rustc_apfloat::ieee::Double as rustc_apfloat::Float>::from_bits(bits as u128);
    format!("{}", v).into_bytes()
}

/// The unsigned 64-bit image of `phy * quantization`, rounded toward zero
/// and saturated, where the quantization is the IEEE-754 single with the
/// given bits: a pure function of the two arguments.
pub uninterp spec fn fixed_product_signed_of(phy: i64, quant_bits: u32) -> u64;

/// Relies on `rustc_apfloat::ieee::{Single, Double}`: exact conversion of
/// the quantization to double width, double multiplication, and the
/// saturating truncation to 64 unsigned bits, all from the arguments alone.
#[verifier::external_body]
pub fn fixed_product_signed(phy: i64, quant_bits: u32) -> (r: u64)
    ensures
        r == fixed_product_signed_of(phy, quant_bits),
{
    let q32 = <rustc_apfloat::ieee::Single as rustc_apfloat::Float>::from_bits(quant_bits as u128);
    let mut lost = false;
    let q: rustc_apfloat::ieee::Double =
        rustc_apfloat::FloatConvert::convert(q32, &mut lost).value;
    let v = <rustc_apfloat::ieee::Double as rustc_apfloat::Float>::from_i128(phy as i128).value;
    let prod = (v * q).value;
    let mut exact = false;
    rustc_apfloat::Float::to_u128_r(prod, 64, rustc_apfloat::Round::TowardZero, &mut exact).value as u64
}

/// The unsigned 64-bit image of `phy * quantization` for an unsigned
/// physical value: a pure function of the two arguments.
pub uninterp spec fn fixed_product_unsigned_of(phy: u64, quant_bits: u32) -> u64;

/// Relies on `rustc_apfloat::ieee::{Single, Double}`, as the signed
/// variant does.
#[verifier::external_body]
pub fn fixed_product_unsigned(phy: u64, quant_bits: u32) -> (r: u64)
    ensures
        r == fixed_product_unsigned_of(phy, quant_bits),
{
    let q32 = <rustc_apfloat::ieee::Single as rustc_apfloat::Float>::from_bits(quant_bits as u128);
    let mut lost = false;
    let q: rustc_apfloat::ieee::Double =
        rustc_apfloat::FloatConvert::convert(q32, &mut lost).value;
    let v = <rustc_apfloat::ieee::Double as rustc_apfloat::Float>::from_u128(phy as u128).value;
    let prod = (v * q).value;
    let mut exact = false;
    rustc_apfloat::Float::to_u128_r(prod, 64, rustc_apfloat::Round::TowardZero, &mut exact).value as u64
}

} // verus!
