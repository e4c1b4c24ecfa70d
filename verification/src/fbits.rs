//! Trusted boundary to IEEE-754 single-precision arithmetic.
//!
//! Vertex components live in this crate as raw 32-bit patterns.  The
//! arithmetic on the values they encode is performed by `rustc_apfloat`, a
//! deterministic, correctly rounded software implementation of IEEE-754
//! (round to nearest, ties to even).  Every operation here is a pure function
//! of the operand bit patterns, so each result is given a name by an
//! uninterpreted spec function, and the wrappers promise nothing beyond that
//! name: callers state their own behaviour in terms of these names, and the
//! tests exercise the real operations through them.

use vstd::prelude::*;

use rustc_apfloat::Float;
use rustc_apfloat::ieee::Single;
use core::str::FromStr;

verus! {

/// The IEEE-754 single-precision sum of the values encoded by `a` and `b`.
pub uninterp spec fn f32_add_bits(a: u32, b: u32) -> u32;

/// The IEEE-754 single-precision difference of the values encoded by `a` and `b`.
pub uninterp spec fn f32_sub_bits(a: u32, b: u32) -> u32;

/// The IEEE-754 single-precision product of the values encoded by `a` and `b`.
pub uninterp spec fn f32_mul_bits(a: u32, b: u32) -> u32;

/// The IEEE-754 single-precision quotient of the values encoded by `a` and `b`.
pub uninterp spec fn f32_div_bits(a: u32, b: u32) -> u32;

/// What parsing `s` as a single-precision number yields: the bit pattern of
/// the parsed value, or `None` where `s` is not a numeric literal.
pub uninterp spec fn f32_parse_bits(s: Seq<char>) -> Option<u32>;

/// The decimal rendering of the value encoded by `b`.
pub uninterp spec fn f32_text_bits(b: u32) -> Seq<char>;

/// Relies on `Add` for `rustc_apfloat::ieee::Single`: IEEE-754 addition,
/// round to nearest even, a function of the operand bit patterns alone.
#[verifier::external_body]
pub fn f32_add(a: u32, b: u32) -> (r: u32)
    ensures
        r == f32_add_bits(a, b),
{
    (Single::from_bits(a as u128) + Single::from_bits(b as u128)).value.to_bits() as u32
}

/// Relies on `Sub` for `rustc_apfloat::ieee::Single`: IEEE-754 subtraction,
/// round to nearest even, a function of the operand bit patterns alone.
#[verifier::external_body]
pub fn f32_sub(a: u32, b: u32) -> (r: u32)
    ensures
        r == f32_sub_bits(a, b),
{
    (Single::from_bits(a as u128) - Single::from_bits(b as u128)).value.to_bits() as u32
}

/// Relies on `Mul` for `rustc_apfloat::ieee::Single`: IEEE-754
/// multiplication, round to nearest even, a function of the operand bit
/// patterns alone.
#[verifier::external_body]
pub fn f32_mul(a: u32, b: u32) -> (r: u32)
    ensures
        r == f32_mul_bits(a, b),
{
    (Single::from_bits(a as u128) * Single::from_bits(b as u128)).value.to_bits() as u32
}

/// Relies on `Div` for `rustc_apfloat::ieee::Single`: IEEE-754 division,
/// round to nearest even, a function of the operand bit patterns alone
/// (division by zero yields the IEEE infinity or NaN, it does not fail).
#[verifier::external_body]
pub fn f32_div(a: u32, b: u32) -> (r: u32)
    ensures
        r == f32_div_bits(a, b),
{
    (Single::from_bits(a as u128) / Single::from_bits(b as u128)).value.to_bits() as u32
}

/// Relies on `FromStr` for `rustc_apfloat::ieee::Single`: correctly rounded
/// parsing of a numeric literal, a function of the characters alone; a string
/// it cannot parse yields `Err`, mapped to `None` here.  The length bound
/// keeps byte offsets (up to four per character) inside the 32-bit exponent
/// range the parser computes decimal-point positions with.
#[verifier::external_body]
pub fn f32_parse(s: &str) -> (r: Option<u32>)
    requires
        s@.len() < 0x2000_0000,
    ensures
        r == f32_parse_bits(s@),
{
    match Single::from_str(s) {
        Ok(v) => Some(v.to_bits() as u32),
        Err(_) => None,
    }
}

/// Relies on `Display` for `rustc_apfloat::ieee::Single`: a decimal rendering
/// of the encoded value that depends on the bit pattern alone.
#[verifier::external_body]
pub fn f32_text(b: u32) -> (r: String)
    ensures
        r@ == f32_text_bits(b),
{
    format!("{}", Single::from_bits(b as u128))
}

} // verus!
