//! Floating-point support. The machine's float values are carried as their
//! IEEE-754 binary32 bit patterns; the operations on them are performed by
//! the `rustc_apfloat` software implementation behind trusted wrappers, and
//! their results are named by uninterpreted functions: the same operand bits
//! always give the same result bits, on every machine.

use rustc_apfloat::Float;
use vstd::prelude::*;

verus! {

/// The bits of the IEEE-754 binary32 sum of the two operand bit patterns.
pub uninterp spec fn add_bits(a: u32, b: u32) -> u32;

/// The bits of the IEEE-754 binary32 difference of the two operand bit patterns.
pub uninterp spec fn sub_bits(a: u32, b: u32) -> u32;

/// The bits of the IEEE-754 binary32 product of the two operand bit patterns.
pub uninterp spec fn mul_bits(a: u32, b: u32) -> u32;

/// The bits of the IEEE-754 binary32 quotient of the two operand bit patterns.
pub uninterp spec fn div_bits(a: u32, b: u32) -> u32;

/// Whether the two operand bit patterns compare equal as IEEE-754 values.
pub uninterp spec fn eq_bits(a: u32, b: u32) -> bool;

/// Whether the left operand bit pattern compares strictly below the right one.
pub uninterp spec fn lt_bits(a: u32, b: u32) -> bool;

/// Whether the left operand bit pattern compares below or equal to the right one.
pub uninterp spec fn le_bits(a: u32, b: u32) -> bool;

/// The bit pattern a decimal text denotes, or `None` where it is malformed.
pub uninterp spec fn bits_of_text(w: Seq<char>) -> Option<u32>;

/// The decimal rendering of a float value given by its bit pattern.
pub uninterp spec fn text_of_bits(a: u32) -> Seq<u8>;

/// Relies on `rustc_apfloat::ieee::Single` addition: IEEE-754 binary32 with
/// round-to-nearest-even, a function of the operand bits alone.
#[verifier::external_body]
pub(crate) fn add(a: u32, b: u32) -> (r: u32)
    ensures
        r == add_bits(a, b),
{
    let x = rustc_apfloat::ieee::Single::from_bits(a as u128);
    let y = rustc_apfloat::ieee::Single::from_bits(b as u128);
    (x + y).value.to_bits() as u32
}

/// Relies on `rustc_apfloat::ieee::Single` subtraction: IEEE-754 binary32 with
/// round-to-nearest-even, a function of the operand bits alone.
#[verifier::external_body]
pub(crate) fn sub(a: u32, b: u32) -> (r: u32)
    ensures
        r == sub_bits(a, b),
{
    let x = rustc_apfloat::ieee::Single::from_bits(a as u128);
    let y = rustc_apfloat::ieee::Single::from_bits(b as u128);
    (x - y).value.to_bits() as u32
}

/// Relies on `rustc_apfloat::ieee::Single` multiplication: IEEE-754 binary32
/// with round-to-nearest-even, a function of the operand bits alone.
#[verifier::external_body]
pub(crate) fn mul(a: u32, b: u32) -> (r: u32)
    ensures
        r == mul_bits(a, b),
{
    let x = rustc_apfloat::ieee::Single::from_bits(a as u128);
    let y = rustc_apfloat::ieee::Single::from_bits(b as u128);
    (x * y).value.to_bits() as u32
}

/// Relies on `rustc_apfloat::ieee::Single` division: IEEE-754 binary32 with
/// round-to-nearest-even, a function of the operand bits alone; division by
/// zero yields an infinity or NaN, never a fault.
#[verifier::external_body]
pub(crate) fn div(a: u32, b: u32) -> (r: u32)
    ensures
        r == div_bits(a, b),
{
    let x = rustc_apfloat::ieee::Single::from_bits(a as u128);
    let y = rustc_apfloat::ieee::Single::from_bits(b as u128);
    (x / y).value.to_bits() as u32
}

/// Relies on `rustc_apfloat::ieee::Single` comparison: IEEE-754 equality,
/// under which NaN compares equal to nothing.
#[verifier::external_body]
pub(crate) fn eq(a: u32, b: u32) -> (r: bool)
    ensures
        r == eq_bits(a, b),
{
    let x = rustc_apfloat::ieee::Single::from_bits(a as u128);
    let y = rustc_apfloat::ieee::Single::from_bits(b as u128);
    x.partial_cmp(&y) == Some(core::cmp::Ordering::Equal)
}

/// Relies on `rustc_apfloat::ieee::Single` comparison: IEEE-754 strict order,
/// under which NaN compares below nothing.
#[verifier::external_body]
pub(crate) fn lt(a: u32, b: u32) -> (r: bool)
    ensures
        r == lt_bits(a, b),
{
    let x = rustc_apfloat::ieee::Single::from_bits(a as u128);
    let y = rustc_apfloat::ieee::Single::from_bits(b as u128);
    x.partial_cmp(&y) == Some(core::cmp::Ordering::Less)
}

/// Relies on `rustc_apfloat::ieee::Single` comparison: IEEE-754 order-or-equal,
/// false whenever either operand is NaN.
#[verifier::external_body]
pub(crate) fn le(a: u32, b: u32) -> (r: bool)
    ensures
        r == le_bits(a, b),
{
    let x = rustc_apfloat::ieee::Single::from_bits(a as u128);
    let y = rustc_apfloat::ieee::Single::from_bits(b as u128);
    matches!(
        x.partial_cmp(&y),
        Some(core::cmp::Ordering::Less) | Some(core::cmp::Ordering::Equal)
    )
}

/// Relies on `rustc_apfloat::ieee::Single::from_str`: parses a decimal float
/// text to its correctly rounded bit pattern, a function of the text alone.
/// Its exponent bookkeeping measures digit positions in an `i32`, so the
/// caller keeps absurdly long words away from it.
#[verifier::external_body]
pub(crate) fn parse(w: &Vec<char>) -> (r: Option<u32>)
    requires
        w@.len() <= 0x7fff_ffff,
    ensures
        r == bits_of_text(w@),
{
    let s: String = w.iter().collect();
    match s.parse::<rustc_apfloat::ieee::Single>() {
        Ok(v) => Some(v.to_bits() as u32),
        Err(_) => None,
    }
}

/// Relies on the `rustc_apfloat::ieee::Single` decimal formatter: renders the
/// value in its natural decimal form, a function of the bits alone.
#[verifier::external_body]
pub(crate) fn render(a: u32) -> (r: Vec<u8>)
    ensures
        r@ == text_of_bits(a),
{
    let v = rustc_apfloat::ieee::Single::from_bits(a as u128);
    format!("{}", v).into_bytes()
}

} // verus!
