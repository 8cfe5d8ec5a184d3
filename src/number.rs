//! Numbers of the language are IEEE-754 binary64 values, held as their bit
//! patterns; the arithmetic on them is done by `rustc_apfloat`'s software
//! implementation of IEEE-754.
use rustc_apfloat::ieee::Double;
use rustc_apfloat::Float;
use vstd::prelude::*;

verus! {

/// The correctly rounded binary64 sum of two bit patterns.
pub uninterp spec fn float_add(a: u64, b: u64) -> u64;

/// The correctly rounded binary64 difference of two bit patterns.
pub uninterp spec fn float_sub(a: u64, b: u64) -> u64;

/// The correctly rounded binary64 product of two bit patterns.
pub uninterp spec fn float_mul(a: u64, b: u64) -> u64;

/// The correctly rounded binary64 quotient of two bit patterns.
pub uninterp spec fn float_div(a: u64, b: u64) -> u64;

/// The binary64 value nearest to a decimal text, if the text reads as one.
pub uninterp spec fn float_from_decimal(s: Seq<char>) -> Option<u64>;

/// The decimal rendering of a binary64 value.
pub uninterp spec fn float_text(a: u64) -> Seq<char>;

/// Relies on `<Double as Add>::add` of rustc_apfloat (round to nearest,
/// ties to even): the sum depends on the two operands alone.
#[verifier::external_body]
pub(crate) fn add_bits(a: u64, b: u64) -> (r: u64)
    ensures
        r == float_add(a, b),
{
    (Double::from_bits(a as u128) + Double::from_bits(b as u128)).value.to_bits() as u64
}

/// Relies on `<Double as Sub>::sub` of rustc_apfloat (round to nearest,
/// ties to even): the difference depends on the two operands alone.
#[verifier::external_body]
pub(crate) fn sub_bits(a: u64, b: u64) -> (r: u64)
    ensures
        r == float_sub(a, b),
{
    (Double::from_bits(a as u128) - Double::from_bits(b as u128)).value.to_bits() as u64
}

/// Relies on `<Double as Mul>::mul` of rustc_apfloat (round to nearest,
/// ties to even): the product depends on the two operands alone.
#[verifier::external_body]
pub(crate) fn mul_bits(a: u64, b: u64) -> (r: u64)
    ensures
        r == float_mul(a, b),
{
    (Double::from_bits(a as u128) * Double::from_bits(b as u128)).value.to_bits() as u64
}

/// Relies on `<Double as Div>::div` of rustc_apfloat (round to nearest,
/// ties to even): the quotient depends on the two operands alone.
#[verifier::external_body]
pub(crate) fn div_bits(a: u64, b: u64) -> (r: u64)
    ensures
        r == float_div(a, b),
{
    (Double::from_bits(a as u128) / Double::from_bits(b as u128)).value.to_bits() as u64
}

/// Whether every character of a text is a decimal digit.
pub open spec fn all_digits(s: Seq<char>) -> bool {
    forall|i: int| 0 <= i < s.len() ==> '0' <= #[trigger] s[i] && s[i] <= '9'
}

/// A decimal literal: one or more digits, optionally followed by a point
/// and one or more digits.
pub open spec fn is_decimal_literal(s: Seq<char>) -> bool {
    ||| s.len() > 0 && all_digits(s)
    ||| exists|p: int|
        0 < p < s.len() - 1 && s[p] == '.' && all_digits(#[trigger] s.subrange(0, p))
            && all_digits(s.subrange(p + 1, s.len() as int))
}

/// Relies on `<Double as FromStr>::from_str` of rustc_apfloat: whether the
/// text reads as a number, and which, depends on the text alone; a text of
/// digits with at most one point and at least one digit always reads
/// (`from_decimal_string` fails only on other characters, a second point,
/// or no digit).
#[verifier::external_body]
pub(crate) fn bits_from_decimal(s: &str) -> (r: Option<u64>)
    ensures
        r == float_from_decimal(s@),
        is_decimal_literal(s@) ==> r is Some,
{
    s.parse::<Double>().ok().map(|d| d.to_bits() as u64)
}

/// Relies on `<Double as Display>::fmt` of rustc_apfloat: the text depends
/// on the value alone.
#[verifier::external_body]
pub(crate) fn decimal_of_bits(a: u64) -> (r: String)
    ensures
        r@ == float_text(a),
{
    format!("{}", Double::from_bits(a as u128))
}

} // verus!
