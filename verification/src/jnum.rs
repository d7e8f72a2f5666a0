//! Non-integral JSON numbers, kept opaque.
//!
//! The engine stores a JSON number that does not fit a 64-bit signed integer
//! exactly as `serde_json` hands it out.  Every operation on such a number
//! goes through one of the trusted wrappers below, and each wrapper's result
//! is pinned by an uninterpreted spec function of the operands alone, so the
//! same operands always denote the same result.  JSON numbers are always
//! finite, which makes their comparison total.

use vstd::prelude::*;

verus! {

/// serde_json's number type.  Opaque to the engine.
#[verifier::external_type_specification]
#[verifier::external_body]
pub struct ExNumber(serde_json::Number);

/// The total order of two JSON numbers, compared as 64-bit floats.
pub uninterp spec fn jnum_cmp(a: serde_json::Number, b: serde_json::Number) -> core::cmp::Ordering;

/// The sum of two JSON numbers, computed as 64-bit floats.
pub uninterp spec fn jnum_add(a: serde_json::Number, b: serde_json::Number) -> serde_json::Number;

/// The difference of two JSON numbers, computed as 64-bit floats.
pub uninterp spec fn jnum_sub(a: serde_json::Number, b: serde_json::Number) -> serde_json::Number;

/// The product of two JSON numbers, computed as 64-bit floats.
pub uninterp spec fn jnum_mul(a: serde_json::Number, b: serde_json::Number) -> serde_json::Number;

/// The quotient of two JSON numbers, computed as 64-bit floats.
pub uninterp spec fn jnum_div(a: serde_json::Number, b: serde_json::Number) -> serde_json::Number;

/// The remainder of two JSON numbers, computed as 64-bit floats.
pub uninterp spec fn jnum_rem(a: serde_json::Number, b: serde_json::Number) -> serde_json::Number;

/// The integer a JSON number truncates to (saturating at the i64 range).
pub uninterp spec fn jnum_trunc(n: serde_json::Number) -> i64;

/// The canonical text of a JSON number.
pub uninterp spec fn jnum_text(n: serde_json::Number) -> Seq<char>;

/// The JSON number a text parses to, if it parses as a finite float.
pub uninterp spec fn jnum_parse(s: Seq<char>) -> Option<serde_json::Number>;

/// The JSON number holding a given integer exactly.
pub uninterp spec fn jnum_of_i64(i: i64) -> serde_json::Number;

/// Whether a JSON number compares equal to another.
pub open spec fn jnum_eq(a: serde_json::Number, b: serde_json::Number) -> bool {
    jnum_cmp(a, b) == core::cmp::Ordering::Equal
}

/// Whether a JSON number is zero-valued.
pub open spec fn jnum_is_zero(n: serde_json::Number) -> bool {
    jnum_eq(n, jnum_of_i64(0))
}

/// Relies on serde_json::Number::as_f64 (defined for every JSON number) and
/// the comparison of the two floats; JSON numbers are finite, so the
/// comparison is total.
#[verifier::external_body]
pub(crate) fn num_cmp(a: &serde_json::Number, b: &serde_json::Number) -> (r: core::cmp::Ordering)
    ensures
        r == jnum_cmp(*a, *b),
{
    let x = a.as_f64().unwrap_or_default();
    let y = b.as_f64().unwrap_or_default();
    x.partial_cmp(&y).unwrap_or(core::cmp::Ordering::Equal)
}

/// Relies on serde_json::Number::as_f64, float addition, and
/// serde_json::Number::from_f64; a sum outside the finite float range falls
/// back to zero, since it is not a JSON number.
#[verifier::external_body]
pub(crate) fn num_add(a: &serde_json::Number, b: &serde_json::Number) -> (r: serde_json::Number)
    ensures
        r == jnum_add(*a, *b),
{
    let x = a.as_f64().unwrap_or_default() + b.as_f64().unwrap_or_default();
    serde_json::Number::from_f64(x).unwrap_or_else(|| 0.into())
}

/// Relies on serde_json::Number::as_f64, float subtraction, and
/// serde_json::Number::from_f64; a non-finite result falls back to zero.
#[verifier::external_body]
pub(crate) fn num_sub(a: &serde_json::Number, b: &serde_json::Number) -> (r: serde_json::Number)
    ensures
        r == jnum_sub(*a, *b),
{
    let x = a.as_f64().unwrap_or_default() - b.as_f64().unwrap_or_default();
    serde_json::Number::from_f64(x).unwrap_or_else(|| 0.into())
}

/// Relies on serde_json::Number::as_f64, float multiplication, and
/// serde_json::Number::from_f64; a non-finite result falls back to zero.
#[verifier::external_body]
pub(crate) fn num_mul(a: &serde_json::Number, b: &serde_json::Number) -> (r: serde_json::Number)
    ensures
        r == jnum_mul(*a, *b),
{
    let x = a.as_f64().unwrap_or_default() * b.as_f64().unwrap_or_default();
    serde_json::Number::from_f64(x).unwrap_or_else(|| 0.into())
}

/// Relies on serde_json::Number::as_f64, float division, and
/// serde_json::Number::from_f64; a non-finite result falls back to zero.
/// The engine only divides by numbers it has checked to be non-zero.
#[verifier::external_body]
pub(crate) fn num_div(a: &serde_json::Number, b: &serde_json::Number) -> (r: serde_json::Number)
    ensures
        r == jnum_div(*a, *b),
{
    let x = a.as_f64().unwrap_or_default() / b.as_f64().unwrap_or_default();
    serde_json::Number::from_f64(x).unwrap_or_else(|| 0.into())
}

/// Relies on serde_json::Number::as_f64, float remainder, and
/// serde_json::Number::from_f64; a non-finite result falls back to zero.
/// The engine only takes remainders by numbers it has checked to be non-zero.
#[verifier::external_body]
pub(crate) fn num_rem(a: &serde_json::Number, b: &serde_json::Number) -> (r: serde_json::Number)
    ensures
        r == jnum_rem(*a, *b),
{
    let x = a.as_f64().unwrap_or_default() % b.as_f64().unwrap_or_default();
    serde_json::Number::from_f64(x).unwrap_or_else(|| 0.into())
}

/// Relies on serde_json::Number::as_f64 and the saturating float-to-integer
/// cast.
#[verifier::external_body]
pub(crate) fn num_trunc(n: &serde_json::Number) -> (r: i64)
    ensures
        r == jnum_trunc(*n),
{
    n.as_f64().map_or(0, |x| x as i64)
}

/// Relies on serde_json::Number::as_f64 and the standard float formatting,
/// which prints the shortest decimal that reads back as the same float.
#[verifier::external_body]
pub(crate) fn num_text(n: &serde_json::Number) -> (r: String)
    ensures
        r@ == jnum_text(*n),
{
    match n.as_f64() {
        Some(x) => format!("{}", x),
        None => String::new(),
    }
}

/// Relies on the standard float parser and serde_json::Number::from_f64;
/// a text that parses to a non-finite float yields `None`.
#[verifier::external_body]
pub(crate) fn num_parse(s: &str) -> (r: Option<serde_json::Number>)
    ensures
        r == jnum_parse(s@),
{
    s.parse().ok().and_then(serde_json::Number::from_f64)
}

/// Relies on serde_json's From<i64> for Number, which stores the integer
/// exactly.
#[verifier::external_body]
pub(crate) fn num_from_i64(i: i64) -> (r: serde_json::Number)
    ensures
        r == jnum_of_i64(i),
{
    serde_json::Number::from(i)
}

/// Relies on serde_json::Number::clone, a derived clone that returns the
/// same value.
pub assume_specification[ <serde_json::Number as Clone>::clone ](
    n: &serde_json::Number,
) -> (r: serde_json::Number)
    ensures
        r == *n,
;

} // verus!
