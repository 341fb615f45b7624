//! Floating-point values, carried as the 64 bits of their IEEE 754 double
//! encoding. The engine stores and moves these bits itself; the arithmetic,
//! ordering, reading and writing of the encoded values is done by the
//! `rustc_apfloat` software implementation of IEEE 754 behind the trusted
//! wrappers below. Each named result is a pure function of the operand bits:
//! `rustc_apfloat` computes without modes, flags or any other ambient state.

use crate::text::is_simple_decimal;
use rustc_apfloat::ieee::Double;
use rustc_apfloat::Float;
use vstd::prelude::*;

verus! {

/// How two floating-point values compare: the four outcomes of an IEEE 754
/// comparison. `Unordered` is the case that at least one operand is a NaN.
#[derive(Debug, Clone, Copy, PartialEq, Eq, Structural)]
pub enum FloatOrder {
    Less,
    Equal,
    Greater,
    Unordered,
}

pub uninterp spec fn add_bits(a: u64, b: u64) -> u64;

/// Relies on `rustc_apfloat`'s IEEE 754 double addition (`Add` on
/// `IeeeFloat`, rounding to nearest, ties to even).
#[verifier::external_body]
pub(crate) fn float_add(a: u64, b: u64) -> (r: u64)
    ensures
        r == add_bits(a, b),
{
    (Double::from_bits(a as u128) + Double::from_bits(b as u128)).value.to_bits() as u64
}

pub uninterp spec fn sub_bits(a: u64, b: u64) -> u64;

/// Relies on `rustc_apfloat`'s IEEE 754 double subtraction (`Sub` on
/// `IeeeFloat`, rounding to nearest, ties to even).
#[verifier::external_body]
pub(crate) fn float_sub(a: u64, b: u64) -> (r: u64)
    ensures
        r == sub_bits(a, b),
{
    (Double::from_bits(a as u128) - Double::from_bits(b as u128)).value.to_bits() as u64
}

pub uninterp spec fn mul_bits(a: u64, b: u64) -> u64;

/// Relies on `rustc_apfloat`'s IEEE 754 double multiplication (`Mul` on
/// `IeeeFloat`, rounding to nearest, ties to even).
#[verifier::external_body]
pub(crate) fn float_mul(a: u64, b: u64) -> (r: u64)
    ensures
        r == mul_bits(a, b),
{
    (Double::from_bits(a as u128) * Double::from_bits(b as u128)).value.to_bits() as u64
}

pub uninterp spec fn div_bits(a: u64, b: u64) -> u64;

/// Relies on `rustc_apfloat`'s IEEE 754 double division (`Div` on
/// `IeeeFloat`, rounding to nearest, ties to even).
#[verifier::external_body]
pub(crate) fn float_div(a: u64, b: u64) -> (r: u64)
    ensures
        r == div_bits(a, b),
{
    (Double::from_bits(a as u128) / Double::from_bits(b as u128)).value.to_bits() as u64
}

pub uninterp spec fn cmp_bits(a: u64, b: u64) -> FloatOrder;

/// Relies on `rustc_apfloat`'s IEEE 754 double comparison (`PartialOrd` on
/// `IeeeFloat`): equal zeros of either sign compare equal, and the result is
/// `None` exactly when an operand is a NaN.
#[verifier::external_body]
pub(crate) fn float_cmp(a: u64, b: u64) -> (r: FloatOrder)
    ensures
        r == cmp_bits(a, b),
{
    match Double::from_bits(a as u128).partial_cmp(&Double::from_bits(b as u128)) {
        Some(core::cmp::Ordering::Less) => FloatOrder::Less,
        Some(core::cmp::Ordering::Equal) => FloatOrder::Equal,
        Some(core::cmp::Ordering::Greater) => FloatOrder::Greater,
        None => FloatOrder::Unordered,
    }
}

pub uninterp spec fn bits_of_u64(v: u64) -> u64;

/// Relies on `rustc_apfloat`'s conversion from an unsigned integer
/// (`Float::from_u128`, rounding to nearest, ties to even).
#[verifier::external_body]
pub(crate) fn float_of_u64(v: u64) -> (r: u64)
    ensures
        r == bits_of_u64(v),
{
    Double::from_u128(v as u128).value.to_bits() as u64
}

pub uninterp spec fn bits_of_i64(v: i64) -> u64;

/// Relies on `rustc_apfloat`'s conversion from a signed integer
/// (`Float::from_i128`, rounding to nearest, ties to even).
#[verifier::external_body]
pub(crate) fn float_of_i64(v: i64) -> (r: u64)
    ensures
        r == bits_of_i64(v),
{
    Double::from_i128(v as i128).value.to_bits() as u64
}

pub uninterp spec fn float_of_text(s: Seq<char>) -> Option<u64>;

/// Relies on `rustc_apfloat`'s reading of a decimal form
/// (`Float::from_str_r`, rounding to nearest, ties to even): it accepts
/// every text of an optional sign and digits with at most one decimal point
/// among them, and it fails rather than guess on text it does not accept.
#[verifier::external_body]
pub(crate) fn float_from_text(s: &str) -> (r: Option<u64>)
    ensures
        r == float_of_text(s@),
        is_simple_decimal(s@) ==> r is Some,
{
    match s.parse::<Double>() {
        Ok(d) => Some(d.to_bits() as u64),
        Err(_) => None,
    }
}

pub uninterp spec fn text_of_float(bits: u64) -> Seq<char>;

/// Relies on `rustc_apfloat`'s decimal printing of a double (`Display` on
/// `IeeeFloat`, natural precision).
#[verifier::external_body]
pub(crate) fn float_to_text(bits: u64) -> (r: String)
    ensures
        r@ == text_of_float(bits),
{
    format!("{}", Double::from_bits(bits as u128))
}

/// Whether these bits encode a zero of either sign: the only encodings whose
/// value is equal to zero, and so the only falsy floating-point values.
pub open spec fn is_zero_bits(bits: u64) -> bool {
    bits == 0 || bits == 0x8000_0000_0000_0000
}

/// Runtime test for `is_zero_bits`.
pub fn float_is_zero(bits: u64) -> (r: bool)
    ensures
        r == is_zero_bits(bits),
{
    bits == 0 || bits == 0x8000_0000_0000_0000
}

} // verus!
