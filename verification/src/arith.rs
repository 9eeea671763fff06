//! Checked, wrapping and truncating integer arithmetic.
use safe_arith::{SafeArith, SafeArithIter};
use vstd::prelude::*;

verus! {

/// Why a checked operation has no result.
#[derive(Clone, Copy, Debug, PartialEq, Eq, Structural)]
pub enum ArithError {
    /// The exact result does not fit the type.
    Overflow,
    /// The divisor is zero.
    DivisionByZero,
}

/// The number of `u64` values.
pub open spec fn u64_range() -> int {
    0x1_0000_0000_0000_0000
}

/// `x` reduced modulo the number of `u64` values.
pub open spec fn wrap_u64(x: int) -> u64 {
    (x % u64_range()) as u64
}

/// `x` as a `u64`, where it is one.
pub open spec fn fit_u64(x: int) -> Result<u64, ArithError> {
    if 0 <= x <= u64::MAX {
        Ok(x as u64)
    } else {
        Err(ArithError::Overflow)
    }
}

/// `x` as a `u128`, where it is one.
pub open spec fn fit_u128(x: int) -> Result<u128, ArithError> {
    if 0 <= x <= u128::MAX {
        Ok(x as u128)
    } else {
        Err(ArithError::Overflow)
    }
}

/// The quotient of `a` by `b`, rounded down, where `b` is not zero.
pub open spec fn quotient_u64(a: u64, b: u64) -> Result<u64, ArithError> {
    if b == 0 {
        Err(ArithError::DivisionByZero)
    } else {
        Ok((a as int / b as int) as u64)
    }
}

/// The quotient of `a` by `b`, rounded down, where `b` is not zero.
pub open spec fn quotient_u128(a: u128, b: u128) -> Result<u128, ArithError> {
    if b == 0 {
        Err(ArithError::DivisionByZero)
    } else {
        Ok((a as int / b as int) as u128)
    }
}

/// `a - b`, or zero where `b` is larger.
pub open spec fn monus(a: u64, b: u64) -> u64 {
    if a < b {
        0
    } else {
        (a - b) as u64
    }
}

/// The exact sum of `values`.
pub open spec fn sum(values: Seq<u64>) -> int
    decreases values.len(),
{
    if values.len() == 0 {
        0
    } else {
        sum(values.drop_last()) + values.last()
    }
}

/// `safe_arith::SafeArith::safe_add` on `u64`: the exact sum, or `Overflow` where it does not
/// fit.
#[verifier::external_body]
pub(crate) fn safe_add(a: u64, b: u64) -> (r: Result<u64, ArithError>)
    ensures
        r == fit_u64(a + b),
{
    match a.safe_add(b) {
        Ok(v) => Ok(v),
        Err(safe_arith::ArithError::Overflow) => Err(ArithError::Overflow),
        Err(safe_arith::ArithError::DivisionByZero) => Err(ArithError::DivisionByZero),
    }
}

/// `safe_arith::SafeArith::safe_sub` on `u64`: the exact difference, or `Overflow` where `b`
/// is larger than `a`.
#[verifier::external_body]
pub(crate) fn safe_sub(a: u64, b: u64) -> (r: Result<u64, ArithError>)
    ensures
        r == fit_u64(a - b),
{
    match a.safe_sub(b) {
        Ok(v) => Ok(v),
        Err(safe_arith::ArithError::Overflow) => Err(ArithError::Overflow),
        Err(safe_arith::ArithError::DivisionByZero) => Err(ArithError::DivisionByZero),
    }
}

/// `safe_arith::SafeArith::safe_mul` on `u64`: the exact product, or `Overflow` where it does
/// not fit.
#[verifier::external_body]
pub(crate) fn safe_mul(a: u64, b: u64) -> (r: Result<u64, ArithError>)
    ensures
        r == fit_u64(a * b),
{
    match a.safe_mul(b) {
        Ok(v) => Ok(v),
        Err(safe_arith::ArithError::Overflow) => Err(ArithError::Overflow),
        Err(safe_arith::ArithError::DivisionByZero) => Err(ArithError::DivisionByZero),
    }
}

/// `safe_arith::SafeArith::safe_div` on `u64`: the quotient rounded down, or `DivisionByZero`
/// where `b` is zero.
#[verifier::external_body]
pub(crate) fn safe_div(a: u64, b: u64) -> (r: Result<u64, ArithError>)
    ensures
        r == quotient_u64(a, b),
{
    match a.safe_div(b) {
        Ok(v) => Ok(v),
        Err(safe_arith::ArithError::Overflow) => Err(ArithError::Overflow),
        Err(safe_arith::ArithError::DivisionByZero) => Err(ArithError::DivisionByZero),
    }
}

/// `safe_arith::SafeArithIter::safe_sum` over `u64` values: their exact sum, or `Overflow`
/// where it does not fit. No summand is negative, so a partial sum overflows only where the
/// whole sum does.
#[verifier::external_body]
pub(crate) fn safe_sum(values: &Vec<u64>) -> (r: Result<u64, ArithError>)
    ensures
        r == fit_u64(sum(values@)),
{
    match values.iter().copied().safe_sum() {
        Ok(v) => Ok(v),
        Err(safe_arith::ArithError::Overflow) => Err(ArithError::Overflow),
        Err(safe_arith::ArithError::DivisionByZero) => Err(ArithError::DivisionByZero),
    }
}

/// The exact sum of two `u128` values, or `Overflow` where it does not fit.
pub fn wide_add(a: u128, b: u128) -> (r: Result<u128, ArithError>)
    ensures
        r == fit_u128(a + b),
{
    match a.checked_add(b) {
        Some(v) => Ok(v),
        None => Err(ArithError::Overflow),
    }
}

/// The exact product of two `u128` values, or `Overflow` where it does not fit.
pub fn wide_mul(a: u128, b: u128) -> (r: Result<u128, ArithError>)
    ensures
        r == fit_u128(a * b),
{
    match a.checked_mul(b) {
        Some(v) => Ok(v),
        None => {
            proof {
                lemma_product_nonneg(a, b);
            }
            Err(ArithError::Overflow)
        },
    }
}

/// The quotient of two `u128` values rounded down, or `DivisionByZero` where `b` is zero.
pub fn wide_div(a: u128, b: u128) -> (r: Result<u128, ArithError>)
    ensures
        r == quotient_u128(a, b),
{
    if b == 0 {
        Err(ArithError::DivisionByZero)
    } else {
        Ok(a / b)
    }
}

/// The low 64 bits of `x`.
pub fn truncate(x: u128) -> (r: u64)
    ensures
        r == wrap_u64(x as int),
{
    assert(x as u64 == x % 0x1_0000_0000_0000_0000u128) by (bit_vector);
    #[verifier::truncate]
    let r: u64 = x as u64;
    r
}

/// `a * b` reduced modulo the number of `u64` values.
pub fn wrapping_product(a: u64, b: u64) -> (r: u64)
    ensures
        r == wrap_u64(a * b),
{
    assert(a as nat * b as nat == a * b);
    a.wrapping_mul(b)
}

/// A sum of `u64` values is not negative.
pub proof fn lemma_sum_nonneg(values: Seq<u64>)
    ensures
        sum(values) >= 0,
    decreases values.len(),
{
    if values.len() > 0 {
        lemma_sum_nonneg(values.drop_last());
    }
}

/// A product of two unsigned values is not negative.
pub proof fn lemma_product_nonneg(a: u128, b: u128)
    ensures
        a * b >= 0,
{
    assert(a * b >= 0) by (nonlinear_arith);
}

/// A product of two `u64` values fits `u128`.
pub proof fn lemma_u64_product_fits(a: u64, b: u64)
    ensures
        0 <= a * b <= u64::MAX * u64::MAX < u128::MAX,
{
    assert(0 <= a * b <= u64::MAX * u64::MAX) by (nonlinear_arith)
        requires
            0 <= a <= u64::MAX,
            0 <= b <= u64::MAX,
    ;
}

} // verus!
