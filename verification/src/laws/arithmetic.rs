//! The arithmetic vocabulary.
use crate::arith::{
    fit_u128, fit_u64, monus, quotient_u128, quotient_u64, sum, wrap_u64, ArithError,
};
use vstd::prelude::*;

verus! {

/// Wrapping leaves a value that fits alone, and does not see a difference of 2^64.
pub proof fn law_wrapping_forgets_multiples_of_the_range(x: int)
    ensures
        0 <= x < 0x1_0000_0000_0000_0000 ==> wrap_u64(x) == x,
        wrap_u64(x + 0x1_0000_0000_0000_0000) == wrap_u64(x),
        wrap_u64(x - 0x1_0000_0000_0000_0000) == wrap_u64(x),
        wrap_u64(x) == x % 0x1_0000_0000_0000_0000,
{
}

/// A checked result is the value itself, and it is refused as an overflow exactly where it is
/// negative or too large.
pub proof fn law_checked_results_are_exact(x: int)
    ensures
        0 <= x < 0x1_0000_0000_0000_0000 <==> fit_u64(x) is Ok,
        fit_u64(x) is Ok ==> fit_u64(x)->Ok_0 == x,
        fit_u64(x) is Err ==> fit_u64(x)->Err_0 == ArithError::Overflow,
        0 <= x < 0x1_0000_0000_0000_0000_0000_0000_0000_0000 <==> fit_u128(x) is Ok,
        fit_u128(x) is Ok ==> fit_u128(x)->Ok_0 == x,
        fit_u128(x) is Err ==> fit_u128(x)->Err_0 == ArithError::Overflow,
{
}

/// A quotient of `u64` values is the largest number of divisors that go into the dividend, and
/// only a zero divisor has none.
pub proof fn law_quotients_round_down(a: u64, b: u64)
    ensures
        quotient_u64(a, b) is Ok <==> b != 0,
        b == 0 ==> quotient_u64(a, b) == Err::<u64, ArithError>(ArithError::DivisionByZero),
        b != 0 ==> {
            let q = quotient_u64(a, b)->Ok_0;
            q * b <= a && a < (q + 1) * b
        },
{
    if b != 0 {
        lemma_division(a as int, b as int);
    }
}

/// A quotient of `u128` values is the largest number of divisors that go into the dividend,
/// and only a zero divisor has none.
pub proof fn law_wide_quotients_round_down(a: u128, b: u128)
    ensures
        quotient_u128(a, b) is Ok <==> b != 0,
        b == 0 ==> quotient_u128(a, b) == Err::<u128, ArithError>(ArithError::DivisionByZero),
        b != 0 ==> {
            let q = quotient_u128(a, b)->Ok_0;
            q * b <= a && a < (q + 1) * b
        },
{
    if b != 0 {
        lemma_division(a as int, b as int);
    }
}

/// Division rounds down.
pub proof fn lemma_division(a: int, b: int)
    requires
        a >= 0,
        b > 0,
    ensures
        0 <= a / b <= a,
        a / b * b <= a < (a / b + 1) * b,
{
    assert(0 <= a / b <= a && a / b * b <= a && a < (a / b + 1) * b) by (nonlinear_arith)
        requires
            a >= 0,
            b > 0,
    ;
}

/// A saturating difference and what was taken make up the larger of the two.
pub proof fn law_saturating_difference_stops_at_zero(a: u64, b: u64)
    ensures
        monus(a, b) + b == if a >= b {
            a
        } else {
            b
        },
{
}

/// A sum grows by each summand, from zero.
pub proof fn law_sums_add_up(values: Seq<u64>, value: u64)
    ensures
        sum(Seq::<u64>::empty()) == 0,
        sum(values.push(value)) == sum(values) + value,
{
    assert(values.push(value).drop_last() =~= values);
}

} // verus!
