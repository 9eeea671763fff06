//! The correlated slashing penalty.
use crate::arith::{
    fit_u128, fit_u64, lemma_sum_nonneg, monus, safe_add, safe_sum, sum, truncate, wide_div,
    wide_mul, wrap_u64, wrapping_product, ArithError,
};
use crate::beacon_state::{BeaconState, BeaconStateError, StateModel, Validator};
use crate::chain_spec::ChainSpec;
use crate::common::balances::decreased;
use crate::per_epoch_processing::errors::{from_arith, EpochProcessingError};
use crate::per_epoch_processing::settlement::{
    law_settlement_succeeds, settled, settled_up_to, stops_after, with_balance,
};
use vstd::prelude::*;

verus! {

/// `min(sum_slashings * multiplier, total_balance)`, the product wrapping at `u64`.
pub open spec fn adjusted_balance(sum_slashings: u64, multiplier: u64, total_balance: u128) -> u128 {
    let product = wrap_u64(sum_slashings * multiplier) as u128;
    if product < total_balance {
        product
    } else {
        total_balance
    }
}

/// The penalty of a validator: the adjusted slashing balance as a share of the total balance,
/// taken of the effective balance in whole increments.
pub open spec fn correlated_penalty(
    effective_balance: u64,
    increment: u64,
    adjusted: u128,
    total_balance: u128,
) -> Result<u128, ArithError> {
    if increment == 0 {
        Err(ArithError::DivisionByZero)
    } else {
        let numerator = effective_balance as int / increment as int * adjusted;
        if numerator > u128::MAX {
            Err(ArithError::Overflow)
        } else if total_balance == 0 {
            Err(ArithError::DivisionByZero)
        } else {
            fit_u128(numerator / total_balance as int * increment)
        }
    }
}

/// Whether validator `v` is half way through the slashings window of a state at `epoch`.
pub open spec fn penalty_is_due(v: Validator, epoch: u64, window: nat) -> Result<bool, ArithError> {
    if !v.slashed {
        Ok(false)
    } else {
        match fit_u64(epoch + window as int / 2) {
            Ok(due) => Ok(v.withdrawable_epoch == due),
            Err(e) => Err(e),
        }
    }
}

/// What balance `i` becomes.
pub open spec fn balance_after_slashing(
    s: StateModel,
    adjusted: u128,
    total_balance: u128,
    spec: ChainSpec,
    i: int,
) -> Result<u64, EpochProcessingError> {
    let v = s.validators[i];
    match penalty_is_due(v, s.current_epoch, s.slashings.len()) {
        Err(e) => Err(EpochProcessingError::ArithError(e)),
        Ok(false) => Ok(s.balances[i]),
        Ok(true) => match correlated_penalty(
            v.effective_balance,
            spec.effective_balance_increment,
            adjusted,
            total_balance,
        ) {
            Err(e) => Err(EpochProcessingError::ArithError(e)),
            Ok(penalty) => if i >= s.balances.len() {
                Err(
                    EpochProcessingError::BeaconStateError(
                        BeaconStateError::BalancesOutOfBounds(i as usize),
                    ),
                )
            } else {
                Ok(monus(s.balances[i], wrap_u64(penalty as int)))
            },
        },
    }
}

/// How each balance is settled.
pub open spec fn slashing_step(
    s: StateModel,
    adjusted: u128,
    total_balance: u128,
    spec: ChainSpec,
) -> spec_fn(int) -> Result<u64, EpochProcessingError> {
    |i: int| balance_after_slashing(s, adjusted, total_balance, spec, i)
}

/// Whether `after` and `r` are what comes of processing the slashings of state `s`.
pub open spec fn slashings_processed(
    s: StateModel,
    total_balance: u128,
    spec: ChainSpec,
    after: StateModel,
    r: Result<(), EpochProcessingError>,
) -> bool {
    match fit_u64(sum(s.slashings)) {
        Err(e) => after == s && r == Err::<(), _>(EpochProcessingError::ArithError(e)),
        Ok(sum_slashings) => {
            let adjusted = adjusted_balance(
                sum_slashings,
                spec.slashing_multiplier(s.fork_name),
                total_balance,
            );
            &&& after == (StateModel { balances: after.balances, ..s })
            &&& settled(
                s.balances,
                s.validators.len(),
                slashing_step(s, adjusted, total_balance, spec),
                after.balances,
                r,
            )
        },
    }
}

/// `min(sum_slashings * multiplier, total_balance)`, with the product computed as a wrapping
/// `u64` multiplication before it is widened.
///
/// The canonical client wraps there, and a mass slashing of some 192 validators of maximum
/// balance gets there: the exact product would select another balance and split the chain.
pub fn adjusted_total_slashing_balance(
    sum_slashings: u64,
    multiplier: u64,
    total_balance: u128,
) -> (r: u128)
    ensures
        r == adjusted_balance(sum_slashings, multiplier, total_balance),
{
    let product: u128 = wrapping_product(sum_slashings, multiplier) as u128;
    if product < total_balance {
        product
    } else {
        total_balance
    }
}

/// The penalty of a validator whose slashing is correlated with others.
pub fn correlated_slashing_penalty(
    effective_balance: u64,
    increment: u64,
    adjusted: u128,
    total_balance: u128,
) -> (r: Result<u128, ArithError>)
    ensures
        r == correlated_penalty(effective_balance, increment, adjusted, total_balance),
{
    let increments: u128 = wide_div(effective_balance as u128, increment as u128)?;
    let numerator: u128 = wide_mul(increments, adjusted)?;
    let share: u128 = wide_div(numerator, total_balance)?;
    wide_mul(share, increment as u128)
}

/// Takes the correlated penalty from validator `index`, where it is due.
fn settle_slashed_validator(
    state: &mut BeaconState,
    index: usize,
    adjusted: u128,
    total_balance: u128,
    spec: &ChainSpec,
) -> (r: Result<(), EpochProcessingError>)
    requires
        index < old(state)@.validators.len(),
    ensures
        match balance_after_slashing(old(state)@, adjusted, total_balance, *spec, index as int) {
            Err(e) => r == Err::<(), _>(e) && final(state)@ == old(state)@,
            Ok(balance) => {
                &&& r is Ok
                &&& final(state)@ == (StateModel {
                    balances: with_balance(old(state)@.balances, index as int, balance),
                    ..old(state)@
                })
            },
        },
{
    let validator: Validator = state.validators[index];
    if validator.slashed {
        let half_window: u64 = state.slashings.len() as u64 / 2;
        let due: u64 = from_arith(safe_add(state.current_epoch, half_window))?;
        if due == validator.withdrawable_epoch {
            let penalty: u128 = from_arith(
                correlated_slashing_penalty(
                    validator.effective_balance,
                    spec.effective_balance_increment,
                    adjusted,
                    total_balance,
                ),
            )?;
            if index >= state.balances.len() {
                return Err(
                    EpochProcessingError::BeaconStateError(
                        BeaconStateError::BalancesOutOfBounds(index),
                    ),
                );
            }
            let balance: u64 = state.balances[index].saturating_sub(truncate(penalty));
            state.balances.set(index, balance);
        }
    }
    Ok(())
}

/// Process slashings.
///
/// A sum of slashings that overflows `u64` is an error, as it is in the canonical client.
pub fn process_slashings(state: &mut BeaconState, total_balance: u128, spec: &ChainSpec) -> (r:
    Result<(), EpochProcessingError>)
    ensures
        slashings_processed(old(state)@, total_balance, *spec, final(state)@, r),
{
    let sum_slashings: u64 = from_arith(safe_sum(&state.slashings))?;
    let adjusted: u128 = adjusted_total_slashing_balance(
        sum_slashings,
        spec.proportional_slashing_multiplier_for_state(state.fork_name),
        total_balance,
    );

    let ghost s = state@;
    let ghost step = slashing_step(s, adjusted, total_balance, *spec);
    let n: usize = state.validators.len();
    assert(state.balances@ =~= settled_up_to(s.balances, step, 0));
    #[verifier::loop_isolation(false)]
    for index in 0..n
        invariant
            forall|i: int| 0 <= i < index ==> (#[trigger] step(i)) is Ok,
            state@ == (StateModel { balances: settled_up_to(s.balances, step, index as int), ..s }),
    {
        let settled_one = settle_slashed_validator(state, index, adjusted, total_balance, spec);
        proof {
            if settled_one is Err {
                assert(stops_after(n as nat, step, index as int));
            }
        }
        settled_one?;
        assert(state.balances@ =~= settled_up_to(s.balances, step, index + 1));
    }
    assert(stops_after(n as nat, step, n as int));
    Ok(())
}

/// The adjusted slashing balance is the exact minimum where the product fits `u64`. Where it
/// does not, the product counts for less than it is.
pub proof fn law_adjusted_balance_wraps(sum_slashings: u64, multiplier: u64, total_balance: u128)
    ensures
        adjusted_balance(sum_slashings, multiplier, total_balance) <= total_balance,
        adjusted_balance(sum_slashings, multiplier, total_balance) <= u64::MAX,
        sum_slashings * multiplier <= u64::MAX ==> adjusted_balance(
            sum_slashings,
            multiplier,
            total_balance,
        ) == if sum_slashings * multiplier < total_balance {
            sum_slashings * multiplier
        } else {
            total_balance as int
        },
        sum_slashings * multiplier > u64::MAX && total_balance >= sum_slashings * multiplier
            ==> adjusted_balance(sum_slashings, multiplier, total_balance) < sum_slashings
            * multiplier,
{
    assert(sum_slashings * multiplier >= 0) by (nonlinear_arith)
        requires
            sum_slashings >= 0,
            multiplier >= 0,
    ;
}

/// A correlated penalty that does not divide by zero can always be computed and is at most
/// the effective balance, so that taking it as a `u64` loses nothing.
pub proof fn law_penalty_is_at_most_the_effective_balance(
    effective_balance: u64,
    increment: u64,
    adjusted: u128,
    total_balance: u128,
)
    requires
        increment > 0,
        total_balance > 0,
        adjusted <= total_balance,
        adjusted <= u64::MAX,
    ensures
        correlated_penalty(effective_balance, increment, adjusted, total_balance) is Ok,
        correlated_penalty(effective_balance, increment, adjusted, total_balance)->Ok_0
            <= effective_balance,
{
    let increments = effective_balance as int / increment as int;
    let total = total_balance as int;
    let numerator = increments * adjusted;
    assert(0 <= increments <= effective_balance && increments * increment <= effective_balance)
        by (nonlinear_arith)
        requires
            increments == effective_balance as int / increment as int,
            increment > 0,
            effective_balance >= 0,
    ;
    assert(0 <= numerator <= u64::MAX * u64::MAX && numerator <= increments * total)
        by (nonlinear_arith)
        requires
            numerator == increments * adjusted,
            0 <= increments <= u64::MAX,
            0 <= adjusted <= u64::MAX,
            adjusted <= total,
    ;
    let share = numerator / total;
    assert(0 <= share <= increments) by (nonlinear_arith)
        requires
            share == numerator / total,
            0 <= numerator <= increments * total,
            total > 0,
    ;
    assert(0 <= share * increment <= increments * increment) by (nonlinear_arith)
        requires
            0 <= share <= increments,
            increment > 0,
    ;
}

/// Whether nothing stands in the way of penalizing validator `i`, where its penalty is due:
/// the epoch half a window ahead exists, no divisor is zero and the validator has a balance.
pub open spec fn can_be_penalized(
    s: StateModel,
    total_balance: u128,
    spec: ChainSpec,
    i: int,
) -> bool {
    match penalty_is_due(s.validators[i], s.current_epoch, s.slashings.len()) {
        Err(_) => false,
        Ok(due) => due ==> {
            &&& spec.effective_balance_increment > 0
            &&& total_balance > 0
            &&& i < s.balances.len()
        },
    }
}

/// At no magnitude of balances does the processing of slashings halt: it succeeds exactly
/// where the sum of slashings fits `u64` and nothing stands in the way of a penalty that is
/// due.
pub proof fn law_slashings_do_not_halt(
    s: StateModel,
    total_balance: u128,
    spec: ChainSpec,
    after: StateModel,
    r: Result<(), EpochProcessingError>,
)
    requires
        slashings_processed(s, total_balance, spec, after, r),
    ensures
        r is Ok <==> {
            &&& sum(s.slashings) <= u64::MAX
            &&& forall|i: int|
                0 <= i < s.validators.len() ==> #[trigger] can_be_penalized(
                    s,
                    total_balance,
                    spec,
                    i,
                )
        },
{
    lemma_sum_nonneg(s.slashings);
    if sum(s.slashings) <= u64::MAX {
        let sum_slashings = sum(s.slashings) as u64;
        let multiplier = spec.slashing_multiplier(s.fork_name);
        let adjusted = adjusted_balance(sum_slashings, multiplier, total_balance);
        let step = slashing_step(s, adjusted, total_balance, spec);
        law_adjusted_balance_wraps(sum_slashings, multiplier, total_balance);
        assert forall|i: int| 0 <= i < s.validators.len() implies ((#[trigger] step(i)) is Ok
            <==> can_be_penalized(s, total_balance, spec, i)) by {
            if spec.effective_balance_increment > 0 && total_balance > 0 {
                law_penalty_is_at_most_the_effective_balance(
                    s.validators[i].effective_balance,
                    spec.effective_balance_increment,
                    adjusted,
                    total_balance,
                );
            }
        }
        law_settlement_succeeds(s.balances, s.validators.len(), step, after.balances, r);
        if r is Ok {
            assert forall|i: int| 0 <= i < s.validators.len() implies #[trigger] can_be_penalized(
                s,
                total_balance,
                spec,
                i,
            ) by {
                assert(step(i) is Ok);
            }
        }
    }
}

/// A sum of slashings that does not fit `u64` halts the processing and changes nothing.
pub proof fn law_overflowing_sum_halts(
    s: StateModel,
    total_balance: u128,
    spec: ChainSpec,
    after: StateModel,
    r: Result<(), EpochProcessingError>,
)
    requires
        slashings_processed(s, total_balance, spec, after, r),
        sum(s.slashings) > u64::MAX,
    ensures
        r == Err::<(), _>(EpochProcessingError::ArithError(ArithError::Overflow)),
        after == s,
{
}

/// Processing slashings changes nothing but balances, raises none of them, and lowers only
/// those of slashed validators that are half way through the window.
pub proof fn law_slashings_only_lower_due_balances(
    s: StateModel,
    total_balance: u128,
    spec: ChainSpec,
    after: StateModel,
    r: Result<(), EpochProcessingError>,
)
    requires
        slashings_processed(s, total_balance, spec, after, r),
    ensures
        after == (StateModel { balances: after.balances, ..s }),
        after.balances.len() == s.balances.len(),
        forall|i: int|
            0 <= i < s.balances.len() ==> (#[trigger] after.balances[i]) <= s.balances[i],
        forall|i: int|
            0 <= i < s.balances.len() && (#[trigger] after.balances[i]) != s.balances[i] ==> {
                &&& i < s.validators.len()
                &&& penalty_is_due(s.validators[i], s.current_epoch, s.slashings.len()) == Ok::<
                    _,
                    ArithError,
                >(true)
            },
{
}

/// Settling a validator whose penalty is due is the same as a debit of that penalty from its
/// balance.
pub proof fn law_settlement_is_a_debit(
    s: StateModel,
    adjusted: u128,
    total_balance: u128,
    spec: ChainSpec,
    index: usize,
    penalty: u128,
)
    requires
        index < s.validators.len(),
        penalty_is_due(s.validators[index as int], s.current_epoch, s.slashings.len()) == Ok::<
            _,
            ArithError,
        >(true),
        correlated_penalty(
            s.validators[index as int].effective_balance,
            spec.effective_balance_increment,
            adjusted,
            total_balance,
        ) == Ok::<_, ArithError>(penalty),
    ensures
        match balance_after_slashing(s, adjusted, total_balance, spec, index as int) {
            Ok(balance) => decreased(s, index, wrap_u64(penalty as int)) == (
                StateModel { balances: with_balance(s.balances, index as int, balance), ..s },
                Ok::<(), BeaconStateError>(()),
            ),
            Err(e) => decreased(s, index, wrap_u64(penalty as int)).1 is Err && e
                == EpochProcessingError::BeaconStateError(
                decreased(s, index, wrap_u64(penalty as int)).1->Err_0,
            ),
        },
{
}

} // verus!
