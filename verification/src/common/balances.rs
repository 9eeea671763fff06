//! Crediting and debiting balances.
use crate::arith::{fit_u64, monus, safe_add, ArithError};
use crate::beacon_state::{BeaconState, BeaconStateError, StateModel};
use crate::chain_spec::ChainSpec;
use crate::common::pulse::{apply_burn, burned};
use vstd::prelude::*;

verus! {

/// What a credit of `delta` comes to, with the burn applied or not.
pub open spec fn credit(delta: u64, spec: ChainSpec, burn: bool) -> u64 {
    if burn {
        burned(delta, spec.seconds_per_slot)
    } else {
        delta
    }
}

/// The state after a credit to balance `index`, and how the credit went.
pub open spec fn increased(
    s: StateModel,
    index: usize,
    delta: u64,
    spec: ChainSpec,
    burn: bool,
) -> (StateModel, Result<(), BeaconStateError>) {
    if index >= s.balances.len() {
        (s, Err(BeaconStateError::BalancesOutOfBounds(index)))
    } else {
        match fit_u64(s.balances[index as int] + credit(delta, spec, burn)) {
            Ok(balance) => (
                StateModel { balances: s.balances.update(index as int, balance), ..s },
                Ok(()),
            ),
            Err(e) => (s, Err(BeaconStateError::ArithError(e))),
        }
    }
}

/// The state after a debit from balance `index`, and how the debit went.
pub open spec fn decreased(s: StateModel, index: usize, delta: u64) -> (
    StateModel,
    Result<(), BeaconStateError>,
) {
    if index >= s.balances.len() {
        (s, Err(BeaconStateError::BalancesOutOfBounds(index)))
    } else {
        (
            StateModel {
                balances: s.balances.update(index as int, monus(s.balances[index as int], delta)),
                ..s
            },
            Ok(()),
        )
    }
}

/// Credits `delta` to balance `index`, less the burn where `burn` is set. A balance that
/// would overflow is an error and keeps its value.
pub fn increase_balance(
    state: &mut BeaconState,
    index: usize,
    delta: u64,
    spec: &ChainSpec,
    burn: bool,
) -> (r: Result<(), BeaconStateError>)
    ensures
        (final(state)@, r) == increased(old(state)@, index, delta, *spec, burn),
{
    let amount: u64 = if burn {
        apply_burn(delta, spec)
    } else {
        delta
    };
    if index >= state.balances.len() {
        return Err(BeaconStateError::BalancesOutOfBounds(index));
    }
    match safe_add(state.balances[index], amount) {
        Ok(balance) => {
            state.balances.set(index, balance);
            Ok(())
        },
        Err(e) => Err(BeaconStateError::ArithError(e)),
    }
}

/// Debits `delta` from balance `index`. A balance that would fall below zero becomes zero.
pub fn decrease_balance(state: &mut BeaconState, index: usize, delta: u64) -> (r: Result<
    (),
    BeaconStateError,
>)
    ensures
        (final(state)@, r) == decreased(old(state)@, index, delta),
{
    if index >= state.balances.len() {
        return Err(BeaconStateError::BalancesOutOfBounds(index));
    }
    let balance: u64 = state.balances[index].saturating_sub(delta);
    state.balances.set(index, balance);
    Ok(())
}

/// A debit undoes a credit of the same amount that was not burned.
pub proof fn law_debit_undoes_credit(s: StateModel, index: usize, delta: u64, spec: ChainSpec)
    requires
        increased(s, index, delta, spec, false).1 is Ok,
    ensures
        decreased(increased(s, index, delta, spec, false).0, index, delta) == (
            s,
            Ok::<(), BeaconStateError>(()),
        ),
{
    let credited = increased(s, index, delta, spec, false).0;
    assert(decreased(credited, index, delta).0 =~= s);
}

/// A credit fails on overflow above. A debit does not fail on overflow below: it leaves zero.
pub proof fn law_credit_overflows_and_debit_saturates(
    s: StateModel,
    index: usize,
    delta: u64,
    spec: ChainSpec,
    burn: bool,
)
    requires
        index < s.balances.len(),
    ensures
        s.balances[index as int] + credit(delta, spec, burn) > u64::MAX <==> increased(
            s,
            index,
            delta,
            spec,
            burn,
        ).1 == Err::<(), _>(BeaconStateError::ArithError(ArithError::Overflow)),
        decreased(s, index, delta).1 is Ok,
        delta >= s.balances[index as int] ==> decreased(s, index, delta).0.balances[index as int]
            == 0,
{
}

} // verus!
