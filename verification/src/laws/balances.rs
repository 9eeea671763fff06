//! The burn, credits and debits.
use crate::arith::ArithError;
use crate::beacon_state::{BeaconStateError, StateModel};
use crate::chain_spec::ChainSpec;
use crate::common::balances::{decreased, increased};
use crate::common::pulse::burned;
use vstd::prelude::*;

verus! {

/// The burn takes the reward times the slot time, less the multiples of 2^64 in it, as so many
/// twelfths of a reward, and leaves three quarters of the whole ones, rounded down.
pub proof fn law_burn_leaves_three_quarters_of_the_twelfths(
    base_reward: u64,
    seconds_per_slot: u64,
)
    ensures
        ({
            let left = burned(base_reward, seconds_per_slot);
            let product = base_reward * seconds_per_slot % 0x1_0000_0000_0000_0000;
            4 * left <= 3 * (product / 12) < 4 * left + 4
        }),
{
}

/// A credit adds to one balance what is due: the amount, or what the burn leaves of it. It
/// fails exactly where there is no such balance or it would overflow, and then changes
/// nothing.
pub proof fn law_credit_adds_to_one_balance(
    s: StateModel,
    index: usize,
    delta: u64,
    spec: ChainSpec,
    burn: bool,
)
    ensures
        ({
            let (after, r) = increased(s, index, delta, spec, burn);
            let i = index as int;
            let amount = if burn {
                delta * spec.seconds_per_slot % 0x1_0000_0000_0000_0000 / 12 * 3 / 4
            } else {
                delta as int
            };
            &&& index >= s.balances.len() ==> after == s && r == Err::<(), BeaconStateError>(
                BeaconStateError::BalancesOutOfBounds(index),
            )
            &&& index < s.balances.len() && s.balances[i] + amount > u64::MAX ==> after == s && r
                == Err::<(), BeaconStateError>(BeaconStateError::ArithError(ArithError::Overflow))
            &&& index < s.balances.len() && s.balances[i] + amount <= u64::MAX ==> {
                &&& r is Ok
                &&& after == (StateModel { balances: after.balances, ..s })
                &&& after.balances.len() == s.balances.len()
                &&& after.balances[i] == s.balances[i] + amount
                &&& forall|j: int|
                    0 <= j < s.balances.len() && j != i ==> #[trigger] after.balances[j]
                        == s.balances[j]
            }
        }),
{
}

/// A debit takes from one balance the amount or all there is. It fails exactly where there is
/// no such balance, and then changes nothing.
pub proof fn law_debit_takes_from_one_balance(s: StateModel, index: usize, delta: u64)
    ensures
        ({
            let (after, r) = decreased(s, index, delta);
            let i = index as int;
            &&& index >= s.balances.len() ==> after == s && r == Err::<(), BeaconStateError>(
                BeaconStateError::BalancesOutOfBounds(index),
            )
            &&& index < s.balances.len() ==> {
                &&& r is Ok
                &&& after == (StateModel { balances: after.balances, ..s })
                &&& after.balances.len() == s.balances.len()
                &&& delta <= s.balances[i] ==> after.balances[i] + delta == s.balances[i]
                &&& delta > s.balances[i] ==> after.balances[i] == 0
                &&& forall|j: int|
                    0 <= j < s.balances.len() && j != i ==> #[trigger] after.balances[j]
                        == s.balances[j]
            }
        }),
{
}

} // verus!
