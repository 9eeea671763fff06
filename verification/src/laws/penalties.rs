//! The correlated slashing penalty.
use crate::arith::{lemma_sum_nonneg, sum, ArithError};
use crate::beacon_state::{BeaconStateError, StateModel};
use crate::chain_spec::ChainSpec;
use crate::laws::arithmetic::lemma_division;
use crate::per_epoch_processing::errors::EpochProcessingError;
use crate::per_epoch_processing::settlement::{settled_up_to, stops_after};
use crate::per_epoch_processing::slashings::{
    adjusted_balance, balance_after_slashing, correlated_penalty, law_adjusted_balance_wraps,
    law_penalty_is_at_most_the_effective_balance, slashing_step, slashings_processed,
};
use vstd::prelude::*;

verus! {

/// The adjusted slashing balance is the smaller of the total balance and what is left of the
/// product when the multiples of 2^64 are taken out.
pub proof fn law_adjusted_balance_is_a_minimum(
    sum_slashings: u64,
    multiplier: u64,
    total_balance: u128,
)
    ensures
        ({
            let adjusted = adjusted_balance(sum_slashings, multiplier, total_balance);
            let product = sum_slashings * multiplier % 0x1_0000_0000_0000_0000;
            &&& adjusted <= product
            &&& adjusted <= total_balance
            &&& adjusted == product || adjusted == total_balance
        }),
{
}

/// A correlated penalty is a whole number of increments: as many as the largest number whose
/// product with the total balance is no more than the product of the validator's whole
/// increments with the adjusted balance. It fails exactly on a zero divisor and on a product
/// that does not fit, and the increment is looked at first.
pub proof fn law_correlated_penalty_is_a_share(
    effective_balance: u64,
    increment: u64,
    adjusted: u128,
    total_balance: u128,
)
    ensures
        ({
            let penalty = correlated_penalty(
                effective_balance,
                increment,
                adjusted,
                total_balance,
            );
            let increments = effective_balance as int / increment as int;
            let overflow = Err::<u128, ArithError>(ArithError::Overflow);
            let division = Err::<u128, ArithError>(ArithError::DivisionByZero);
            if increment == 0 {
                penalty == division
            } else if increments * adjusted > u128::MAX {
                penalty == overflow
            } else if total_balance == 0 {
                penalty == division
            } else {
                exists|share: int|
                    {
                        &&& #[trigger] (share * total_balance) <= increments * adjusted
                        &&& increments * adjusted < (share + 1) * total_balance
                        &&& share * increment <= u128::MAX ==> penalty is Ok && penalty->Ok_0
                            == share * increment
                        &&& share * increment > u128::MAX ==> penalty == overflow
                    }
            }
        }),
{
    let increments = effective_balance as int / increment as int;
    if increment > 0 && total_balance > 0 {
        lemma_division(effective_balance as int, increment as int);
        let numerator = increments * adjusted;
        assert(numerator >= 0) by (nonlinear_arith)
            requires
                numerator == increments * adjusted,
                increments >= 0,
                adjusted >= 0,
        ;
        let share = numerator / total_balance as int;
        lemma_division(numerator, total_balance as int);
        assert(share * increment >= 0) by (nonlinear_arith)
            requires
                share >= 0,
                increment >= 0,
        ;
        assert(share * total_balance <= increments * adjusted);
    }
}

/// What one validator's slashing does to its balance, or why it cannot.
proof fn lemma_step(
    s: StateModel,
    sum_slashings: u64,
    total_balance: u128,
    spec: ChainSpec,
    i: int,
)
    requires
        0 <= i < s.validators.len(),
    ensures
        ({
            let v = s.validators[i];
            let multiplier = spec.slashing_multiplier(s.fork_name);
            let adjusted = adjusted_balance(sum_slashings, multiplier, total_balance);
            let step = balance_after_slashing(s, adjusted, total_balance, spec, i);
            let due = s.current_epoch + s.slashings.len() as int / 2;
            let increment = spec.effective_balance_increment;
            let product = sum_slashings * multiplier % 0x1_0000_0000_0000_0000;
            let share_of = if product < total_balance {
                product
            } else {
                total_balance as int
            };
            let penalty = v.effective_balance as int / increment as int * share_of
                / total_balance as int * increment;
            if !v.slashed {
                step == Ok::<u64, EpochProcessingError>(s.balances[i])
            } else if due > u64::MAX {
                step == Err::<u64, _>(EpochProcessingError::ArithError(ArithError::Overflow))
            } else if v.withdrawable_epoch != due {
                step == Ok::<u64, EpochProcessingError>(s.balances[i])
            } else if increment == 0 || total_balance == 0 {
                step == Err::<u64, _>(EpochProcessingError::ArithError(ArithError::DivisionByZero))
            } else if i >= s.balances.len() {
                step == Err::<u64, _>(
                    EpochProcessingError::BeaconStateError(
                        BeaconStateError::BalancesOutOfBounds(i as usize),
                    ),
                )
            } else {
                &&& step is Ok
                &&& 0 <= penalty <= v.effective_balance
                &&& step->Ok_0 == if s.balances[i] >= penalty {
                    s.balances[i] - penalty
                } else {
                    0
                }
            }
        }),
{
    let v = s.validators[i];
    let multiplier = spec.slashing_multiplier(s.fork_name);
    let adjusted = adjusted_balance(sum_slashings, multiplier, total_balance);
    law_adjusted_balance_wraps(sum_slashings, multiplier, total_balance);
    let increment = spec.effective_balance_increment;
    if increment > 0 {
        let increments = v.effective_balance as int / increment as int;
        lemma_division(v.effective_balance as int, increment as int);
        assert(0 <= increments * adjusted <= u64::MAX * u64::MAX) by (nonlinear_arith)
            requires
                0 <= increments <= u64::MAX,
                0 <= adjusted <= u64::MAX,
        ;
        if total_balance > 0 {
            law_penalty_is_at_most_the_effective_balance(
                v.effective_balance,
                increment,
                adjusted,
                total_balance,
            );
            let share = increments * adjusted / total_balance as int;
            lemma_division(increments * adjusted, total_balance as int);
            assert(share * increment >= 0) by (nonlinear_arith)
                requires
                    share >= 0,
                    increment >= 0,
            ;
        }
    }
}

/// Processing slashings changes the balance of a validator only where it is slashed and can
/// withdraw in exactly half a window from now, and then only lowers it. Nothing but balances
/// changes.
pub proof fn law_only_balances_half_a_window_ahead_change(
    s: StateModel,
    total_balance: u128,
    spec: ChainSpec,
    after: StateModel,
    r: Result<(), EpochProcessingError>,
)
    requires
        slashings_processed(s, total_balance, spec, after, r),
    ensures
        after == (StateModel { balances: after.balances, ..s }),
        after.balances.len() == s.balances.len(),
        forall|i: int|
            0 <= i < s.balances.len() && #[trigger] after.balances[i] != s.balances[i] ==> {
                &&& i < s.validators.len()
                &&& s.validators[i].slashed
                &&& s.validators[i].withdrawable_epoch == s.current_epoch
                    + s.slashings.len() as int / 2
                &&& after.balances[i] < s.balances[i]
            },
{
    lemma_sum_nonneg(s.slashings);
    if sum(s.slashings) <= u64::MAX {
        let sum_slashings = sum(s.slashings) as u64;
        assert forall|i: int|
            0 <= i < s.balances.len() && #[trigger] after.balances[i] != s.balances[i] implies {
            &&& i < s.validators.len()
            &&& s.validators[i].slashed
            &&& s.validators[i].withdrawable_epoch == s.current_epoch + s.slashings.len() as int / 2
            &&& after.balances[i] < s.balances[i]
        } by {
            if i < s.validators.len() {
                lemma_step(s, sum_slashings, total_balance, spec, i);
            }
        }
    }
}

/// A validator pays for its slashing once: of two runs in different epochs over one registry,
/// with windows of one length, at most one changes its balance.
pub proof fn law_slashing_is_paid_for_once(
    s1: StateModel,
    total1: u128,
    spec1: ChainSpec,
    after1: StateModel,
    r1: Result<(), EpochProcessingError>,
    s2: StateModel,
    total2: u128,
    spec2: ChainSpec,
    after2: StateModel,
    r2: Result<(), EpochProcessingError>,
)
    requires
        slashings_processed(s1, total1, spec1, after1, r1),
        slashings_processed(s2, total2, spec2, after2, r2),
        s1.validators == s2.validators,
        s1.slashings.len() == s2.slashings.len(),
        s1.current_epoch != s2.current_epoch,
    ensures
        forall|i: int|
            0 <= i < s1.balances.len() && i < s2.balances.len() ==> #[trigger] after1.balances[i]
                == s1.balances[i] || #[trigger] after2.balances[i] == s2.balances[i],
{
    law_only_balances_half_a_window_ahead_change(s1, total1, spec1, after1, r1);
    law_only_balances_half_a_window_ahead_change(s2, total2, spec2, after2, r2);
}

/// Where the processing of slashings succeeds, each slashed validator that can withdraw in half
/// a window from now loses the share of its whole increments that the slashings of the window,
/// multiplied, are of the total balance, or all there is.
pub proof fn law_due_validators_lose_their_share(
    s: StateModel,
    total_balance: u128,
    spec: ChainSpec,
    after: StateModel,
    r: Result<(), EpochProcessingError>,
)
    requires
        slashings_processed(s, total_balance, spec, after, r),
        r is Ok,
    ensures
        0 <= sum(s.slashings) <= u64::MAX,
        forall|i: int|
            #![trigger s.validators[i]]
            0 <= i < s.validators.len() && s.validators[i].slashed ==> {
                let due = s.current_epoch + s.slashings.len() as int / 2;
                let increment = spec.effective_balance_increment;
                let product = sum(s.slashings) * spec.slashing_multiplier(s.fork_name)
                    % 0x1_0000_0000_0000_0000;
                let share_of = if product < total_balance {
                    product
                } else {
                    total_balance as int
                };
                let penalty = s.validators[i].effective_balance as int / increment as int
                    * share_of / total_balance as int * increment;
                &&& due <= u64::MAX
                &&& s.validators[i].withdrawable_epoch == due ==> {
                    &&& increment > 0
                    &&& total_balance > 0
                    &&& i < s.balances.len()
                    &&& penalty <= s.balances[i] ==> after.balances[i] == s.balances[i] - penalty
                    &&& penalty > s.balances[i] ==> after.balances[i] == 0
                }
            },
{
    lemma_sum_nonneg(s.slashings);
    let sum_slashings = sum(s.slashings) as u64;
    let adjusted = adjusted_balance(
        sum_slashings,
        spec.slashing_multiplier(s.fork_name),
        total_balance,
    );
    let step = slashing_step(s, adjusted, total_balance, spec);
    assert forall|i: int|
        #![trigger s.validators[i]]
        0 <= i < s.validators.len() && s.validators[i].slashed implies {
        let due = s.current_epoch + s.slashings.len() as int / 2;
        let increment = spec.effective_balance_increment;
        let product = sum(s.slashings) * spec.slashing_multiplier(s.fork_name)
            % 0x1_0000_0000_0000_0000;
        let share_of = if product < total_balance {
            product
        } else {
            total_balance as int
        };
        let penalty = s.validators[i].effective_balance as int / increment as int * share_of
            / total_balance as int * increment;
        &&& due <= u64::MAX
        &&& s.validators[i].withdrawable_epoch == due ==> {
            &&& increment > 0
            &&& total_balance > 0
            &&& i < s.balances.len()
            &&& penalty <= s.balances[i] ==> after.balances[i] == s.balances[i] - penalty
            &&& penalty > s.balances[i] ==> after.balances[i] == 0
        }
    } by {
        lemma_step(s, sum_slashings, total_balance, spec, i);
        assert(step(i) is Ok);
    }
}

/// Where the processing of slashings fails, the sum of slashings does not fit and nothing has
/// changed; or there is a first validator that cannot be penalized: it is slashed, and half a
/// window from now is no epoch, or it can withdraw then and a divisor is zero or it has no
/// balance. The balances of that validator and of those after it have not changed.
pub proof fn law_first_validator_in_the_way_ends_the_slashings(
    s: StateModel,
    total_balance: u128,
    spec: ChainSpec,
    after: StateModel,
    r: Result<(), EpochProcessingError>,
)
    requires
        slashings_processed(s, total_balance, spec, after, r),
        r is Err,
    ensures
        sum(s.slashings) > u64::MAX ==> after == s && r->Err_0 == EpochProcessingError::ArithError(
            ArithError::Overflow,
        ),
        sum(s.slashings) <= u64::MAX ==> exists|k: int|
            {
                let due = s.current_epoch + s.slashings.len() as int / 2;
                &&& 0 <= k < s.validators.len()
                &&& (#[trigger] s.validators[k]).slashed
                &&& if due > u64::MAX {
                    r->Err_0 == EpochProcessingError::ArithError(ArithError::Overflow)
                } else {
                    &&& s.validators[k].withdrawable_epoch == due
                    &&& if spec.effective_balance_increment == 0 || total_balance == 0 {
                        r->Err_0 == EpochProcessingError::ArithError(ArithError::DivisionByZero)
                    } else {
                        &&& k >= s.balances.len()
                        &&& r->Err_0 == EpochProcessingError::BeaconStateError(
                            BeaconStateError::BalancesOutOfBounds(k as usize),
                        )
                    }
                }
                &&& forall|j: int|
                    k <= j < s.balances.len() ==> #[trigger] after.balances[j] == s.balances[j]
                &&& forall|j: int|
                    #![trigger s.validators[j]]
                    0 <= j < k && s.validators[j].slashed ==> {
                        let increment = spec.effective_balance_increment;
                        let product = sum(s.slashings) * spec.slashing_multiplier(s.fork_name)
                            % 0x1_0000_0000_0000_0000;
                        let share_of = if product < total_balance {
                            product
                        } else {
                            total_balance as int
                        };
                        let penalty = s.validators[j].effective_balance as int / increment as int
                            * share_of / total_balance as int * increment;
                        &&& due <= u64::MAX
                        &&& s.validators[j].withdrawable_epoch == due ==> {
                            &&& increment > 0
                            &&& total_balance > 0
                            &&& j < s.balances.len()
                            &&& penalty <= s.balances[j] ==> after.balances[j] == s.balances[j]
                                - penalty
                            &&& penalty > s.balances[j] ==> after.balances[j] == 0
                        }
                    }
            },
{
    lemma_sum_nonneg(s.slashings);
    if sum(s.slashings) <= u64::MAX {
        let sum_slashings = sum(s.slashings) as u64;
        let adjusted = adjusted_balance(
            sum_slashings,
            spec.slashing_multiplier(s.fork_name),
            total_balance,
        );
        let step = slashing_step(s, adjusted, total_balance, spec);
        let n = s.validators.len();
        let k = choose|k: int|
            {
                &&& #[trigger] stops_after(n, step, k)
                &&& after.balances == settled_up_to(s.balances, step, k)
                &&& r == if k < n {
                    Err(step(k)->Err_0)
                } else {
                    Ok(())
                }
            };
        lemma_step(s, sum_slashings, total_balance, spec, k);
        assert(step(k) is Err);
        assert forall|j: int|
            #![trigger s.validators[j]]
            0 <= j < k && s.validators[j].slashed implies {
            let due = s.current_epoch + s.slashings.len() as int / 2;
            let increment = spec.effective_balance_increment;
            let product = sum(s.slashings) * spec.slashing_multiplier(s.fork_name)
                % 0x1_0000_0000_0000_0000;
            let share_of = if product < total_balance {
                product
            } else {
                total_balance as int
            };
            let penalty = s.validators[j].effective_balance as int / increment as int * share_of
                / total_balance as int * increment;
            &&& due <= u64::MAX
            &&& s.validators[j].withdrawable_epoch == due ==> {
                &&& increment > 0
                &&& total_balance > 0
                &&& j < s.balances.len()
                &&& penalty <= s.balances[j] ==> after.balances[j] == s.balances[j] - penalty
                &&& penalty > s.balances[j] ==> after.balances[j] == 0
            }
        } by {
            lemma_step(s, sum_slashings, total_balance, spec, j);
            assert(step(j) is Ok);
        }
        assert(s.validators[k].slashed);
    }
}

} // verus!
