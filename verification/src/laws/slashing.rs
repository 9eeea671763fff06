//! Slashing a validator.
use crate::arith::ArithError;
use crate::beacon_state::{BeaconStateError, StateModel};
use crate::chain_spec::ChainSpec;
use crate::common::slash_validator::{
    lemma_proposer_reward_is_a_part, penalized, rewarded, slashed, whistleblower_reward,
    BlockProcessingError, ExitEpochs, SlashingContext,
};
use crate::laws::arithmetic::lemma_division;
use vstd::prelude::*;

verus! {

/// The first half of a slashing gives back the effective balance that the registry holds. It
/// succeeds exactly where the validator and its balance exist, the window is not empty and
/// ends within `u64`, and the penalty quotient is not zero.
pub proof fn law_first_half_returns_the_effective_balance(
    s: StateModel,
    index: usize,
    exit: ExitEpochs,
    spec: ChainSpec,
)
    ensures
        ({
            let r = penalized(s, index, exit, spec).1;
            &&& r is Ok ==> r->Ok_0 == s.validators[index as int].effective_balance
            &&& r is Ok <==> {
                &&& index < s.validators.len()
                &&& index < s.balances.len()
                &&& s.slashings.len() > 0
                &&& s.current_epoch + s.slashings.len() <= u64::MAX
                &&& spec.slashing_quotient(s.fork_name) != 0
            }
        }),
{
}

/// The first half of a slashing marks the validator and nobody else: it is slashed, keeps its
/// effective balance, exits as told, and can withdraw at the later of what its exit says and
/// the end of the window. Where the window has no end within `u64`, its exit alone says.
pub proof fn law_first_half_marks_one_validator(
    s: StateModel,
    index: usize,
    exit: ExitEpochs,
    spec: ChainSpec,
)
    ensures
        ({
            let after = penalized(s, index, exit, spec).0;
            let v = after.validators[index as int];
            let end = s.current_epoch + s.slashings.len();
            &&& index >= s.validators.len() ==> after == s
            &&& after.validators.len() == s.validators.len()
            &&& forall|j: int|
                0 <= j < s.validators.len() && j != index ==> #[trigger] after.validators[j]
                    == s.validators[j]
            &&& index < s.validators.len() ==> {
                &&& v.slashed
                &&& v.effective_balance == s.validators[index as int].effective_balance
                &&& v.exit_epoch == exit.exit_epoch
                &&& v.withdrawable_epoch >= exit.withdrawable_epoch
                &&& end <= u64::MAX ==> v.withdrawable_epoch >= end
                &&& v.withdrawable_epoch == exit.withdrawable_epoch || v.withdrawable_epoch == end
            }
            &&& after.fork_name == s.fork_name
            &&& after.genesis_epoch == s.genesis_epoch
            &&& after.current_epoch == s.current_epoch
            &&& after.finalized_epoch == s.finalized_epoch
            &&& after.inactivity_scores == s.inactivity_scores
        }),
{
}

/// The first half of a slashing adds the effective balance to the sum of the current epoch,
/// less 2^64 where the result does not fit, and to no other sum. This happens once the
/// validator is marked, whatever becomes of the penalty.
pub proof fn law_first_half_counts_the_slashing(
    s: StateModel,
    index: usize,
    exit: ExitEpochs,
    spec: ChainSpec,
)
    ensures
        ({
            let after = penalized(s, index, exit, spec).0;
            let n = s.slashings.len() as int;
            let bucket = s.current_epoch as int % n;
            let total = s.slashings[bucket] + s.validators[index as int].effective_balance;
            &&& after.slashings.len() == n
            &&& index < s.validators.len() && n > 0 && s.current_epoch + n <= u64::MAX ==> {
                &&& total <= u64::MAX ==> after.slashings[bucket] == total
                &&& total > u64::MAX ==> after.slashings[bucket] == total
                    - 0x1_0000_0000_0000_0000
                &&& forall|j: int|
                    0 <= j < n && j != bucket ==> #[trigger] after.slashings[j] == s.slashings[j]
            }
            &&& !(index < s.validators.len() && n > 0 && s.current_epoch + n <= u64::MAX)
                ==> after.slashings == s.slashings
        }),
{
    if s.slashings.len() > 0 {
        vstd::arithmetic::div_mod::lemma_mod_bound(
            s.current_epoch as int,
            s.slashings.len() as int,
        );
    }
}

/// The first half of a slashing takes from the validator's balance the effective balance
/// divided by the quotient, or all there is, and touches no other balance. Where it fails,
/// it takes nothing.
pub proof fn law_first_half_takes_the_penalty(
    s: StateModel,
    index: usize,
    exit: ExitEpochs,
    spec: ChainSpec,
)
    ensures
        ({
            let (after, r) = penalized(s, index, exit, spec);
            let i = index as int;
            let taken = s.balances[i] - after.balances[i];
            let quotient = spec.slashing_quotient(s.fork_name);
            let effective = s.validators[i].effective_balance;
            &&& r is Err ==> after.balances == s.balances
            &&& after.balances.len() == s.balances.len()
            &&& forall|j: int|
                0 <= j < s.balances.len() && j != i ==> #[trigger] after.balances[j]
                    == s.balances[j]
            &&& r is Ok ==> {
                &&& 0 <= taken
                &&& taken * quotient <= effective
                &&& effective < (taken + 1) * quotient || after.balances[i] == 0
            }
        }),
{
    let (after, r) = penalized(s, index, exit, spec);
    if r is Ok {
        let quotient = spec.slashing_quotient(s.fork_name) as int;
        let effective = s.validators[index as int].effective_balance as int;
        let penalty = effective / quotient;
        let taken = s.balances[index as int] - after.balances[index as int];
        lemma_division(effective, quotient);
        assert(taken * quotient <= penalty * quotient) by (nonlinear_arith)
            requires
                0 <= taken <= penalty,
                quotient > 0,
        ;
    }
}

/// What the first half of a slashing fails with, in the order in which it looks.
pub proof fn law_first_half_failures(
    s: StateModel,
    index: usize,
    exit: ExitEpochs,
    spec: ChainSpec,
)
    ensures
        ({
            let r = penalized(s, index, exit, spec).1;
            let window = s.slashings.len();
            r is Err ==> r->Err_0 == if index >= s.validators.len() {
                BlockProcessingError::BeaconStateError(BeaconStateError::UnknownValidator(index))
            } else if s.current_epoch + window > u64::MAX {
                BlockProcessingError::ArithError(ArithError::Overflow)
            } else if window == 0 {
                BlockProcessingError::BeaconStateError(BeaconStateError::EpochOutOfBounds)
            } else if spec.slashing_quotient(s.fork_name) == 0 {
                BlockProcessingError::ArithError(ArithError::DivisionByZero)
            } else {
                BlockProcessingError::BeaconStateError(
                    BeaconStateError::BalancesOutOfBounds(index),
                )
            }
        }),
{
}

/// The second half of a slashing credits the proposer and the whistleblower with the effective
/// balance divided by the reward quotient, and nobody else. The proposer's part of that is an
/// eighth, and at the base fork the part that the proposer quotient says. Without a
/// whistleblower the proposer is credited with all of it.
pub proof fn law_second_half_splits_the_reward(
    s: StateModel,
    effective_balance: u64,
    proposer_index: usize,
    opt_whistleblower_index: Option<usize>,
    spec: ChainSpec,
)
    requires
        rewarded(s, effective_balance, proposer_index, opt_whistleblower_index, spec).1 is Ok,
    ensures
        ({
            let after = rewarded(
                s,
                effective_balance,
                proposer_index,
                opt_whistleblower_index,
                spec,
            ).0;
            let p = proposer_index as int;
            let w = match opt_whistleblower_index {
                Some(index) => index as int,
                None => p,
            };
            let to_proposer = after.balances[p] - s.balances[p];
            let to_whistleblower = after.balances[w] - s.balances[w];
            let whole = if p == w {
                to_proposer
            } else {
                to_proposer + to_whistleblower
            };
            let quotient = spec.whistleblower_reward_quotient;
            &&& after == (StateModel { balances: after.balances, ..s })
            &&& after.balances.len() == s.balances.len()
            &&& p < s.balances.len() && w < s.balances.len()
            &&& whole * quotient <= effective_balance < (whole + 1) * quotient
            &&& p != w && !(s.fork_name is Base) ==> to_proposer * 8 <= whole < to_proposer * 8 + 8
            &&& p != w && s.fork_name is Base ==> to_proposer * spec.proposer_reward_quotient
                <= whole < (to_proposer + 1) * spec.proposer_reward_quotient
            &&& forall|j: int|
                0 <= j < s.balances.len() && j != p && j != w ==> #[trigger] after.balances[j]
                    == s.balances[j]
        }),
{
    let whole = whistleblower_reward(effective_balance, spec)->Ok_0;
    lemma_proposer_reward_is_a_part(s.fork_name, whole, spec);
    lemma_division(effective_balance as int, spec.whistleblower_reward_quotient as int);
    if s.fork_name is Base {
        lemma_division(whole as int, spec.proposer_reward_quotient as int);
    }
}

/// When the second half of a slashing fails, with what and in what order; and that only the
/// proposer has then been paid, if anyone.
pub proof fn law_second_half_failures(
    s: StateModel,
    effective_balance: u64,
    proposer_index: usize,
    opt_whistleblower_index: Option<usize>,
    spec: ChainSpec,
)
    ensures
        ({
            let (after, r) = rewarded(
                s,
                effective_balance,
                proposer_index,
                opt_whistleblower_index,
                spec,
            );
            let p = proposer_index;
            let w = match opt_whistleblower_index {
                Some(index) => index,
                None => p,
            };
            let base = s.fork_name is Base;
            let whole = effective_balance as int / spec.whistleblower_reward_quotient as int;
            let part = if base {
                whole / spec.proposer_reward_quotient as int
            } else {
                whole / 8
            };
            let division = BlockProcessingError::ArithError(ArithError::DivisionByZero);
            let overflow = BlockProcessingError::BeaconStateError(
                BeaconStateError::ArithError(ArithError::Overflow),
            );
            if spec.whistleblower_reward_quotient == 0 || (base && spec.proposer_reward_quotient
                == 0) {
                r == Err::<(), BlockProcessingError>(division) && after == s
            } else if !base && whole * 8 > u64::MAX {
                r == Err::<(), BlockProcessingError>(
                    BlockProcessingError::ArithError(ArithError::Overflow),
                ) && after == s
            } else if w >= s.validators.len() {
                r == Err::<(), BlockProcessingError>(
                    BlockProcessingError::BeaconStateError(BeaconStateError::UnknownValidator(w)),
                ) && after == s
            } else if p >= s.balances.len() {
                r == Err::<(), BlockProcessingError>(
                    BlockProcessingError::BeaconStateError(
                        BeaconStateError::BalancesOutOfBounds(p),
                    ),
                ) && after == s
            } else if s.balances[p as int] + part > u64::MAX {
                r == Err::<(), BlockProcessingError>(overflow) && after == s
            } else {
                let paid = StateModel {
                    balances: s.balances.update(p as int, (s.balances[p as int] + part) as u64),
                    ..s
                };
                if w >= s.balances.len() {
                    r == Err::<(), BlockProcessingError>(
                        BlockProcessingError::BeaconStateError(
                            BeaconStateError::BalancesOutOfBounds(w),
                        ),
                    ) && after == paid
                } else if paid.balances[w as int] + (whole - part) > u64::MAX {
                    r == Err::<(), BlockProcessingError>(overflow) && after == paid
                } else {
                    r is Ok
                }
            }
        }),
{
    if spec.whistleblower_reward_quotient != 0 {
        let whole = whistleblower_reward(effective_balance, spec)->Ok_0;
        lemma_proposer_reward_is_a_part(s.fork_name, whole, spec);
        lemma_division(effective_balance as int, spec.whistleblower_reward_quotient as int);
        if spec.proposer_reward_quotient != 0 {
            lemma_division(whole as int, spec.proposer_reward_quotient as int);
        }
    }
}

/// Of a slashing that succeeds: the proposer and the whistleblower are credited together with
/// the effective balance that the registry held for the slashed validator, divided by the
/// reward quotient. Their balances are reckoned after the penalty, which is the slashed
/// validator's alone.
pub proof fn law_slashing_pays_for_the_effective_balance(
    s: StateModel,
    index: usize,
    opt_whistleblower_index: Option<usize>,
    ctxt: SlashingContext,
    spec: ChainSpec,
)
    requires
        slashed(s, index, opt_whistleblower_index, ctxt, spec).1 is Ok,
    ensures
        ({
            let after = slashed(s, index, opt_whistleblower_index, ctxt, spec).0;
            let p = (ctxt.proposer_index->Ok_0 as usize) as int;
            let w = match opt_whistleblower_index {
                Some(index) => index as int,
                None => p,
            };
            let effective = s.validators[index as int].effective_balance;
            let penalty = effective as int / spec.slashing_quotient(s.fork_name) as int;
            let before = |i: int|
                if i != index {
                    s.balances[i] as int
                } else if s.balances[i] >= penalty {
                    s.balances[i] - penalty
                } else {
                    0
                };
            let paid = |i: int| after.balances[i] - before(i);
            let whole = if p == w {
                paid(p)
            } else {
                paid(p) + paid(w)
            };
            let quotient = spec.whistleblower_reward_quotient;
            &&& whole * quotient <= effective < (whole + 1) * quotient
            &&& p != w && !(s.fork_name is Base) ==> paid(p) * 8 <= whole < paid(p) * 8 + 8
            &&& p != w && s.fork_name is Base ==> paid(p) * spec.proposer_reward_quotient <= whole
                < (paid(p) + 1) * spec.proposer_reward_quotient
            &&& paid(w) >= 0 && paid(p) >= 0
            &&& after.balances.len() == s.balances.len()
            &&& forall|j: int|
                0 <= j < s.balances.len() && j != p && j != w ==> #[trigger] after.balances[j]
                    == before(j)
        }),
{
    let (t, r) = penalized(s, index, ctxt.exit->Ok_0, spec);
    let p = ctxt.proposer_index->Ok_0 as usize;
    law_second_half_splits_the_reward(t, r->Ok_0, p, opt_whistleblower_index, spec);
    lemma_division(
        s.validators[index as int].effective_balance as int,
        spec.slashing_quotient(s.fork_name) as int,
    );
    let whole = whistleblower_reward(r->Ok_0, spec)->Ok_0;
    lemma_proposer_reward_is_a_part(s.fork_name, whole, spec);
}

/// A slashing asks in order: a refused exit leaves all as it is, then the first half has its
/// say, then the progressive balances and then the proposer lookup, which leave the first
/// half as it stands; and only then is anyone paid.
pub proof fn law_slashing_asks_in_order(
    s: StateModel,
    index: usize,
    opt_whistleblower_index: Option<usize>,
    ctxt: SlashingContext,
    spec: ChainSpec,
)
    ensures
        ({
            let (after, r) = slashed(s, index, opt_whistleblower_index, ctxt, spec);
            let (half, half_r) = penalized(s, index, ctxt.exit->Ok_0, spec);
            &&& ctxt.exit is Err ==> after == s && r == Err::<(), BlockProcessingError>(
                ctxt.exit->Err_0,
            )
            &&& ctxt.exit is Ok && half_r is Err ==> after == half && r == Err::<
                (),
                BlockProcessingError,
            >(half_r->Err_0)
            &&& ctxt.exit is Ok && half_r is Ok && ctxt.progressive_balances is Err ==> after
                == half && r == Err::<(), BlockProcessingError>(ctxt.progressive_balances->Err_0)
            &&& ctxt.exit is Ok && half_r is Ok && ctxt.progressive_balances is Ok
                && ctxt.proposer_index is Err ==> after == half && r == Err::<
                (),
                BlockProcessingError,
            >(ctxt.proposer_index->Err_0)
            &&& ctxt.exit is Ok && half_r is Ok && ctxt.progressive_balances is Ok
                && ctxt.proposer_index is Ok ==> (after, r) == rewarded(
                half,
                s.validators[index as int].effective_balance,
                ctxt.proposer_index->Ok_0 as usize,
                opt_whistleblower_index,
                spec,
            )
        }),
{
}

} // verus!
