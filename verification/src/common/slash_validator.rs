//! Slashing a validator.
use crate::arith::{
    fit_u64, monus, quotient_u64, safe_add, safe_div, safe_mul, safe_sub, wrap_u64, ArithError,
};
use crate::beacon_state::{BeaconState, BeaconStateError, StateModel, Validator};
use crate::chain_spec::{ChainSpec, ForkName, PROPOSER_WEIGHT, WEIGHT_DENOMINATOR};
use crate::common::balances::{decrease_balance, decreased, increase_balance, increased};
use vstd::prelude::*;

verus! {

/// Why an operation of a block was refused.
#[derive(Clone, Copy, Debug, PartialEq, Eq, Structural)]
pub enum BlockProcessingError {
    BeaconStateError(BeaconStateError),
    ArithError(ArithError),
    /// The context of the block could not answer.
    ConsensusContext,
}

/// The epochs that a validator has once its exit is initiated.
#[derive(Clone, Copy, Debug, PartialEq, Eq, Structural)]
pub struct ExitEpochs {
    pub exit_epoch: u64,
    pub withdrawable_epoch: u64,
}

/// What the rest of block processing answers while a validator is slashed.
#[derive(Clone, Copy, Debug, PartialEq, Eq)]
pub struct SlashingContext {
    /// What initiating the validator's exit came to.
    pub exit: Result<ExitEpochs, BlockProcessingError>,
    /// How taking the validator out of the progressive balances went.
    pub progressive_balances: Result<(), BlockProcessingError>,
    /// The index of the block's proposer.
    pub proposer_index: Result<u64, BlockProcessingError>,
}

/// The registry entry of a validator that is slashed in `epoch`: its exit is initiated, and
/// it cannot withdraw for `window` epochs.
pub open spec fn slashed_validator(
    v: Validator,
    exit: ExitEpochs,
    epoch: u64,
    window: nat,
) -> Validator {
    Validator {
        effective_balance: v.effective_balance,
        slashed: true,
        exit_epoch: exit.exit_epoch,
        withdrawable_epoch: if exit.withdrawable_epoch >= epoch + window {
            exit.withdrawable_epoch
        } else {
            (epoch + window) as u64
        },
    }
}

/// The state in which validator `index` is marked as slashed, its effective balance is
/// counted among the slashings of the epoch and the initial penalty is taken; and the
/// effective balance. Where a step fails, the state is as the steps before it left it.
pub open spec fn penalized(
    s: StateModel,
    index: usize,
    exit: ExitEpochs,
    spec: ChainSpec,
) -> (StateModel, Result<u64, BlockProcessingError>) {
    let epoch = s.current_epoch;
    let window = s.slashings.len();
    if index >= s.validators.len() {
        (
            s,
            Err(BlockProcessingError::BeaconStateError(BeaconStateError::UnknownValidator(index))),
        )
    } else {
        let v = s.validators[index as int];
        if epoch + window > u64::MAX {
            let exiting = Validator {
                slashed: true,
                exit_epoch: exit.exit_epoch,
                withdrawable_epoch: exit.withdrawable_epoch,
                ..v
            };
            (
                StateModel { validators: s.validators.update(index as int, exiting), ..s },
                Err(BlockProcessingError::ArithError(ArithError::Overflow)),
            )
        } else {
            let marked = StateModel {
                validators: s.validators.update(
                    index as int,
                    slashed_validator(v, exit, epoch, window),
                ),
                ..s
            };
            if window == 0 {
                (
                    marked,
                    Err(BlockProcessingError::BeaconStateError(BeaconStateError::EpochOutOfBounds)),
                )
            } else {
                let counted = StateModel {
                    slashings: s.slashings.update(
                        s.bucket(epoch),
                        wrap_u64(s.slashings[s.bucket(epoch)] + v.effective_balance),
                    ),
                    ..marked
                };
                match quotient_u64(v.effective_balance, spec.slashing_quotient(s.fork_name)) {
                    Err(e) => (counted, Err(BlockProcessingError::ArithError(e))),
                    Ok(penalty) => match decreased(counted, index, penalty) {
                        (t, Ok(_)) => (t, Ok(v.effective_balance)),
                        (t, Err(e)) => (t, Err(BlockProcessingError::BeaconStateError(e))),
                    },
                }
            }
        }
    }
}

/// What a slashing pays for reporting a validator with this effective balance.
pub open spec fn whistleblower_reward(effective_balance: u64, spec: ChainSpec) -> Result<
    u64,
    ArithError,
> {
    quotient_u64(effective_balance, spec.whistleblower_reward_quotient)
}

/// The part of a whistleblower reward that goes to the proposer.
pub open spec fn proposer_reward(fork: ForkName, reward: u64, spec: ChainSpec) -> Result<
    u64,
    ArithError,
> {
    if fork == ForkName::Base {
        quotient_u64(reward, spec.proposer_reward_quotient)
    } else {
        match fit_u64(reward * PROPOSER_WEIGHT) {
            Ok(weighted) => quotient_u64(weighted, WEIGHT_DENOMINATOR),
            Err(e) => Err(e),
        }
    }
}

/// The state after the proposer and the whistleblower are paid for a slashing, and how the
/// payment went. Slashing rewards are not burned.
pub open spec fn rewarded(
    s: StateModel,
    effective_balance: u64,
    proposer_index: usize,
    opt_whistleblower_index: Option<usize>,
    spec: ChainSpec,
) -> (StateModel, Result<(), BlockProcessingError>) {
    let whistleblower_index = match opt_whistleblower_index {
        Some(index) => index,
        None => proposer_index,
    };
    match whistleblower_reward(effective_balance, spec) {
        Err(e) => (s, Err(BlockProcessingError::ArithError(e))),
        Ok(whole) => match proposer_reward(s.fork_name, whole, spec) {
            Err(e) => (s, Err(BlockProcessingError::ArithError(e))),
            Ok(part) => if whistleblower_index >= s.validators.len() {
                (
                    s,
                    Err(
                        BlockProcessingError::BeaconStateError(
                            BeaconStateError::UnknownValidator(whistleblower_index),
                        ),
                    ),
                )
            } else {
                match increased(s, proposer_index, part, spec, false) {
                    (t, Err(e)) => (t, Err(BlockProcessingError::BeaconStateError(e))),
                    (t, Ok(_)) => match increased(
                        t,
                        whistleblower_index,
                        (whole - part) as u64,
                        spec,
                        false,
                    ) {
                        (u, Err(e)) => (u, Err(BlockProcessingError::BeaconStateError(e))),
                        (u, Ok(_)) => (u, Ok(())),
                    },
                }
            },
        },
    }
}

/// The state after validator `index` is slashed, and how the slashing went.
pub open spec fn slashed(
    s: StateModel,
    index: usize,
    opt_whistleblower_index: Option<usize>,
    ctxt: SlashingContext,
    spec: ChainSpec,
) -> (StateModel, Result<(), BlockProcessingError>) {
    match ctxt.exit {
        Err(e) => (s, Err(e)),
        Ok(exit) => match penalized(s, index, exit, spec) {
            (t, Err(e)) => (t, Err(e)),
            (t, Ok(effective_balance)) => match (ctxt.progressive_balances, ctxt.proposer_index) {
                (Err(e), _) => (t, Err(e)),
                (Ok(_), Err(e)) => (t, Err(e)),
                (Ok(_), Ok(proposer_index)) => rewarded(
                    t,
                    effective_balance,
                    proposer_index as usize,
                    opt_whistleblower_index,
                    spec,
                ),
            },
        },
    }
}

/// The proposer's part is no more than the whole reward.
pub proof fn lemma_proposer_reward_is_a_part(fork: ForkName, reward: u64, spec: ChainSpec)
    ensures
        proposer_reward(fork, reward, spec) is Ok ==> proposer_reward(fork, reward, spec)->Ok_0
            <= reward,
{
    let q = spec.proposer_reward_quotient as int;
    if q > 0 {
        assert(reward as int / q <= reward) by (nonlinear_arith)
            requires
                q > 0,
        ;
    }
}

/// An arithmetic result as part of block processing.
fn from_arith<T>(r: Result<T, ArithError>) -> (e: Result<T, BlockProcessingError>)
    ensures
        e == match r {
            Ok(v) => Ok(v),
            Err(e) => Err(BlockProcessingError::ArithError(e)),
        },
{
    match r {
        Ok(v) => Ok(v),
        Err(e) => Err(BlockProcessingError::ArithError(e)),
    }
}

/// A result on the state as part of block processing.
fn from_state<T>(r: Result<T, BeaconStateError>) -> (e: Result<T, BlockProcessingError>)
    ensures
        e == match r {
            Ok(v) => Ok(v),
            Err(e) => Err(BlockProcessingError::BeaconStateError(e)),
        },
{
    match r {
        Ok(v) => Ok(v),
        Err(e) => Err(BlockProcessingError::BeaconStateError(e)),
    }
}

/// The first half of a slashing: marks validator `slashed_index`, whose exit is initiated,
/// counts its effective balance among the slashings of the epoch and takes the initial
/// penalty. Returns the effective balance.
///
/// The sum of slashings wraps, as it does in the canonical client: at PulseChain's balances
/// it overflows `u64` once some 577 validators are slashed in one epoch, and a block that
/// takes it there is valid.
pub fn penalize_slashed_validator(
    state: &mut BeaconState,
    slashed_index: usize,
    exit: ExitEpochs,
    spec: &ChainSpec,
) -> (r: Result<u64, BlockProcessingError>)
    ensures
        (final(state)@, r) == penalized(old(state)@, slashed_index, exit, *spec),
{
    let epoch: u64 = state.current_epoch;

    let mut validator: Validator = from_state(state.get_validator(slashed_index))?;
    validator.slashed = true;
    validator.exit_epoch = exit.exit_epoch;
    validator.withdrawable_epoch = exit.withdrawable_epoch;
    state.validators.set(slashed_index, validator);
    let earliest: u64 = from_arith(safe_add(epoch, state.slashings.len() as u64))?;
    if validator.withdrawable_epoch < earliest {
        validator.withdrawable_epoch = earliest;
        state.validators.set(slashed_index, validator);
    }
    let effective_balance: u64 = validator.effective_balance;

    let slashings: u64 = from_state(state.get_slashings(epoch))?;
    from_state(state.set_slashings(epoch, slashings.wrapping_add(effective_balance)))?;

    let quotient: u64 = spec.min_slashing_penalty_quotient_for_state(state.fork_name);
    let penalty: u64 = from_arith(safe_div(effective_balance, quotient))?;
    from_state(decrease_balance(state, slashed_index, penalty))?;
    Ok(effective_balance)
}

/// The second half of a slashing: pays the proposer and the whistleblower. Where no
/// whistleblower is named, the proposer is paid for both.
pub fn reward_slashing(
    state: &mut BeaconState,
    effective_balance: u64,
    proposer_index: usize,
    opt_whistleblower_index: Option<usize>,
    spec: &ChainSpec,
) -> (r: Result<(), BlockProcessingError>)
    ensures
        (final(state)@, r) == rewarded(
            old(state)@,
            effective_balance,
            proposer_index,
            opt_whistleblower_index,
            *spec,
        ),
{
    let whistleblower_index: usize = match opt_whistleblower_index {
        Some(index) => index,
        None => proposer_index,
    };
    let whole: u64 = from_arith(safe_div(effective_balance, spec.whistleblower_reward_quotient))?;
    let part: u64 = match state.fork_name {
        ForkName::Base => from_arith(safe_div(whole, spec.proposer_reward_quotient))?,
        ForkName::Altair | ForkName::Merge | ForkName::Capella | ForkName::Deneb => {
            let weighted: u64 = from_arith(safe_mul(whole, PROPOSER_WEIGHT))?;
            from_arith(safe_div(weighted, WEIGHT_DENOMINATOR))?
        },
    };

    // Ensure the whistleblower index is in the validator registry.
    if whistleblower_index >= state.validators.len() {
        return Err(
            BlockProcessingError::BeaconStateError(
                BeaconStateError::UnknownValidator(whistleblower_index),
            ),
        );
    }
    proof {
        lemma_proposer_reward_is_a_part(state.fork_name, whole, *spec);
    }

    // Do not apply burn to slashing rewards.
    from_state(increase_balance(state, proposer_index, part, spec, false))?;
    let rest: u64 = from_arith(safe_sub(whole, part))?;
    from_state(increase_balance(state, whistleblower_index, rest, spec, false))
}

/// Slash the validator with index `slashed_index`.
pub fn slash_validator(
    state: &mut BeaconState,
    slashed_index: usize,
    opt_whistleblower_index: Option<usize>,
    ctxt: &SlashingContext,
    spec: &ChainSpec,
) -> (r: Result<(), BlockProcessingError>)
    ensures
        (final(state)@, r) == slashed(
            old(state)@,
            slashed_index,
            opt_whistleblower_index,
            *ctxt,
            *spec,
        ),
{
    let exit: ExitEpochs = ctxt.exit?;
    let effective_balance: u64 = penalize_slashed_validator(state, slashed_index, exit, spec)?;
    ctxt.progressive_balances?;
    let proposer_index: u64 = ctxt.proposer_index?;
    reward_slashing(
        state,
        effective_balance,
        proposer_index as usize,
        opt_whistleblower_index,
        spec,
    )
}

/// The sum of slashings of the epoch is increased by the effective balance of the slashed
/// validator and wraps where it overflows. The sums of other epochs stay.
pub proof fn law_slashing_wraps_the_bucket(
    s: StateModel,
    index: usize,
    opt_whistleblower_index: Option<usize>,
    ctxt: SlashingContext,
    spec: ChainSpec,
)
    requires
        slashed(s, index, opt_whistleblower_index, ctxt, spec).1 is Ok,
    ensures
        index < s.validators.len(),
        s.keeps_slashings_of(s.current_epoch),
        slashed(s, index, opt_whistleblower_index, ctxt, spec).0.slashings == s.slashings.update(
            s.bucket(s.current_epoch),
            wrap_u64(
                s.slashings_of(s.current_epoch)->Ok_0 + s.validators[index as int].effective_balance,
            ),
        ),
{
}

/// What the slashings of earlier validators came to decides nothing: whether a slashing goes
/// through, and all it does outside the sums, is the same for every content of the ring.
pub proof fn law_bucket_never_refuses_a_slashing(
    s: StateModel,
    slashings: Seq<u64>,
    index: usize,
    opt_whistleblower_index: Option<usize>,
    ctxt: SlashingContext,
    spec: ChainSpec,
)
    requires
        slashings.len() == s.slashings.len(),
    ensures
        ({
            let (after, r) = slashed(s, index, opt_whistleblower_index, ctxt, spec);
            let (other, r2) = slashed(
                StateModel { slashings, ..s },
                index,
                opt_whistleblower_index,
                ctxt,
                spec,
            );
            &&& r == r2
            &&& other == (StateModel { slashings: other.slashings, ..after })
        }),
{
    let t = StateModel { slashings, ..s };
    if let Ok(exit) = ctxt.exit {
        let (p, r) = penalized(s, index, exit, spec);
        let (q, r2) = penalized(t, index, exit, spec);
        assert(r == r2);
        assert(q == (StateModel { slashings: q.slashings, ..p }));
    }
}

/// A slashed validator is marked, keeps its effective balance and exits, and can withdraw
/// neither before its exit allows nor within the slashings window. No other validator
/// changes.
pub proof fn law_slashed_validator_is_marked(
    s: StateModel,
    index: usize,
    opt_whistleblower_index: Option<usize>,
    ctxt: SlashingContext,
    spec: ChainSpec,
)
    requires
        slashed(s, index, opt_whistleblower_index, ctxt, spec).1 is Ok,
    ensures
        ({
            let after = slashed(s, index, opt_whistleblower_index, ctxt, spec).0;
            let v = after.validators[index as int];
            &&& after.validators == s.validators.update(index as int, v)
            &&& v.slashed
            &&& v.effective_balance == s.validators[index as int].effective_balance
            &&& v.exit_epoch == ctxt.exit->Ok_0.exit_epoch
            &&& v.withdrawable_epoch >= ctxt.exit->Ok_0.withdrawable_epoch
            &&& v.withdrawable_epoch >= s.current_epoch + s.slashings.len()
            &&& v.withdrawable_epoch == ctxt.exit->Ok_0.withdrawable_epoch
                || v.withdrawable_epoch == s.current_epoch + s.slashings.len()
        }),
{
}

/// What a slashing pays is the whole whistleblower reward, unburned: the proposer gets its
/// part and the whistleblower the rest, and where they are one validator it gets both.
pub proof fn law_slashing_pays_the_whole_reward(
    s: StateModel,
    effective_balance: u64,
    proposer_index: usize,
    opt_whistleblower_index: Option<usize>,
    spec: ChainSpec,
)
    requires
        rewarded(s, effective_balance, proposer_index, opt_whistleblower_index, spec).1 is Ok,
    ensures
        ({
            let after = rewarded(
                s,
                effective_balance,
                proposer_index,
                opt_whistleblower_index,
                spec,
            ).0;
            let whistleblower_index = match opt_whistleblower_index {
                Some(index) => index,
                None => proposer_index,
            };
            let whole = effective_balance as int / spec.whistleblower_reward_quotient as int;
            let part = proposer_reward(s.fork_name, whole as u64, spec)->Ok_0;
            let paid = |i: int| after.balances[i] - s.balances[i];
            &&& after == (StateModel { balances: after.balances, ..s })
            &&& after.balances.len() == s.balances.len()
            &&& proposer_index < s.balances.len()
            &&& whistleblower_index < s.balances.len()
            &&& proposer_index == whistleblower_index ==> paid(proposer_index as int) == whole
            &&& proposer_index != whistleblower_index ==> {
                &&& paid(proposer_index as int) == part
                &&& paid(whistleblower_index as int) == whole - part
            }
            &&& forall|i: int|
                0 <= i < s.balances.len() && i != proposer_index && i != whistleblower_index
                    ==> #[trigger] after.balances[i] == s.balances[i]
        }),
{
    let whole = whistleblower_reward(effective_balance, spec)->Ok_0;
    lemma_proposer_reward_is_a_part(s.fork_name, whole, spec);
}

/// A slashing changes at most three balances: the slashed validator loses the initial penalty,
/// and only the proposer and the whistleblower are paid. It changes no inactivity score, no
/// epoch and no fork.
pub proof fn law_slashing_changes_three_balances(
    s: StateModel,
    index: usize,
    opt_whistleblower_index: Option<usize>,
    ctxt: SlashingContext,
    spec: ChainSpec,
)
    requires
        slashed(s, index, opt_whistleblower_index, ctxt, spec).1 is Ok,
    ensures
        ({
            let after = slashed(s, index, opt_whistleblower_index, ctxt, spec).0;
            let proposer_index = ctxt.proposer_index->Ok_0 as usize;
            let whistleblower_index = match opt_whistleblower_index {
                Some(index) => index,
                None => proposer_index,
            };
            let penalty = s.validators[index as int].effective_balance as int
                / spec.slashing_quotient(s.fork_name) as int;
            &&& after == (StateModel {
                validators: after.validators,
                balances: after.balances,
                slashings: after.slashings,
                ..s
            })
            &&& after.balances.len() == s.balances.len()
            &&& index < s.balances.len()
            &&& index != proposer_index && index != whistleblower_index ==> {
                after.balances[index as int] == monus(s.balances[index as int], penalty as u64)
            }
            &&& forall|i: int|
                0 <= i < s.balances.len() && i != index && i != proposer_index && i
                    != whistleblower_index ==> #[trigger] after.balances[i] == s.balances[i]
        }),
{
    let (t, r) = penalized(s, index, ctxt.exit->Ok_0, spec);
    law_slashing_pays_the_whole_reward(
        t,
        r->Ok_0,
        ctxt.proposer_index->Ok_0 as usize,
        opt_whistleblower_index,
        spec,
    );
}

/// Where the progressive balances or the proposer lookup fail, the validator stays penalized
/// and nobody is paid.
pub proof fn law_failed_context_pays_nobody(
    s: StateModel,
    index: usize,
    opt_whistleblower_index: Option<usize>,
    ctxt: SlashingContext,
    spec: ChainSpec,
)
    requires
        ctxt.exit is Ok,
        ctxt.progressive_balances is Err || ctxt.proposer_index is Err,
    ensures
        slashed(s, index, opt_whistleblower_index, ctxt, spec).1 is Err,
        slashed(s, index, opt_whistleblower_index, ctxt, spec).0 == penalized(
            s,
            index,
            ctxt.exit->Ok_0,
            spec,
        ).0,
{
}

} // verus!
