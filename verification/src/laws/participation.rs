//! What participation earns and what inactivity costs.
use crate::arith::{lemma_product_nonneg, lemma_u64_product_fits, ArithError};
use crate::beacon_state::{BeaconStateError, StateModel};
use crate::chain_spec::ChainSpec;
use crate::laws::arithmetic::lemma_division;
use crate::per_epoch_processing::altair::base_rewards::BaseRewards;
use crate::per_epoch_processing::altair::participation_cache::{
    ParticipationCache, UnslashedParticipatingIndices,
};
use crate::per_epoch_processing::altair::rewards_and_penalties::{
    flag_delta, flag_penalty, flag_reward, flag_weight, inactivity_delta, inactivity_penalty_of,
    owed_for_flag, owed_for_inactivity,
};
use crate::per_epoch_processing::delta::Delta;
use crate::per_epoch_processing::errors::{EpochProcessingError, ParticipationCacheError};
use vstd::prelude::*;

verus! {

/// Out of 64, the source and the head vote weigh 14 each and the target vote 26. There are no
/// other flags.
pub proof fn law_flags_weigh_fifty_four(flag_index: usize)
    ensures
        flag_index == 0 || flag_index == 2 ==> flag_weight(flag_index) == Ok::<
            u64,
            EpochProcessingError,
        >(14),
        flag_index == 1 ==> flag_weight(flag_index) == Ok::<u64, EpochProcessingError>(26),
        flag_index > 2 ==> flag_weight(flag_index) == Err::<u64, _>(
            EpochProcessingError::InvalidFlagIndex(flag_index),
        ),
{
}

/// What is known of a validator is what its entry says, and of those past the end nothing.
pub proof fn law_participants_are_by_index(
    participating: UnslashedParticipatingIndices,
    index: usize,
)
    ensures
        index < participating.participants@.len() ==> participating.has(index)
            == participating.participants@[index as int],
        index >= participating.participants@.len() ==> participating.has(index) == Err::<bool, _>(
            ParticipationCacheError::InvalidValidatorIndex(index),
        ),
{
}

/// The base reward of a validator is what its entry says, and those past the end have none.
pub proof fn law_base_rewards_are_by_index(base_rewards: BaseRewards, index: usize)
    ensures
        index < base_rewards.rewards@.len() ==> base_rewards.base_reward(index)
            == base_rewards.rewards@[index as int],
        index >= base_rewards.rewards@.len() ==> base_rewards.base_reward(index) == Err::<u128, _>(
            BeaconStateError::UnknownValidator(index),
        ),
{
}

/// The cache knows the participants of the previous epoch, flag by flag, and of no other.
pub proof fn law_participation_is_by_flag(
    cache: ParticipationCache,
    flag_index: usize,
    epoch: u64,
)
    ensures
        ({
            let found = cache.participating(flag_index, epoch);
            let sets = cache.previous_epoch_participation@;
            &&& epoch != cache.previous_epoch ==> found == Err::<UnslashedParticipatingIndices, _>(
                EpochProcessingError::BeaconStateError(BeaconStateError::EpochOutOfBounds),
            )
            &&& epoch == cache.previous_epoch && flag_index >= sets.len() ==> found == Err::<
                UnslashedParticipatingIndices,
                _,
            >(EpochProcessingError::InvalidFlagIndex(flag_index))
            &&& epoch == cache.previous_epoch && flag_index < sets.len() ==> found == Ok::<
                UnslashedParticipatingIndices,
                EpochProcessingError,
            >(sets[flag_index as int])
        }),
{
}

/// A flag reward is the base reward scaled by weight and participation, rounded down: times the
/// active increments and 64 it is no more than the product of base reward, weight and
/// participating increments, and one more would be more. It fails exactly on a product that does
/// not fit and on no active increments.
pub proof fn law_flag_reward_is_a_share(
    base_reward: u128,
    weight: u64,
    participating_increments: u128,
    active_increments: u128,
)
    ensures
        ({
            let reward = flag_reward(
                base_reward,
                weight,
                participating_increments,
                active_increments,
            );
            let numerator = base_reward * weight * participating_increments;
            let denominator = active_increments * 64;
            let fits = base_reward * weight <= u128::MAX && numerator <= u128::MAX && denominator
                <= u128::MAX;
            &&& reward is Ok <==> fits && active_increments != 0
            &&& reward is Ok ==> {
                let r = reward->Ok_0;
                r * denominator <= numerator && numerator < (r + 1) * denominator
            }
            &&& !fits ==> reward == Err::<u128, _>(ArithError::Overflow)
            &&& fits && active_increments == 0 ==> reward == Err::<u128, _>(
                ArithError::DivisionByZero,
            )
        }),
{
    let numerator = base_reward * weight * participating_increments;
    let denominator = active_increments * 64;
    lemma_product_nonneg(base_reward, weight as u128);
    assert(numerator >= 0) by (nonlinear_arith)
        requires
            base_reward * weight >= 0,
            numerator == base_reward * weight * participating_increments,
            participating_increments >= 0,
    ;
    if active_increments != 0 {
        lemma_division(numerator, denominator);
    }
}

/// A flag penalty is the weight's share of the base reward, rounded down, and fails exactly where
/// their product does not fit.
pub proof fn law_flag_penalty_is_a_share(base_reward: u128, weight: u64)
    ensures
        ({
            let penalty = flag_penalty(base_reward, weight);
            let product = base_reward * weight;
            &&& penalty is Ok <==> product <= u128::MAX
            &&& penalty is Err ==> penalty->Err_0 == ArithError::Overflow
            &&& penalty is Ok ==> penalty->Ok_0 * 64 <= product < (penalty->Ok_0 + 1) * 64
        }),
{
    lemma_product_nonneg(base_reward, weight as u128);
}

/// Where all of the active balance took part, a flag rewards exactly what it would penalize.
pub proof fn law_full_participation_rewards_the_penalty(
    base_reward: u128,
    weight: u64,
    increments: u128,
)
    requires
        flag_reward(base_reward, weight, increments, increments) is Ok,
    ensures
        flag_penalty(base_reward, weight) == flag_reward(
            base_reward,
            weight,
            increments,
            increments,
        ),
{
    let reward = flag_reward(base_reward, weight, increments, increments)->Ok_0 as int;
    let product = base_reward * weight;
    let a = increments as int;
    law_flag_reward_is_a_share(base_reward, weight, increments, increments);
    law_flag_penalty_is_a_share(base_reward, weight);
    assert(reward * 64 <= product && product < (reward + 1) * 64) by (nonlinear_arith)
        requires
            reward * (a * 64) <= product * a,
            product * a < (reward + 1) * (a * 64),
            a > 0,
    {
        assert(reward * (a * 64) == (reward * 64) * a);
        assert((reward + 1) * (a * 64) == ((reward + 1) * 64) * a);
    }
}

/// What a flag owes one validator. One that earned it is owed nothing in a leak, and otherwise
/// its own base reward times the weight and the participating increments, over 64 times the
/// active increments, rounded down. One that did not earn it pays its own base reward times the
/// weight over 64, rounded down, and nothing for the head vote. What fails is told apart by what
/// is looked at first: the base reward, the participation, the finality delay, the arithmetic.
pub proof fn law_flag_owes_by_participation(
    s: StateModel,
    flag_index: usize,
    weight: u64,
    participating: UnslashedParticipatingIndices,
    participating_increments: u128,
    active_increments: u128,
    base_rewards: BaseRewards,
    spec: ChainSpec,
    index: usize,
)
    ensures
        ({
            let owed = flag_delta(
                s,
                flag_index,
                weight,
                participating,
                participating_increments,
                active_increments,
                base_rewards,
                spec,
                index,
            );
            let previous = if s.current_epoch > s.genesis_epoch {
                s.current_epoch - 1
            } else {
                s.current_epoch as int
            };
            let i = index as int;
            let numerator = base_rewards.rewards@[i]->Ok_0 * weight * participating_increments;
            let denominator = active_increments * 64;
            let weighted = base_rewards.rewards@[i]->Ok_0 * weight;
            let overflow = EpochProcessingError::ArithError(ArithError::Overflow);
            if index >= base_rewards.rewards@.len() {
                owed == Err::<Delta, _>(
                    EpochProcessingError::BeaconStateError(
                        BeaconStateError::UnknownValidator(index),
                    ),
                )
            } else if base_rewards.rewards@[i] is Err {
                owed == Err::<Delta, _>(
                    EpochProcessingError::BeaconStateError(base_rewards.rewards@[i]->Err_0),
                )
            } else if index >= participating.participants@.len() {
                owed == Err::<Delta, _>(
                    EpochProcessingError::ParticipationCache(
                        ParticipationCacheError::InvalidValidatorIndex(index),
                    ),
                )
            } else if participating.participants@[i] is Err {
                owed == Err::<Delta, _>(
                    EpochProcessingError::ParticipationCache(participating.participants@[i]->Err_0),
                )
            } else if participating.participants@[i]->Ok_0 {
                if previous < s.finalized_epoch {
                    owed == Err::<Delta, _>(
                        EpochProcessingError::BeaconStateError(
                            BeaconStateError::ArithError(ArithError::Overflow),
                        ),
                    )
                } else if previous > s.finalized_epoch + spec.min_epochs_to_inactivity_penalty {
                    owed is Ok && owed->Ok_0.rewards == 0 && owed->Ok_0.penalties == 0
                } else if weighted > u128::MAX || numerator > u128::MAX || denominator
                    > u128::MAX {
                    owed == Err::<Delta, _>(overflow)
                } else if active_increments == 0 {
                    owed == Err::<Delta, _>(
                        EpochProcessingError::ArithError(ArithError::DivisionByZero),
                    )
                } else {
                    let reward = owed->Ok_0.rewards;
                    &&& owed is Ok
                    &&& owed->Ok_0.penalties == 0
                    &&& reward * denominator <= numerator
                    &&& numerator < (reward + 1) * denominator
                }
            } else if flag_index == 2 {
                owed is Ok && owed->Ok_0.rewards == 0 && owed->Ok_0.penalties == 0
            } else if weighted > u128::MAX {
                owed == Err::<Delta, _>(overflow)
            } else {
                let penalty = owed->Ok_0.penalties;
                &&& owed is Ok
                &&& owed->Ok_0.rewards == 0
                &&& penalty * 64 <= weighted < (penalty + 1) * 64
            }
        }),
        owed_for_flag(
            s,
            flag_index,
            weight,
            participating,
            participating_increments,
            active_increments,
            base_rewards,
            spec,
        )(index) == flag_delta(
            s,
            flag_index,
            weight,
            participating,
            participating_increments,
            active_increments,
            base_rewards,
            spec,
            index,
        ),
{
    if index < base_rewards.rewards@.len() && base_rewards.rewards@[index as int] is Ok {
        let base_reward = base_rewards.rewards@[index as int]->Ok_0;
        law_flag_reward_is_a_share(
            base_reward,
            weight,
            participating_increments,
            active_increments,
        );
        law_flag_penalty_is_a_share(base_reward, weight);
    }
}

/// An inactivity penalty is balance times score over bias times quotient, rounded down, and fails
/// exactly on a zero divisor.
pub proof fn law_inactivity_penalty_is_a_share(
    effective_balance: u64,
    inactivity_score: u64,
    inactivity_score_bias: u64,
    inactivity_penalty_quotient: u64,
)
    ensures
        ({
            let penalty = inactivity_penalty_of(
                effective_balance,
                inactivity_score,
                inactivity_score_bias,
                inactivity_penalty_quotient,
            );
            let product = effective_balance * inactivity_score;
            let denominator = inactivity_score_bias * inactivity_penalty_quotient;
            &&& penalty is Ok <==> inactivity_score_bias != 0 && inactivity_penalty_quotient != 0
            &&& penalty is Err ==> penalty->Err_0 == ArithError::DivisionByZero
            &&& penalty is Ok ==> {
                let p = penalty->Ok_0;
                p * denominator <= product && product < (p + 1) * denominator
            }
        }),
{
    if inactivity_score_bias != 0 && inactivity_penalty_quotient != 0 {
        let denominator = inactivity_score_bias * inactivity_penalty_quotient;
        lemma_u64_product_fits(effective_balance, inactivity_score);
        assert(denominator > 0) by (nonlinear_arith)
            requires
                denominator == inactivity_score_bias * inactivity_penalty_quotient,
                inactivity_score_bias > 0,
                inactivity_penalty_quotient > 0,
        ;
        lemma_division(effective_balance * inactivity_score, denominator);
    }
}

/// What inactivity costs one validator, however far finality lags. One that earned the target
/// flag pays nothing. One that did not pays its own effective balance times its own score, over
/// bias times quotient, rounded down. What fails is told apart by what is looked at first: the
/// participation, the registry, the scores, the divisors.
pub proof fn law_inactivity_costs_by_score(
    s: StateModel,
    on_target: UnslashedParticipatingIndices,
    spec: ChainSpec,
    index: usize,
)
    ensures
        ({
            let owed = inactivity_delta(s, on_target, spec, index);
            let i = index as int;
            let bias = spec.inactivity_score_bias;
            let quotient = if s.fork_name is Altair {
                spec.inactivity_penalty_quotient_altair
            } else {
                spec.inactivity_penalty_quotient_bellatrix
            };
            if index >= on_target.participants@.len() {
                owed == Err::<Delta, _>(
                    EpochProcessingError::ParticipationCache(
                        ParticipationCacheError::InvalidValidatorIndex(index),
                    ),
                )
            } else if on_target.participants@[i] is Err {
                owed == Err::<Delta, _>(
                    EpochProcessingError::ParticipationCache(on_target.participants@[i]->Err_0),
                )
            } else if on_target.participants@[i]->Ok_0 {
                owed is Ok && owed->Ok_0.rewards == 0 && owed->Ok_0.penalties == 0
            } else if index >= s.validators.len() {
                owed == Err::<Delta, _>(
                    EpochProcessingError::BeaconStateError(
                        BeaconStateError::UnknownValidator(index),
                    ),
                )
            } else if s.fork_name is Base {
                owed == Err::<Delta, _>(
                    EpochProcessingError::BeaconStateError(BeaconStateError::IncorrectStateVariant),
                )
            } else if index >= s.inactivity_scores.len() {
                owed == Err::<Delta, _>(
                    EpochProcessingError::BeaconStateError(
                        BeaconStateError::InactivityScoresOutOfBounds(index),
                    ),
                )
            } else if bias == 0 || quotient == 0 {
                owed == Err::<Delta, _>(
                    EpochProcessingError::ArithError(ArithError::DivisionByZero),
                )
            } else {
                let p = owed->Ok_0.penalties;
                let product = s.validators[i].effective_balance * s.inactivity_scores[i];
                &&& owed is Ok
                &&& owed->Ok_0.rewards == 0
                &&& p * (bias * quotient) <= product
                &&& product < (p + 1) * (bias * quotient)
            }
        }),
        owed_for_inactivity(s, on_target, spec)(index) == inactivity_delta(
            s,
            on_target,
            spec,
            index,
        ),
{
    if index < s.validators.len() && index < s.inactivity_scores.len() {
        law_inactivity_penalty_is_a_share(
            s.validators[index as int].effective_balance,
            s.inactivity_scores[index as int],
            spec.inactivity_score_bias,
            spec.inactivity_quotient(s.fork_name),
        );
    }
}

/// How far finality lags has no say in what inactivity costs.
pub proof fn law_finality_has_no_say_in_inactivity(
    s: StateModel,
    finalized_epoch: u64,
    on_target: UnslashedParticipatingIndices,
    spec: ChainSpec,
    index: usize,
)
    ensures
        inactivity_delta(StateModel { finalized_epoch, ..s }, on_target, spec, index)
            == inactivity_delta(s, on_target, spec, index),
{
}

} // verus!
