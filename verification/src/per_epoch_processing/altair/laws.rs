//! What holds of rewards and penalties whatever the epoch.
use crate::arith::{lemma_product_nonneg, lemma_u64_product_fits, quotient_u64, wrap_u64};
use crate::beacon_state::{BeaconStateError, StateModel};
use crate::chain_spec::{
    ChainSpec, ForkName, PARTICIPATION_FLAG_WEIGHTS, TIMELY_HEAD_FLAG_INDEX, WEIGHT_DENOMINATOR,
};
use crate::common::pulse::{burned, law_burned_reward_is_bounded};
use crate::per_epoch_processing::altair::base_rewards::BaseRewards;
use crate::per_epoch_processing::altair::participation_cache::{
    ParticipationCache, UnslashedParticipatingIndices,
};
use crate::per_epoch_processing::altair::rewards_and_penalties::{
    delta_step, epoch_deltas, flag_delta, flag_penalty, flag_reward, flag_weight,
    inactivity_delta, inactivity_penalty_of, owed_for_flag, owed_for_inactivity,
    rewards_and_penalties_processed, with_deltas_of_flags, with_flag_deltas,
    with_inactivity_deltas,
};
use crate::per_epoch_processing::delta::{
    accumulated, can_be_given, law_each_is_given_what_it_is_owed, lemma_absent_is_unchanged,
    no_delta, Delta,
};
use crate::per_epoch_processing::errors::{EpochProcessingError, ParticipationCacheError};
use crate::per_epoch_processing::settlement::{
    law_settlement_succeeds, settled_up_to, stops_after,
};
use vstd::prelude::*;

verus! {

/// An inactivity penalty can be computed at every magnitude of balance and score: only a zero
/// divisor stops it.
pub proof fn law_inactivity_penalty_does_not_halt(
    effective_balance: u64,
    inactivity_score: u64,
    inactivity_score_bias: u64,
    inactivity_penalty_quotient: u64,
)
    requires
        inactivity_score_bias > 0,
        inactivity_penalty_quotient > 0,
    ensures
        ({
            let penalty = inactivity_penalty_of(
                effective_balance,
                inactivity_score,
                inactivity_score_bias,
                inactivity_penalty_quotient,
            );
            let numerator = effective_balance * inactivity_score;
            let denominator = inactivity_score_bias * inactivity_penalty_quotient;
            &&& penalty is Ok
            &&& penalty->Ok_0 * denominator <= numerator
            &&& numerator < (penalty->Ok_0 + 1) * denominator
            &&& penalty->Ok_0 <= numerator
        }),
{
    let numerator = effective_balance * inactivity_score;
    let denominator = inactivity_score_bias * inactivity_penalty_quotient;
    lemma_u64_product_fits(effective_balance, inactivity_score);
    assert(denominator >= 1) by (nonlinear_arith)
        requires
            denominator == inactivity_score_bias * inactivity_penalty_quotient,
            inactivity_score_bias >= 1,
            inactivity_penalty_quotient >= 1,
    ;
    let quotient = numerator / denominator;
    assert(quotient * denominator <= numerator && numerator < (quotient + 1) * denominator && 0
        <= quotient <= numerator) by (nonlinear_arith)
        requires
            quotient == numerator / denominator,
            denominator >= 1,
            numerator >= 0,
    ;
}

/// Where the products fit `u64`, the inactivity penalty is what `u64` arithmetic gives.
pub proof fn law_inactivity_penalty_matches_the_narrow_path(
    effective_balance: u64,
    inactivity_score: u64,
    inactivity_score_bias: u64,
    inactivity_penalty_quotient: u64,
)
    requires
        effective_balance * inactivity_score <= u64::MAX,
        0 < inactivity_score_bias * inactivity_penalty_quotient <= u64::MAX,
    ensures
        ({
            let penalty = inactivity_penalty_of(
                effective_balance,
                inactivity_score,
                inactivity_score_bias,
                inactivity_penalty_quotient,
            );
            let narrow = quotient_u64(
                (effective_balance * inactivity_score) as u64,
                (inactivity_score_bias * inactivity_penalty_quotient) as u64,
            );
            &&& penalty is Ok
            &&& narrow is Ok
            &&& penalty->Ok_0 == narrow->Ok_0
        }),
{
    lemma_u64_product_fits(effective_balance, inactivity_score);
    assert(inactivity_score_bias != 0 && inactivity_penalty_quotient != 0) by (nonlinear_arith)
        requires
            0 < inactivity_score_bias * inactivity_penalty_quotient,
    ;
    let numerator = effective_balance * inactivity_score;
    let denominator = inactivity_score_bias * inactivity_penalty_quotient;
    assert(0 <= numerator / denominator <= numerator) by (nonlinear_arith)
        requires
            numerator >= 0,
            denominator > 0,
    ;
}

/// In an inactivity leak no flag is rewarded.
pub proof fn law_no_rewards_in_a_leak(
    s: StateModel,
    flag_index: usize,
    weight: u64,
    participating: UnslashedParticipatingIndices,
    participating_increments: u128,
    active_increments: u128,
    base_rewards: BaseRewards,
    spec: ChainSpec,
    index: usize,
)
    requires
        s.in_inactivity_leak(s.previous_epoch(), spec) == Ok::<bool, BeaconStateError>(true),
    ensures
        ({
            let owed = flag_delta(
                s,
                flag_index,
                weight,
                participating,
                participating_increments,
                active_increments,
                base_rewards,
                spec,
                index,
            );
            owed is Ok ==> owed->Ok_0.rewards == 0
        }),
{
}

/// For one flag a validator is rewarded or penalized, never both: those that earned it are
/// not penalized, and those that did not are not rewarded. For the head vote nobody is
/// penalized.
pub proof fn law_flags_reward_or_penalize(
    s: StateModel,
    flag_index: usize,
    weight: u64,
    participating: UnslashedParticipatingIndices,
    participating_increments: u128,
    active_increments: u128,
    base_rewards: BaseRewards,
    spec: ChainSpec,
    index: usize,
)
    ensures
        ({
            let owed = flag_delta(
                s,
                flag_index,
                weight,
                participating,
                participating_increments,
                active_increments,
                base_rewards,
                spec,
                index,
            );
            owed is Ok ==> {
                &&& participating.has(index) is Ok
                &&& participating.has(index)->Ok_0 ==> owed->Ok_0.penalties == 0
                &&& !participating.has(index)->Ok_0 ==> owed->Ok_0.rewards == 0
                &&& flag_index == TIMELY_HEAD_FLAG_INDEX ==> owed->Ok_0.penalties == 0
            }
        }),
{
}

/// Where no more balance took part than is active, a flag rewards at most its share of the
/// base reward, which is what it would penalize.
pub proof fn law_flag_reward_is_at_most_the_penalty(
    base_reward: u128,
    weight: u64,
    participating_increments: u128,
    active_increments: u128,
)
    requires
        participating_increments <= active_increments,
    ensures
        ({
            let reward = flag_reward(
                base_reward,
                weight,
                participating_increments,
                active_increments,
            );
            reward is Ok ==> {
                &&& flag_penalty(base_reward, weight) is Ok
                &&& reward->Ok_0 <= flag_penalty(base_reward, weight)->Ok_0
            }
        }),
{
    let weighted = base_reward * weight;
    lemma_product_nonneg(base_reward, weight as u128);
    if active_increments > 0 {
        let p = participating_increments as int;
        let a = active_increments as int;
        let w = weighted / 64;
        assert(0 <= (weighted * p) / (a * 64) <= w) by (nonlinear_arith)
            requires
                0 <= p <= a,
                a > 0,
                weighted >= 0,
                w == weighted / 64,
        {
            assert(weighted < (w + 1) * 64);
            assert(0 <= weighted * p <= weighted * a);
            assert(weighted * a < (w + 1) * 64 * a);
            assert((w + 1) * 64 * a == (w + 1) * (a * 64));
            assert(a * 64 > 0);
        }
    }
}

/// An inactivity leak or not, validators that earned the target flag are owed nothing for
/// inactivity, and the others nothing but a penalty.
pub proof fn law_inactivity_only_penalizes(
    s: StateModel,
    on_target: UnslashedParticipatingIndices,
    spec: ChainSpec,
    index: usize,
)
    ensures
        on_target.has(index) == Ok::<bool, ParticipationCacheError>(true) ==> inactivity_delta(s, on_target, spec, index) == Ok::<
            Delta,
            EpochProcessingError,
        >(no_delta()),
        inactivity_delta(s, on_target, spec, index) is Ok ==> inactivity_delta(
            s,
            on_target,
            spec,
            index,
        )->Ok_0.rewards == 0,
{
}

/// Rewards and penalties are not applied for the genesis epoch.
pub proof fn law_genesis_epoch_settles_nothing(
    s: StateModel,
    cache: ParticipationCache,
    base_rewards: BaseRewards,
    spec: ChainSpec,
    after: StateModel,
    r: Result<(), EpochProcessingError>,
)
    requires
        rewards_and_penalties_processed(s, cache, base_rewards, spec, after, r),
        s.current_epoch == s.genesis_epoch,
    ensures
        r is Ok,
        after == s,
{
}

/// What validator `index` is owed for flag `flag_index` of an epoch.
pub open spec fn epoch_flag_delta(
    s: StateModel,
    flag_index: usize,
    cache: ParticipationCache,
    base_rewards: BaseRewards,
    spec: ChainSpec,
    index: usize,
) -> Result<Delta, EpochProcessingError> {
    flag_delta(
        s,
        flag_index,
        PARTICIPATION_FLAG_WEIGHTS@[flag_index as int],
        cache.previous_epoch_participation@[flag_index as int],
        (cache.previous_epoch_participation@[flag_index as int].total_balance->Ok_0 as int
            / spec.effective_balance_increment as int) as u128,
        (cache.current_epoch_total_active_balance as int
            / spec.effective_balance_increment as int) as u128,
        base_rewards,
        spec,
        index,
    )
}

/// What each validator is owed for flag `flag_index` of an epoch.
spec fn epoch_flag(
    s: StateModel,
    flag_index: usize,
    cache: ParticipationCache,
    base_rewards: BaseRewards,
    spec: ChainSpec,
) -> spec_fn(usize) -> Result<Delta, EpochProcessingError> {
    owed_for_flag(
        s,
        flag_index,
        PARTICIPATION_FLAG_WEIGHTS@[flag_index as int],
        cache.previous_epoch_participation@[flag_index as int],
        (cache.previous_epoch_participation@[flag_index as int].total_balance->Ok_0 as int
            / spec.effective_balance_increment as int) as u128,
        (cache.current_epoch_total_active_balance as int
            / spec.effective_balance_increment as int) as u128,
        base_rewards,
        spec,
    )
}

/// What one flag adds to the delta of an eligible validator.
proof fn lemma_flag_adds(
    deltas: Seq<Delta>,
    s: StateModel,
    flag_index: usize,
    cache: ParticipationCache,
    base_rewards: BaseRewards,
    spec: ChainSpec,
    index: usize,
)
    requires
        cache.eligible_indices@.no_duplicates(),
        with_flag_deltas(
            deltas,
            s,
            flag_index,
            cache.current_epoch_total_active_balance,
            cache,
            base_rewards,
            spec,
        ).1 is Ok,
        cache.eligible_indices@.contains(index),
        index < deltas.len(),
    ensures
        ({
            let after = with_flag_deltas(
                deltas,
                s,
                flag_index,
                cache.current_epoch_total_active_balance,
                cache,
                base_rewards,
                spec,
            ).0;
            let owed = epoch_flag_delta(s, flag_index, cache, base_rewards, spec, index);
            let before = deltas[index as int];
            &&& after.len() == deltas.len()
            &&& owed is Ok
            &&& after[index as int].rewards == before.rewards + owed->Ok_0.rewards
            &&& after[index as int].penalties == before.penalties + owed->Ok_0.penalties
        }),
{
    let indices = cache.eligible_indices@;
    let owed = epoch_flag(s, flag_index, cache, base_rewards, spec);
    law_each_is_given_what_it_is_owed(deltas, indices, owed);
    let j = choose|j: int| 0 <= j < indices.len() && indices[j] == index;
    assert(can_be_given(deltas, indices[j], owed));
}

/// What an epoch owes an eligible validator in all is what it owes it for each of the three
/// flags and for inactivity, added up.
pub proof fn law_epoch_delta_is_the_sum(
    s: StateModel,
    cache: ParticipationCache,
    base_rewards: BaseRewards,
    spec: ChainSpec,
    index: usize,
)
    requires
        epoch_deltas(s, cache, base_rewards, spec) is Ok,
        cache.eligible_indices@.no_duplicates(),
        cache.eligible_indices@.contains(index),
        index < s.validators.len(),
    ensures
        ({
            let delta = epoch_deltas(s, cache, base_rewards, spec)->Ok_0[index as int];
            let source = epoch_flag_delta(s, 0, cache, base_rewards, spec, index)->Ok_0;
            let target = epoch_flag_delta(s, 1, cache, base_rewards, spec, index)->Ok_0;
            let head = epoch_flag_delta(s, 2, cache, base_rewards, spec, index)->Ok_0;
            let inactivity = inactivity_delta(
                s,
                cache.previous_epoch_participation@[1],
                spec,
                index,
            )->Ok_0;
            &&& delta.rewards == source.rewards + target.rewards + head.rewards
            &&& delta.penalties == source.penalties + target.penalties + inactivity.penalties
        }),
{
    reveal_with_fuel(with_deltas_of_flags, 4);
    let none = Seq::new(s.validators.len(), |i: int| no_delta());
    let one = with_deltas_of_flags(none, s, 1, cache, base_rewards, spec).0;
    let two = with_deltas_of_flags(none, s, 2, cache, base_rewards, spec).0;
    let three = with_deltas_of_flags(none, s, 3, cache, base_rewards, spec).0;
    lemma_flag_adds(none, s, 0, cache, base_rewards, spec, index);
    lemma_flag_adds(one, s, 1, cache, base_rewards, spec, index);
    lemma_flag_adds(two, s, 2, cache, base_rewards, spec, index);
    let indices = cache.eligible_indices@;
    let owed = owed_for_inactivity(s, cache.previous_epoch_participation@[1], spec);
    law_each_is_given_what_it_is_owed(three, indices, owed);
    let j = choose|j: int| 0 <= j < indices.len() && indices[j] == index;
    assert(can_be_given(three, indices[j], owed));
}

/// A validator that is not eligible is owed nothing.
pub proof fn law_ineligible_are_owed_nothing(
    s: StateModel,
    cache: ParticipationCache,
    base_rewards: BaseRewards,
    spec: ChainSpec,
    index: usize,
)
    requires
        epoch_deltas(s, cache, base_rewards, spec) is Ok,
        !cache.eligible_indices@.contains(index),
        index < s.validators.len(),
    ensures
        epoch_deltas(s, cache, base_rewards, spec)->Ok_0[index as int] == no_delta(),
{
    reveal_with_fuel(with_deltas_of_flags, 4);
    let none = Seq::new(s.validators.len(), |i: int| no_delta());
    let one = with_deltas_of_flags(none, s, 1, cache, base_rewards, spec).0;
    let two = with_deltas_of_flags(none, s, 2, cache, base_rewards, spec).0;
    let three = with_deltas_of_flags(none, s, 3, cache, base_rewards, spec).0;
    let indices = cache.eligible_indices@;
    lemma_absent_is_unchanged(none, indices, epoch_flag(s, 0, cache, base_rewards, spec), index);
    lemma_absent_is_unchanged(one, indices, epoch_flag(s, 1, cache, base_rewards, spec), index);
    lemma_absent_is_unchanged(two, indices, epoch_flag(s, 2, cache, base_rewards, spec), index);
    let owed = owed_for_inactivity(s, cache.previous_epoch_participation@[1], spec);
    lemma_absent_is_unchanged(three, indices, owed, index);
}

/// Processing rewards and penalties changes nothing but balances, and not those of validators
/// that are not eligible.
pub proof fn law_ineligible_balances_stay(
    s: StateModel,
    cache: ParticipationCache,
    base_rewards: BaseRewards,
    spec: ChainSpec,
    after: StateModel,
    r: Result<(), EpochProcessingError>,
)
    requires
        rewards_and_penalties_processed(s, cache, base_rewards, spec, after, r),
    ensures
        after == (StateModel { balances: after.balances, ..s }),
        after.balances.len() == s.balances.len(),
        forall|i: usize|
            i < s.balances.len() && !cache.eligible_indices@.contains(i)
                ==> #[trigger] after.balances[i as int] == s.balances[i as int],
{
    if s.current_epoch != s.genesis_epoch && epoch_deltas(s, cache, base_rewards, spec) is Ok {
        let deltas = epoch_deltas(s, cache, base_rewards, spec)->Ok_0;
        let step = delta_step(s.balances, deltas, spec);
        let k = choose|k: int|
            #[trigger] stops_after(s.validators.len(), step, k) && after.balances == settled_up_to(
                s.balances,
                step,
                k,
            );
        assert forall|i: usize|
            i < s.balances.len() && !cache.eligible_indices@.contains(
                i,
            ) implies #[trigger] after.balances[i as int] == s.balances[i as int] by {
            if i < k {
                law_ineligible_are_owed_nothing(s, cache, base_rewards, spec, i);
                assert(0u64 * spec.seconds_per_slot == 0) by (nonlinear_arith);
                assert(burned(0, spec.seconds_per_slot) == 0);
                assert(step(i as int) == Ok::<u64, EpochProcessingError>(s.balances[i as int]));
            }
        }
    }
}

/// Whether validator `i` has a balance that the reward in `delta`, less the burn, does not
/// overflow.
pub open spec fn has_room(balances: Seq<u64>, delta: Delta, spec: ChainSpec, i: int) -> bool {
    &&& i < balances.len()
    &&& balances[i] + burned(wrap_u64(delta.rewards as int), spec.seconds_per_slot) <= u64::MAX
}

/// Applying the deltas of an epoch errs on overflow above and never on overflow below: it
/// succeeds exactly where each validator has a balance with room for its reward. Penalties
/// have no say in it.
pub proof fn law_only_overflow_above_halts_the_settlement(
    s: StateModel,
    cache: ParticipationCache,
    base_rewards: BaseRewards,
    spec: ChainSpec,
    after: StateModel,
    r: Result<(), EpochProcessingError>,
)
    requires
        rewards_and_penalties_processed(s, cache, base_rewards, spec, after, r),
        s.current_epoch != s.genesis_epoch,
        epoch_deltas(s, cache, base_rewards, spec) is Ok,
    ensures
        ({
            let deltas = epoch_deltas(s, cache, base_rewards, spec)->Ok_0;
            r is Ok <==> forall|i: int|
                0 <= i < s.validators.len() ==> #[trigger] has_room(
                    s.balances,
                    deltas[i],
                    spec,
                    i,
                )
        }),
{
    let deltas = epoch_deltas(s, cache, base_rewards, spec)->Ok_0;
    let step = delta_step(s.balances, deltas, spec);
    law_settlement_succeeds(s.balances, s.validators.len(), step, after.balances, r);
    assert(forall|i: int|
        0 <= i < s.validators.len() ==> ((#[trigger] step(i)) is Ok <==> has_room(
            s.balances,
            deltas[i],
            spec,
            i,
        )));
    if r is Ok {
        assert forall|i: int| 0 <= i < s.validators.len() implies #[trigger] has_room(
            s.balances,
            deltas[i],
            spec,
            i,
        ) by {
            assert(step(i) is Ok);
        }
    }
}

/// Whether all that rewards and penalties need to know of an epoch is known: who took part,
/// who is eligible, and for each eligible validator its registry entry, its inactivity score
/// and its base reward, which fits `u64`.
pub open spec fn is_known(s: StateModel, cache: ParticipationCache, base_rewards: BaseRewards) -> bool {
    &&& s.fork_name != ForkName::Base
    &&& s.finalized_epoch <= s.previous_epoch()
    &&& cache.previous_epoch == s.previous_epoch()
    &&& cache.previous_epoch_participation@.len() >= PARTICIPATION_FLAG_WEIGHTS@.len()
    &&& forall|f: int|
        0 <= f < PARTICIPATION_FLAG_WEIGHTS@.len() ==> (
        #[trigger] cache.previous_epoch_participation@[f]).total_balance is Ok
    &&& forall|f: int, j: int|
        #![trigger cache.previous_epoch_participation@[f], cache.eligible_indices@[j]]
        0 <= f < PARTICIPATION_FLAG_WEIGHTS@.len() && 0 <= j < cache.eligible_indices@.len()
            ==> cache.previous_epoch_participation@[f].has(cache.eligible_indices@[j]) is Ok
    &&& cache.eligible_indices@.no_duplicates()
    &&& forall|j: int|
        #![trigger cache.eligible_indices@[j]]
        0 <= j < cache.eligible_indices@.len() ==> {
            let index = cache.eligible_indices@[j];
            &&& index < s.validators.len()
            &&& index < s.inactivity_scores.len()
            &&& base_rewards.base_reward(index) is Ok
            &&& base_rewards.base_reward(index)->Ok_0 <= u64::MAX
        }
    &&& base_rewards.per_increment is Ok
}

/// Whether no divisor is zero, and no balance comes to more than 2^56 increments.
pub open spec fn is_measurable(cache: ParticipationCache, fork: ForkName, spec: ChainSpec) -> bool {
    let increment = spec.effective_balance_increment;
    &&& increment > 0
    &&& spec.inactivity_score_bias > 0
    &&& spec.inactivity_quotient(fork) > 0
    &&& 0 < cache.current_epoch_total_active_balance as int / increment as int
        <= 0x100_0000_0000_0000
    &&& forall|f: int|
        0 <= f < PARTICIPATION_FLAG_WEIGHTS@.len() ==> (
        #[trigger] cache.previous_epoch_participation@[f]).total_balance->Ok_0 as int
            / increment as int
            <= 0x100_0000_0000_0000
}

/// Whether no delta holds more than `rewards` and `penalties`.
spec fn within(deltas: Seq<Delta>, rewards: int, penalties: int) -> bool {
    forall|i: int|
        0 <= i < deltas.len() ==> (#[trigger] deltas[i]).rewards <= rewards && deltas[i].penalties
            <= penalties
}

/// An accumulation over distinct validators succeeds where what is owed is bounded so that
/// all sums fit.
proof fn lemma_accumulated_within(
    deltas: Seq<Delta>,
    indices: Seq<usize>,
    owed: spec_fn(usize) -> Result<Delta, EpochProcessingError>,
    rewards: int,
    penalties: int,
    more_rewards: int,
    more_penalties: int,
)
    requires
        within(deltas, rewards, penalties),
        indices.no_duplicates(),
        forall|j: int|
            #![trigger indices[j]]
            0 <= j < indices.len() ==> {
                &&& indices[j] < deltas.len()
                &&& owed(indices[j]) is Ok
                &&& owed(indices[j])->Ok_0.rewards <= more_rewards
                &&& owed(indices[j])->Ok_0.penalties <= more_penalties
            },
        0 <= more_rewards,
        0 <= more_penalties,
        rewards + more_rewards <= u128::MAX,
        penalties + more_penalties <= u128::MAX,
    ensures
        accumulated(deltas, indices, owed).1 is Ok,
        accumulated(deltas, indices, owed).0.len() == deltas.len(),
        within(
            accumulated(deltas, indices, owed).0,
            rewards + more_rewards,
            penalties + more_penalties,
        ),
{
    law_each_is_given_what_it_is_owed(deltas, indices, owed);
    assert forall|j: int| 0 <= j < indices.len() implies can_be_given(
        deltas,
        #[trigger] indices[j],
        owed,
    ) by {
        let delta = deltas[indices[j] as int];
        assert(delta.rewards <= rewards && delta.penalties <= penalties);
    }
    let after = accumulated(deltas, indices, owed).0;
    assert forall|i: int| 0 <= i < after.len() implies (#[trigger] after[i]).rewards <= rewards
        + more_rewards && after[i].penalties <= penalties + more_penalties by {
        assert(deltas[i].rewards <= rewards && deltas[i].penalties <= penalties);
        if exists|j: int| 0 <= j < indices.len() && indices[j] == i {
            let j = choose|j: int| 0 <= j < indices.len() && indices[j] == i;
            assert(can_be_given(deltas, indices[j], owed));
        }
    }
}

/// What one flag can owe a validator: rewards below 2^125 and penalties below 2^63.
proof fn lemma_flag_amounts(
    base_reward: u128,
    weight: u64,
    participating_increments: u128,
    active_increments: u128,
)
    requires
        base_reward <= u64::MAX,
        weight <= 26,
        participating_increments <= 0x100_0000_0000_0000,
        0 < active_increments <= 0x100_0000_0000_0000,
    ensures
        flag_reward(base_reward, weight, participating_increments, active_increments) is Ok,
        flag_reward(
            base_reward,
            weight,
            participating_increments,
            active_increments,
        )->Ok_0 < 0x2000_0000_0000_0000_0000_0000_0000_0000,
        flag_penalty(base_reward, weight) is Ok,
        flag_penalty(base_reward, weight)->Ok_0 < 0x8000_0000_0000_0000,
{
    let weighted = base_reward * weight;
    assert(0 <= weighted <= u64::MAX * 26) by (nonlinear_arith)
        requires
            weighted == base_reward * weight,
            0 <= base_reward <= u64::MAX,
            0 <= weight <= 26,
    ;
    let numerator = weighted * participating_increments;
    assert(0 <= numerator <= u64::MAX * 26 * 0x100_0000_0000_0000) by (nonlinear_arith)
        requires
            numerator == weighted * participating_increments,
            0 <= weighted <= u64::MAX * 26,
            0 <= participating_increments <= 0x100_0000_0000_0000,
    ;
    let denominator = active_increments * WEIGHT_DENOMINATOR;
    assert(0 <= numerator / denominator <= numerator) by (nonlinear_arith)
        requires
            numerator >= 0,
            denominator > 0,
    ;
}

/// One flag can be accounted for.
proof fn lemma_flag_deltas_within(
    deltas: Seq<Delta>,
    s: StateModel,
    flag_index: usize,
    cache: ParticipationCache,
    base_rewards: BaseRewards,
    spec: ChainSpec,
    rewards: int,
    penalties: int,
)
    requires
        is_known(s, cache, base_rewards),
        is_measurable(cache, s.fork_name, spec),
        flag_index < PARTICIPATION_FLAG_WEIGHTS@.len(),
        deltas.len() == s.validators.len(),
        within(deltas, rewards, penalties),
        rewards + 0x2000_0000_0000_0000_0000_0000_0000_0000 <= u128::MAX,
        penalties + 0x8000_0000_0000_0000 <= u128::MAX,
    ensures
        ({
            let (after, r) = with_flag_deltas(
                deltas,
                s,
                flag_index,
                cache.current_epoch_total_active_balance,
                cache,
                base_rewards,
                spec,
            );
            &&& r is Ok
            &&& after.len() == deltas.len()
            &&& within(
                after,
                rewards + 0x2000_0000_0000_0000_0000_0000_0000_0000,
                penalties + 0x8000_0000_0000_0000,
            )
        }),
{
    let weight = flag_weight(flag_index)->Ok_0;
    let increment = spec.effective_balance_increment as int;
    let participating = cache.previous_epoch_participation@[flag_index as int];
    let total_balance = participating.total_balance->Ok_0;
    let participating_increments = (total_balance as int / increment) as u128;
    let active_increments = (cache.current_epoch_total_active_balance as int / increment) as u128;
    let owed = owed_for_flag(
        s,
        flag_index,
        weight,
        participating,
        participating_increments,
        active_increments,
        base_rewards,
        spec,
    );
    let indices = cache.eligible_indices@;
    assert(0 <= total_balance as int / increment) by (nonlinear_arith)
        requires
            increment > 0,
            total_balance >= 0,
    ;
    assert forall|j: int|
        #![trigger indices[j]]
        0 <= j < indices.len() implies {
        &&& indices[j] < deltas.len()
        &&& owed(indices[j]) is Ok
        &&& owed(indices[j])->Ok_0.rewards <= 0x2000_0000_0000_0000_0000_0000_0000_0000
        &&& owed(indices[j])->Ok_0.penalties <= 0x8000_0000_0000_0000
    } by {
        assert(participating.has(indices[j]) is Ok);
        lemma_flag_amounts(
            base_rewards.base_reward(indices[j])->Ok_0,
            weight,
            participating_increments,
            active_increments,
        );
    }
    lemma_accumulated_within(
        deltas,
        indices,
        owed,
        rewards,
        penalties,
        0x2000_0000_0000_0000_0000_0000_0000_0000,
        0x8000_0000_0000_0000,
    );
}

/// Inactivity can be accounted for on top of the flags.
proof fn lemma_inactivity_deltas_within(
    deltas: Seq<Delta>,
    s: StateModel,
    cache: ParticipationCache,
    base_rewards: BaseRewards,
    spec: ChainSpec,
    rewards: int,
    penalties: int,
)
    requires
        is_known(s, cache, base_rewards),
        is_measurable(cache, s.fork_name, spec),
        deltas.len() == s.validators.len(),
        within(deltas, rewards, penalties),
        rewards <= u128::MAX,
        penalties + u64::MAX * u64::MAX <= u128::MAX,
    ensures
        with_inactivity_deltas(deltas, s, cache, spec).1 is Ok,
        with_inactivity_deltas(deltas, s, cache, spec).0.len() == deltas.len(),
{
    let on_target = cache.previous_epoch_participation@[1];
    let owed = owed_for_inactivity(s, on_target, spec);
    let indices = cache.eligible_indices@;
    assert forall|j: int|
        #![trigger indices[j]]
        0 <= j < indices.len() implies {
        &&& indices[j] < deltas.len()
        &&& owed(indices[j]) is Ok
        &&& owed(indices[j])->Ok_0.rewards <= 0
        &&& owed(indices[j])->Ok_0.penalties <= u64::MAX * u64::MAX
    } by {
        let index = indices[j] as int;
        assert(on_target.has(indices[j]) is Ok);
        law_inactivity_penalty_does_not_halt(
            s.validators[index].effective_balance,
            s.inactivity_scores[index],
            spec.inactivity_score_bias,
            spec.inactivity_quotient(s.fork_name),
        );
        lemma_u64_product_fits(s.validators[index].effective_balance, s.inactivity_scores[index]);
    }
    lemma_accumulated_within(deltas, indices, owed, rewards, penalties, 0, u64::MAX * u64::MAX);
}

/// What an epoch owes can be said of every epoch that is known and measurable, at every
/// magnitude of effective balances, inactivity scores and base rewards.
pub proof fn law_deltas_do_not_halt(
    s: StateModel,
    cache: ParticipationCache,
    base_rewards: BaseRewards,
    spec: ChainSpec,
)
    requires
        is_known(s, cache, base_rewards),
        is_measurable(cache, s.fork_name, spec),
    ensures
        epoch_deltas(s, cache, base_rewards, spec) is Ok,
        epoch_deltas(s, cache, base_rewards, spec)->Ok_0.len() == s.validators.len(),
{
    reveal_with_fuel(with_deltas_of_flags, 4);
    let none = Seq::new(s.validators.len(), |i: int| no_delta());
    let r: int = 0x2000_0000_0000_0000_0000_0000_0000_0000;
    let p: int = 0x8000_0000_0000_0000;
    lemma_flag_deltas_within(none, s, 0, cache, base_rewards, spec, 0, 0);
    let one = with_deltas_of_flags(none, s, 1, cache, base_rewards, spec).0;
    lemma_flag_deltas_within(one, s, 1, cache, base_rewards, spec, r, p);
    let two = with_deltas_of_flags(none, s, 2, cache, base_rewards, spec).0;
    lemma_flag_deltas_within(two, s, 2, cache, base_rewards, spec, 2 * r, 2 * p);
    let three = with_deltas_of_flags(none, s, 3, cache, base_rewards, spec).0;
    lemma_inactivity_deltas_within(three, s, cache, base_rewards, spec, 3 * r, 3 * p);
}

/// At no magnitude of effective balances, inactivity scores and base rewards do rewards and
/// penalties halt an epoch that is known and measurable: where each validator has a balance
/// with room for a reward, all of them are settled.
pub proof fn law_rewards_and_penalties_do_not_halt(
    s: StateModel,
    cache: ParticipationCache,
    base_rewards: BaseRewards,
    spec: ChainSpec,
    after: StateModel,
    r: Result<(), EpochProcessingError>,
)
    requires
        rewards_and_penalties_processed(s, cache, base_rewards, spec, after, r),
        is_known(s, cache, base_rewards),
        is_measurable(cache, s.fork_name, spec),
        s.balances.len() >= s.validators.len(),
        forall|i: int|
            0 <= i < s.balances.len() ==> #[trigger] s.balances[i] <= u64::MAX
                - 0x1000_0000_0000_0000,
    ensures
        r is Ok,
{
    if s.current_epoch != s.genesis_epoch {
        law_deltas_do_not_halt(s, cache, base_rewards, spec);
        let deltas = epoch_deltas(s, cache, base_rewards, spec)->Ok_0;
        let step = delta_step(s.balances, deltas, spec);
        assert forall|i: int| 0 <= i < s.validators.len() implies (#[trigger] step(i)) is Ok by {
            law_burned_reward_is_bounded(
                wrap_u64(deltas[i].rewards as int),
                spec.seconds_per_slot,
            );
            assert(s.balances[i] <= u64::MAX - 0x1000_0000_0000_0000);
        }
        law_settlement_succeeds(s.balances, s.validators.len(), step, after.balances, r);
    }
}

} // verus!
