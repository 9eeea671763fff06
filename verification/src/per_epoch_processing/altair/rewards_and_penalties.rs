//! Rewards and penalties for participation.
use crate::arith::{
    fit_u64, lemma_product_nonneg, lemma_u64_product_fits, monus, quotient_u128, truncate, wide_div,
    wide_mul, wrap_u64, ArithError,
};
use crate::beacon_state::{BeaconState, BeaconStateError, StateModel, Validator};
use crate::chain_spec::{
    ChainSpec, PARTICIPATION_FLAG_WEIGHTS, TIMELY_HEAD_FLAG_INDEX, TIMELY_TARGET_FLAG_INDEX,
    WEIGHT_DENOMINATOR,
};
use crate::common::balances::{decrease_balance, increase_balance};
use crate::common::pulse::burned;
use crate::per_epoch_processing::altair::base_rewards::BaseRewards;
use crate::per_epoch_processing::altair::participation_cache::{
    ParticipationCache, UnslashedParticipatingIndices,
};
use crate::per_epoch_processing::delta::{
    accumulated, given, lemma_accumulated_next, no_delta, Delta,
};
use crate::per_epoch_processing::errors::{
    from_arith, from_cache, from_state, EpochProcessingError,
};
use crate::per_epoch_processing::settlement::{settled, settled_up_to, stops_after};
use vstd::prelude::*;

verus! {

/// The weight of a participation flag.
pub open spec fn flag_weight(flag_index: usize) -> Result<u64, EpochProcessingError> {
    if flag_index < PARTICIPATION_FLAG_WEIGHTS@.len() {
        Ok(PARTICIPATION_FLAG_WEIGHTS@[flag_index as int])
    } else {
        Err(EpochProcessingError::InvalidFlagIndex(flag_index))
    }
}

/// The reward of a validator that earned a flag: its base reward, scaled by the weight of
/// the flag and by the share of the active balance that earned it.
pub open spec fn flag_reward(
    base_reward: u128,
    weight: u64,
    participating_increments: u128,
    active_increments: u128,
) -> Result<u128, ArithError> {
    let weighted = base_reward * weight;
    let numerator = weighted * participating_increments;
    let denominator = active_increments * WEIGHT_DENOMINATOR;
    if weighted > u128::MAX || numerator > u128::MAX || denominator > u128::MAX {
        Err(ArithError::Overflow)
    } else if denominator == 0 {
        Err(ArithError::DivisionByZero)
    } else {
        Ok((numerator / denominator) as u128)
    }
}

/// The penalty of a validator that did not earn a flag.
pub open spec fn flag_penalty(base_reward: u128, weight: u64) -> Result<u128, ArithError> {
    if base_reward * weight > u128::MAX {
        Err(ArithError::Overflow)
    } else {
        Ok((base_reward * weight / WEIGHT_DENOMINATOR as int) as u128)
    }
}

/// What an epoch owes validator `index` for one flag. Validators that earned the flag are
/// rewarded, but not in an inactivity leak. Those that did not are penalized, but not for
/// the head vote.
pub open spec fn flag_delta(
    s: StateModel,
    flag_index: usize,
    weight: u64,
    participating: UnslashedParticipatingIndices,
    participating_increments: u128,
    active_increments: u128,
    base_rewards: BaseRewards,
    spec: ChainSpec,
    index: usize,
) -> Result<Delta, EpochProcessingError> {
    match (base_rewards.base_reward(index), participating.has(index)) {
        (Err(e), _) => Err(EpochProcessingError::BeaconStateError(e)),
        (Ok(_), Err(e)) => Err(EpochProcessingError::ParticipationCache(e)),
        (Ok(base_reward), Ok(true)) => match s.in_inactivity_leak(s.previous_epoch(), spec) {
            Err(e) => Err(EpochProcessingError::BeaconStateError(e)),
            Ok(true) => Ok(no_delta()),
            Ok(false) => match flag_reward(
                base_reward,
                weight,
                participating_increments,
                active_increments,
            ) {
                Err(e) => Err(EpochProcessingError::ArithError(e)),
                Ok(rewards) => Ok(Delta { rewards, penalties: 0 }),
            },
        },
        (Ok(base_reward), Ok(false)) => if flag_index != TIMELY_HEAD_FLAG_INDEX {
            match flag_penalty(base_reward, weight) {
                Err(e) => Err(EpochProcessingError::ArithError(e)),
                Ok(penalties) => Ok(Delta { rewards: 0, penalties }),
            }
        } else {
            Ok(no_delta())
        },
    }
}

/// What an epoch owes each validator for one flag.
pub open spec fn owed_for_flag(
    s: StateModel,
    flag_index: usize,
    weight: u64,
    participating: UnslashedParticipatingIndices,
    participating_increments: u128,
    active_increments: u128,
    base_rewards: BaseRewards,
    spec: ChainSpec,
) -> spec_fn(usize) -> Result<Delta, EpochProcessingError> {
    |index: usize|
        flag_delta(
            s,
            flag_index,
            weight,
            participating,
            participating_increments,
            active_increments,
            base_rewards,
            spec,
            index,
        )
}

/// The deltas after what is owed for one flag has been added, and how that went.
pub open spec fn with_flag_deltas(
    deltas: Seq<Delta>,
    s: StateModel,
    flag_index: usize,
    total_active_balance: u128,
    cache: ParticipationCache,
    base_rewards: BaseRewards,
    spec: ChainSpec,
) -> (Seq<Delta>, Result<(), EpochProcessingError>) {
    let increment = spec.effective_balance_increment as u128;
    match (cache.participating(flag_index, s.previous_epoch()), flag_weight(flag_index)) {
        (Err(e), _) => (deltas, Err(e)),
        (Ok(_), Err(e)) => (deltas, Err(e)),
        (Ok(participating), Ok(weight)) => match participating.total_balance {
            Err(e) => (deltas, Err(EpochProcessingError::ParticipationCache(e))),
            Ok(total_balance) => match (
                quotient_u128(total_balance, increment),
                quotient_u128(total_active_balance, increment),
                base_rewards.per_increment,
            ) {
                (Ok(participating_increments), Ok(active_increments), Ok(_)) => accumulated(
                    deltas,
                    cache.eligible_indices@,
                    owed_for_flag(
                        s,
                        flag_index,
                        weight,
                        participating,
                        participating_increments,
                        active_increments,
                        base_rewards,
                        spec,
                    ),
                ),
                (Err(e), _, _) => (deltas, Err(EpochProcessingError::ArithError(e))),
                (_, Err(e), _) => (deltas, Err(EpochProcessingError::ArithError(e))),
                (_, _, Err(e)) => (deltas, Err(EpochProcessingError::ArithError(e))),
            },
        },
    }
}

/// Get the weight for a `flag_index` from the list of all weights.
pub fn get_flag_weight(flag_index: usize) -> (r: Result<u64, EpochProcessingError>)
    ensures
        r == flag_weight(flag_index),
{
    if flag_index < PARTICIPATION_FLAG_WEIGHTS.len() {
        Ok(PARTICIPATION_FLAG_WEIGHTS[flag_index])
    } else {
        Err(EpochProcessingError::InvalidFlagIndex(flag_index))
    }
}

/// Adds `owed` to the delta of validator `index`.
fn give(deltas: &mut [Delta], index: usize, owed: Delta) -> (r: Result<(), EpochProcessingError>)
    ensures
        (final(deltas)@, r) == given(old(deltas)@, index, Ok(owed)),
{
    if index >= deltas.len() {
        return Err(EpochProcessingError::DeltaOutOfBounds(index));
    }
    let mut delta: Delta = deltas[index];
    let r = delta.combine(owed);
    deltas[index] = delta;
    from_arith(r)
}

/// The reward of a validator that earned a flag.
fn reward_for_flag(
    base_reward: u128,
    weight: u64,
    participating_increments: u128,
    active_increments: u128,
) -> (r: Result<u128, ArithError>)
    ensures
        r == flag_reward(base_reward, weight, participating_increments, active_increments),
{
    proof {
        lemma_product_nonneg(base_reward, weight as u128);
    }
    let weighted: u128 = wide_mul(base_reward, weight as u128)?;
    proof {
        lemma_product_nonneg(weighted, participating_increments);
    }
    let numerator: u128 = wide_mul(weighted, participating_increments)?;
    let denominator: u128 = wide_mul(active_increments, WEIGHT_DENOMINATOR as u128)?;
    wide_div(numerator, denominator)
}

/// The penalty of a validator that did not earn a flag.
fn penalty_for_flag(base_reward: u128, weight: u64) -> (r: Result<u128, ArithError>)
    ensures
        r == flag_penalty(base_reward, weight),
{
    proof {
        lemma_product_nonneg(base_reward, weight as u128);
    }
    let weighted: u128 = wide_mul(base_reward, weight as u128)?;
    wide_div(weighted, WEIGHT_DENOMINATOR as u128)
}

/// What an epoch owes validator `index` for one flag.
fn delta_for_flag(
    state: &BeaconState,
    flag_index: usize,
    weight: u64,
    participating: &UnslashedParticipatingIndices,
    participating_increments: u128,
    active_increments: u128,
    base_rewards: &BaseRewards,
    spec: &ChainSpec,
    index: usize,
) -> (r: Result<Delta, EpochProcessingError>)
    ensures
        r == flag_delta(
            state@,
            flag_index,
            weight,
            *participating,
            participating_increments,
            active_increments,
            *base_rewards,
            *spec,
            index,
        ),
{
    let base_reward: u128 = from_state(base_rewards.get_base_reward(index))?;
    let mut delta: Delta = Delta::default();
    if from_cache(participating.contains(index))? {
        if !from_state(state.is_in_inactivity_leak(state.previous_epoch(), spec))? {
            let reward: u128 = from_arith(
                reward_for_flag(base_reward, weight, participating_increments, active_increments),
            )?;
            from_arith(delta.reward(reward))?;
        }
    } else if flag_index != TIMELY_HEAD_FLAG_INDEX {
        let penalty: u128 = from_arith(penalty_for_flag(base_reward, weight))?;
        from_arith(delta.penalize(penalty))?;
    }
    Ok(delta)
}

/// Adds the deltas for a given flag index by scanning through the participation flags.
pub fn get_flag_index_deltas(
    deltas: &mut [Delta],
    state: &BeaconState,
    flag_index: usize,
    total_active_balance: u128,
    participation_cache: &ParticipationCache,
    base_rewards: &BaseRewards,
    spec: &ChainSpec,
) -> (r: Result<(), EpochProcessingError>)
    ensures
        (final(deltas)@, r) == with_flag_deltas(
            old(deltas)@,
            state@,
            flag_index,
            total_active_balance,
            *participation_cache,
            *base_rewards,
            *spec,
        ),
        final(deltas)@.len() == old(deltas)@.len(),
{
    let increment: u128 = spec.effective_balance_increment as u128;
    let participating = participation_cache.get_unslashed_participating_indices(
        flag_index,
        state.previous_epoch(),
    )?;
    let weight: u64 = get_flag_weight(flag_index)?;
    let participating_balance: u128 = from_cache(participating.total_balance)?;
    let participating_increments: u128 = from_arith(wide_div(participating_balance, increment))?;
    let active_increments: u128 = from_arith(wide_div(total_active_balance, increment))?;
    from_arith(base_rewards.per_increment)?;

    let eligible: &Vec<usize> = &participation_cache.eligible_indices;
    let ghost before = deltas@;
    let ghost owed = owed_for_flag(
        state@,
        flag_index,
        weight,
        *participating,
        participating_increments,
        active_increments,
        *base_rewards,
        *spec,
    );
    assert(eligible@.take(0) =~= Seq::<usize>::empty());
    #[verifier::loop_isolation(false)]
    for i in 0..eligible.len()
        invariant
            deltas@.len() == before.len(),
            accumulated(before, eligible@.take(i as int), owed) == (
                deltas@,
                Ok::<(), EpochProcessingError>(()),
            ),
    {
        let index: usize = eligible[i];
        proof {
            lemma_accumulated_next(before, eligible@, i as int, owed);
        }
        let delta: Delta = delta_for_flag(
            state,
            flag_index,
            weight,
            participating,
            participating_increments,
            active_increments,
            base_rewards,
            spec,
            index,
        )?;
        give(deltas, index, delta)?;
    }
    assert(eligible@.take(eligible@.len() as int) =~= eligible@);
    Ok(())
}

/// The inactivity penalty of one validator for one epoch, which no magnitude of its inputs
/// keeps from being computed.
pub open spec fn inactivity_penalty_of(
    effective_balance: u64,
    inactivity_score: u64,
    inactivity_score_bias: u64,
    inactivity_penalty_quotient: u64,
) -> Result<u128, ArithError> {
    if inactivity_score_bias == 0 || inactivity_penalty_quotient == 0 {
        Err(ArithError::DivisionByZero)
    } else {
        Ok(
            (effective_balance * inactivity_score / (inactivity_score_bias
                * inactivity_penalty_quotient)) as u128,
        )
    }
}

/// What an epoch owes validator `index` for inactivity: a penalty, unless it earned the
/// target flag.
pub open spec fn inactivity_delta(
    s: StateModel,
    on_target: UnslashedParticipatingIndices,
    spec: ChainSpec,
    index: usize,
) -> Result<Delta, EpochProcessingError> {
    match on_target.has(index) {
        Err(e) => Err(EpochProcessingError::ParticipationCache(e)),
        Ok(true) => Ok(no_delta()),
        Ok(false) => if index >= s.validators.len() {
            Err(EpochProcessingError::BeaconStateError(BeaconStateError::UnknownValidator(index)))
        } else {
            match s.inactivity_score(index) {
                Err(e) => Err(EpochProcessingError::BeaconStateError(e)),
                Ok(score) => match inactivity_penalty_of(
                    s.validators[index as int].effective_balance,
                    score,
                    spec.inactivity_score_bias,
                    spec.inactivity_quotient(s.fork_name),
                ) {
                    Err(e) => Err(EpochProcessingError::ArithError(e)),
                    Ok(penalties) => Ok(Delta { rewards: 0, penalties }),
                },
            }
        },
    }
}

/// What an epoch owes each validator for inactivity.
pub open spec fn owed_for_inactivity(
    s: StateModel,
    on_target: UnslashedParticipatingIndices,
    spec: ChainSpec,
) -> spec_fn(usize) -> Result<Delta, EpochProcessingError> {
    |index: usize| inactivity_delta(s, on_target, spec, index)
}

/// The deltas after the inactivity penalties have been added, and how that went.
pub open spec fn with_inactivity_deltas(
    deltas: Seq<Delta>,
    s: StateModel,
    cache: ParticipationCache,
    spec: ChainSpec,
) -> (Seq<Delta>, Result<(), EpochProcessingError>) {
    match cache.participating(TIMELY_TARGET_FLAG_INDEX, s.previous_epoch()) {
        Err(e) => (deltas, Err(e)),
        Ok(on_target) => accumulated(
            deltas,
            cache.eligible_indices@,
            owed_for_inactivity(s, on_target, spec),
        ),
    }
}

/// The inactivity penalty deducted from a single validator for one epoch.
///
/// Computed in `u128`: at PulseChain's maximum effective balance the product of balance and
/// score overflows `u64` once the score passes some 576, which a sustained inactivity leak
/// reaches. An error there would halt epoch processing.
pub fn inactivity_penalty(
    effective_balance: u64,
    inactivity_score: u64,
    inactivity_score_bias: u64,
    inactivity_penalty_quotient: u64,
) -> (r: Result<u128, ArithError>)
    ensures
        r == inactivity_penalty_of(
            effective_balance,
            inactivity_score,
            inactivity_score_bias,
            inactivity_penalty_quotient,
        ),
{
    proof {
        lemma_u64_product_fits(effective_balance, inactivity_score);
        lemma_u64_product_fits(inactivity_score_bias, inactivity_penalty_quotient);
        assert(inactivity_score_bias * inactivity_penalty_quotient == 0 <==> inactivity_score_bias
            == 0 || inactivity_penalty_quotient == 0) by (nonlinear_arith);
    }
    let penalty_numerator: u128 = wide_mul(effective_balance as u128, inactivity_score as u128)?;
    let penalty_denominator: u128 = wide_mul(
        inactivity_score_bias as u128,
        inactivity_penalty_quotient as u128,
    )?;
    wide_div(penalty_numerator, penalty_denominator)
}

/// What an epoch owes validator `index` for inactivity.
fn delta_for_inactivity(
    state: &BeaconState,
    on_target: &UnslashedParticipatingIndices,
    spec: &ChainSpec,
    index: usize,
) -> (r: Result<Delta, EpochProcessingError>)
    ensures
        r == inactivity_delta(state@, *on_target, *spec, index),
{
    let mut delta: Delta = Delta::default();
    if !from_cache(on_target.contains(index))? {
        let validator: Validator = from_state(state.get_validator(index))?;
        let score: u64 = from_state(state.get_inactivity_score(index))?;
        let penalty: u128 = from_arith(
            inactivity_penalty(
                validator.effective_balance,
                score,
                spec.inactivity_score_bias,
                spec.inactivity_penalty_quotient_for_state(state.fork_name),
            ),
        )?;
        from_arith(delta.penalize(penalty))?;
    }
    Ok(delta)
}

/// Adds the inactivity penalties of the validators that did not earn the target flag.
pub fn get_inactivity_penalty_deltas(
    deltas: &mut [Delta],
    state: &BeaconState,
    participation_cache: &ParticipationCache,
    spec: &ChainSpec,
) -> (r: Result<(), EpochProcessingError>)
    ensures
        (final(deltas)@, r) == with_inactivity_deltas(
            old(deltas)@,
            state@,
            *participation_cache,
            *spec,
        ),
        final(deltas)@.len() == old(deltas)@.len(),
{
    let on_target = participation_cache.get_unslashed_participating_indices(
        TIMELY_TARGET_FLAG_INDEX,
        state.previous_epoch(),
    )?;

    let eligible: &Vec<usize> = &participation_cache.eligible_indices;
    let ghost before = deltas@;
    let ghost owed = owed_for_inactivity(state@, *on_target, *spec);
    assert(eligible@.take(0) =~= Seq::<usize>::empty());
    #[verifier::loop_isolation(false)]
    for i in 0..eligible.len()
        invariant
            deltas@.len() == before.len(),
            accumulated(before, eligible@.take(i as int), owed) == (
                deltas@,
                Ok::<(), EpochProcessingError>(()),
            ),
    {
        let index: usize = eligible[i];
        proof {
            lemma_accumulated_next(before, eligible@, i as int, owed);
        }
        let delta: Delta = delta_for_inactivity(state, on_target, spec, index)?;
        give(deltas, index, delta)?;
    }
    assert(eligible@.take(eligible@.len() as int) =~= eligible@);
    Ok(())
}

/// The deltas after what is owed for the first `flags` flags has been added, and how that
/// went.
pub open spec fn with_deltas_of_flags(
    deltas: Seq<Delta>,
    s: StateModel,
    flags: nat,
    cache: ParticipationCache,
    base_rewards: BaseRewards,
    spec: ChainSpec,
) -> (Seq<Delta>, Result<(), EpochProcessingError>)
    decreases flags,
{
    if flags == 0 {
        (deltas, Ok(()))
    } else {
        let before = with_deltas_of_flags(
            deltas,
            s,
            (flags - 1) as nat,
            cache,
            base_rewards,
            spec,
        );
        if before.1 is Err {
            before
        } else {
            with_flag_deltas(
                before.0,
                s,
                (flags - 1) as usize,
                cache.current_epoch_total_active_balance,
                cache,
                base_rewards,
                spec,
            )
        }
    }
}

/// What an epoch owes each validator in all, or why that cannot be said.
pub open spec fn epoch_deltas(
    s: StateModel,
    cache: ParticipationCache,
    base_rewards: BaseRewards,
    spec: ChainSpec,
) -> Result<Seq<Delta>, EpochProcessingError> {
    let none = Seq::new(s.validators.len(), |i: int| no_delta());
    let (for_flags, r) = with_deltas_of_flags(
        none,
        s,
        PARTICIPATION_FLAG_WEIGHTS@.len(),
        cache,
        base_rewards,
        spec,
    );
    match r {
        Err(e) => Err(e),
        Ok(_) => match with_inactivity_deltas(for_flags, s, cache, spec) {
            (_, Err(e)) => Err(e),
            (deltas, Ok(_)) => Ok(deltas),
        },
    }
}

/// What balance `i` becomes: the reward, less the burn, is credited and may not overflow; the
/// penalty is debited and stops at zero.
pub open spec fn balance_after_delta(
    balances: Seq<u64>,
    delta: Delta,
    spec: ChainSpec,
    i: int,
) -> Result<u64, EpochProcessingError> {
    if i >= balances.len() {
        Err(
            EpochProcessingError::BeaconStateError(
                BeaconStateError::BalancesOutOfBounds(i as usize),
            ),
        )
    } else {
        match fit_u64(
            balances[i] + burned(wrap_u64(delta.rewards as int), spec.seconds_per_slot),
        ) {
            Err(e) => Err(
                EpochProcessingError::BeaconStateError(BeaconStateError::ArithError(e)),
            ),
            Ok(credited) => Ok(monus(credited, wrap_u64(delta.penalties as int))),
        }
    }
}

/// How each balance is settled.
pub open spec fn delta_step(balances: Seq<u64>, deltas: Seq<Delta>, spec: ChainSpec) -> spec_fn(
    int,
) -> Result<u64, EpochProcessingError> {
    |i: int| balance_after_delta(balances, deltas[i], spec, i)
}

/// Whether `after` and `r` are what comes of processing the rewards and penalties of state
/// `s`.
pub open spec fn rewards_and_penalties_processed(
    s: StateModel,
    cache: ParticipationCache,
    base_rewards: BaseRewards,
    spec: ChainSpec,
    after: StateModel,
    r: Result<(), EpochProcessingError>,
) -> bool {
    if s.current_epoch == s.genesis_epoch {
        after == s && r is Ok
    } else {
        match epoch_deltas(s, cache, base_rewards, spec) {
            Err(e) => after == s && r == Err::<(), _>(e),
            Ok(deltas) => {
                &&& after == (StateModel { balances: after.balances, ..s })
                &&& settled(
                    s.balances,
                    s.validators.len(),
                    delta_step(s.balances, deltas, spec),
                    after.balances,
                    r,
                )
            },
        }
    }
}

/// Apply attester and proposer rewards.
///
/// Nothing is owed for the genesis epoch.
pub fn process_rewards_and_penalties(
    state: &mut BeaconState,
    participation_cache: &ParticipationCache,
    base_rewards: &BaseRewards,
    spec: &ChainSpec,
) -> (r: Result<(), EpochProcessingError>)
    ensures
        rewards_and_penalties_processed(
            old(state)@,
            *participation_cache,
            *base_rewards,
            *spec,
            final(state)@,
            r,
        ),
{
    if state.current_epoch == state.genesis_epoch {
        return Ok(());
    }
    let ghost s = state@;
    let n: usize = state.validators.len();
    let mut deltas: Vec<Delta> = Vec::new();
    for i in 0..n
        invariant
            deltas@ == Seq::new(i as nat, |j: int| no_delta()),
    {
        deltas.push(Delta::default());
        assert(deltas@ =~= Seq::new((i + 1) as nat, |j: int| no_delta()));
    }
    let ghost none = deltas@;

    proof {
        reveal_with_fuel(with_deltas_of_flags, 4);
    }
    let total_active_balance: u128 = participation_cache.current_epoch_total_active_balance;
    #[verifier::loop_isolation(false)]
    for flag_index in 0..PARTICIPATION_FLAG_WEIGHTS.len()
        invariant
            deltas@.len() == n,
            with_deltas_of_flags(
                none,
                s,
                flag_index as nat,
                *participation_cache,
                *base_rewards,
                *spec,
            ) == (deltas@, Ok::<(), EpochProcessingError>(())),
    {
        get_flag_index_deltas(
            deltas.as_mut_slice(),
            state,
            flag_index,
            total_active_balance,
            participation_cache,
            base_rewards,
            spec,
        )?;
    }
    get_inactivity_penalty_deltas(deltas.as_mut_slice(), state, participation_cache, spec)?;

    // Apply the deltas, erroring on overflow above but not on overflow below (saturating at 0
    // instead).
    let ghost step = delta_step(s.balances, deltas@, *spec);
    assert(state.balances@ =~= settled_up_to(s.balances, step, 0));
    #[verifier::loop_isolation(false)]
    for i in 0..n
        invariant
            forall|j: int| 0 <= j < i ==> (#[trigger] step(j)) is Ok,
            state@ == (StateModel { balances: settled_up_to(s.balances, step, i as int), ..s }),
    {
        let delta: Delta = deltas[i];
        proof {
            if step(i as int) is Err {
                assert(stops_after(n as nat, step, i as int));
            }
        }
        from_state(increase_balance(state, i, truncate(delta.rewards), spec, true))?;
        from_state(decrease_balance(state, i, truncate(delta.penalties)))?;
        assert(state.balances@ =~= settled_up_to(s.balances, step, i + 1));
    }
    assert(stops_after(n as nat, step, n as int));
    Ok(())
}

} // verus!
