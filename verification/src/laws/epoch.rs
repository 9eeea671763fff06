//! Settling an epoch.
use crate::arith::ArithError;
use crate::beacon_state::{BeaconStateError, StateModel};
use crate::chain_spec::ChainSpec;
use crate::per_epoch_processing::altair::base_rewards::BaseRewards;
use crate::per_epoch_processing::altair::participation_cache::ParticipationCache;
use crate::per_epoch_processing::altair::rewards_and_penalties::{
    balance_after_delta, delta_step, epoch_deltas, owed_for_flag, owed_for_inactivity,
    rewards_and_penalties_processed, with_deltas_of_flags, with_flag_deltas,
    with_inactivity_deltas,
};
use crate::per_epoch_processing::delta::{accumulated, no_delta, Delta};
use crate::per_epoch_processing::errors::{
    of_arith, of_cache, of_state, EpochProcessingError, ParticipationCacheError,
};
use crate::per_epoch_processing::settlement::{settled, settled_up_to, stops_after};
use vstd::prelude::*;

verus! {

/// An error keeps its cause on its way out of epoch processing, and a value is not touched.
pub proof fn law_errors_keep_their_cause<T>(
    arith: Result<T, ArithError>,
    state: Result<T, BeaconStateError>,
    cache: Result<T, ParticipationCacheError>,
)
    ensures
        arith is Ok ==> of_arith(arith) == Ok::<T, EpochProcessingError>(arith->Ok_0),
        arith is Err ==> of_arith(arith) == Err::<T, _>(
            EpochProcessingError::ArithError(arith->Err_0),
        ),
        state is Ok ==> of_state(state) == Ok::<T, EpochProcessingError>(state->Ok_0),
        state is Err ==> of_state(state) == Err::<T, _>(
            EpochProcessingError::BeaconStateError(state->Err_0),
        ),
        cache is Ok ==> of_cache(cache) == Ok::<T, EpochProcessingError>(cache->Ok_0),
        cache is Err ==> of_cache(cache) == Err::<T, _>(
            EpochProcessingError::ParticipationCache(cache->Err_0),
        ),
{
}

/// What is owed for a flag is added for the eligible validators, one by one, with the flag's own
/// participants and weight, and with balances counted in whole increments. What it needs is
/// looked at beforehand and in order, and where any of it is missing nothing is added.
pub proof fn law_flag_deltas_go_to_the_eligible(
    deltas: Seq<Delta>,
    s: StateModel,
    flag_index: usize,
    total_active_balance: u128,
    cache: ParticipationCache,
    base_rewards: BaseRewards,
    spec: ChainSpec,
)
    ensures
        ({
            let (after, r) = with_flag_deltas(
                deltas,
                s,
                flag_index,
                total_active_balance,
                cache,
                base_rewards,
                spec,
            );
            let previous = if s.current_epoch > s.genesis_epoch {
                s.current_epoch - 1
            } else {
                s.current_epoch as int
            };
            let sets = cache.previous_epoch_participation@;
            let set = sets[flag_index as int];
            let increment = spec.effective_balance_increment as int;
            if previous != cache.previous_epoch {
                after == deltas && r == Err::<(), _>(
                    EpochProcessingError::BeaconStateError(BeaconStateError::EpochOutOfBounds),
                )
            } else if flag_index >= sets.len() || flag_index > 2 {
                after == deltas && r == Err::<(), _>(
                    EpochProcessingError::InvalidFlagIndex(flag_index),
                )
            } else if set.total_balance is Err {
                after == deltas && r == Err::<(), _>(
                    EpochProcessingError::ParticipationCache(set.total_balance->Err_0),
                )
            } else if increment == 0 {
                after == deltas && r == Err::<(), _>(
                    EpochProcessingError::ArithError(ArithError::DivisionByZero),
                )
            } else if base_rewards.per_increment is Err {
                after == deltas && r == Err::<(), _>(
                    EpochProcessingError::ArithError(base_rewards.per_increment->Err_0),
                )
            } else {
                (after, r) == accumulated(
                    deltas,
                    cache.eligible_indices@,
                    owed_for_flag(
                        s,
                        flag_index,
                        if flag_index == 1 {
                            26
                        } else {
                            14
                        },
                        set,
                        (set.total_balance->Ok_0 as int / increment) as u128,
                        (total_active_balance as int / increment) as u128,
                        base_rewards,
                        spec,
                    ),
                )
            }
        }),
{
}

/// What inactivity costs is added for the eligible validators, one by one, by who earned the
/// target flag. Where that is not known nothing is added.
pub proof fn law_inactivity_deltas_go_to_the_eligible(
    deltas: Seq<Delta>,
    s: StateModel,
    cache: ParticipationCache,
    spec: ChainSpec,
)
    ensures
        ({
            let (after, r) = with_inactivity_deltas(deltas, s, cache, spec);
            let previous = if s.current_epoch > s.genesis_epoch {
                s.current_epoch - 1
            } else {
                s.current_epoch as int
            };
            let sets = cache.previous_epoch_participation@;
            if previous != cache.previous_epoch {
                after == deltas && r == Err::<(), _>(
                    EpochProcessingError::BeaconStateError(BeaconStateError::EpochOutOfBounds),
                )
            } else if sets.len() < 2 {
                after == deltas && r == Err::<(), _>(EpochProcessingError::InvalidFlagIndex(1))
            } else {
                (after, r) == accumulated(
                    deltas,
                    cache.eligible_indices@,
                    owed_for_inactivity(s, sets[1], spec),
                )
            }
        }),
{
}

/// An epoch owes nobody anything at first, then what it owes for the source, the target and the
/// head vote of the previous epoch, and then for inactivity. The first of these that fails says
/// why.
pub proof fn law_epoch_adds_three_flags_and_inactivity(
    s: StateModel,
    cache: ParticipationCache,
    base_rewards: BaseRewards,
    spec: ChainSpec,
)
    ensures
        ({
            let owed = epoch_deltas(s, cache, base_rewards, spec);
            let active = cache.current_epoch_total_active_balance;
            let none = Seq::new(s.validators.len(), |i: int| Delta { rewards: 0, penalties: 0 });
            let source = with_flag_deltas(none, s, 0, active, cache, base_rewards, spec);
            let target = with_flag_deltas(source.0, s, 1, active, cache, base_rewards, spec);
            let head = with_flag_deltas(target.0, s, 2, active, cache, base_rewards, spec);
            let inactivity = with_inactivity_deltas(head.0, s, cache, spec);
            if source.1 is Err {
                owed == Err::<Seq<Delta>, _>(source.1->Err_0)
            } else if target.1 is Err {
                owed == Err::<Seq<Delta>, _>(target.1->Err_0)
            } else if head.1 is Err {
                owed == Err::<Seq<Delta>, _>(head.1->Err_0)
            } else if inactivity.1 is Err {
                owed == Err::<Seq<Delta>, _>(inactivity.1->Err_0)
            } else {
                owed == Ok::<Seq<Delta>, EpochProcessingError>(inactivity.0)
            }
        }),
{
    reveal_with_fuel(with_deltas_of_flags, 4);
    let none = Seq::new(s.validators.len(), |i: int| Delta { rewards: 0, penalties: 0 });
    assert(none =~= Seq::new(s.validators.len(), |i: int| no_delta()));
}

/// A settlement goes through the entries in order: a success has settled all of them, and a
/// failure is that of the first entry that cannot be settled, with all entries before it settled
/// and no entry from it on changed.
pub proof fn law_settlement_goes_in_order(
    before: Seq<u64>,
    n: nat,
    step: spec_fn(int) -> Result<u64, EpochProcessingError>,
    after: Seq<u64>,
    r: Result<(), EpochProcessingError>,
)
    requires
        settled(before, n, step, after, r),
    ensures
        after.len() == before.len(),
        r is Ok ==> {
            &&& forall|i: int| 0 <= i < n ==> (#[trigger] step(i)) is Ok
            &&& forall|i: int|
                0 <= i < before.len() ==> #[trigger] after[i] == if i < n {
                    step(i)->Ok_0
                } else {
                    before[i]
                }
        },
        r is Err ==> exists|k: int|
            {
                &&& 0 <= k < n
                &&& #[trigger] step(k) == Err::<u64, _>(r->Err_0)
                &&& forall|i: int| 0 <= i < k ==> (#[trigger] step(i)) is Ok
                &&& forall|i: int|
                    0 <= i < before.len() ==> #[trigger] after[i] == if i < k {
                        step(i)->Ok_0
                    } else {
                        before[i]
                    }
            },
{
    let k = choose|k: int|
        {
            &&& #[trigger] stops_after(n, step, k)
            &&& after == settled_up_to(before, step, k)
            &&& r == if k < n {
                Err(step(k)->Err_0)
            } else {
                Ok(())
            }
        };
    if r is Err {
        assert(step(k) == Err::<u64, EpochProcessingError>(r->Err_0));
    }
}

/// Whether `after` is `before` plus what the burn leaves of the low 64 bits of the rewards in
/// `delta`, less the low 64 bits of its penalties, and zero where that is negative; and whether
/// the credit alone fits.
pub open spec fn is_credited_and_debited(
    before: u64,
    delta: Delta,
    seconds_per_slot: u64,
    after: u64,
) -> bool {
    let reward = delta.rewards as int % 0x1_0000_0000_0000_0000;
    let left = reward * seconds_per_slot % 0x1_0000_0000_0000_0000 / 12 * 3 / 4;
    let penalty = delta.penalties as int % 0x1_0000_0000_0000_0000;
    &&& before + left <= u64::MAX
    &&& before + left >= penalty ==> after - before == left - penalty
    &&& before + left < penalty ==> after == 0
}

/// What one delta makes of a balance, or why it cannot.
proof fn lemma_step(balances: Seq<u64>, delta: Delta, spec: ChainSpec, i: int)
    requires
        0 <= i,
    ensures
        ({
            let step = balance_after_delta(balances, delta, spec, i);
            let reward = delta.rewards as int % 0x1_0000_0000_0000_0000;
            let left = reward * spec.seconds_per_slot % 0x1_0000_0000_0000_0000 / 12 * 3 / 4;
            if i >= balances.len() {
                step == Err::<u64, _>(
                    EpochProcessingError::BeaconStateError(
                        BeaconStateError::BalancesOutOfBounds(i as usize),
                    ),
                )
            } else if balances[i] + left > u64::MAX {
                step == Err::<u64, _>(
                    EpochProcessingError::BeaconStateError(
                        BeaconStateError::ArithError(ArithError::Overflow),
                    ),
                )
            } else {
                step is Ok && is_credited_and_debited(
                    balances[i],
                    delta,
                    spec.seconds_per_slot,
                    step->Ok_0,
                )
            }
        }),
{
}

/// Where rewards and penalties are settled past genesis, the balance of every validator becomes
/// what it was, plus what the burn leaves of the low 64 bits of its rewards, less the low 64 bits
/// of its penalties, and zero where that is negative. All of it is reckoned, also where a
/// validator is owed rewards and penalties both. Balances without a validator stay.
pub proof fn law_settlement_credits_and_debits(
    s: StateModel,
    cache: ParticipationCache,
    base_rewards: BaseRewards,
    spec: ChainSpec,
    after: StateModel,
    r: Result<(), EpochProcessingError>,
    i: int,
)
    requires
        rewards_and_penalties_processed(s, cache, base_rewards, spec, after, r),
        r is Ok,
        s.current_epoch != s.genesis_epoch,
        0 <= i,
        i < s.validators.len() || i < s.balances.len(),
    ensures
        epoch_deltas(s, cache, base_rewards, spec) is Ok,
        after == (StateModel { balances: after.balances, ..s }),
        after.balances.len() == s.balances.len(),
        0 <= i < s.balances.len(),
        i >= s.validators.len() ==> after.balances[i] == s.balances[i],
        i < s.validators.len() ==> {
            let delta = epoch_deltas(s, cache, base_rewards, spec)->Ok_0[i];
            let reward = delta.rewards as int % 0x1_0000_0000_0000_0000;
            let left = reward * spec.seconds_per_slot % 0x1_0000_0000_0000_0000 / 12 * 3 / 4;
            let penalty = delta.penalties as int % 0x1_0000_0000_0000_0000;
            &&& s.balances[i] + left <= u64::MAX
            &&& s.balances[i] + left >= penalty ==> after.balances[i] - s.balances[i] == left
                - penalty
            &&& s.balances[i] + left < penalty ==> after.balances[i] == 0
        },
{
    let deltas = epoch_deltas(s, cache, base_rewards, spec)->Ok_0;
    let step = delta_step(s.balances, deltas, spec);
    law_settlement_goes_in_order(s.balances, s.validators.len(), step, after.balances, r);
    if i < s.validators.len() {
        assert(step(i) is Ok);
        lemma_step(s.balances, deltas[i], spec, i);
    }
}

/// Where rewards and penalties fail, the epoch is past genesis, and either what is owed cannot be
/// said and nothing has changed, or there is a first validator without a balance, or with one
/// that its reward would overflow. Then the validators before it have been credited and debited,
/// and no other balance has changed.
pub proof fn law_first_overflow_ends_the_settlement(
    s: StateModel,
    cache: ParticipationCache,
    base_rewards: BaseRewards,
    spec: ChainSpec,
    after: StateModel,
    r: Result<(), EpochProcessingError>,
)
    requires
        rewards_and_penalties_processed(s, cache, base_rewards, spec, after, r),
        r is Err,
    ensures
        s.current_epoch != s.genesis_epoch,
        after == (StateModel { balances: after.balances, ..s }),
        after.balances.len() == s.balances.len(),
        epoch_deltas(s, cache, base_rewards, spec) is Err ==> after == s && r->Err_0
            == epoch_deltas(s, cache, base_rewards, spec)->Err_0,
        epoch_deltas(s, cache, base_rewards, spec) is Ok ==> exists|k: int|
            #![trigger epoch_deltas(s, cache, base_rewards, spec)->Ok_0[k]]
            {
                let deltas = epoch_deltas(s, cache, base_rewards, spec)->Ok_0;
                let reward = deltas[k].rewards as int % 0x1_0000_0000_0000_0000;
                let left = reward * spec.seconds_per_slot % 0x1_0000_0000_0000_0000 / 12 * 3 / 4;
                &&& 0 <= k < s.validators.len()
                &&& k <= s.balances.len()
                &&& k == s.balances.len() ==> r->Err_0 == EpochProcessingError::BeaconStateError(
                    BeaconStateError::BalancesOutOfBounds(k as usize),
                )
                &&& k < s.balances.len() ==> {
                    &&& s.balances[k] + left > u64::MAX
                    &&& r->Err_0 == EpochProcessingError::BeaconStateError(
                        BeaconStateError::ArithError(ArithError::Overflow),
                    )
                }
                &&& forall|i: int|
                    k <= i < s.balances.len() ==> #[trigger] after.balances[i] == s.balances[i]
                &&& forall|i: int|
                    0 <= i < k ==> is_credited_and_debited(
                        s.balances[i],
                        deltas[i],
                        spec.seconds_per_slot,
                        #[trigger] after.balances[i],
                    )
            },
{
    if epoch_deltas(s, cache, base_rewards, spec) is Ok {
        let deltas = epoch_deltas(s, cache, base_rewards, spec)->Ok_0;
        let step = delta_step(s.balances, deltas, spec);
        let n = s.validators.len();
        law_settlement_goes_in_order(s.balances, n, step, after.balances, r);
        let k = choose|k: int|
            {
                &&& 0 <= k < n
                &&& #[trigger] step(k) == Err::<u64, _>(r->Err_0)
                &&& forall|i: int| 0 <= i < k ==> (#[trigger] step(i)) is Ok
                &&& forall|i: int|
                    0 <= i < s.balances.len() ==> #[trigger] after.balances[i] == if i < k {
                        step(i)->Ok_0
                    } else {
                        s.balances[i]
                    }
            };
        if k > s.balances.len() {
            assert(step(s.balances.len() as int) is Ok);
        }
        lemma_step(s.balances, deltas[k], spec, k);
        assert forall|i: int| 0 <= i < k implies is_credited_and_debited(
            s.balances[i],
            deltas[i],
            spec.seconds_per_slot,
            #[trigger] after.balances[i],
        ) by {
            assert(step(i) is Ok);
            lemma_step(s.balances, deltas[i], spec, i);
        }
    }
}

} // verus!
