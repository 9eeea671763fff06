use pulse_state_processing::arith::ArithError;
use pulse_state_processing::beacon_state::{BeaconState, BeaconStateError, Validator};
use pulse_state_processing::chain_spec::{
    ChainSpec, ForkName, TIMELY_HEAD_FLAG_INDEX, TIMELY_SOURCE_FLAG_INDEX,
    TIMELY_TARGET_FLAG_INDEX,
};
use pulse_state_processing::per_epoch_processing::altair::base_rewards::BaseRewards;
use pulse_state_processing::per_epoch_processing::altair::participation_cache::{
    ParticipationCache, UnslashedParticipatingIndices,
};
use pulse_state_processing::per_epoch_processing::altair::rewards_and_penalties::{
    get_flag_index_deltas, get_flag_weight, get_inactivity_penalty_deltas, inactivity_penalty,
    process_rewards_and_penalties,
};
use pulse_state_processing::per_epoch_processing::delta::Delta;
use pulse_state_processing::per_epoch_processing::errors::{
    EpochProcessingError, ParticipationCacheError,
};

fn mainnet() -> ChainSpec {
    ChainSpec {
        seconds_per_slot: 12,
        effective_balance_increment: 1_000_000_000,
        max_effective_balance: 32_000_000_000,
        min_epochs_to_inactivity_penalty: 4,
        inactivity_score_bias: 4,
        inactivity_penalty_quotient: 67_108_864,
        inactivity_penalty_quotient_altair: 50_331_648,
        inactivity_penalty_quotient_bellatrix: 16_777_216,
        min_slashing_penalty_quotient: 128,
        min_slashing_penalty_quotient_altair: 64,
        min_slashing_penalty_quotient_bellatrix: 32,
        proportional_slashing_multiplier: 1,
        proportional_slashing_multiplier_altair: 2,
        proportional_slashing_multiplier_bellatrix: 3,
        whistleblower_reward_quotient: 512,
        proposer_reward_quotient: 8,
    }
}

fn pulsechain() -> ChainSpec {
    ChainSpec {
        seconds_per_slot: 10,
        effective_balance_increment: 1_000_000_000_000_000,
        max_effective_balance: 32_000_000_000_000_000,
        ..mainnet()
    }
}

/// Three validators at epoch 10, finalized at epoch 8.
fn state(fork_name: ForkName, effective_balance: u64) -> BeaconState {
    BeaconState {
        fork_name,
        genesis_epoch: 0,
        current_epoch: 10,
        finalized_epoch: 8,
        validators: vec![
            Validator {
                effective_balance,
                slashed: false,
                exit_epoch: u64::MAX,
                withdrawable_epoch: u64::MAX,
            };
            3
        ],
        balances: vec![effective_balance; 3],
        slashings: vec![0; 64],
        inactivity_scores: vec![211; 3],
    }
}

/// 30 of 40 increments earned each flag; validator 0 is among them, validator 1 is not, and
/// validator 2 is not eligible.
fn cache(spec: &ChainSpec) -> ParticipationCache {
    let increment = spec.effective_balance_increment as u128;
    ParticipationCache {
        previous_epoch: 9,
        current_epoch_total_active_balance: 40 * increment,
        eligible_indices: vec![0, 1],
        previous_epoch_participation: (0..3)
            .map(|_| UnslashedParticipatingIndices {
                total_balance: Ok(30 * increment),
                participants: vec![Ok(true), Ok(false), Ok(false)],
            })
            .collect(),
    }
}

fn base_rewards() -> BaseRewards {
    BaseRewards {
        per_increment: Ok(()),
        rewards: vec![Ok(1_000); 3],
    }
}

fn delta(rewards: u128, penalties: u128) -> Delta {
    Delta { rewards, penalties }
}

/// A validator of maximum balance whose inactivity score climbs during a leak overflows a
/// `u64` numerator. The wide computation must return the exact value instead of an error.
#[test]
fn inactivity_penalty_no_overflow_at_pulsechain_max() {
    let spec = pulsechain();
    let effective_balance = spec.max_effective_balance;
    let score = 5_000u64;
    let quotient = spec.inactivity_penalty_quotient;

    assert!(
        effective_balance.checked_mul(score).is_none(),
        "test premise: the u64 numerator must overflow at these values"
    );

    let penalty = inactivity_penalty(effective_balance, score, spec.inactivity_score_bias, quotient)
        .expect("u128 numerator does not overflow");

    let expected = (effective_balance as u128 * score as u128)
        / (spec.inactivity_score_bias as u128 * quotient as u128);
    assert_eq!(penalty, expected);
    assert_eq!(penalty, 596_046_447_753);
}

/// Where the `u64` product fits, the wide computation changes nothing.
#[test]
fn inactivity_penalty_matches_narrow_path_for_mainnet_values() {
    let spec = mainnet();
    let effective_balance = spec.max_effective_balance;
    let score = 211u64;
    let quotient = spec.inactivity_penalty_quotient;

    let narrow = (effective_balance * score) as u128
        / (spec.inactivity_score_bias as u128 * quotient as u128);
    let wide =
        inactivity_penalty(effective_balance, score, spec.inactivity_score_bias, quotient).unwrap();
    assert_eq!(wide, narrow);
    assert_eq!(wide, 25_153);
}

#[test]
fn inactivity_penalty_at_the_limits() {
    let max = u64::MAX as u128;
    assert_eq!(inactivity_penalty(u64::MAX, u64::MAX, 1, 1), Ok(max * max));
    assert_eq!(inactivity_penalty(u64::MAX, u64::MAX, u64::MAX, u64::MAX), Ok(1));
    assert_eq!(inactivity_penalty(u64::MAX, 0, 4, 4), Ok(0));
    assert_eq!(inactivity_penalty(1, 1, 0, 4), Err(ArithError::DivisionByZero));
    assert_eq!(inactivity_penalty(1, 1, 4, 0), Err(ArithError::DivisionByZero));
}

#[test]
fn flag_weights() {
    assert_eq!(get_flag_weight(TIMELY_SOURCE_FLAG_INDEX), Ok(14));
    assert_eq!(get_flag_weight(TIMELY_TARGET_FLAG_INDEX), Ok(26));
    assert_eq!(get_flag_weight(TIMELY_HEAD_FLAG_INDEX), Ok(14));
    assert_eq!(get_flag_weight(3), Err(EpochProcessingError::InvalidFlagIndex(3)));
}

#[test]
fn flag_deltas_reward_and_penalize() {
    let spec = mainnet();
    let s = state(ForkName::Altair, 32_000_000_000);
    let cache = cache(&spec);
    for (flag, rewards, penalties) in [
        // 1000 * 14 * 30 / (40 * 64) and 1000 * 14 / 64.
        (TIMELY_SOURCE_FLAG_INDEX, 164, 218),
        // 1000 * 26 * 30 / (40 * 64) and 1000 * 26 / 64.
        (TIMELY_TARGET_FLAG_INDEX, 304, 406),
        // Nobody is penalized for the head vote.
        (TIMELY_HEAD_FLAG_INDEX, 164, 0),
    ] {
        let mut deltas = vec![delta(5, 6); 3];
        get_flag_index_deltas(
            &mut deltas,
            &s,
            flag,
            cache.current_epoch_total_active_balance,
            &cache,
            &base_rewards(),
            &spec,
        )
        .unwrap();
        assert_eq!(
            deltas,
            vec![delta(5 + rewards, 6), delta(5, 6 + penalties), delta(5, 6)]
        );
    }
}

#[test]
fn leak_withholds_rewards_and_keeps_penalties() {
    let spec = mainnet();
    let mut s = state(ForkName::Altair, 32_000_000_000);
    let cache = cache(&spec);
    // A finality delay of 4 epochs is no leak yet; 5 epochs are.
    for (finalized_epoch, rewards) in [(5, 164), (4, 0)] {
        s.finalized_epoch = finalized_epoch;
        let mut deltas = vec![Delta::default(); 3];
        get_flag_index_deltas(
            &mut deltas,
            &s,
            TIMELY_SOURCE_FLAG_INDEX,
            cache.current_epoch_total_active_balance,
            &cache,
            &base_rewards(),
            &spec,
        )
        .unwrap();
        assert_eq!(deltas, vec![delta(rewards, 0), delta(0, 218), delta(0, 0)]);
    }
}

fn flag_deltas(
    s: &BeaconState,
    flag: usize,
    cache: &ParticipationCache,
    base_rewards: &BaseRewards,
    spec: &ChainSpec,
) -> (Vec<Delta>, Result<(), EpochProcessingError>) {
    let mut deltas = vec![Delta::default(); 3];
    let r = get_flag_index_deltas(
        &mut deltas,
        s,
        flag,
        cache.current_epoch_total_active_balance,
        cache,
        base_rewards,
        spec,
    );
    (deltas, r)
}

#[test]
fn flag_deltas_need_the_previous_epoch_and_a_flag() {
    let spec = mainnet();
    let s = state(ForkName::Altair, 32_000_000_000);
    let none = vec![Delta::default(); 3];

    let mut c = cache(&spec);
    c.previous_epoch = 10;
    assert_eq!(
        flag_deltas(&s, 0, &c, &base_rewards(), &spec),
        (
            none.clone(),
            Err(EpochProcessingError::BeaconStateError(
                BeaconStateError::EpochOutOfBounds
            ))
        )
    );

    let mut c = cache(&spec);
    assert_eq!(
        flag_deltas(&s, 3, &c, &base_rewards(), &spec),
        (none.clone(), Err(EpochProcessingError::InvalidFlagIndex(3)))
    );
    c.previous_epoch_participation.push(UnslashedParticipatingIndices {
        total_balance: Ok(0),
        participants: vec![],
    });
    assert_eq!(
        flag_deltas(&s, 3, &c, &base_rewards(), &spec),
        (none, Err(EpochProcessingError::InvalidFlagIndex(3)))
    );
}

#[test]
fn flag_deltas_arithmetic_errors() {
    let s = state(ForkName::Altair, 32_000_000_000);
    let none = vec![Delta::default(); 3];
    let division = EpochProcessingError::ArithError(ArithError::DivisionByZero);
    let overflow = EpochProcessingError::ArithError(ArithError::Overflow);

    let mut spec = mainnet();
    spec.effective_balance_increment = 0;
    let c = cache(&mainnet());
    assert_eq!(
        flag_deltas(&s, 0, &c, &base_rewards(), &spec),
        (none.clone(), Err(division))
    );

    let spec = mainnet();
    let mut failed = base_rewards();
    failed.per_increment = Err(ArithError::DivisionByZero);
    assert_eq!(flag_deltas(&s, 0, &c, &failed, &spec), (none.clone(), Err(division)));

    // No active increments.
    let mut c = cache(&spec);
    c.current_epoch_total_active_balance = 999_999_999;
    assert_eq!(
        flag_deltas(&s, 0, &c, &base_rewards(), &spec),
        (none.clone(), Err(division))
    );

    let mut spec = mainnet();
    spec.effective_balance_increment = 1;
    let mut c = cache(&spec);
    c.previous_epoch_participation[0].total_balance = Ok(u128::MAX / 14_000 + 1);
    assert_eq!(
        flag_deltas(&s, 0, &c, &base_rewards(), &spec),
        (none.clone(), Err(overflow))
    );
    let mut c = cache(&spec);
    c.current_epoch_total_active_balance = u128::MAX / 64 + 1;
    assert_eq!(
        flag_deltas(&s, 0, &c, &base_rewards(), &spec),
        (none, Err(overflow))
    );
}

#[test]
fn flag_deltas_stop_at_the_first_failure() {
    let spec = mainnet();
    let s = state(ForkName::Altair, 32_000_000_000);

    let mut c = cache(&spec);
    c.eligible_indices = vec![1, 7, 0];
    assert_eq!(
        flag_deltas(&s, 0, &c, &base_rewards(), &spec),
        (
            vec![delta(0, 0), delta(0, 218), delta(0, 0)],
            Err(EpochProcessingError::BeaconStateError(
                BeaconStateError::UnknownValidator(7)
            ))
        )
    );

    let mut many = base_rewards();
    many.rewards = vec![Ok(1_000); 8];
    assert_eq!(
        flag_deltas(&s, 0, &c, &many, &spec),
        (
            vec![delta(0, 0), delta(0, 218), delta(0, 0)],
            Err(EpochProcessingError::ParticipationCache(
                ParticipationCacheError::InvalidValidatorIndex(7)
            ))
        )
    );
    c.previous_epoch_participation[0].participants = vec![Ok(false); 8];
    assert_eq!(
        flag_deltas(&s, 0, &c, &many, &spec),
        (
            vec![delta(0, 0), delta(0, 218), delta(0, 0)],
            Err(EpochProcessingError::DeltaOutOfBounds(7))
        )
    );

    let mut late = s.clone();
    late.finalized_epoch = 10;
    let c = cache(&spec);
    assert_eq!(
        flag_deltas(&late, 0, &c, &base_rewards(), &spec).1,
        Err(EpochProcessingError::BeaconStateError(
            BeaconStateError::ArithError(ArithError::Overflow)
        ))
    );
}

#[test]
fn deltas_overflow() {
    let mut d = delta(u128::MAX, 1);
    assert_eq!(d.reward(1), Err(ArithError::Overflow));
    assert_eq!(d.combine(delta(0, 2)), Ok(()));
    assert_eq!(d, delta(u128::MAX, 3));
    assert_eq!(d.penalize(u128::MAX), Err(ArithError::Overflow));
    assert_eq!(d, delta(u128::MAX, 3));

    // Rewards that fit stay added.
    let mut d = delta(1, u128::MAX);
    assert_eq!(d.combine(delta(1, 1)), Err(ArithError::Overflow));
    assert_eq!(d, delta(2, u128::MAX));
}

#[test]
fn inactivity_deltas_spare_the_target_voters() {
    let spec = mainnet();
    for (fork, penalty) in [(ForkName::Altair, 33_537), (ForkName::Merge, 100_612)] {
        let s = state(fork, 32_000_000_000);
        let mut deltas = vec![delta(1, 2); 3];
        get_inactivity_penalty_deltas(&mut deltas, &s, &cache(&spec), &spec).unwrap();
        assert_eq!(deltas, vec![delta(1, 2), delta(1, 2 + penalty), delta(1, 2)]);
    }
}

#[test]
fn inactivity_deltas_errors() {
    let spec = mainnet();
    let run = |s: &BeaconState, c: &ParticipationCache, spec: &ChainSpec| {
        let mut deltas = vec![Delta::default(); 3];
        get_inactivity_penalty_deltas(&mut deltas, s, c, spec)
    };
    let on_state = |e: BeaconStateError| Err(EpochProcessingError::BeaconStateError(e));
    let s = state(ForkName::Altair, 32_000_000_000);

    let mut c = cache(&spec);
    c.previous_epoch = 8;
    assert_eq!(run(&s, &c, &spec), on_state(BeaconStateError::EpochOutOfBounds));

    let mut c = cache(&spec);
    c.previous_epoch_participation.truncate(1);
    assert_eq!(run(&s, &c, &spec), Err(EpochProcessingError::InvalidFlagIndex(1)));

    let mut c = cache(&spec);
    c.eligible_indices = vec![5];
    assert_eq!(
        run(&s, &c, &spec),
        Err(EpochProcessingError::ParticipationCache(
            ParticipationCacheError::InvalidValidatorIndex(5)
        ))
    );
    c.previous_epoch_participation[1].participants = vec![Ok(false); 6];
    assert_eq!(run(&s, &c, &spec), on_state(BeaconStateError::UnknownValidator(5)));

    let c = cache(&spec);
    let mut few = s.clone();
    few.inactivity_scores.truncate(1);
    assert_eq!(
        run(&few, &c, &spec),
        on_state(BeaconStateError::InactivityScoresOutOfBounds(1))
    );

    let base = state(ForkName::Base, 32_000_000_000);
    assert_eq!(
        run(&base, &c, &spec),
        on_state(BeaconStateError::IncorrectStateVariant)
    );

    let mut zero = mainnet();
    zero.inactivity_score_bias = 0;
    assert_eq!(
        run(&s, &c, &zero),
        Err(EpochProcessingError::ArithError(ArithError::DivisionByZero))
    );
}

#[test]
fn rewards_are_burned_and_penalties_are_not() {
    let spec = mainnet();
    let mut s = state(ForkName::Altair, 32_000_000_000);
    let before = s.clone();
    process_rewards_and_penalties(&mut s, &cache(&spec), &base_rewards(), &spec).unwrap();
    // Rewards of 164 + 304 + 164 are 474 after the burn of a quarter. Penalties are 218 + 406
    // for the flags and 33_537 for inactivity.
    assert_eq!(
        s.balances,
        vec![32_000_000_474, 31_999_965_839, 32_000_000_000]
    );
    assert_eq!(s.validators, before.validators);
    assert_eq!(s.slashings, before.slashings);
    assert_eq!(s.inactivity_scores, before.inactivity_scores);
}

#[test]
fn genesis_epoch_settles_nothing() {
    let spec = mainnet();
    let mut s = state(ForkName::Altair, 32_000_000_000);
    s.genesis_epoch = 10;
    let mut c = cache(&spec);
    c.previous_epoch_participation.clear();
    assert_eq!(
        process_rewards_and_penalties(&mut s, &c, &base_rewards(), &spec),
        Ok(())
    );
    assert_eq!(s.balances, vec![32_000_000_000; 3]);
}

#[test]
fn failed_deltas_settle_nothing() {
    let spec = mainnet();
    let mut s = state(ForkName::Altair, 32_000_000_000);
    let mut c = cache(&spec);
    c.previous_epoch_participation.truncate(2);
    assert_eq!(
        process_rewards_and_penalties(&mut s, &c, &base_rewards(), &spec),
        Err(EpochProcessingError::InvalidFlagIndex(2))
    );
    let mut zero = mainnet();
    zero.inactivity_penalty_quotient_altair = 0;
    assert_eq!(
        process_rewards_and_penalties(&mut s, &cache(&spec), &base_rewards(), &zero),
        Err(EpochProcessingError::ArithError(ArithError::DivisionByZero))
    );
    assert_eq!(s.balances, vec![32_000_000_000; 3]);
}

#[test]
fn settlement_errs_above_and_saturates_below() {
    let spec = mainnet();
    let mut s = state(ForkName::Altair, 32_000_000_000);
    s.balances[1] = 10;
    process_rewards_and_penalties(&mut s, &cache(&spec), &base_rewards(), &spec).unwrap();
    assert_eq!(s.balances[1], 0);

    // Validator 1 is settled before validator 2 overflows; validator 0 is not eligible.
    let mut s = state(ForkName::Altair, 32_000_000_000);
    s.balances[2] = u64::MAX - 473;
    let mut c = cache(&spec);
    c.eligible_indices = vec![1, 2];
    for flag in c.previous_epoch_participation.iter_mut() {
        flag.participants = vec![Ok(false), Ok(false), Ok(true)];
    }
    assert_eq!(
        process_rewards_and_penalties(&mut s, &c, &base_rewards(), &spec),
        Err(EpochProcessingError::BeaconStateError(
            BeaconStateError::ArithError(ArithError::Overflow)
        ))
    );
    assert_eq!(
        s.balances,
        vec![32_000_000_000, 31_999_965_839, u64::MAX - 473]
    );

    let mut s = state(ForkName::Altair, 32_000_000_000);
    s.balances.truncate(1);
    assert_eq!(
        process_rewards_and_penalties(&mut s, &cache(&spec), &base_rewards(), &spec),
        Err(EpochProcessingError::BeaconStateError(
            BeaconStateError::BalancesOutOfBounds(1)
        ))
    );
    assert_eq!(s.balances, vec![32_000_000_474]);
}

/// Deltas above `u64::MAX` count by their low 64 bits.
#[test]
fn deltas_are_truncated() {
    let mut spec = mainnet();
    spec.inactivity_score_bias = 1;
    spec.inactivity_penalty_quotient_altair = 1;
    let mut s = state(ForkName::Altair, 1 << 33);
    s.inactivity_scores = vec![1 << 32; 3];
    // The inactivity penalty is 2^65, whose low 64 bits are zero.
    process_rewards_and_penalties(&mut s, &cache(&spec), &base_rewards(), &spec).unwrap();
    assert_eq!(s.balances[1], (1 << 33) - 218 - 406);
}

/// Deep leak at PulseChain's balances: nothing halts.
#[test]
fn pulsechain_magnitudes_do_not_halt_rewards_and_penalties() {
    let spec = pulsechain();
    let mut s = state(ForkName::Altair, spec.max_effective_balance);
    s.inactivity_scores = vec![5_000; 3];
    assert_eq!(
        process_rewards_and_penalties(&mut s, &cache(&spec), &base_rewards(), &spec),
        Ok(())
    );
    // 3.2e16 * 5000 / (4 * 50_331_648) for inactivity, and 218 + 406 for the flags.
    assert_eq!(
        s.balances[1],
        32_000_000_000_000_000 - 794_728_597_005 - 624
    );

    let mut s = state(ForkName::Altair, u64::MAX);
    s.balances = vec![1 << 63; 3];
    s.inactivity_scores = vec![u64::MAX; 3];
    let mut most = base_rewards();
    most.rewards = vec![Ok(u64::MAX as u128); 3];
    assert_eq!(
        process_rewards_and_penalties(&mut s, &cache(&spec), &most, &spec),
        Ok(())
    );
}

/// Each eligible validator is given what it is owed once, in whatever order.
#[test]
fn order_of_eligible_validators_makes_no_difference() {
    let spec = mainnet();
    let s = state(ForkName::Altair, 32_000_000_000);
    let mut c = cache(&spec);
    c.eligible_indices = vec![0, 1, 2];
    let forwards = flag_deltas(&s, 1, &c, &base_rewards(), &spec);
    c.eligible_indices = vec![2, 1, 0];
    assert_eq!(flag_deltas(&s, 1, &c, &base_rewards(), &spec), forwards);
    assert_eq!(forwards.0, vec![delta(304, 0), delta(0, 406), delta(0, 406)]);
}

#[test]
fn flag_deltas_overflow_on_huge_base_rewards() {
    let spec = mainnet();
    let s = state(ForkName::Altair, 32_000_000_000);
    let c = cache(&spec);
    let overflow = Err(EpochProcessingError::ArithError(ArithError::Overflow));

    // Validator 0 earned the flag: the weighted base reward, or its product with the
    // participating increments, does not fit.
    for huge in [u128::MAX / 14 + 1, u128::MAX / (14 * 30) + 1] {
        let mut rewards = base_rewards();
        rewards.rewards[0] = Ok(huge);
        assert_eq!(flag_deltas(&s, 0, &c, &rewards, &spec).1, overflow);
        rewards.rewards[0] = Ok(u128::MAX / (14 * 30));
        assert_eq!(flag_deltas(&s, 0, &c, &rewards, &spec).1, Ok(()));
    }

    // Validator 1 did not: its penalty does not fit, except for the head vote.
    let mut rewards = base_rewards();
    rewards.rewards[1] = Ok(u128::MAX / 14 + 1);
    assert_eq!(flag_deltas(&s, 0, &c, &rewards, &spec).1, overflow);
    assert_eq!(flag_deltas(&s, 2, &c, &rewards, &spec).1, Ok(()));
    rewards.rewards[1] = Ok(u128::MAX / 14);
    let deltas = flag_deltas(&s, 0, &c, &rewards, &spec).0;
    assert_eq!(deltas[1], delta(0, u128::MAX / 14 * 14 / 64));
}

/// With all of the active balance taking part, a flag rewards what it would penalize.
#[test]
fn full_participation_rewards_what_it_would_penalize() {
    let spec = mainnet();
    let s = state(ForkName::Altair, 32_000_000_000);
    let mut c = cache(&spec);
    for flag in c.previous_epoch_participation.iter_mut() {
        flag.total_balance = Ok(c.current_epoch_total_active_balance);
    }
    for flag in [TIMELY_SOURCE_FLAG_INDEX, TIMELY_TARGET_FLAG_INDEX] {
        let deltas = flag_deltas(&s, flag, &c, &base_rewards(), &spec).0;
        assert_eq!(deltas[0].rewards, deltas[1].penalties);
    }
}

#[test]
fn failed_base_reward_comes_out() {
    let spec = mainnet();
    let s = state(ForkName::Altair, 32_000_000_000);
    let mut rewards = base_rewards();
    rewards.rewards[1] = Err(BeaconStateError::ArithError(ArithError::Overflow));
    assert_eq!(
        flag_deltas(&s, 0, &cache(&spec), &rewards, &spec),
        (
            vec![delta(164, 0), delta(0, 0), delta(0, 0)],
            Err(EpochProcessingError::BeaconStateError(
                BeaconStateError::ArithError(ArithError::Overflow)
            ))
        )
    );
}

/// A lookup that fails ends the call: a validator of which nothing is known is not charged.
#[test]
fn failed_participation_lookups_come_out() {
    let spec = mainnet();
    let s = state(ForkName::Altair, 32_000_000_000);
    let none = vec![Delta::default(); 3];
    let unknown_validator = Err(EpochProcessingError::ParticipationCache(
        ParticipationCacheError::InvalidValidatorIndex(1),
    ));
    let unknown_flag = ParticipationCacheError::InvalidFlagIndex(0);

    // Validator 0 is given its reward before validator 1 is looked up.
    let mut c = cache(&spec);
    c.previous_epoch_participation[0].participants.truncate(1);
    assert_eq!(
        flag_deltas(&s, 0, &c, &base_rewards(), &spec),
        (vec![delta(164, 0), delta(0, 0), delta(0, 0)], unknown_validator)
    );

    let mut c = cache(&spec);
    c.previous_epoch_participation[0].total_balance = Err(unknown_flag);
    assert_eq!(
        flag_deltas(&s, 0, &c, &base_rewards(), &spec),
        (none.clone(), Err(EpochProcessingError::ParticipationCache(unknown_flag)))
    );

    let mut c = cache(&spec);
    c.previous_epoch_participation[0].participants[0] = Err(unknown_flag);
    assert_eq!(
        flag_deltas(&s, 0, &c, &base_rewards(), &spec),
        (none.clone(), Err(EpochProcessingError::ParticipationCache(unknown_flag)))
    );

    let mut c = cache(&spec);
    c.previous_epoch_participation[1].participants.truncate(1);
    let mut deltas = none.clone();
    assert_eq!(
        get_inactivity_penalty_deltas(&mut deltas, &s, &c, &spec),
        unknown_validator
    );
    assert_eq!(deltas, none);

    let mut after = s.clone();
    assert_eq!(
        process_rewards_and_penalties(&mut after, &c, &base_rewards(), &spec),
        unknown_validator
    );
    assert_eq!(after.balances, s.balances);
}

/// Validators that are not eligible keep their balance, even where others are listed twice.
#[test]
fn ineligible_balances_stay() {
    let spec = mainnet();
    let mut s = state(ForkName::Altair, 32_000_000_000);
    let mut c = cache(&spec);
    c.eligible_indices = vec![0, 0];
    process_rewards_and_penalties(&mut s, &c, &base_rewards(), &spec).unwrap();
    // Twice 632, less the burn of a quarter.
    assert_eq!(
        s.balances,
        vec![32_000_000_948, 32_000_000_000, 32_000_000_000]
    );
}
