use pulse_state_processing::arith::ArithError;
use pulse_state_processing::beacon_state::{BeaconState, BeaconStateError, Validator};
use pulse_state_processing::chain_spec::{ChainSpec, ForkName};
use pulse_state_processing::common::balances::decrease_balance;
use pulse_state_processing::per_epoch_processing::errors::EpochProcessingError;
use pulse_state_processing::per_epoch_processing::slashings::{
    adjusted_total_slashing_balance, correlated_slashing_penalty, process_slashings,
};

fn mainnet() -> ChainSpec {
    ChainSpec {
        seconds_per_slot: 12,
        effective_balance_increment: 1_000_000_000,
        max_effective_balance: 32_000_000_000,
        min_epochs_to_inactivity_penalty: 4,
        inactivity_score_bias: 4,
        inactivity_penalty_quotient: 67_108_864,
        inactivity_penalty_quotient_altair: 50_331_648,
        inactivity_penalty_quotient_bellatrix: 16_777_216,
        min_slashing_penalty_quotient: 128,
        min_slashing_penalty_quotient_altair: 64,
        min_slashing_penalty_quotient_bellatrix: 32,
        proportional_slashing_multiplier: 1,
        proportional_slashing_multiplier_altair: 2,
        proportional_slashing_multiplier_bellatrix: 3,
        whistleblower_reward_quotient: 512,
        proposer_reward_quotient: 8,
    }
}

/// Four validators: the first is slashed and due, the second slashed and not due, the third
/// due by its epoch and not slashed, the fourth slashed and due.
fn state(fork_name: ForkName, effective_balance: u64) -> BeaconState {
    let validator = |slashed: bool, withdrawable_epoch: u64| Validator {
        effective_balance,
        slashed,
        exit_epoch: 75,
        withdrawable_epoch,
    };
    BeaconState {
        fork_name,
        genesis_epoch: 0,
        current_epoch: 100,
        finalized_epoch: 98,
        validators: vec![
            validator(true, 132),
            validator(true, 133),
            validator(false, 132),
            validator(true, 132),
        ],
        balances: vec![effective_balance; 4],
        slashings: vec![0; 64],
        inactivity_scores: vec![0; 4],
    }
}

/// A correlated mass-slashing pushes the product past `u64::MAX`. The result must match the
/// canonical client's wrapping product, not the exact value.
#[test]
fn slashing_balance_wraps_like_prysm_in_overflow_regime() {
    let multiplier = 3u64;
    // 200 max-effective-balance validators (3.2e16 gwei each) slashed in the window.
    let sum_slashings = 200u64 * 32_000_000_000_000_000u64;
    let total_balance = 320_000_000_000_000_000_000u128;

    assert!(
        sum_slashings.checked_mul(multiplier).is_none(),
        "test premise: the u64 product must overflow"
    );
    let wrapped = sum_slashings.wrapping_mul(multiplier) as u128;
    let widened = sum_slashings as u128 * multiplier as u128;
    assert_ne!(wrapped, widened, "test premise: wrap and widen must differ here");

    assert_eq!(
        adjusted_total_slashing_balance(sum_slashings, multiplier, total_balance),
        wrapped,
        "must select prysm's wrapped product, not the widened value"
    );
}

/// Inputs that do not overflow are unchanged, and the cap still applies.
#[test]
fn slashing_balance_normal_regime() {
    assert_eq!(adjusted_total_slashing_balance(1_000, 3, u128::MAX), 3_000);
    assert_eq!(adjusted_total_slashing_balance(1_000, 3, 100), 100);
}

#[test]
fn due_validators_lose_their_share() {
    let mut s = state(ForkName::Merge, 32_000_000_000);
    s.slashings[3] = 20_000_000_000;
    s.slashings[9] = 12_000_000_000;
    let before = s.clone();
    // 32 increments * 96e9 / 320e9 is 9 increments, rounded down.
    assert_eq!(process_slashings(&mut s, 320_000_000_000, &mainnet()), Ok(()));
    assert_eq!(
        s.balances,
        vec![
            23_000_000_000,
            32_000_000_000,
            32_000_000_000,
            23_000_000_000
        ]
    );
    assert_eq!(s.validators, before.validators);
    assert_eq!(s.slashings, before.slashings);
    assert_eq!(s.inactivity_scores, before.inactivity_scores);
}

#[test]
fn multiplier_follows_the_fork() {
    for (fork, balance) in [
        (ForkName::Base, 28_000_000_000),
        (ForkName::Altair, 24_000_000_000),
        (ForkName::Merge, 20_000_000_000),
        (ForkName::Capella, 20_000_000_000),
        (ForkName::Deneb, 20_000_000_000),
    ] {
        let mut s = state(fork, 32_000_000_000);
        s.slashings[0] = 40_000_000_000;
        process_slashings(&mut s, 320_000_000_000, &mainnet()).unwrap();
        assert_eq!(s.balances[0], balance);
    }
}

#[test]
fn penalty_is_capped_and_stops_at_zero() {
    let mut s = state(ForkName::Merge, 32_000_000_000);
    s.slashings[0] = 1_000_000_000_000;
    s.balances[3] = 5;
    process_slashings(&mut s, 320_000_000_000, &mainnet()).unwrap();
    assert_eq!(s.balances, vec![0, 32_000_000_000, 32_000_000_000, 0]);
}

#[test]
fn settling_equals_a_debit_of_the_penalty() {
    let spec = mainnet();
    let mut s = state(ForkName::Merge, 32_000_000_000);
    s.slashings[0] = 32_000_000_000;
    let mut debited = s.clone();
    process_slashings(&mut s, 320_000_000_000, &spec).unwrap();
    let penalty = correlated_slashing_penalty(
        32_000_000_000,
        spec.effective_balance_increment,
        96_000_000_000,
        320_000_000_000,
    )
    .unwrap();
    for i in [0, 3] {
        decrease_balance(&mut debited, i, penalty as u64).unwrap();
    }
    assert_eq!(s.balances, debited.balances);
}

#[test]
fn correlated_penalty_formula() {
    assert_eq!(correlated_slashing_penalty(32_999, 1_000, 7, 10), Ok(22_000));
    assert_eq!(
        correlated_slashing_penalty(1, 0, 1, 1),
        Err(ArithError::DivisionByZero)
    );
    assert_eq!(
        correlated_slashing_penalty(1, 1, 1, 0),
        Err(ArithError::DivisionByZero)
    );
    assert_eq!(
        correlated_slashing_penalty(2, 1, u128::MAX, 1),
        Err(ArithError::Overflow)
    );
    assert_eq!(
        correlated_slashing_penalty(2, 2, u128::MAX, 1),
        Err(ArithError::Overflow)
    );
}

#[test]
fn pulsechain_magnitudes_do_not_halt_slashings() {
    let mut spec = mainnet();
    spec.max_effective_balance = 32_000_000_000_000_000;
    spec.effective_balance_increment = 1_000_000_000_000_000;
    let mut s = state(ForkName::Merge, spec.max_effective_balance);
    // 1e19 fits u64, and three times that wraps to 11_553_255_926_290_448_384.
    s.slashings[36] = 10_000_000_000_000_000_000;
    let total_balance = 64 * 32_000_000_000_000_000u128;
    assert_eq!(process_slashings(&mut s, total_balance, &spec), Ok(()));
    assert_eq!(s.balances[0], 0);

    // Above the wrapped product the share is 32 * 11_553_255_926_290_448_384 / 4e19.
    let mut s = state(ForkName::Merge, spec.max_effective_balance);
    s.slashings[36] = 10_000_000_000_000_000_000;
    let total_balance = 40_000_000_000_000_000_000u128;
    assert_eq!(process_slashings(&mut s, total_balance, &spec), Ok(()));
    assert_eq!(s.balances[0], 23_000_000_000_000_000);

    let mut s = state(ForkName::Merge, u64::MAX);
    s.slashings[0] = u64::MAX;
    spec.effective_balance_increment = 1;
    assert_eq!(process_slashings(&mut s, u128::MAX, &spec), Ok(()));
}

#[test]
fn overflowing_sum_of_slashings_halts() {
    let mut s = state(ForkName::Merge, 32_000_000_000);
    s.slashings[0] = u64::MAX;
    s.slashings[1] = 1;
    assert_eq!(
        process_slashings(&mut s, 320_000_000_000, &mainnet()),
        Err(EpochProcessingError::ArithError(ArithError::Overflow))
    );
    assert_eq!(s.balances, vec![32_000_000_000; 4]);
    s.slashings[1] = 0;
    assert_eq!(process_slashings(&mut s, 320_000_000_000, &mainnet()), Ok(()));
}

#[test]
fn first_failure_keeps_what_was_settled() {
    let mut s = state(ForkName::Merge, 32_000_000_000);
    s.slashings[0] = 1_000_000_000_000;
    s.balances.truncate(3);
    assert_eq!(
        process_slashings(&mut s, 320_000_000_000, &mainnet()),
        Err(EpochProcessingError::BeaconStateError(
            BeaconStateError::BalancesOutOfBounds(3)
        ))
    );
    assert_eq!(s.balances, vec![0, 32_000_000_000, 32_000_000_000]);
}

#[test]
fn slashings_divide_by_no_zero() {
    let division = Err(EpochProcessingError::ArithError(ArithError::DivisionByZero));
    let mut spec = mainnet();
    let mut s = state(ForkName::Merge, 32_000_000_000);
    assert_eq!(process_slashings(&mut s, 0, &spec), division);
    spec.effective_balance_increment = 0;
    assert_eq!(process_slashings(&mut s, 1, &spec), division);

    // Nobody is due: nothing is divided.
    for v in s.validators.iter_mut() {
        v.slashed = false;
    }
    assert_eq!(process_slashings(&mut s, 0, &spec), Ok(()));
}

#[test]
fn due_epoch_overflows_only_for_the_slashed() {
    let mut s = state(ForkName::Merge, 32_000_000_000);
    s.current_epoch = u64::MAX - 31;
    assert_eq!(
        process_slashings(&mut s, 1, &mainnet()),
        Err(EpochProcessingError::ArithError(ArithError::Overflow))
    );
    for v in s.validators.iter_mut() {
        v.slashed = false;
    }
    assert_eq!(process_slashings(&mut s, 1, &mainnet()), Ok(()));
}
