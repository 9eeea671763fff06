use pulse_state_processing::arith::ArithError;
use pulse_state_processing::beacon_state::{BeaconState, BeaconStateError, Validator};
use pulse_state_processing::chain_spec::{ChainSpec, ForkName};
use pulse_state_processing::common::balances::{decrease_balance, increase_balance};
use pulse_state_processing::common::slash_validator::{
    penalize_slashed_validator, reward_slashing, slash_validator, BlockProcessingError,
    ExitEpochs, SlashingContext,
};

const FAR_FUTURE_EPOCH: u64 = u64::MAX;

fn mainnet() -> ChainSpec {
    ChainSpec {
        seconds_per_slot: 12,
        effective_balance_increment: 1_000_000_000,
        max_effective_balance: 32_000_000_000,
        min_epochs_to_inactivity_penalty: 4,
        inactivity_score_bias: 4,
        inactivity_penalty_quotient: 67_108_864,
        inactivity_penalty_quotient_altair: 50_331_648,
        inactivity_penalty_quotient_bellatrix: 16_777_216,
        min_slashing_penalty_quotient: 128,
        min_slashing_penalty_quotient_altair: 64,
        min_slashing_penalty_quotient_bellatrix: 32,
        proportional_slashing_multiplier: 1,
        proportional_slashing_multiplier_altair: 2,
        proportional_slashing_multiplier_bellatrix: 3,
        whistleblower_reward_quotient: 512,
        proposer_reward_quotient: 8,
    }
}

fn state(fork_name: ForkName, n: usize, effective_balance: u64) -> BeaconState {
    BeaconState {
        fork_name,
        genesis_epoch: 0,
        current_epoch: 70,
        finalized_epoch: 68,
        validators: vec![
            Validator {
                effective_balance,
                slashed: false,
                exit_epoch: FAR_FUTURE_EPOCH,
                withdrawable_epoch: FAR_FUTURE_EPOCH,
            };
            n
        ],
        balances: vec![effective_balance; n],
        slashings: vec![0; 64],
        inactivity_scores: vec![0; n],
    }
}

fn context(proposer_index: u64) -> SlashingContext {
    SlashingContext {
        exit: Ok(ExitEpochs {
            exit_epoch: 75,
            withdrawable_epoch: 331,
        }),
        progressive_balances: Ok(()),
        proposer_index: Ok(proposer_index),
    }
}

/// The sum of slashings of an epoch overflows `u64` once enough validators of maximum balance
/// are slashed in it. It must wrap and the slashing go through.
#[test]
fn slash_validator_wraps_slashings_bucket_like_prysm() {
    let mut spec = mainnet();
    spec.max_effective_balance = 32_000_000_000_000_000; // 3.2e16
    spec.effective_balance_increment = 1_000_000_000_000_000;

    let mut state = state(ForkName::Altair, 64, spec.max_effective_balance);
    let epoch = state.current_epoch;

    // Pre-load the current-epoch bucket just below u64::MAX so slashing one more
    // max-balance validator overflows it.
    let prefill = u64::MAX - 1_000;
    state.set_slashings(epoch, prefill).unwrap();
    {
        let v = &mut state.validators[0];
        v.effective_balance = spec.max_effective_balance;
        v.slashed = false;
    }

    slash_validator(&mut state, 0, None, &context(5), &spec)
        .expect("slashings bucket overflow must wrap (match prysm), not reject");

    assert_eq!(
        state.get_slashings(epoch).unwrap(),
        prefill.wrapping_add(spec.max_effective_balance),
        "bucket must wrap exactly like prysm's uint64 add"
    );
}

#[test]
fn slashing_penalizes_and_pays_at_altair() {
    let mut s = state(ForkName::Altair, 4, 32_000_000_000);
    let before = s.clone();
    slash_validator(&mut s, 1, Some(3), &context(2), &mainnet()).unwrap();

    assert_eq!(
        s.validators[1],
        Validator {
            effective_balance: 32_000_000_000,
            slashed: true,
            exit_epoch: 75,
            withdrawable_epoch: 331,
        }
    );
    for i in [0, 2, 3] {
        assert_eq!(s.validators[i], before.validators[i]);
    }
    assert_eq!(
        s.balances,
        vec![
            32_000_000_000,
            31_500_000_000,
            32_007_812_500,
            32_054_687_500
        ]
    );
    // Epoch 70 has bucket 70 % 64.
    assert_eq!(s.slashings[6], 32_000_000_000);
    assert_eq!(s.slashings.iter().sum::<u64>(), 32_000_000_000);
    assert_eq!(s.inactivity_scores, before.inactivity_scores);
}

#[test]
fn slashing_follows_the_fork() {
    let spec = mainnet();
    for (fork, balance) in [
        (ForkName::Base, 31_750_000_000),
        (ForkName::Altair, 31_500_000_000),
        (ForkName::Merge, 31_000_000_000),
        (ForkName::Capella, 31_000_000_000),
        (ForkName::Deneb, 31_000_000_000),
    ] {
        let mut s = state(fork, 3, 32_000_000_000);
        slash_validator(&mut s, 0, None, &context(1), &spec).unwrap();
        assert_eq!(s.balances[0], balance);
        // The proposer is its own whistleblower and gets the whole reward.
        assert_eq!(s.balances[1], 32_062_500_000);
        assert_eq!(s.balances[2], 32_000_000_000);
    }
}

#[test]
fn proposer_part_follows_the_fork() {
    let mut spec = mainnet();
    spec.proposer_reward_quotient = 5;
    let mut s = state(ForkName::Base, 3, 32_000_000_000);
    reward_slashing(&mut s, 32_000_000_000, 0, Some(1), &spec).unwrap();
    assert_eq!(s.balances[0], 32_012_500_000);
    assert_eq!(s.balances[1], 32_050_000_000);

    let mut s = state(ForkName::Deneb, 3, 32_000_000_000);
    reward_slashing(&mut s, 32_000_000_000, 0, Some(1), &spec).unwrap();
    assert_eq!(s.balances[0], 32_007_812_500);
    assert_eq!(s.balances[1], 32_054_687_500);
}

#[test]
fn withdrawal_waits_for_the_slashings_window() {
    let mut s = state(ForkName::Altair, 2, 32_000_000_000);
    let mut ctxt = context(0);
    ctxt.exit = Ok(ExitEpochs {
        exit_epoch: 75,
        withdrawable_epoch: 100,
    });
    slash_validator(&mut s, 1, None, &ctxt, &mainnet()).unwrap();
    assert_eq!(s.validators[1].withdrawable_epoch, 70 + 64);
    assert_eq!(s.validators[1].exit_epoch, 75);
}

#[test]
fn bucket_contents_do_not_decide() {
    let spec = mainnet();
    let mut empty = state(ForkName::Altair, 3, 32_000_000_000);
    let mut full = empty.clone();
    full.slashings = vec![u64::MAX; 64];
    assert_eq!(slash_validator(&mut empty, 0, None, &context(1), &spec), Ok(()));
    assert_eq!(slash_validator(&mut full, 0, None, &context(1), &spec), Ok(()));
    assert_eq!(empty.balances, full.balances);
    assert_eq!(empty.validators, full.validators);
    assert_eq!(full.slashings[6], 31_999_999_999);
    assert_eq!(full.slashings[7], u64::MAX);
}

#[test]
fn slashing_penalty_stops_at_zero() {
    let mut s = state(ForkName::Altair, 2, 32_000_000_000);
    s.balances[0] = 1;
    slash_validator(&mut s, 0, None, &context(1), &mainnet()).unwrap();
    assert_eq!(s.balances[0], 0);
}

#[test]
fn halves_make_up_a_slashing() {
    let spec = mainnet();
    let mut whole = state(ForkName::Capella, 4, 32_000_000_000);
    let mut halves = whole.clone();
    let ctxt = context(2);
    slash_validator(&mut whole, 1, Some(3), &ctxt, &spec).unwrap();
    let effective =
        penalize_slashed_validator(&mut halves, 1, ctxt.exit.unwrap(), &spec).unwrap();
    assert_eq!(effective, 32_000_000_000);
    reward_slashing(&mut halves, effective, 2, Some(3), &spec).unwrap();
    assert_eq!(whole.balances, halves.balances);
    assert_eq!(whole.validators, halves.validators);
    assert_eq!(whole.slashings, halves.slashings);
}

#[test]
fn context_errors_come_out() {
    let spec = mainnet();

    let mut s = state(ForkName::Altair, 3, 32_000_000_000);
    let mut ctxt = context(1);
    ctxt.exit = Err(BlockProcessingError::ConsensusContext);
    assert_eq!(
        slash_validator(&mut s, 0, None, &ctxt, &spec),
        Err(BlockProcessingError::ConsensusContext)
    );
    assert!(!s.validators[0].slashed);

    let error = BlockProcessingError::BeaconStateError(BeaconStateError::IncorrectStateVariant);
    let mut ctxt = context(1);
    ctxt.progressive_balances = Err(error);
    ctxt.proposer_index = Err(BlockProcessingError::ConsensusContext);
    assert_eq!(slash_validator(&mut s, 0, None, &ctxt, &spec), Err(error));
    assert!(s.validators[0].slashed);
    assert_eq!(s.balances, vec![31_500_000_000, 32_000_000_000, 32_000_000_000]);

    let mut ctxt = context(1);
    ctxt.proposer_index = Err(BlockProcessingError::ConsensusContext);
    assert_eq!(
        slash_validator(&mut s, 2, None, &ctxt, &spec),
        Err(BlockProcessingError::ConsensusContext)
    );
    assert_eq!(s.balances[1], 32_000_000_000);
}

#[test]
fn slashing_an_unknown_validator_fails() {
    let mut s = state(ForkName::Altair, 3, 32_000_000_000);
    assert_eq!(
        slash_validator(&mut s, 3, None, &context(1), &mainnet()),
        Err(BlockProcessingError::BeaconStateError(
            BeaconStateError::UnknownValidator(3)
        ))
    );
    assert_eq!(s.balances, vec![32_000_000_000; 3]);
}

#[test]
fn slashing_for_an_unknown_whistleblower_fails() {
    let mut s = state(ForkName::Altair, 3, 32_000_000_000);
    assert_eq!(
        slash_validator(&mut s, 0, Some(9), &context(1), &mainnet()),
        Err(BlockProcessingError::BeaconStateError(
            BeaconStateError::UnknownValidator(9)
        ))
    );
    assert_eq!(s.balances[1], 32_000_000_000);
}

#[test]
fn slashing_divides_by_no_zero() {
    let division = Err(BlockProcessingError::ArithError(ArithError::DivisionByZero));

    let mut spec = mainnet();
    spec.min_slashing_penalty_quotient_altair = 0;
    let mut s = state(ForkName::Altair, 3, 32_000_000_000);
    assert_eq!(slash_validator(&mut s, 0, None, &context(1), &spec), division);
    // The slashing is already counted.
    assert_eq!(s.slashings[6], 32_000_000_000);
    assert_eq!(s.balances[0], 32_000_000_000);

    let mut spec = mainnet();
    spec.whistleblower_reward_quotient = 0;
    let mut s = state(ForkName::Altair, 3, 32_000_000_000);
    assert_eq!(slash_validator(&mut s, 0, None, &context(1), &spec), division);
    assert_eq!(s.balances[0], 31_500_000_000);

    let mut spec = mainnet();
    spec.proposer_reward_quotient = 0;
    let mut s = state(ForkName::Base, 3, 32_000_000_000);
    assert_eq!(slash_validator(&mut s, 0, None, &context(1), &spec), division);
    let mut s = state(ForkName::Altair, 3, 32_000_000_000);
    assert_eq!(slash_validator(&mut s, 0, None, &context(1), &spec), Ok(()));
}

#[test]
fn slashing_overflows() {
    let spec = mainnet();

    // No epoch is a window after this one; the validator is marked by then.
    let mut s = state(ForkName::Altair, 3, 32_000_000_000);
    s.current_epoch = u64::MAX - 63;
    assert_eq!(
        slash_validator(&mut s, 0, None, &context(1), &spec),
        Err(BlockProcessingError::ArithError(ArithError::Overflow))
    );
    assert!(s.validators[0].slashed);
    assert_eq!(s.validators[0].withdrawable_epoch, 331);

    // The weighted reward overflows.
    let mut spec = mainnet();
    spec.whistleblower_reward_quotient = 1;
    let mut s = state(ForkName::Altair, 3, u64::MAX);
    s.balances = vec![0; 3];
    assert_eq!(
        slash_validator(&mut s, 0, None, &context(1), &spec),
        Err(BlockProcessingError::ArithError(ArithError::Overflow))
    );

    // The proposer's balance overflows.
    let spec = mainnet();
    let mut s = state(ForkName::Altair, 3, 32_000_000_000);
    s.balances[1] = u64::MAX;
    assert_eq!(
        slash_validator(&mut s, 0, None, &context(1), &spec),
        Err(BlockProcessingError::BeaconStateError(
            BeaconStateError::ArithError(ArithError::Overflow)
        ))
    );
    assert_eq!(s.balances[1], u64::MAX);
}

#[test]
fn slashing_needs_its_buckets_and_balances() {
    let spec = mainnet();

    let mut s = state(ForkName::Altair, 3, 32_000_000_000);
    s.slashings = vec![];
    assert_eq!(
        slash_validator(&mut s, 0, None, &context(1), &spec),
        Err(BlockProcessingError::BeaconStateError(
            BeaconStateError::EpochOutOfBounds
        ))
    );

    let mut s = state(ForkName::Altair, 3, 32_000_000_000);
    s.balances.truncate(2);
    assert_eq!(
        slash_validator(&mut s, 2, None, &context(1), &spec),
        Err(BlockProcessingError::BeaconStateError(
            BeaconStateError::BalancesOutOfBounds(2)
        ))
    );
    assert_eq!(
        slash_validator(&mut s, 0, None, &context(2), &spec),
        Err(BlockProcessingError::BeaconStateError(
            BeaconStateError::BalancesOutOfBounds(2)
        ))
    );
}

#[test]
fn slashings_ring_keeps_its_window() {
    let mut s = state(ForkName::Altair, 1, 0);
    s.set_slashings(70, 1).unwrap();
    s.set_slashings(7, 2).unwrap();
    assert_eq!(s.get_slashings(70), Ok(1));
    assert_eq!(s.get_slashings(7), Ok(2));
    assert_eq!(s.slashings[6], 1);
    assert_eq!(s.slashings[7], 2);
    assert_eq!(s.get_slashings(6), Err(BeaconStateError::EpochOutOfBounds));
    assert_eq!(s.get_slashings(71), Err(BeaconStateError::EpochOutOfBounds));
    assert_eq!(s.set_slashings(71, 3), Err(BeaconStateError::EpochOutOfBounds));
    assert_eq!(s.slashings.iter().sum::<u64>(), 3);
}

#[test]
fn debit_undoes_credit() {
    let spec = mainnet();
    let mut s = state(ForkName::Altair, 2, 10);
    increase_balance(&mut s, 1, 7, &spec, false).unwrap();
    assert_eq!(s.balances, vec![10, 17]);
    decrease_balance(&mut s, 1, 7).unwrap();
    assert_eq!(s.balances, vec![10, 10]);
}

#[test]
fn credits_are_burned_on_request_and_overflow() {
    let spec = mainnet();
    let mut s = state(ForkName::Altair, 2, 10);
    increase_balance(&mut s, 0, 100, &spec, true).unwrap();
    increase_balance(&mut s, 1, 100, &spec, false).unwrap();
    assert_eq!(s.balances, vec![85, 110]);
    assert_eq!(
        increase_balance(&mut s, 1, u64::MAX - 109, &spec, false),
        Err(BeaconStateError::ArithError(ArithError::Overflow))
    );
    assert_eq!(s.balances, vec![85, 110]);
    assert_eq!(
        increase_balance(&mut s, 2, 0, &spec, false),
        Err(BeaconStateError::BalancesOutOfBounds(2))
    );
}

#[test]
fn debits_stop_at_zero() {
    let mut s = state(ForkName::Altair, 2, 10);
    decrease_balance(&mut s, 0, 11).unwrap();
    assert_eq!(s.balances, vec![0, 10]);
    assert_eq!(
        decrease_balance(&mut s, 2, 0),
        Err(BeaconStateError::BalancesOutOfBounds(2))
    );
}

#[test]
fn slashing_changes_three_balances() {
    let mut s = state(ForkName::Merge, 6, 32_000_000_000);
    slash_validator(&mut s, 4, Some(0), &context(2), &mainnet()).unwrap();
    assert_eq!(s.balances[4], 31_000_000_000);
    for i in [1, 3, 5] {
        assert_eq!(s.balances[i], 32_000_000_000);
    }
    let paid = s.balances[0] + s.balances[2] - 64_000_000_000;
    assert_eq!(paid, 32_000_000_000 / 512);
    assert_eq!((s.current_epoch, s.finalized_epoch), (70, 68));
}
