use pulse_state_processing::chain_spec::ChainSpec;
use pulse_state_processing::common::pulse::apply_burn;

fn mainnet() -> ChainSpec {
    ChainSpec {
        seconds_per_slot: 12,
        effective_balance_increment: 1_000_000_000,
        max_effective_balance: 32_000_000_000,
        min_epochs_to_inactivity_penalty: 4,
        inactivity_score_bias: 4,
        inactivity_penalty_quotient: 67_108_864,
        inactivity_penalty_quotient_altair: 50_331_648,
        inactivity_penalty_quotient_bellatrix: 16_777_216,
        min_slashing_penalty_quotient: 128,
        min_slashing_penalty_quotient_altair: 64,
        min_slashing_penalty_quotient_bellatrix: 32,
        proportional_slashing_multiplier: 1,
        proportional_slashing_multiplier_altair: 2,
        proportional_slashing_multiplier_bellatrix: 3,
        whistleblower_reward_quotient: 512,
        proposer_reward_quotient: 8,
    }
}

#[test]
fn test_apply_burn() {
    let before_burn: u64 = 1000000;
    let mut spec = mainnet();

    // Default 12 second slots => 25% general burn.
    let after_burn = apply_burn(before_burn, &spec);
    assert_eq!(after_burn, 750000);

    // 6 second slots => 50% burn then 25% general burn.
    spec.seconds_per_slot = 6;
    let after_burn = apply_burn(before_burn, &spec);
    assert_eq!(after_burn, 375000);

    // 3 second slots => 75% burn then 25% general burn.
    spec.seconds_per_slot = 3;
    let after_burn = apply_burn(before_burn, &spec);
    assert_eq!(after_burn, 187500);
}

/// Where the product overflows, the burn must wrap exactly as the canonical client's `uint64`
/// arithmetic does, and not return the exact value.
#[test]
fn apply_burn_wraps_like_prysm_in_overflow_regime() {
    let mut spec = mainnet();
    spec.seconds_per_slot = 12;
    let base_reward = u64::MAX / 6;
    assert!(
        base_reward.checked_mul(spec.seconds_per_slot).is_none(),
        "test premise: the input must be in the u64 overflow regime"
    );

    let prysm = {
        let after = base_reward.wrapping_mul(spec.seconds_per_slot) / 12;
        after.wrapping_mul(3) / 4
    };
    let widened = ((base_reward as u128 * spec.seconds_per_slot as u128 / 12) * 3 / 4) as u64;

    assert_ne!(prysm, widened, "test premise: wrapping and widening must differ here");
    assert_eq!(
        apply_burn(base_reward, &spec),
        prysm,
        "apply_burn must match prysm's wrapping u64, not the widened value"
    );
    assert_eq!(apply_burn(base_reward, &spec), 1_152_921_504_606_846_975);
}

/// The last reward whose product fits is burned exactly; the next one wraps to less.
#[test]
fn burn_is_exact_up_to_the_last_product_that_fits() {
    let spec = mainnet();
    let last = u64::MAX / 12;
    let exact = |reward: u64| (reward as u128 * 12 / 12 * 3 / 4) as u64;
    assert_eq!(apply_burn(last, &spec), exact(last));
    assert!(apply_burn(last + 1, &spec) < exact(last + 1));
}

#[test]
fn burn_rounds_down_twice() {
    let mut spec = mainnet();
    assert_eq!(apply_burn(0, &spec), 0);
    assert_eq!(apply_burn(1, &spec), 0);
    assert_eq!(apply_burn(3, &spec), 2);
    spec.seconds_per_slot = 10;
    // 7 * 10 / 12 = 5, and 5 * 3 / 4 = 3.
    assert_eq!(apply_burn(7, &spec), 3);
}

#[test]
fn burn_takes_a_quarter_and_keeps_order() {
    let mut spec = mainnet();
    spec.seconds_per_slot = 10;
    let mut previous = 0;
    for reward in [0, 1, 2, 5, 12, 100, 12_345, 1_000_000_007] {
        let left = apply_burn(reward, &spec);
        assert!(left as u128 * 4 <= reward as u128 * 3);
        assert!(previous <= left);
        assert!(left < 1 << 60);
        previous = left;
    }
}
