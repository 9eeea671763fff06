//! The PulseChain reward burn.
use crate::arith::{u64_range, wrap_u64, wrapping_product};
use crate::chain_spec::ChainSpec;
use vstd::prelude::*;

verus! {

/// What is left of a reward after the burn: the reward is scaled from twelve-second slots to
/// slots of `seconds_per_slot`, the product wrapping, and a quarter of that is burned. Both
/// divisions round down.
pub open spec fn burned(base_reward: u64, seconds_per_slot: u64) -> u64 {
    (wrap_u64(base_reward * seconds_per_slot) / 12 * 3 / 4) as u64
}

/// What is left of a reward after the burn in exact arithmetic.
pub open spec fn burned_exactly(base_reward: u64, seconds_per_slot: u64) -> int {
    base_reward * seconds_per_slot / 12 * 3 / 4
}

/// Applies the burn to a pending validator reward.
///
/// The product of the reward and the slot time wraps, as it does in the canonical client: a
/// wider or a checked product would give another value, or an error, where that client goes
/// on with the wrapped one.
pub fn apply_burn(base_reward: u64, spec: &ChainSpec) -> (r: u64)
    ensures
        r == burned(base_reward, spec.seconds_per_slot),
{
    let seconds_per_slot: u64 = spec.seconds_per_slot;

    // First we compensate for the increased block frequency.
    let after_burn: u64 = wrapping_product(base_reward, seconds_per_slot) / 12;

    // Then we burn an additional 25%.
    let tripled: u64 = wrapping_product(after_burn, 3);
    tripled / 4
}

/// The burn wraps exactly where the product of reward and slot time does not fit `u64`: there
/// what is left is less than in exact arithmetic, and everywhere else it is the same.
pub proof fn law_burn_is_exact_unless_it_wraps(base_reward: u64, seconds_per_slot: u64)
    ensures
        base_reward * seconds_per_slot <= u64::MAX ==> burned(base_reward, seconds_per_slot)
            == burned_exactly(base_reward, seconds_per_slot),
        base_reward * seconds_per_slot > u64::MAX ==> burned(base_reward, seconds_per_slot)
            < burned_exactly(base_reward, seconds_per_slot),
{
    let product = base_reward * seconds_per_slot;
    assert(product >= 0) by (nonlinear_arith)
        requires
            product == base_reward * seconds_per_slot,
            base_reward >= 0,
            seconds_per_slot >= 0,
    ;
    if product > u64::MAX {
        let wrapped = product % u64_range();
        assert(product >= wrapped + u64_range());
        assert(product / 12 >= wrapped / 12 + u64_range() / 12);
    }
}

/// At slots of twelve seconds the burn takes a quarter of the reward, rounded up.
pub proof fn law_twelve_second_slots_burn_a_quarter(base_reward: u64)
    requires
        base_reward * 12 <= u64::MAX,
    ensures
        burned(base_reward, 12) == base_reward as int * 3 / 4,
{
}

/// At slots of at most twelve seconds the burn leaves at most three quarters of the reward,
/// whether the product wraps or not.
pub proof fn law_burn_takes_at_least_a_quarter(base_reward: u64, seconds_per_slot: u64)
    requires
        seconds_per_slot <= 12,
    ensures
        burned(base_reward, seconds_per_slot) * 4 <= base_reward * 3,
{
    let product = base_reward * seconds_per_slot;
    assert(0 <= product <= base_reward * 12) by (nonlinear_arith)
        requires
            product == base_reward * seconds_per_slot,
            0 <= base_reward,
            0 <= seconds_per_slot <= 12,
    ;
    assert(product % u64_range() <= product);
}

/// A larger reward leaves no less after the burn, as long as the product does not wrap.
pub proof fn law_burn_is_monotone(smaller: u64, larger: u64, seconds_per_slot: u64)
    requires
        smaller <= larger,
        larger * seconds_per_slot <= u64::MAX,
    ensures
        burned(smaller, seconds_per_slot) <= burned(larger, seconds_per_slot),
{
    assert(0 <= smaller * seconds_per_slot <= larger * seconds_per_slot) by (nonlinear_arith)
        requires
            0 <= smaller <= larger,
            0 <= seconds_per_slot,
    ;
}

/// What is left after the burn is below 2^60, whatever the reward.
pub proof fn law_burned_reward_is_bounded(base_reward: u64, seconds_per_slot: u64)
    ensures
        burned(base_reward, seconds_per_slot) < 0x1000_0000_0000_0000,
{
}

} // verus!
