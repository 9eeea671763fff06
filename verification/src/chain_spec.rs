//! Chain parameters.
use vstd::prelude::*;

verus! {

/// The fork whose rules a state follows, in order of activation.
#[derive(Clone, Copy, Debug, PartialEq, Eq, Structural)]
pub enum ForkName {
    Base,
    Altair,
    Merge,
    Capella,
    Deneb,
}

/// The parameters of the chain that bear on the accounting. Balances are in gwei.
#[derive(Clone, Copy, Debug, PartialEq, Eq, Structural)]
pub struct ChainSpec {
    pub seconds_per_slot: u64,
    pub effective_balance_increment: u64,
    pub max_effective_balance: u64,
    pub min_epochs_to_inactivity_penalty: u64,
    pub inactivity_score_bias: u64,
    pub inactivity_penalty_quotient: u64,
    pub inactivity_penalty_quotient_altair: u64,
    pub inactivity_penalty_quotient_bellatrix: u64,
    pub min_slashing_penalty_quotient: u64,
    pub min_slashing_penalty_quotient_altair: u64,
    pub min_slashing_penalty_quotient_bellatrix: u64,
    pub proportional_slashing_multiplier: u64,
    pub proportional_slashing_multiplier_altair: u64,
    pub proportional_slashing_multiplier_bellatrix: u64,
    pub whistleblower_reward_quotient: u64,
    pub proposer_reward_quotient: u64,
}

/// Share of a whistleblower reward that goes to the proposer, out of [`WEIGHT_DENOMINATOR`].
pub const PROPOSER_WEIGHT: u64 = 8;

/// What the reward weights are shares of.
pub const WEIGHT_DENOMINATOR: u64 = 64;

/// Index of the participation flag for a timely source vote.
pub const TIMELY_SOURCE_FLAG_INDEX: usize = 0;

/// Index of the participation flag for a timely target vote.
pub const TIMELY_TARGET_FLAG_INDEX: usize = 1;

/// Index of the participation flag for a timely head vote.
pub const TIMELY_HEAD_FLAG_INDEX: usize = 2;

/// The weight of each participation flag, out of [`WEIGHT_DENOMINATOR`].
pub const PARTICIPATION_FLAG_WEIGHTS: [u64; 3] = [14, 26, 14];

/// Picks the parameter that holds at a fork, of one that changed at Altair and at Bellatrix.
pub open spec fn at_fork(fork: ForkName, base: u64, altair: u64, bellatrix: u64) -> u64 {
    match fork {
        ForkName::Base => base,
        ForkName::Altair => altair,
        ForkName::Merge => bellatrix,
        ForkName::Capella => bellatrix,
        ForkName::Deneb => bellatrix,
    }
}

fn pick(fork: ForkName, base: u64, altair: u64, bellatrix: u64) -> (r: u64)
    ensures
        r == at_fork(fork, base, altair, bellatrix),
{
    match fork {
        ForkName::Base => base,
        ForkName::Altair => altair,
        ForkName::Merge => bellatrix,
        ForkName::Capella => bellatrix,
        ForkName::Deneb => bellatrix,
    }
}

impl ChainSpec {
    /// The inactivity penalty quotient at `fork`.
    pub open spec fn inactivity_quotient(self, fork: ForkName) -> u64 {
        at_fork(
            fork,
            self.inactivity_penalty_quotient,
            self.inactivity_penalty_quotient_altair,
            self.inactivity_penalty_quotient_bellatrix,
        )
    }

    /// The minimum slashing penalty quotient at `fork`.
    pub open spec fn slashing_quotient(self, fork: ForkName) -> u64 {
        at_fork(
            fork,
            self.min_slashing_penalty_quotient,
            self.min_slashing_penalty_quotient_altair,
            self.min_slashing_penalty_quotient_bellatrix,
        )
    }

    /// The proportional slashing multiplier at `fork`.
    pub open spec fn slashing_multiplier(self, fork: ForkName) -> u64 {
        at_fork(
            fork,
            self.proportional_slashing_multiplier,
            self.proportional_slashing_multiplier_altair,
            self.proportional_slashing_multiplier_bellatrix,
        )
    }

    /// The inactivity penalty quotient for a state at `fork`.
    pub fn inactivity_penalty_quotient_for_state(&self, fork: ForkName) -> (r: u64)
        ensures
            r == self.inactivity_quotient(fork),
    {
        pick(
            fork,
            self.inactivity_penalty_quotient,
            self.inactivity_penalty_quotient_altair,
            self.inactivity_penalty_quotient_bellatrix,
        )
    }

    /// The minimum slashing penalty quotient for a state at `fork`.
    pub fn min_slashing_penalty_quotient_for_state(&self, fork: ForkName) -> (r: u64)
        ensures
            r == self.slashing_quotient(fork),
    {
        pick(
            fork,
            self.min_slashing_penalty_quotient,
            self.min_slashing_penalty_quotient_altair,
            self.min_slashing_penalty_quotient_bellatrix,
        )
    }

    /// The proportional slashing multiplier for a state at `fork`.
    pub fn proportional_slashing_multiplier_for_state(&self, fork: ForkName) -> (r: u64)
        ensures
            r == self.slashing_multiplier(fork),
    {
        pick(
            fork,
            self.proportional_slashing_multiplier,
            self.proportional_slashing_multiplier_altair,
            self.proportional_slashing_multiplier_bellatrix,
        )
    }
}

} // verus!
