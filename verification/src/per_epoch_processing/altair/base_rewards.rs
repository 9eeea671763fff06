//! The base reward of each validator.
use crate::arith::ArithError;
use crate::beacon_state::BeaconStateError;
use vstd::prelude::*;

verus! {

/// What the base rewards come to under the epoch's total active balance.
#[derive(Debug)]
pub struct BaseRewards {
    /// Whether the base reward per increment could be derived.
    pub per_increment: Result<(), ArithError>,
    /// The base reward of each validator, or why it has none.
    pub rewards: Vec<Result<u128, BeaconStateError>>,
}

impl BaseRewards {
    /// The base reward of validator `index`.
    pub open spec fn base_reward(self, index: usize) -> Result<u128, BeaconStateError> {
        if index < self.rewards@.len() {
            self.rewards@[index as int]
        } else {
            Err(BeaconStateError::UnknownValidator(index))
        }
    }

    /// The base reward of validator `index`.
    pub fn get_base_reward(&self, index: usize) -> (r: Result<u128, BeaconStateError>)
        ensures
            r == self.base_reward(index),
    {
        if index < self.rewards.len() {
            self.rewards[index]
        } else {
            Err(BeaconStateError::UnknownValidator(index))
        }
    }
}

} // verus!
