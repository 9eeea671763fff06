//! Who took part in the previous epoch.
use crate::beacon_state::BeaconStateError;
use crate::per_epoch_processing::errors::{EpochProcessingError, ParticipationCacheError};
use vstd::prelude::*;

verus! {

/// The unslashed validators that earned one participation flag, as far as that is known.
#[derive(Debug)]
pub struct UnslashedParticipatingIndices {
    /// The sum of their effective balances, or why it is not known.
    pub total_balance: Result<u128, ParticipationCacheError>,
    /// For each validator index, whether it is one of them, or why that is not known. Nothing
    /// is known of indices past the end.
    pub participants: Vec<Result<bool, ParticipationCacheError>>,
}

/// Who took part in the previous epoch, by participation flag.
#[derive(Debug)]
pub struct ParticipationCache {
    pub previous_epoch: u64,
    pub current_epoch_total_active_balance: u128,
    /// The validators that rewards and penalties apply to.
    pub eligible_indices: Vec<usize>,
    /// One set for each participation flag.
    pub previous_epoch_participation: Vec<UnslashedParticipatingIndices>,
}

impl UnslashedParticipatingIndices {
    /// Whether validator `index` earned the flag.
    pub open spec fn has(self, index: usize) -> Result<bool, ParticipationCacheError> {
        if index < self.participants@.len() {
            self.participants@[index as int]
        } else {
            Err(ParticipationCacheError::InvalidValidatorIndex(index))
        }
    }

    /// Whether validator `index` earned the flag.
    pub fn contains(&self, index: usize) -> (r: Result<bool, ParticipationCacheError>)
        ensures
            r == self.has(index),
    {
        if index < self.participants.len() {
            self.participants[index]
        } else {
            Err(ParticipationCacheError::InvalidValidatorIndex(index))
        }
    }
}

impl ParticipationCache {
    /// The validators that earned flag `flag_index` in `epoch`.
    pub open spec fn participating(self, flag_index: usize, epoch: u64) -> Result<
        UnslashedParticipatingIndices,
        EpochProcessingError,
    > {
        if epoch != self.previous_epoch {
            Err(EpochProcessingError::BeaconStateError(BeaconStateError::EpochOutOfBounds))
        } else if flag_index >= self.previous_epoch_participation@.len() {
            Err(EpochProcessingError::InvalidFlagIndex(flag_index))
        } else {
            Ok(self.previous_epoch_participation@[flag_index as int])
        }
    }

    /// The validators that earned flag `flag_index` in `epoch`.
    pub fn get_unslashed_participating_indices(&self, flag_index: usize, epoch: u64) -> (r: Result<
        &UnslashedParticipatingIndices,
        EpochProcessingError,
    >)
        ensures
            match self.participating(flag_index, epoch) {
                Ok(indices) => r is Ok && *r->Ok_0 == indices,
                Err(e) => r is Err && r->Err_0 == e,
            },
    {
        if epoch != self.previous_epoch {
            Err(EpochProcessingError::BeaconStateError(BeaconStateError::EpochOutOfBounds))
        } else if flag_index >= self.previous_epoch_participation.len() {
            Err(EpochProcessingError::InvalidFlagIndex(flag_index))
        } else {
            Ok(&self.previous_epoch_participation[flag_index])
        }
    }
}

} // verus!
