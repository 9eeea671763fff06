//! The part of the beacon state that the accounting reads and writes.
use crate::arith::{safe_sub, ArithError};
use crate::chain_spec::{ChainSpec, ForkName};
use vstd::prelude::*;

verus! {

/// Why a state could not be read or written.
#[derive(Clone, Copy, Debug, PartialEq, Eq, Structural)]
pub enum BeaconStateError {
    /// No validator has this index.
    UnknownValidator(usize),
    /// No balance has this index.
    BalancesOutOfBounds(usize),
    /// No inactivity score has this index.
    InactivityScoresOutOfBounds(usize),
    /// The state keeps nothing for this epoch.
    EpochOutOfBounds,
    /// A state of this fork has no such field.
    IncorrectStateVariant,
    ArithError(ArithError),
}

/// A validator's entry in the registry.
#[derive(Clone, Copy, Debug, PartialEq, Eq, Structural)]
pub struct Validator {
    pub effective_balance: u64,
    pub slashed: bool,
    pub exit_epoch: u64,
    pub withdrawable_epoch: u64,
}

/// A beacon state.
///
/// `slashings` is a ring that keeps one sum for each of the most recent epochs, as many as
/// it is long.
#[derive(Clone, Debug)]
pub struct BeaconState {
    pub fork_name: ForkName,
    pub genesis_epoch: u64,
    pub current_epoch: u64,
    pub finalized_epoch: u64,
    pub validators: Vec<Validator>,
    pub balances: Vec<u64>,
    pub slashings: Vec<u64>,
    pub inactivity_scores: Vec<u64>,
}

/// What a [`BeaconState`] holds.
#[verifier::ext_equal]
pub struct StateModel {
    pub fork_name: ForkName,
    pub genesis_epoch: u64,
    pub current_epoch: u64,
    pub finalized_epoch: u64,
    pub validators: Seq<Validator>,
    pub balances: Seq<u64>,
    pub slashings: Seq<u64>,
    pub inactivity_scores: Seq<u64>,
}

impl View for BeaconState {
    type V = StateModel;

    open spec fn view(&self) -> StateModel {
        StateModel {
            fork_name: self.fork_name,
            genesis_epoch: self.genesis_epoch,
            current_epoch: self.current_epoch,
            finalized_epoch: self.finalized_epoch,
            validators: self.validators@,
            balances: self.balances@,
            slashings: self.slashings@,
            inactivity_scores: self.inactivity_scores@,
        }
    }
}

impl StateModel {
    /// The epoch before the current one; at genesis, the genesis epoch itself.
    pub open spec fn previous_epoch(self) -> u64 {
        if self.current_epoch > self.genesis_epoch {
            (self.current_epoch - 1) as u64
        } else {
            self.current_epoch
        }
    }

    /// Whether the slashings ring keeps a sum for `epoch`.
    pub open spec fn keeps_slashings_of(self, epoch: u64) -> bool {
        epoch <= self.current_epoch < epoch + self.slashings.len()
    }

    /// Where the slashings ring keeps the sum for `epoch`.
    pub open spec fn bucket(self, epoch: u64) -> int {
        epoch as int % self.slashings.len() as int
    }

    /// The sum that the slashings ring keeps for `epoch`.
    pub open spec fn slashings_of(self, epoch: u64) -> Result<u64, BeaconStateError> {
        if self.keeps_slashings_of(epoch) {
            Ok(self.slashings[self.bucket(epoch)])
        } else {
            Err(BeaconStateError::EpochOutOfBounds)
        }
    }

    /// The state after the sum that the slashings ring keeps for `epoch` is replaced by `value`,
    /// and whether there was one.
    pub open spec fn with_slashings(self, epoch: u64, value: u64) -> (
        StateModel,
        Result<(), BeaconStateError>,
    ) {
        if self.keeps_slashings_of(epoch) {
            (
                StateModel {
                    slashings: self.slashings.update(self.bucket(epoch), value),
                    ..self
                },
                Ok(()),
            )
        } else {
            (self, Err(BeaconStateError::EpochOutOfBounds))
        }
    }

    /// The inactivity score of validator `index`. States of the base fork have none.
    pub open spec fn inactivity_score(self, index: usize) -> Result<u64, BeaconStateError> {
        if self.fork_name == ForkName::Base {
            Err(BeaconStateError::IncorrectStateVariant)
        } else if index < self.inactivity_scores.len() {
            Ok(self.inactivity_scores[index as int])
        } else {
            Err(BeaconStateError::InactivityScoresOutOfBounds(index))
        }
    }

    /// Whether finality lags so far behind `previous_epoch` that the chain is in an
    /// inactivity leak.
    pub open spec fn in_inactivity_leak(
        self,
        previous_epoch: u64,
        spec: ChainSpec,
    ) -> Result<bool, BeaconStateError> {
        if previous_epoch < self.finalized_epoch {
            Err(BeaconStateError::ArithError(ArithError::Overflow))
        } else {
            Ok(previous_epoch - self.finalized_epoch > spec.min_epochs_to_inactivity_penalty)
        }
    }
}

impl BeaconState {
    /// The epoch before the current one; at genesis, the genesis epoch itself.
    pub fn previous_epoch(&self) -> (r: u64)
        ensures
            r == self@.previous_epoch(),
    {
        if self.current_epoch > self.genesis_epoch {
            self.current_epoch - 1
        } else {
            self.current_epoch
        }
    }

    /// The validator with this index.
    pub fn get_validator(&self, index: usize) -> (r: Result<Validator, BeaconStateError>)
        ensures
            r == if index < self@.validators.len() {
                Ok(self@.validators[index as int])
            } else {
                Err(BeaconStateError::UnknownValidator(index))
            },
    {
        if index < self.validators.len() {
            Ok(self.validators[index])
        } else {
            Err(BeaconStateError::UnknownValidator(index))
        }
    }

    fn slashings_index(&self, epoch: u64) -> (r: Result<usize, BeaconStateError>)
        ensures
            match r {
                Ok(index) => {
                    &&& self@.keeps_slashings_of(epoch)
                    &&& index == self@.bucket(epoch)
                    &&& index < self@.slashings.len()
                },
                Err(e) => {
                    &&& !self@.keeps_slashings_of(epoch)
                    &&& e == BeaconStateError::EpochOutOfBounds
                },
            },
    {
        let len: u64 = self.slashings.len() as u64;
        if epoch <= self.current_epoch && self.current_epoch - epoch < len {
            let index: u64 = epoch % len;
            Ok(index as usize)
        } else {
            Err(BeaconStateError::EpochOutOfBounds)
        }
    }

    /// The sum of the effective balances slashed in `epoch`.
    pub fn get_slashings(&self, epoch: u64) -> (r: Result<u64, BeaconStateError>)
        ensures
            r == self@.slashings_of(epoch),
    {
        match self.slashings_index(epoch) {
            Ok(index) => Ok(self.slashings[index]),
            Err(e) => Err(e),
        }
    }

    /// Replaces the sum of the effective balances slashed in `epoch`.
    pub fn set_slashings(&mut self, epoch: u64, value: u64) -> (r: Result<(), BeaconStateError>)
        ensures
            old(self)@.keeps_slashings_of(epoch) ==> {
                &&& r == Ok::<(), BeaconStateError>(())
                &&& final(self)@ == (StateModel {
                    slashings: old(self)@.slashings.update(old(self)@.bucket(epoch), value),
                    ..old(self)@
                })
            },
            !old(self)@.keeps_slashings_of(epoch) ==> {
                &&& r == Err::<(), BeaconStateError>(BeaconStateError::EpochOutOfBounds)
                &&& final(self)@ == old(self)@
            },
            (final(self)@, r) == old(self)@.with_slashings(epoch, value),
    {
        match self.slashings_index(epoch) {
            Ok(index) => {
                self.slashings.set(index, value);
                Ok(())
            },
            Err(e) => Err(e),
        }
    }

    /// The inactivity score of validator `index`.
    pub fn get_inactivity_score(&self, index: usize) -> (r: Result<u64, BeaconStateError>)
        ensures
            r == self@.inactivity_score(index),
    {
        if self.fork_name == ForkName::Base {
            Err(BeaconStateError::IncorrectStateVariant)
        } else if index < self.inactivity_scores.len() {
            Ok(self.inactivity_scores[index])
        } else {
            Err(BeaconStateError::InactivityScoresOutOfBounds(index))
        }
    }

    /// Whether the chain is in an inactivity leak.
    pub fn is_in_inactivity_leak(&self, previous_epoch: u64, spec: &ChainSpec) -> (r: Result<
        bool,
        BeaconStateError,
    >)
        ensures
            r == self@.in_inactivity_leak(previous_epoch, *spec),
    {
        match safe_sub(previous_epoch, self.finalized_epoch) {
            Ok(delay) => Ok(delay > spec.min_epochs_to_inactivity_penalty),
            Err(e) => Err(BeaconStateError::ArithError(e)),
        }
    }
}

} // verus!
