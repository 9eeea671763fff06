//! Why an epoch could not be processed.
use crate::arith::ArithError;
use crate::beacon_state::BeaconStateError;
use vstd::prelude::*;

verus! {

/// Why it is not known who took part in an epoch.
#[derive(Clone, Copy, Debug, PartialEq, Eq, Structural)]
pub enum ParticipationCacheError {
    /// Nothing is known of this participation flag.
    InvalidFlagIndex(usize),
    /// Nothing is known of this validator.
    InvalidValidatorIndex(usize),
}

/// Why an epoch could not be processed.
#[derive(Clone, Copy, Debug, PartialEq, Eq, Structural)]
pub enum EpochProcessingError {
    BeaconStateError(BeaconStateError),
    ArithError(ArithError),
    ParticipationCache(ParticipationCacheError),
    /// No participation flag has this index.
    InvalidFlagIndex(usize),
    /// No delta has this index.
    DeltaOutOfBounds(usize),
}

/// An arithmetic result as part of epoch processing.
pub open spec fn of_arith<T>(r: Result<T, ArithError>) -> Result<T, EpochProcessingError> {
    match r {
        Ok(v) => Ok(v),
        Err(e) => Err(EpochProcessingError::ArithError(e)),
    }
}

/// A result on the state as part of epoch processing.
pub open spec fn of_state<T>(r: Result<T, BeaconStateError>) -> Result<T, EpochProcessingError> {
    match r {
        Ok(v) => Ok(v),
        Err(e) => Err(EpochProcessingError::BeaconStateError(e)),
    }
}

/// A result on participation as part of epoch processing.
pub open spec fn of_cache<T>(r: Result<T, ParticipationCacheError>) -> Result<
    T,
    EpochProcessingError,
> {
    match r {
        Ok(v) => Ok(v),
        Err(e) => Err(EpochProcessingError::ParticipationCache(e)),
    }
}

/// An arithmetic result as part of epoch processing.
pub fn from_arith<T>(r: Result<T, ArithError>) -> (e: Result<T, EpochProcessingError>)
    ensures
        e == of_arith(r),
{
    match r {
        Ok(v) => Ok(v),
        Err(e) => Err(EpochProcessingError::ArithError(e)),
    }
}

/// A result on the state as part of epoch processing.
pub fn from_state<T>(r: Result<T, BeaconStateError>) -> (e: Result<T, EpochProcessingError>)
    ensures
        e == of_state(r),
{
    match r {
        Ok(v) => Ok(v),
        Err(e) => Err(EpochProcessingError::BeaconStateError(e)),
    }
}

/// A result on participation as part of epoch processing.
pub fn from_cache<T>(r: Result<T, ParticipationCacheError>) -> (e: Result<T, EpochProcessingError>)
    ensures
        e == of_cache(r),
{
    match r {
        Ok(v) => Ok(v),
        Err(e) => Err(EpochProcessingError::ParticipationCache(e)),
    }
}

} // verus!
