//! Validator accounting of a PulseChain beacon state: slashing, the correlated slashing
//! penalty, and the rewards and penalties that settle at an epoch boundary.
//!
//! PulseChain raises balances a millionfold over Ethereum's, so `u64` products that are
//! harmless there overflow here. Each formula therefore says which of three behaviours it
//! has at the edge: it wraps as the canonical client does, it is computed in `u128` so that
//! it cannot overflow, or it fails with an [`arith::ArithError`].
pub mod arith;
pub mod beacon_state;
pub mod chain_spec;
pub mod common;
pub mod laws;
pub mod per_epoch_processing;
