//! What each operation means, in plain arithmetic over its inputs and results.
pub mod arithmetic;
pub mod balances;
pub mod deltas;
pub mod epoch;
pub mod parameters;
pub mod participation;
pub mod penalties;
pub mod slashing;
pub mod state;
