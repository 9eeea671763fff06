//! What settles at an epoch boundary.
pub mod altair;
pub mod delta;
pub mod errors;
pub mod settlement;
pub mod slashings;
