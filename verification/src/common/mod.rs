//! Operations that block processing and epoch processing share.
pub mod balances;
pub mod pulse;
pub mod slash_validator;
