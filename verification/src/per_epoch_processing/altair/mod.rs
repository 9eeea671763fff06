//! Epoch processing since the Altair fork.
pub mod base_rewards;
pub mod laws;
pub mod participation_cache;
pub mod rewards_and_penalties;
