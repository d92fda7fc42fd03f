//! In-process memory tiers.
pub mod working;
