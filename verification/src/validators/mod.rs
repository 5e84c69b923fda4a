//! Validators that a compiled schema applies to data.
pub mod max;
