//! The JSON schema and user interface object that a validated schema generates.
pub mod generator;
pub mod properties;
