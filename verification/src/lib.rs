//! Generates, from the schema of a configuration, the JSON schema that validates
//! it and the object that tells a user interface how to show it; and compiles the
//! keywords of JSON schemas into validators.
pub mod dsl;
pub mod json;
pub mod keywords;
pub mod output;
pub mod ui_configuration;
pub mod validators;
