//! The validated form of a configuration DSL document that the generator works on.
pub mod enums;
pub mod schema;
pub mod types;
