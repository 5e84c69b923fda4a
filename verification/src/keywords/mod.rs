//! Compilers that turn the keywords of a JSON schema into validators.
pub mod max;

use vstd::prelude::*;

use crate::validators;

verus! {

/// Where in a schema the compiler stands.
#[derive(Debug)]
pub struct WalkContext {}

/// The definitions that a schema can refer to.
#[derive(Debug)]
pub struct Scope {}

/// Why a keyword could not be compiled.
#[derive(Debug, PartialEq, Eq)]
pub struct CompilationError {
    pub keyword: String,
    pub message: String,
}

/// A validator that a keyword compiles to.
#[derive(Debug, PartialEq, Eq)]
pub enum Validator {
    Max(validators::max::Max),
}

/// What compiling a keyword gives: no validator where the keyword is absent.
pub type CompilationResult = Result<Option<Validator>, CompilationError>;

impl WalkContext {
    /// The context at the root of a schema.
    pub fn new() -> (res: WalkContext)
        ensures
            res == (WalkContext {}),
    {
        WalkContext {}
    }

    /// The failure to compile `keyword`, for the reason `message`.
    pub fn compilation_error(&self, keyword: &str, message: &str) -> (res: CompilationResult)
        ensures
            res matches Err(e) && e.keyword@ == keyword@ && e.message@ == message@,
    {
        Err(CompilationError { keyword: keyword.to_owned(), message: message.to_owned() })
    }
}

impl Default for Scope {
    fn default() -> (res: Scope)
        ensures
            res == (Scope {}),
    {
        Scope {}
    }
}

} // verus!
