use vstd::prelude::*;

use crate::json::JsonNumber;

verus! {

/// Accepts a number no greater than `number`.
#[derive(Clone, Copy, Debug, PartialEq, Eq, Structural)]
pub struct Max {
    pub number: JsonNumber,
}

} // verus!
