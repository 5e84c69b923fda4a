use vstd::prelude::*;

use crate::dsl::types::ObjectType;
use crate::json::JsonValue;

verus! {

/// How a value is shown to a user.
#[derive(Debug)]
pub struct DisplayInformation {
    pub title: Option<String>,
}

/// One value that an enumerated property may take.
#[derive(Debug)]
pub struct EnumerationValue {
    pub display_information: DisplayInformation,
    pub value: JsonValue,
    pub type_spec: ObjectType,
}

/// The values that an enumerated property may take, in order.
#[derive(Debug)]
pub struct EnumerationValues {
    pub possible_values: Vec<EnumerationValue>,
}

} // verus!
