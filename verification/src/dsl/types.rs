use vstd::prelude::*;

use crate::json::{Json, JsonValue};

verus! {

/// The kind of value a property holds.
#[derive(Clone, Copy, Debug, PartialEq, Eq, Structural)]
pub enum ObjectType {
    Object,
    String,
    Hostname,
}

/// A property's type, and whether the property must be present.
#[derive(Clone, Copy, Debug, PartialEq, Eq, Structural)]
pub enum TypeSpec {
    Required(ObjectType),
    Optional(ObjectType),
}

/// The JSON Schema type name of an object type.
pub open spec fn spec_schema_type(t: ObjectType) -> Seq<char> {
    match t {
        ObjectType::Object => "object"@,
        ObjectType::String => "string"@,
        ObjectType::Hostname => "string"@,
    }
}

impl ObjectType {
    /// The JSON Schema type name of this type: a hostname is a string.
    pub fn schema_type(&self) -> (res: &'static str)
        ensures
            res@ == spec_schema_type(*self),
    {
        match self {
            ObjectType::Object => "object",
            ObjectType::String => "string",
            ObjectType::Hostname => "string",
        }
    }
}

impl TypeSpec {
    /// The object type, whether required or optional.
    pub open spec fn spec_inner(self) -> ObjectType {
        match self {
            TypeSpec::Required(t) => t,
            TypeSpec::Optional(t) => t,
        }
    }

    /// The object type, whether required or optional.
    pub fn inner(&self) -> (res: ObjectType)
        ensures
            res == self.spec_inner(),
    {
        match self {
            TypeSpec::Required(t) => *t,
            TypeSpec::Optional(t) => *t,
        }
    }

    /// Whether a property of this type must be present.
    pub fn is_required(&self) -> (res: bool)
        ensures
            res == (*self is Required),
    {
        match self {
            TypeSpec::Required(_) => true,
            TypeSpec::Optional(_) => false,
        }
    }

    /// The type as it stands in a JSON schema: the name of its object type.
    pub fn to_json(&self) -> (res: JsonValue)
        ensures
            res@ == Json::Str(spec_schema_type(self.spec_inner())),
    {
        JsonValue::String(self.inner().schema_type().to_owned())
    }
}

} // verus!
