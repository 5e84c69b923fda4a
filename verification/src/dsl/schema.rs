use vstd::prelude::*;

use crate::dsl::enums::{DisplayInformation, EnumerationValues};
use crate::dsl::types::TypeSpec;

verus! {

/// What is known of a property's type.
#[derive(Debug)]
pub struct TypeInformation {
    pub type_spec: Option<TypeSpec>,
    pub enumeration_values: Option<EnumerationValues>,
}

/// A property of a configuration object.
#[derive(Debug)]
pub struct Property {
    pub display_information: DisplayInformation,
    pub type_information: TypeInformation,
    pub help: Option<String>,
    pub warning: Option<String>,
    pub description: Option<String>,
}

/// A named property.
#[derive(Debug)]
pub struct PropertyEntry {
    pub name: String,
    pub property: Property,
}

/// The properties of a schema, and the order in which a user interface lists them.
#[derive(Debug)]
pub struct PropertyList {
    pub entries: Vec<PropertyEntry>,
    pub property_names: Vec<String>,
}

/// A schema that passed validation.
#[derive(Debug)]
pub struct ValidatedSchema {
    pub title: String,
    pub version: u64,
    pub property_list: Option<PropertyList>,
}

/// The user interface annotations of a schema node.
#[derive(Debug)]
pub struct Annotations {
    pub help: Option<String>,
    pub warning: Option<String>,
    pub description: Option<String>,
    pub widget: Option<String>,
}

/// The keys of an object whose keys are chosen by the user.
#[derive(Debug)]
pub struct KeysSchema {
    pub title: Option<String>,
}

/// The part of a schema node whose keys are chosen by the user.
#[derive(Debug)]
pub struct DynamicSchema {
    pub keys: KeysSchema,
}

/// A node of a document's schema tree.
#[derive(Debug)]
pub struct Schema {
    pub annotations: Annotations,
    pub dynamic: Option<DynamicSchema>,
    pub children: Option<SchemaList>,
}

/// A named schema node.
#[derive(Debug)]
pub struct SchemaEntry {
    pub name: String,
    pub schema: Schema,
}

/// The children of a schema node, in order.
#[derive(Debug)]
pub struct SchemaList {
    pub entries: Vec<SchemaEntry>,
}

impl SchemaList {
    /// The children, in order.
    pub fn entries(&self) -> (res: &Vec<SchemaEntry>)
        ensures
            res == &self.entries,
    {
        &self.entries
    }
}

/// A document's schema: its root node, where it has one.
#[derive(Debug)]
pub struct DocumentRoot {
    pub schema: Option<Schema>,
}

} // verus!
