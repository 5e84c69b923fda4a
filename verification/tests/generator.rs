use jellyschema::dsl::enums::{DisplayInformation, EnumerationValue, EnumerationValues};
use jellyschema::dsl::schema::{
    Property, PropertyEntry, PropertyList, TypeInformation, ValidatedSchema,
};
use jellyschema::dsl::types::{ObjectType, TypeSpec};
use jellyschema::json::{JsonNumber, JsonValue};
use jellyschema::ui_configuration::generator::{
    required_property_names, Generator, JsonSchema, UiObject, SCHEMA_URL,
};

fn empty_schema() -> ValidatedSchema {
    ValidatedSchema { title: String::new(), version: 1, property_list: None }
}

fn schema_with(title: &str, version: u64) -> ValidatedSchema {
    ValidatedSchema { title: title.to_string(), version, property_list: None }
}

fn string(s: &str) -> JsonValue {
    JsonValue::String(s.to_string())
}

fn property(type_spec: Option<TypeSpec>, help: Option<&str>) -> Property {
    Property {
        display_information: DisplayInformation { title: None },
        type_information: TypeInformation { type_spec, enumeration_values: None },
        help: help.map(|h| h.to_string()),
        warning: None,
        description: None,
    }
}

fn entry(name: &str, property: Property) -> PropertyEntry {
    PropertyEntry { name: name.to_string(), property }
}

fn listed_schema() -> ValidatedSchema {
    ValidatedSchema {
        title: "device".to_string(),
        version: 2,
        property_list: Some(PropertyList {
            entries: vec![
                entry("hostname", property(Some(TypeSpec::Required(ObjectType::Hostname)), Some("name"))),
                entry("note", property(Some(TypeSpec::Optional(ObjectType::String)), None)),
                entry("port", property(None, None)),
            ],
            property_names: vec!["note".to_string(), "hostname".to_string(), "port".to_string()],
        }),
    }
}

#[test]
fn hardcode_a_type() {
    let generator = Generator::new(empty_schema());

    let (json_schema, _) = generator.generate();

    assert_eq!(json_schema.get("type"), Some(&string("object")));
}

#[test]
fn hardcode_a_schema_url() {
    let generator = Generator::new(empty_schema());

    let (json_schema, _) = generator.generate();

    assert_eq!(json_schema.get("$schema"), Some(&string(SCHEMA_URL)));
}

#[test]
fn pass_title_through() {
    let schema = schema_with("some title", 1);
    let generator = Generator::new(schema);

    let (json_schema, _) = generator.generate();

    assert_eq!(json_schema.get("title"), Some(&string("some title")));
}

#[test]
fn generate_ui_object() {
    let generator = Generator::new(empty_schema());

    let (_, ui_object) = generator.generate();

    assert!(ui_object.is_object());
}

#[test]
fn generate_json_schema() {
    let generator = Generator::new(empty_schema());

    let (json_schema, _) = generator.generate();

    assert!(json_schema.is_object());
}

#[test]
fn version_is_written() {
    let (json_schema, _) = Generator::new(schema_with("t", 42)).generate();

    assert_eq!(json_schema.get("$$version"), Some(&JsonValue::Number(JsonNumber::PosInt(42))));
    assert_eq!(json_schema.get("properties"), None);
    assert_eq!(json_schema.get("$$order"), None);
    assert_eq!(json_schema.get("required"), None);
}

#[test]
fn properties_order_and_required_are_written() {
    let (json_schema, ui_object) = Generator::new(listed_schema()).generate();

    let order = json_schema.get("$$order").unwrap();
    assert_eq!(order, &JsonValue::Array(vec![string("note"), string("hostname"), string("port")]));
    let required = json_schema.get("required").unwrap();
    assert_eq!(required, &JsonValue::Array(vec![string("hostname")]));

    let properties = json_schema.get("properties").unwrap();
    let hostname = properties.get("hostname").unwrap();
    assert_eq!(hostname.get("type"), Some(&string("string")));
    assert_eq!(hostname.get("format"), Some(&string("hostname")));
    let port = properties.get("port").unwrap();
    assert!(port.is_object());
    assert_eq!(port.get("type"), None);

    let ui_hostname = ui_object.get("hostname").unwrap();
    assert_eq!(ui_hostname.get("ui:help"), Some(&string("name")));
    assert_eq!(ui_hostname.get("ui:warning"), Some(&JsonValue::Null));
    assert_eq!(ui_hostname.get("ui:description"), Some(&JsonValue::Null));
    assert!(ui_object.get("note").is_some());
    assert!(ui_object.get("port").is_some());
    assert!(ui_object.get("other").is_none());
}

#[test]
fn no_required_names_without_required_properties() {
    let list = PropertyList {
        entries: vec![
            entry("a", property(Some(TypeSpec::Optional(ObjectType::Object)), None)),
            entry("b", property(None, None)),
        ],
        property_names: vec![],
    };
    assert_eq!(required_property_names(&list), None);
}

#[test]
fn required_names_in_order() {
    let list = PropertyList {
        entries: vec![
            entry("b", property(Some(TypeSpec::Required(ObjectType::String)), None)),
            entry("c", property(Some(TypeSpec::Optional(ObjectType::String)), None)),
            entry("a", property(Some(TypeSpec::Required(ObjectType::Object)), None)),
        ],
        property_names: vec![],
    };
    assert_eq!(required_property_names(&list), Some(vec!["b", "a"]));
}

#[test]
fn json_schema_struct_fields() {
    let schema = listed_schema();
    let json_schema = JsonSchema::from_schema(&schema);
    assert_eq!(json_schema.version, 2);
    assert_eq!(json_schema.schema_url, "http://json-schema.org/draft-04/schema#");
    assert_eq!(json_schema.type_spec, TypeSpec::Required(ObjectType::Object));
    assert_eq!(json_schema.title, "device");
    assert_eq!(json_schema.required, Some(vec!["hostname"]));
}

#[test]
fn ui_object_later_duplicate_wins() {
    let schema = ValidatedSchema {
        title: String::new(),
        version: 1,
        property_list: Some(PropertyList {
            entries: vec![
                entry("x", property(None, Some("first"))),
                entry("x", property(None, Some("second"))),
            ],
            property_names: vec![],
        }),
    };
    let object = UiObject::from_schema(&schema);
    assert_eq!(object.entries.len(), 1);
    let ui = object.to_json();
    let x = ui.get("x").unwrap();
    assert_eq!(x.get("ui:help"), Some(&string("second")));
}

#[test]
fn enumerated_property_lists_its_values() {
    let enumerated = Property {
        display_information: DisplayInformation { title: Some("Mode".to_string()) },
        type_information: TypeInformation {
            type_spec: Some(TypeSpec::Required(ObjectType::String)),
            enumeration_values: Some(EnumerationValues {
                possible_values: vec![
                    EnumerationValue {
                        display_information: DisplayInformation { title: Some("Fast".to_string()) },
                        value: string("fast"),
                        type_spec: ObjectType::String,
                    },
                    EnumerationValue {
                        display_information: DisplayInformation { title: None },
                        value: string("slow"),
                        type_spec: ObjectType::String,
                    },
                ],
            }),
        },
        help: None,
        warning: None,
        description: None,
    };
    let json = enumerated.to_json();
    assert_eq!(json.get("title"), Some(&string("Mode")));
    assert_eq!(json.get("type"), Some(&string("string")));
    let one_of = json.get("oneOf").unwrap();
    match one_of {
        JsonValue::Array(values) => {
            assert_eq!(values.len(), 2);
            assert_eq!(values[0].get("title"), Some(&string("Fast")));
            assert_eq!(values[0].get("enum"), Some(&JsonValue::Array(vec![string("fast")])));
            assert_eq!(values[0].get("type"), Some(&string("string")));
            assert_eq!(values[1].get("title"), None);
            assert_eq!(values[1].get("enum"), None);
            assert_eq!(values[1].get("type"), Some(&string("string")));
        }
        _ => panic!("oneOf is not an array"),
    }

    let plain = property(Some(TypeSpec::Optional(ObjectType::Object)), None);
    let json = plain.to_json();
    assert_eq!(json.get("oneOf"), None);
    assert_eq!(json.get("title"), None);
    assert_eq!(json.get("type"), Some(&string("object")));
}

#[test]
fn object_types_describe_themselves() {
    assert_eq!(ObjectType::Hostname.to_json().get("format"), Some(&string("hostname")));
    assert_eq!(ObjectType::Hostname.to_json().get("type"), Some(&string("string")));
    assert_eq!(ObjectType::Object.to_json().get("type"), Some(&string("object")));
    assert_eq!(ObjectType::String.to_json().get("format"), None);
    assert_eq!(TypeSpec::Optional(ObjectType::Hostname).to_json(), string("string"));
}
