use jellyschema::dsl::schema::{
    Annotations, DocumentRoot, DynamicSchema, KeysSchema, Schema, SchemaEntry, SchemaList,
};
use jellyschema::json::JsonValue;
use jellyschema::output::{UiObject, UiObjectProperty, UiObjectRoot};

fn annotations(help: Option<&str>) -> Annotations {
    Annotations { help: help.map(|h| h.to_string()), warning: None, description: None, widget: None }
}

fn leaf(help: Option<&str>) -> Schema {
    Schema { annotations: annotations(help), dynamic: None, children: None }
}

fn entry(name: &str, schema: Schema) -> SchemaEntry {
    SchemaEntry { name: name.to_string(), schema }
}

fn find<'a>(object: &'a UiObject, name: &str) -> Option<&'a UiObjectProperty> {
    object.0.iter().rev().find(|(n, _)| n == name).map(|(_, p)| p)
}

#[test]
fn uninformative_children_are_left_out() {
    let list = SchemaList { entries: vec![entry("a", leaf(Some("help a"))), entry("b", leaf(None))] };
    let object = UiObject::from_schema_list(&list);
    assert_eq!(object.0.len(), 1);
    assert_eq!(find(&object, "a").unwrap().help.as_deref(), Some("help a"));
    assert!(find(&object, "b").is_none());
}

#[test]
fn later_child_with_a_name_wins() {
    let list = SchemaList {
        entries: vec![entry("a", leaf(Some("first"))), entry("a", leaf(Some("second")))],
    };
    let object = UiObject::from_schema_list(&list);
    assert_eq!(object.0.len(), 1);
    assert_eq!(find(&object, "a").unwrap().help.as_deref(), Some("second"));
}

#[test]
fn nested_children_and_keys() {
    let inner = SchemaList { entries: vec![entry("child", leaf(Some("inner help")))] };
    let schema = Schema {
        annotations: Annotations {
            help: None,
            warning: Some("careful".to_string()),
            description: Some("desc".to_string()),
            widget: Some("password".to_string()),
        },
        dynamic: Some(DynamicSchema { keys: KeysSchema { title: Some("Key".to_string()) } }),
        children: Some(inner),
    };
    let property = UiObjectProperty::from_schema(&schema);
    assert!(!property.is_empty());
    assert_eq!(property.help, None);
    assert_eq!(property.warning.as_deref(), Some("careful"));
    assert_eq!(property.description.as_deref(), Some("desc"));
    assert_eq!(property.widget.as_deref(), Some("password"));
    assert_eq!(property.keys.as_ref().unwrap().title.as_deref(), Some("Key"));
    let children = property.properties.as_ref().unwrap();
    assert_eq!(find(children, "child").unwrap().help.as_deref(), Some("inner help"));
}

#[test]
fn node_with_only_empty_children_is_kept() {
    let schema = Schema {
        annotations: annotations(None),
        dynamic: None,
        children: Some(SchemaList { entries: vec![] }),
    };
    let property = UiObjectProperty::from_schema(&schema);
    assert!(!property.is_empty());
    assert_eq!(property.properties.as_ref().unwrap().0.len(), 0);
    assert!(UiObjectProperty::from_schema(&leaf(None)).is_empty());
}

#[test]
fn document_root() {
    let root = DocumentRoot { schema: Some(leaf(Some("root help"))) };
    let ui_root = UiObjectRoot::from_document_root(&root);
    assert_eq!(ui_root.0.unwrap().help.as_deref(), Some("root help"));
    let no_root = DocumentRoot { schema: None };
    assert!(UiObjectRoot::from_document_root(&no_root).0.is_none());
}

#[test]
fn keys_schema_serialization() {
    let titled = KeysSchema { title: Some("Name".to_string()) };
    let json = titled.to_json();
    let keys = json.get("ui:keys").unwrap();
    assert_eq!(keys.get("ui:title"), Some(&JsonValue::String("Name".to_string())));

    let untitled = KeysSchema { title: None };
    let json = untitled.to_json();
    assert!(json.is_object());
    assert_eq!(json.get("ui:keys"), None);
}
