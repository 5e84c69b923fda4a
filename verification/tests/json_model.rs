use jellyschema::json::{JsonMap, JsonNumber, JsonValue};

#[test]
fn insert_then_get() {
    let mut map = JsonMap::new();
    map.insert("a".to_string(), JsonValue::Bool(true));
    map.insert("b".to_string(), JsonValue::Null);
    map.insert("a".to_string(), JsonValue::Number(JsonNumber::PosInt(3)));
    assert_eq!(map.get("a"), Some(&JsonValue::Number(JsonNumber::PosInt(3))));
    assert_eq!(map.get("b"), Some(&JsonValue::Null));
    assert_eq!(map.get("c"), None);
    assert_eq!(map.entries.len(), 2);
    assert_eq!(map.entries[0].0, "a");
    assert_eq!(map.entries[1].0, "b");
}

#[test]
fn get_on_non_object() {
    assert_eq!(JsonValue::Null.get("a"), None);
    assert_eq!(JsonValue::Array(vec![]).get("a"), None);
    assert!(!JsonValue::Bool(false).is_object());
    assert!(JsonValue::Object(JsonMap::new()).is_object());
}

#[test]
fn duplicate_copies_nested_values() {
    let mut inner = JsonMap::new();
    inner.insert("k".to_string(), JsonValue::String("v".to_string()));
    let value = JsonValue::Array(vec![
        JsonValue::Object(inner),
        JsonValue::Number(JsonNumber::Float(1.5f64.to_bits())),
        JsonValue::Number(JsonNumber::NegInt(-2)),
    ]);
    assert_eq!(value.duplicate(), value);
}
