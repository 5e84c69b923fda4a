use jellyschema::json::{JsonMap, JsonNumber, JsonValue};
use jellyschema::keywords::max::{Max, KEYWORD};
use jellyschema::keywords::{CompilationError, Scope, Validator, WalkContext};
use jellyschema::validators;

fn object(members: Vec<(&str, JsonValue)>) -> JsonValue {
    let mut map = JsonMap::new();
    for (key, value) in members {
        map.insert(key.to_string(), value);
    }
    JsonValue::Object(map)
}

#[test]
fn missing_keyword_allowed() {
    let scope = Scope::default();
    let ctx = WalkContext::new();

    assert!(Max.compile(&object(vec![]), &ctx, &scope).is_ok());
}

#[test]
fn integer_allowed() {
    let scope = Scope::default();
    let ctx = WalkContext::new();

    assert!(Max
        .compile(&object(vec![(KEYWORD, JsonValue::Number(JsonNumber::PosInt(10)))]), &ctx, &scope)
        .is_ok());
}

#[test]
fn float_allowed() {
    let scope = Scope::default();
    let ctx = WalkContext::new();

    let number = JsonValue::Number(JsonNumber::Float(10.3f64.to_bits()));
    assert!(Max.compile(&object(vec![(KEYWORD, number)]), &ctx, &scope).is_ok());
}

#[test]
fn other_types_not_allowed() {
    let scope = Scope::default();
    let ctx = WalkContext::new();

    assert!(Max.compile(&object(vec![(KEYWORD, JsonValue::Bool(true))]), &ctx, &scope).is_err());
    assert!(Max
        .compile(&object(vec![(KEYWORD, JsonValue::String("foo".to_string()))]), &ctx, &scope)
        .is_err());
    assert!(Max.compile(&object(vec![(KEYWORD, object(vec![]))]), &ctx, &scope).is_err());
    assert!(Max.compile(&object(vec![(KEYWORD, JsonValue::Array(vec![]))]), &ctx, &scope).is_err());
}

#[test]
fn compiled_bound_keeps_the_number() {
    let scope = Scope::default();
    let ctx = WalkContext::new();
    let schema = object(vec![(KEYWORD, JsonValue::Number(JsonNumber::NegInt(-3)))]);

    assert_eq!(
        Max.compile(&schema, &ctx, &scope),
        Ok(Some(Validator::Max(validators::max::Max { number: JsonNumber::NegInt(-3) })))
    );
}

#[test]
fn absent_keyword_gives_no_validator() {
    let scope = Scope::default();
    let ctx = WalkContext::new();
    let schema = object(vec![("min", JsonValue::Number(JsonNumber::PosInt(1)))]);

    assert_eq!(Max.compile(&schema, &ctx, &scope), Ok(None));
    assert_eq!(Max.compile(&JsonValue::Null, &ctx, &scope), Ok(None));
}

#[test]
fn non_number_names_keyword_and_reason() {
    let scope = Scope::default();
    let ctx = WalkContext::new();
    let schema = object(vec![(KEYWORD, JsonValue::Null)]);

    assert_eq!(
        Max.compile(&schema, &ctx, &scope),
        Err(CompilationError {
            keyword: "max".to_string(),
            message: "expected number".to_string(),
        })
    );
}

#[test]
fn last_member_with_keyword_wins() {
    let scope = Scope::default();
    let ctx = WalkContext::new();
    let schema = object(vec![
        (KEYWORD, JsonValue::Bool(false)),
        (KEYWORD, JsonValue::Number(JsonNumber::PosInt(7))),
    ]);

    assert_eq!(
        Max.compile(&schema, &ctx, &scope),
        Ok(Some(Validator::Max(validators::max::Max { number: JsonNumber::PosInt(7) })))
    );
}
