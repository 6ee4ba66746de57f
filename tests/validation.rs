use serde_json::Value;
use umami_proxy::json::JsonValue;
use umami_proxy::validate::{
    create_error_response, format_error_message, validate_and_filter, validate_field_lengths, FieldViolation,
};

fn from_serde(v: &Value) -> JsonValue {
    match v {
        Value::Null => JsonValue::Null,
        Value::Bool(b) => JsonValue::Bool(*b),
        Value::Number(n) => JsonValue::Number(n.to_string()),
        Value::String(s) => JsonValue::Str(s.clone()),
        Value::Array(a) => JsonValue::Array(a.iter().map(from_serde).collect()),
        Value::Object(m) => JsonValue::Object(m.iter().map(|(k, v)| (k.clone(), from_serde(v))).collect()),
    }
}

fn to_serde(v: &JsonValue) -> Value {
    match v {
        JsonValue::Null => Value::Null,
        JsonValue::Bool(b) => Value::Bool(*b),
        JsonValue::Number(n) => serde_json::from_str(n).unwrap(),
        JsonValue::Str(s) => Value::String(s.clone()),
        JsonValue::Array(a) => Value::Array(a.iter().map(to_serde).collect()),
        JsonValue::Object(m) => Value::Object(m.iter().map(|(k, v)| (k.clone(), to_serde(v))).collect()),
    }
}

fn js(text: &str) -> JsonValue {
    from_serde(&serde_json::from_str(text).unwrap())
}


fn validate_field_lengths_of(text: &str) -> Result<(), Vec<FieldViolation>> {
    validate_field_lengths(&js(text))
}

#[test]
fn test_validate_short_strings() {
    let data = js(r#"{"name": "John Doe", "description": "A short description"}"#);

    assert!(validate_field_lengths(&data).is_ok());
}

#[test]
fn test_validate_exactly_500_chars() {
    let exactly_500 = "a".repeat(500);
    let data = format!(r#"{{"description": "{}"}}"#, exactly_500);

    assert!(validate_field_lengths_of(&data).is_ok());
}

#[test]
fn test_validate_over_500_chars() {
    let over_500 = "a".repeat(501);
    let data = format!(r#"{{"description": "{}"}}"#, over_500);

    let result = validate_field_lengths_of(&data);
    assert!(result.is_err());

    let violations = result.unwrap_err();
    assert_eq!(violations.len(), 1);
    assert_eq!(violations[0].path, "description");
    assert_eq!(violations[0].length, 501);
}

#[test]
fn test_validate_nested_objects() {
    let over_500 = "b".repeat(550);
    let data = format!(r#"{{"user": {{"profile": {{"bio": "{}"}}}}}}"#, over_500);

    let result = validate_field_lengths_of(&data);
    assert!(result.is_err());

    let violations = result.unwrap_err();
    assert_eq!(violations.len(), 1);
    assert_eq!(violations[0].path, "user.profile.bio");
    assert_eq!(violations[0].length, 550);
}

#[test]
fn test_validate_arrays() {
    let over_500 = "c".repeat(600);
    let data = format!(r#"{{"items": ["valid string", "{}", "another valid"]}}"#, over_500);

    let result = validate_field_lengths_of(&data);
    assert!(result.is_err());

    let violations = result.unwrap_err();
    assert_eq!(violations.len(), 1);
    assert_eq!(violations[0].path, "items[1]");
    assert_eq!(violations[0].length, 600);
}

#[test]
fn test_validate_multiple_violations() {
    let over_500_1 = "d".repeat(510);
    let over_500_2 = "e".repeat(520);
    let data = format!(r#"{{"field1": "{}", "nested": {{"field2": "{}"}}}}"#, over_500_1, over_500_2);

    let result = validate_field_lengths_of(&data);
    assert!(result.is_err());

    let violations = result.unwrap_err();
    assert_eq!(violations.len(), 2);

    assert!(violations.iter().any(|v| v.path == "field1" && v.length == 510));
    assert!(violations.iter().any(|v| v.path == "nested.field2" && v.length == 520));
}

#[test]
fn test_validate_non_string_types() {
    let data = js(r#"{
        "number": 12345,
        "boolean": true,
        "null_value": null,
        "array_of_numbers": [1, 2, 3],
        "valid_string": "short"
    }"#);

    assert!(validate_field_lengths(&data).is_ok());
}

#[test]
fn test_format_error_message() {
    let violations = vec![
        FieldViolation::new("field1".to_string(), 510),
        FieldViolation::new("nested.field2".to_string(), 520),
    ];

    let message = format_error_message(&violations);

    assert!(message.contains("Field length validation failed"));
    assert!(message.contains("2 field(s)"));
    assert!(message.contains("500 character limit"));
    assert!(message.contains("field1"));
    assert!(message.contains("510 characters"));
    assert!(message.contains("nested.field2"));
    assert!(message.contains("520 characters"));
}

#[test]
fn format_error_message_exact_text() {
    let violations = vec![FieldViolation::new("a.b".to_string(), 501)];
    assert_eq!(
        format_error_message(&violations),
        "Field length validation failed. The following 1 field(s) exceed the 500 character limit:\n  - 'a.b': 501 characters\n"
    );
}

#[test]
fn test_create_error_response() {
    let violations = vec![FieldViolation::new("field1".to_string(), 510)];

    let response = to_serde(&create_error_response(&violations));

    assert_eq!(response["error"], "Field length validation failed");
    assert_eq!(response["limit"], 500);
    assert_eq!(response["violations"][0]["field"], "field1");
    assert_eq!(response["violations"][0]["length"], 510);
    assert_eq!(response["message"], "1 field(s) exceed the 500 character limit");
}

#[test]
fn test_complex_nested_structure() {
    let over_500 = "x".repeat(505);
    let data = format!(
        r#"{{"payload": {{"events": [{{"event_properties": {{"description": "{}"}}}}]}}}}"#,
        over_500
    );

    let result = validate_field_lengths_of(&data);
    assert!(result.is_err());

    let violations = result.unwrap_err();
    assert_eq!(violations.len(), 1);
    assert_eq!(violations[0].path, "payload.events[0].event_properties.description");
    assert_eq!(violations[0].length, 505);
}

#[test]
fn test_truncate_long_field() {
    let over_500 = "a".repeat(510);
    let data = js(&format!(r#"{{"short_field": "valid", "long_field": "{}"}}"#, over_500));

    let (truncated, violations) = validate_and_filter(&data);
    let truncated = to_serde(&truncated);

    assert_eq!(violations.len(), 1);
    assert_eq!(violations[0].path, "long_field");
    assert_eq!(violations[0].length, 510);

    assert_eq!(truncated["short_field"], "valid");
    let truncated_value = truncated["long_field"].as_str().unwrap();
    assert_eq!(truncated_value.len(), 500);
    assert!(truncated_value.ends_with("TRUNCATED"));
    assert_eq!(&truncated_value[..491], &over_500[..491]);
}

#[test]
fn test_truncate_preserves_valid_fields() {
    let data = js(r#"{
        "field1": "short",
        "field2": "another short one",
        "nested": {"field3": "also valid"}
    }"#);

    let (truncated, violations) = validate_and_filter(&data);

    assert!(violations.is_empty());
    assert_eq!(truncated, data);
}

#[test]
fn test_truncate_nested_objects() {
    let over_500 = "b".repeat(520);
    let data = js(&format!(
        r#"{{"user": {{"name": "John", "bio": "{}", "email": "john@example.com"}}}}"#,
        over_500
    ));

    let (truncated, violations) = validate_and_filter(&data);
    let truncated = to_serde(&truncated);

    assert_eq!(violations.len(), 1);
    assert_eq!(violations[0].path, "user.bio");

    assert_eq!(truncated["user"]["name"], "John");
    assert_eq!(truncated["user"]["email"], "john@example.com");
    let truncated_bio = truncated["user"]["bio"].as_str().unwrap();
    assert_eq!(truncated_bio.len(), 500);
    assert!(truncated_bio.ends_with("TRUNCATED"));
}

#[test]
fn test_truncate_arrays() {
    let over_500 = "c".repeat(530);
    let data = js(&format!(r#"{{"items": ["valid item 1", "{}", "valid item 2"]}}"#, over_500));

    let (truncated, violations) = validate_and_filter(&data);
    let truncated = to_serde(&truncated);

    assert_eq!(violations.len(), 1);
    assert_eq!(violations[0].path, "items[1]");

    assert_eq!(truncated["items"].as_array().unwrap().len(), 3);
    assert_eq!(truncated["items"][0], "valid item 1");
    let truncated_item = truncated["items"][1].as_str().unwrap();
    assert_eq!(truncated_item.len(), 500);
    assert!(truncated_item.ends_with("TRUNCATED"));
    assert_eq!(truncated["items"][2], "valid item 2");
}

#[test]
fn test_truncate_multiple_violations() {
    let over_500_1 = "d".repeat(510);
    let over_500_2 = "e".repeat(540);
    let data = js(&format!(
        r#"{{"field1": "{}", "valid": "good", "nested": {{"field2": "{}", "also_valid": "fine"}}}}"#,
        over_500_1, over_500_2
    ));

    let (truncated, violations) = validate_and_filter(&data);
    let truncated = to_serde(&truncated);

    assert_eq!(violations.len(), 2);
    assert!(violations.iter().any(|v| v.path == "field1"));
    assert!(violations.iter().any(|v| v.path == "nested.field2"));

    let truncated_field1 = truncated["field1"].as_str().unwrap();
    assert_eq!(truncated_field1.len(), 500);
    assert!(truncated_field1.ends_with("TRUNCATED"));
    assert_eq!(truncated["valid"], "good");
    let truncated_field2 = truncated["nested"]["field2"].as_str().unwrap();
    assert_eq!(truncated_field2.len(), 500);
    assert!(truncated_field2.ends_with("TRUNCATED"));
    assert_eq!(truncated["nested"]["also_valid"], "fine");
}

#[test]
fn test_truncate_complex_nested_structure() {
    let over_500 = "x".repeat(505);
    let data = js(&format!(
        r#"{{"payload": {{"events": [{{"event_type": "click", "event_properties": {{"description": "{}", "page": "home"}}}}]}}}}"#,
        over_500
    ));

    let (truncated, violations) = validate_and_filter(&data);
    let truncated = to_serde(&truncated);

    assert_eq!(violations.len(), 1);
    assert_eq!(violations[0].path, "payload.events[0].event_properties.description");

    assert_eq!(truncated["payload"]["events"][0]["event_type"], "click");
    assert_eq!(truncated["payload"]["events"][0]["event_properties"]["page"], "home");
    let truncated_desc = truncated["payload"]["events"][0]["event_properties"]["description"].as_str().unwrap();
    assert_eq!(truncated_desc.len(), 500);
    assert!(truncated_desc.ends_with("TRUNCATED"));
}

#[test]
fn test_truncate_with_exactly_500_chars() {
    let exactly_500 = "a".repeat(500);
    let data = js(&format!(r#"{{"field": "{}"}}"#, exactly_500));

    let (truncated, violations) = validate_and_filter(&data);

    assert!(violations.is_empty());
    assert_eq!(to_serde(&truncated)["field"], exactly_500.as_str());
}

#[test]
fn truncation_scenario_bio_600() {
    let data = js(&format!(r#"{{"bio": "{}"}}"#, "a".repeat(600)));
    let (truncated, violations) = validate_and_filter(&data);
    let bio = to_serde(&truncated)["bio"].as_str().unwrap().to_string();
    assert_eq!(bio.chars().count(), 500);
    assert_eq!(&bio[..491], "a".repeat(491).as_str());
    assert_eq!(&bio[491..], "TRUNCATED");
    assert_eq!(violations, vec![FieldViolation::new("bio".to_string(), 600)]);
}

#[test]
fn truncation_counts_characters() {
    let long = "ø".repeat(501);
    let data = JsonValue::Str(long.clone());
    let (truncated, violations) = validate_and_filter(&data);
    assert_eq!(violations.len(), 1);
    assert_eq!(violations[0].path, "");
    assert_eq!(violations[0].length, 501);
    match truncated {
        JsonValue::Str(s) => {
            assert_eq!(s.chars().count(), 500);
            assert!(s.starts_with(&"ø".repeat(491)));
            assert!(s.ends_with("TRUNCATED"));
        }
        _ => panic!("a string stays a string"),
    }
    let short = JsonValue::Str("ø".repeat(500));
    assert!(validate_field_lengths(&short).is_ok());
}

#[test]
fn truncation_is_idempotent() {
    let data = js(&format!(r#"{{"a": ["{}", "ok"], "b": "{}"}}"#, "q".repeat(700), "r".repeat(501)));
    let (once, first) = validate_and_filter(&data);
    let (twice, second) = validate_and_filter(&once);
    assert_eq!(first.len(), 2);
    assert!(second.is_empty());
    assert_eq!(once, twice);
}

#[test]
fn validation_paths_for_top_level_arrays() {
    let data = js(&format!(r#"[["{}"]]"#, "z".repeat(501)));
    let violations = validate_field_lengths(&data).unwrap_err();
    assert_eq!(violations[0].path, "[0][0]");
}
