//! Field extraction and per-file processing.

use jconvert::JsonValue;
use jconvert::ProcessOptions;
use jconvert::processor::extract_fields;
use jconvert::processor::get_nested_field;
use jconvert::processor::process_content;
use jconvert::processor::validate_file;

fn num(text: &str) -> JsonValue {
    JsonValue::Num(text.to_string())
}

fn string(text: &str) -> JsonValue {
    JsonValue::Str(text.to_string())
}

fn obj(members: Vec<(&str, JsonValue)>) -> JsonValue {
    JsonValue::Obj(members.into_iter().map(|(k, v)| (k.to_string(), v)).collect())
}

#[test]
fn test_extract_fields_simple() {
    let json = obj(vec![
        ("id", num("1")),
        ("name", string("test")),
        ("description", string("A test item")),
        ("extra", string("not needed")),
    ]);

    let fields = vec!["id".to_string(), "name".to_string()];
    let result = extract_fields(&json, &fields);

    assert_eq!(result.get("id"), Some(&num("1")));
    assert_eq!(result.get("name"), Some(&string("test")));
    assert_eq!(result.get("description"), None);
    assert_eq!(result.get("extra"), None);
}

#[test]
fn test_extract_fields_nested() {
    let json = obj(vec![(
        "user",
        obj(vec![("name", string("John")), ("profile", obj(vec![("age", num("30"))]))]),
    )]);

    let fields = vec!["user.name".to_string(), "user.profile.age".to_string()];
    let result = extract_fields(&json, &fields);

    assert_eq!(result.get("user_name"), Some(&string("John")));
    assert_eq!(result.get("user_profile_age"), Some(&num("30")));
}

#[test]
fn test_extract_fields_array() {
    let json = JsonValue::Arr(vec![
        obj(vec![("id", num("1")), ("name", string("a")), ("extra", string("x"))]),
        obj(vec![("id", num("2")), ("name", string("b")), ("extra", string("y"))]),
    ]);

    let fields = vec!["id".to_string(), "name".to_string()];
    let result = extract_fields(&json, &fields);

    match &result {
        JsonValue::Arr(items) => {
            assert_eq!(items.len(), 2);
            assert_eq!(items[0].get("id"), Some(&num("1")));
            assert_eq!(items[0].get("extra"), None);
        }
        other => panic!("expected an array, got {:?}", other),
    }
}

#[test]
fn test_extract_fields_array_broadcast() {
    let json = JsonValue::Arr(vec![
        obj(vec![("id", num("1")), ("name", string("a")), ("extra", string("x"))]),
        obj(vec![("id", num("2")), ("name", string("b"))]),
    ]);

    let fields = vec!["id".to_string(), "name".to_string()];
    let result = extract_fields(&json, &fields);

    let expected = JsonValue::Arr(vec![
        obj(vec![("id", num("1")), ("name", string("a"))]),
        obj(vec![("id", num("2")), ("name", string("b"))]),
    ]);
    assert_eq!(result, expected);
}

#[test]
fn test_extract_fields_repeatable() {
    let json = obj(vec![("user", obj(vec![("name", string("John"))])), ("meta", num("7"))]);
    let fields = vec!["user.name".to_string(), "meta".to_string()];

    let first = extract_fields(&json, &fields);
    let second = extract_fields(&json, &fields);
    assert_eq!(first, second);
}

#[test]
fn test_get_nested_field() {
    let json = obj(vec![("a", obj(vec![("b", obj(vec![("c", string("value"))]))]))]);

    assert_eq!(get_nested_field(&json, "a.b.c"), Some(&string("value")));
    assert_eq!(get_nested_field(&json, "a.b"), Some(&obj(vec![("c", string("value"))])));
    assert_eq!(get_nested_field(&json, "a.x"), None);
}

#[test]
fn test_get_nested_field_array_index() {
    let json = obj(vec![("items", JsonValue::Arr(vec![num("10"), num("20"), num("30")]))]);

    assert_eq!(get_nested_field(&json, "items.0"), Some(&num("10")));
    assert_eq!(get_nested_field(&json, "items.2"), Some(&num("30")));
    assert_eq!(get_nested_field(&json, "items.3"), None);
    assert_eq!(get_nested_field(&json, "items.x"), None);
}

#[test]
fn test_process_options_builder() {
    let options = ProcessOptions::new()
        .with_fields(Some(vec!["id".to_string()]))
        .with_pretty(true)
        .with_validate_only(false);

    assert_eq!(options.fields, Some(vec!["id".to_string()]));
    assert!(options.pretty);
    assert!(!options.validate_only);
}

#[test]
fn test_process_valid_json() {
    let content = br#"{"key": "value"}"#;
    let options = ProcessOptions::new();
    let result = process_content("test.json".to_string(), content, content.len() as u64, &options);

    assert!(result.is_valid);
    assert!(result.json_line.is_some());
    assert!(result.error.is_none());
}

#[test]
fn test_process_invalid_json() {
    let content = br#"{"broken json"#;
    let options = ProcessOptions::new();
    let result = process_content(
        "invalid.json".to_string(),
        content,
        content.len() as u64,
        &options,
    );

    assert!(!result.is_valid);
    assert!(result.json_line.is_none());
    assert!(result.error.is_some());
}

#[test]
fn test_field_selection() {
    let content = br#"{"id": 1, "name": "test", "extra": "data"}"#;
    let options = ProcessOptions::new().with_fields(Some(vec![
        "id".to_string(),
        "name".to_string(),
    ]));
    let result = process_content("test.json".to_string(), content, content.len() as u64, &options);

    assert!(result.is_valid);
    let json_line = result.json_line.unwrap();
    assert!(json_line.contains("\"id\":1") || json_line.contains("\"id\": 1"));
    assert!(json_line.contains("\"name\""));
    assert!(!json_line.contains("\"extra\""));
}

#[test]
fn test_nested_field_selection() {
    let content = br#"{"user": {"name": "John", "age": 30}, "meta": "ignored"}"#;
    let options = ProcessOptions::new().with_fields(Some(vec!["user.name".to_string()]));
    let result = process_content("test.json".to_string(), content, content.len() as u64, &options);

    assert!(result.is_valid);
    let json_line = result.json_line.unwrap();
    assert!(json_line.contains("John"));
    assert!(!json_line.contains("meta"));
}

#[test]
fn test_pretty_output() {
    let content = br#"{"key": "value"}"#;
    let options = ProcessOptions::new().with_pretty(true);
    let result = process_content("test.json".to_string(), content, content.len() as u64, &options);

    assert!(result.is_valid);
    let json_line = result.json_line.unwrap();
    assert!(json_line.contains('\n'));
}

#[test]
fn test_validate_only() {
    let content = br#"{"key": "value"}"#;
    let options = ProcessOptions::new().with_validate_only(true);
    let result = process_content("test.json".to_string(), content, content.len() as u64, &options);

    assert!(result.is_valid);
    assert!(result.json_line.is_none());
}

#[test]
fn test_validate_file_outcomes() {
    let good = br#"[1, 2, 3]"#;
    let result = validate_file("good.json".to_string(), good, good.len() as u64);
    assert!(result.is_valid);
    assert!(result.json_line.is_none());
    assert!(result.error.is_none());

    let bad = br#"[1, 2,"#;
    let result = validate_file("bad.json".to_string(), bad, bad.len() as u64);
    assert!(!result.is_valid);
    assert!(result.error.is_some());
}

#[test]
fn test_serialized_line_exact() {
    let content = br#"{ "key" : "value" }"#;
    let options = ProcessOptions::new();
    let result = process_content("test.json".to_string(), content, content.len() as u64, &options);
    assert_eq!(result.json_line.unwrap(), "{\"key\":\"value\"}");

    let options = ProcessOptions::new().with_pretty(true);
    let result = process_content("test.json".to_string(), content, content.len() as u64, &options);
    assert_eq!(result.json_line.unwrap(), "{\n  \"key\": \"value\"\n}");
}

#[test]
fn test_flattening_example() {
    let content = br#"{"user":{"profile":{"age":30}}}"#;
    let options = ProcessOptions::new().with_fields(Some(vec!["user.profile.age".to_string()]));
    let result = process_content("test.json".to_string(), content, content.len() as u64, &options);
    assert_eq!(result.json_line.unwrap(), "{\"user_profile_age\":30}");

    let options = ProcessOptions::new().with_fields(Some(vec!["user.profile.name".to_string()]));
    let result = process_content("test.json".to_string(), content, content.len() as u64, &options);
    assert_eq!(result.json_line.unwrap(), "{}");
}

#[test]
fn test_parse_failure_message_shape() {
    let content = br#"{"id""#;
    let options = ProcessOptions::new();
    let result = process_content(
        "broken.json".to_string(),
        content,
        content.len() as u64,
        &options,
    );
    let message = result.error.unwrap();
    assert!(message.starts_with("JSON 파싱 실패 (broken.json): "));
}

#[test]
fn test_compact_line_has_no_newline() {
    let content = br#"{"a": [1, 2], "b": {"c": "x\ny"}}"#;
    let options = ProcessOptions::new();
    let result = process_content("t.json".to_string(), content, content.len() as u64, &options);
    let line = result.json_line.unwrap();
    assert!(!line.contains('\n'));
}

#[test]
fn test_threshold_does_not_change_output() {
    let content = br#"{"id": 7, "name": "x"}"#;
    let mut low = ProcessOptions::new();
    low.mmap_threshold = 0;
    let mut high = ProcessOptions::new();
    high.mmap_threshold = u64::MAX;

    let a = process_content("t.json".to_string(), content, content.len() as u64, &low);
    let b = process_content("t.json".to_string(), content, content.len() as u64, &high);
    assert_eq!(a.json_line, b.json_line);
    assert_eq!(a.is_valid, b.is_valid);
}

#[test]
fn test_scalar_passthrough() {
    let content = br#"42"#;
    let options = ProcessOptions::new().with_fields(Some(vec!["id".to_string()]));
    let result = process_content("n.json".to_string(), content, content.len() as u64, &options);
    assert_eq!(result.json_line.unwrap(), "42");
}
