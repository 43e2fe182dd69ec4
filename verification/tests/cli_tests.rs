//! Configuration handling: the selector-text parsing.

use jconvert::Args;
use jconvert::WriteMode;
use jconvert::cli::trim_str;

fn base_args(fields: Option<String>) -> Args {
    Args {
        input: ".".to_string(),
        output: "out.jsonl".to_string(),
        mode: WriteMode::Overwrite,
        pattern: None,
        verbose: false,
        dry_run: false,
        validate_only: false,
        fields,
        threads: None,
        max_depth: None,
        log: None,
        pretty: false,
    }
}

#[test]
fn test_get_fields_parsing() {
    let args = base_args(Some("id, name, description".to_string()));

    let fields = args.get_fields().unwrap();
    assert_eq!(fields.len(), 3);
    assert_eq!(fields[0], "id");
    assert_eq!(fields[1], "name");
    assert_eq!(fields[2], "description");
}

#[test]
fn test_get_fields_none() {
    let args = base_args(None);
    assert!(args.get_fields().is_none());
}

#[test]
fn test_get_fields_drops_empty_pieces() {
    let args = base_args(Some(" , id,, name ,".to_string()));
    let fields = args.get_fields().unwrap();
    assert_eq!(fields, vec!["id".to_string(), "name".to_string()]);
}

#[test]
fn test_trim_str_behaviour() {
    assert_eq!(trim_str("  a b\t"), "a b");
    assert_eq!(trim_str("\u{3000}x\u{a0}"), "x");
    assert_eq!(trim_str("   "), "");
    assert_eq!(trim_str("plain"), "plain");
}

#[test]
fn test_write_mode_names() {
    assert_eq!(WriteMode::Overwrite.name(), "Overwrite");
    assert_eq!(WriteMode::Append.name(), "Append");
    assert_eq!(WriteMode::Error.name(), "Error");
}
