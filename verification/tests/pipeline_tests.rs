//! The run-level decision logic: folding results, write-mode policy,
//! input validation and the error log.

use jconvert::ProcessOptions;
use jconvert::ProcessResult;
use jconvert::Statistics;
use jconvert::WriteMode;
use jconvert::pipeline::check_output_mode;
use jconvert::pipeline::error_log_text;
use jconvert::pipeline::fold_conversion_results;
use jconvert::pipeline::fold_validation_results;
use jconvert::pipeline::validate_input;
use jconvert::processor::process_content;

fn convert(name: &str, content: &[u8]) -> ProcessResult {
    let options = ProcessOptions::new();
    process_content(name.to_string(), content, content.len() as u64, &options)
}

fn validate(name: &str, content: &[u8]) -> ProcessResult {
    let options = ProcessOptions::new().with_validate_only(true);
    process_content(name.to_string(), content, content.len() as u64, &options)
}

#[test]
fn test_fold_conversion_counts_and_bytes() {
    let results = vec![
        convert("a.json", br#"{"id": 1}"#),
        convert("b.json", br#"{"id": 2, "name": "b"}"#),
        convert("broken.json", br#"{"id""#),
    ];
    let mut stats = Statistics::new(3);
    let (lines, errors) = fold_conversion_results(&results, &mut stats);

    assert_eq!(stats.get_success_count(), 2);
    assert_eq!(stats.get_error_count(), 1);
    assert_eq!(stats.get_success_count() + stats.get_error_count(), 3);

    assert_eq!(lines, vec!["{\"id\":1}".to_string(), "{\"id\":2,\"name\":\"b\"}".to_string()]);
    assert_eq!(errors.len(), 1);
    assert_eq!(errors[0].0, "broken.json");

    let expected_written: u64 = lines.iter().map(|l| l.len() as u64 + 1).sum();
    assert_eq!(stats.total_bytes_written, expected_written);
    let expected_read: u64 = 9 + 22;
    assert_eq!(stats.total_bytes_read, expected_read);
}

#[test]
fn test_fold_validation_counts() {
    let results = vec![
        validate("a.json", br#"{"ok": true}"#),
        validate("bad.json", br#"nope"#),
        validate("c.json", br#"[1]"#),
    ];
    let mut stats = Statistics::new(3);
    let errors = fold_validation_results(&results, &mut stats);

    assert_eq!(stats.get_success_count(), 2);
    assert_eq!(stats.get_validation_failed(), 1);
    assert_eq!(stats.get_success_count() + stats.get_validation_failed(), 3);
    assert_eq!(errors.len(), 1);
    assert_eq!(errors[0].0, "bad.json");
    assert_eq!(stats.total_bytes_read, 12 + 3);
}

#[test]
fn test_fold_fits_predicates() {
    let results = vec![convert("a.json", br#"{"id": 1}"#)];
    let mut stats = Statistics::new(1);
    assert!(jconvert::pipeline::conversion_fold_fits(&results, &stats));
    assert!(jconvert::pipeline::validation_fold_fits(&results, &stats));

    stats.success_count = usize::MAX;
    assert!(!jconvert::pipeline::conversion_fold_fits(&results, &stats));
    assert!(!jconvert::pipeline::validation_fold_fits(&results, &stats));

    let mut stats = Statistics::new(1);
    stats.total_bytes_written = u64::MAX;
    assert!(!jconvert::pipeline::conversion_fold_fits(&results, &stats));
}

#[test]
fn test_check_output_mode_semantics() {
    assert!(check_output_mode(WriteMode::Error, true, "out.jsonl").is_err());
    assert!(check_output_mode(WriteMode::Error, false, "out.jsonl").is_ok());
    assert!(check_output_mode(WriteMode::Overwrite, true, "out.jsonl").is_ok());
    assert!(check_output_mode(WriteMode::Append, true, "out.jsonl").is_ok());

    let err = check_output_mode(WriteMode::Error, true, "out.jsonl").unwrap_err();
    assert!(err.message().contains("출력 파일이 이미 존재합니다"));
    assert!(err.message().contains("out.jsonl"));
}

#[test]
fn test_validate_input_decisions() {
    assert!(validate_input(true, true, "data").is_ok());

    let missing = validate_input(false, false, "/nonexistent").unwrap_err();
    assert!(missing.message().contains("입력 폴더를 찾을 수 없습니다"));

    let not_dir = validate_input(true, false, "file.txt").unwrap_err();
    assert!(not_dir.message().contains("입력 경로가 폴더가 아닙니다"));
}

#[test]
fn test_error_log_text_format() {
    let errors = vec![("a.json".to_string(), "broken".to_string())];
    let text = error_log_text(&errors, 42);
    let expected = "jconvert 에러 로그\n생성 시간: Unix timestamp: 42\n총 에러 수: 1\n\
==================================================\n\n파일: a.json\n에러: broken\n";
    assert_eq!(text, expected);
}

#[test]
fn test_error_log_text_empty() {
    let errors: Vec<(String, String)> = vec![];
    let text = error_log_text(&errors, 0);
    assert!(text.contains("총 에러 수: 0"));
    assert!(!text.contains("파일:"));
}
