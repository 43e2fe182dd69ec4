//! The error taxonomy and its operator-facing messages.

use jconvert::JConvertError;

#[test]
fn test_error_display() {
    let error = JConvertError::InputNotFound { path: "/nonexistent".to_string() };
    let msg = error.message();
    assert!(msg.contains("입력 폴더를 찾을 수 없습니다"));
}

#[test]
fn test_parse_error_display() {
    let error = JConvertError::ParseError {
        file: "test.json".to_string(),
        reason: "unexpected token".to_string(),
    };
    let msg = error.message();
    assert!(msg.contains("JSON 파싱 실패"));
    assert!(msg.contains("test.json"));
}

#[test]
fn test_every_error_message() {
    let cases = vec![
        (
            JConvertError::NotADirectory { path: "x".to_string() },
            "입력 경로가 폴더가 아닙니다: x",
        ),
        (
            JConvertError::OutputExists { path: "o.jsonl".to_string() },
            "출력 파일이 이미 존재합니다: o.jsonl",
        ),
        (
            JConvertError::FileOpenError { file: "f".to_string(), reason: "denied".to_string() },
            "파일을 열 수 없습니다 (f): denied",
        ),
        (
            JConvertError::SerializeError { file: "f".to_string(), reason: "bad".to_string() },
            "JSON 직렬화 실패 (f): bad",
        ),
        (
            JConvertError::WriteError { reason: "full".to_string() },
            "파일 쓰기 실패: full",
        ),
        (
            JConvertError::ThreadPoolError { reason: "no".to_string() },
            "스레드 풀 초기화 실패: no",
        ),
        (
            JConvertError::InvalidPattern { pattern: "[x".to_string() },
            "유효하지 않은 패턴: [x",
        ),
        (JConvertError::NoFilesFound, "처리할 JSON 파일이 없습니다"),
    ];
    for (error, expected) in cases {
        assert_eq!(error.message(), expected);
    }
}
