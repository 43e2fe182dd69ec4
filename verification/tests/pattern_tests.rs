//! Filename filtering: glob patterns and the `.json` extension test.

use jconvert::PatternMatcher;
use jconvert::pattern::is_json_candidate;
use jconvert::pattern::is_json_file;

#[test]
fn test_pattern_matcher_with_wildcard() {
    let matcher = PatternMatcher::new(Some("*_SUM_*".to_string())).unwrap();
    assert!(matcher.matches("test_SUM_1.json"));
    assert!(matcher.matches("HS_H_323503_SUM_15.json"));
    assert!(!matcher.matches("test.json"));
    assert!(!matcher.matches("SUM.json"));
}

#[test]
fn test_pattern_matcher_with_question_mark() {
    let matcher = PatternMatcher::new(Some("data?.json".to_string())).unwrap();
    assert!(matcher.matches("data1.json"));
    assert!(matcher.matches("dataA.json"));
    assert!(!matcher.matches("data.json"));
    assert!(!matcher.matches("data12.json"));
}

#[test]
fn test_pattern_matcher_with_brackets() {
    let matcher = PatternMatcher::new(Some("file[0-9].json".to_string())).unwrap();
    assert!(matcher.matches("file1.json"));
    assert!(matcher.matches("file9.json"));
    assert!(!matcher.matches("fileA.json"));
}

#[test]
fn test_pattern_matcher_none() {
    let matcher = PatternMatcher::new(None).unwrap();
    assert!(matcher.matches("anything.json"));
    assert!(matcher.matches("test_SUM_1.json"));
}

#[test]
fn test_pattern_matcher_invalid() {
    let result = PatternMatcher::new(Some("[invalid".to_string()));
    assert!(result.is_err());
}

#[test]
fn test_has_pattern() {
    let with_pattern = PatternMatcher::new(Some("*.json".to_string())).unwrap();
    let without_pattern = PatternMatcher::new(None).unwrap();

    assert!(with_pattern.has_pattern());
    assert!(!without_pattern.has_pattern());
}

#[test]
fn test_glob_star() {
    let matcher = PatternMatcher::new(Some("*.json".to_string())).unwrap();
    assert!(matcher.matches("test.json"));
    assert!(matcher.matches("data.json"));
    assert!(!matcher.matches("test.txt"));
}

#[test]
fn test_glob_question() {
    let matcher = PatternMatcher::new(Some("file?.json".to_string())).unwrap();
    assert!(matcher.matches("file1.json"));
    assert!(matcher.matches("fileA.json"));
    assert!(!matcher.matches("file.json"));
    assert!(!matcher.matches("file12.json"));
}

#[test]
fn test_glob_brackets() {
    let matcher = PatternMatcher::new(Some("[abc]*.json".to_string())).unwrap();
    assert!(matcher.matches("alpha.json"));
    assert!(matcher.matches("beta.json"));
    assert!(matcher.matches("charlie.json"));
    assert!(!matcher.matches("delta.json"));
}

#[test]
fn test_complex_pattern() {
    let matcher = PatternMatcher::new(Some("data_*_[0-9].json".to_string())).unwrap();
    assert!(matcher.matches("data_test_1.json"));
    assert!(matcher.matches("data_SUM_5.json"));
    assert!(!matcher.matches("data_test_10.json"));
    assert!(!matcher.matches("other_test_1.json"));
}

#[test]
fn test_sum_pattern_examples() {
    let matcher = PatternMatcher::new(Some("*_SUM_*".to_string())).unwrap();
    assert!(matcher.matches("data_SUM_1.json"));
    assert!(matcher.matches("HS_H_323503_SUM_15.json"));
    assert!(!matcher.matches("test.json"));
}

#[test]
fn test_is_json_file() {
    assert!(is_json_file("test.json"));
    assert!(is_json_file("TEST.JSON"));
    assert!(is_json_file("a.b.Json"));
    assert!(!is_json_file("test.jsonl"));
    assert!(!is_json_file(".json"));
    assert!(!is_json_file("json"));
    assert!(!is_json_file("test."));
}

#[test]
fn test_is_json_candidate() {
    let matcher = PatternMatcher::new(Some("*_SUM_*".to_string())).unwrap();
    assert!(is_json_candidate("data_SUM_1.json", &matcher));
    assert!(!is_json_candidate("data_SUM_1.txt", &matcher));
    assert!(!is_json_candidate("other.json", &matcher));

    let all = PatternMatcher::new(None).unwrap();
    assert!(is_json_candidate("anything.json", &all));
    assert!(!is_json_candidate("anything.xml", &all));
}
