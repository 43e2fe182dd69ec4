//! The error taxonomy of a run.
//!
//! Configuration errors abort a run before any file is touched; per-file
//! errors are carried as text inside the per-file result and never abort
//! the run.

use vstd::prelude::*;
use vstd::string::*;

verus! {

/// The message text of a JSON parse failure for a file.
pub open spec fn parse_error_text(file: Seq<char>, reason: Seq<char>) -> Seq<char> {
    "JSON 파싱 실패 ("@ + file + "): "@ + reason
}

/// Everything that can go wrong during a run.
#[derive(Debug)]
pub enum JConvertError {
    /// The input folder does not exist.
    InputNotFound { path: String },
    /// The input path is not a folder.
    NotADirectory { path: String },
    /// The output file already exists and the write mode forbids that.
    OutputExists { path: String },
    /// A source file could not be opened or read.
    FileOpenError { file: String, reason: String },
    /// A source file does not hold valid JSON.
    ParseError { file: String, reason: String },
    /// A parsed document could not be serialized.
    SerializeError { file: String, reason: String },
    /// The output file could not be written.
    WriteError { reason: String },
    /// The worker pool could not be built.
    ThreadPoolError { reason: String },
    /// The filename filter is not a valid glob pattern.
    InvalidPattern { pattern: String },
    /// No JSON file survived discovery and filtering.
    NoFilesFound,
}

impl JConvertError {
    /// The operator-facing description of this error.
    pub open spec fn message_spec(self) -> Seq<char> {
        match self {
            JConvertError::InputNotFound { path } => "입력 폴더를 찾을 수 없습니다: "@ + path@,
            JConvertError::NotADirectory { path } => "입력 경로가 폴더가 아닙니다: "@ + path@,
            JConvertError::OutputExists { path } => "출력 파일이 이미 존재합니다: "@ + path@,
            JConvertError::FileOpenError { file, reason } => "파일을 열 수 없습니다 ("@ + file@
                + "): "@ + reason@,
            JConvertError::ParseError { file, reason } => parse_error_text(file@, reason@),
            JConvertError::SerializeError { file, reason } => "JSON 직렬화 실패 ("@ + file@
                + "): "@ + reason@,
            JConvertError::WriteError { reason } => "파일 쓰기 실패: "@ + reason@,
            JConvertError::ThreadPoolError { reason } => "스레드 풀 초기화 실패: "@ + reason@,
            JConvertError::InvalidPattern { pattern } => "유효하지 않은 패턴: "@ + pattern@,
            JConvertError::NoFilesFound => "처리할 JSON 파일이 없습니다"@,
        }
    }

    /// Render the description; tests and the surrounding program read
    /// errors through this.
    pub fn message(&self) -> (r: String)
        ensures
            r@ == self.message_spec(),
    {
        match self {
            JConvertError::InputNotFound { path } => {
                let mut s = "입력 폴더를 찾을 수 없습니다: ".to_owned();
                s.append(path.as_str());
                s
            },
            JConvertError::NotADirectory { path } => {
                let mut s = "입력 경로가 폴더가 아닙니다: ".to_owned();
                s.append(path.as_str());
                s
            },
            JConvertError::OutputExists { path } => {
                let mut s = "출력 파일이 이미 존재합니다: ".to_owned();
                s.append(path.as_str());
                s
            },
            JConvertError::FileOpenError { file, reason } => {
                let mut s = "파일을 열 수 없습니다 (".to_owned();
                s.append(file.as_str());
                s.append("): ");
                s.append(reason.as_str());
                s
            },
            JConvertError::ParseError { file, reason } => {
                let mut s = "JSON 파싱 실패 (".to_owned();
                s.append(file.as_str());
                s.append("): ");
                s.append(reason.as_str());
                s
            },
            JConvertError::SerializeError { file, reason } => {
                let mut s = "JSON 직렬화 실패 (".to_owned();
                s.append(file.as_str());
                s.append("): ");
                s.append(reason.as_str());
                s
            },
            JConvertError::WriteError { reason } => {
                let mut s = "파일 쓰기 실패: ".to_owned();
                s.append(reason.as_str());
                s
            },
            JConvertError::ThreadPoolError { reason } => {
                let mut s = "스레드 풀 초기화 실패: ".to_owned();
                s.append(reason.as_str());
                s
            },
            JConvertError::InvalidPattern { pattern } => {
                let mut s = "유효하지 않은 패턴: ".to_owned();
                s.append(pattern.as_str());
                s
            },
            JConvertError::NoFilesFound => "처리할 JSON 파일이 없습니다".to_owned(),
        }
    }
}

} // verus!
