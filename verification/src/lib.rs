//! Merge a folder of JSON documents into one JSON-Lines stream.
//!
//! The crate is organised around a small set of verified components:
//! a model of JSON documents and the field-selection algorithm over it
//! (`json`), filename filtering (`pattern`), per-file processing
//! (`processor`), run statistics and number formatting (`stats`), the
//! decision logic of a whole run (`pipeline`), configuration (`cli`) and
//! the error taxonomy (`error`).

pub mod cli;
pub mod error;
pub mod json;
pub mod pattern;
pub mod pipeline;
pub mod processor;
pub mod stats;

pub use cli::Args;
pub use cli::WriteMode;
pub use error::JConvertError;
pub use json::JsonValue;
pub use pattern::PatternMatcher;
pub use processor::ProcessOptions;
pub use processor::ProcessResult;
pub use processor::process_content;
pub use processor::validate_file;
pub use stats::Statistics;
pub use stats::format_bytes;
