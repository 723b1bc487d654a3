//! Token accounting of session logs: parsing, breakdowns, compression
//! detection, usage-pattern classification, report formatting and the
//! archive.
pub mod accounting;
pub mod analyzer;
pub mod archiver;
pub mod cli_lib;
pub mod config;
pub mod decimal;
pub mod detector;
pub mod format;
pub mod json;
pub mod pattern_classifier;
pub mod parser;
pub mod paths;
pub mod pattern_signals;
pub mod pattern_tool;
pub mod pricing;
pub mod ratio;
pub mod session_finder;
pub mod sort;
pub mod storage;
pub mod text;
pub mod types;
