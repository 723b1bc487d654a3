//! The session-pattern tool of the MCP server: from a session id to a
//! classification, with a symbolic error code for each way it can fail.
//!
//! The server finds the candidate files, reads the chosen log and encodes
//! the answer as JSON; the steps between are here.
use vstd::prelude::*;

use crate::json::JsonValue;
use crate::json::{parse_records, spec_records};
use crate::parser::{fields_fit, parse_session, parsed_from, scan, too_many_failed, ParseError};
use crate::paths::{file_stem, std_file_stem};
use crate::pattern_classifier::{
    classified_as, classify_with_validation, ClassifyError, PatternResult,
    MIN_TURNS_FOR_CLASSIFICATION,
};
use crate::pattern_signals::{build_signals, signal_sums_fit, spec_signals};
use crate::session_finder::SessionLookupError;
use crate::text::string_views;
use vstd::string::StringExecFns;

verus! {

/// The symbolic code of a tool error.
#[derive(Debug, Clone, Copy, PartialEq, Eq, Structural)]
pub enum ToolErrorCode {
    SessionNotFound,
    AmbiguousSessionId,
    ParseFailed,
    InsufficientData,
    InternalError,
}

/// The code as it appears in messages and in the error data.
pub open spec fn spec_code_text(code: ToolErrorCode) -> Seq<char> {
    match code {
        ToolErrorCode::SessionNotFound => "SESSION_NOT_FOUND"@,
        ToolErrorCode::AmbiguousSessionId => "AMBIGUOUS_SESSION_ID"@,
        ToolErrorCode::ParseFailed => "PARSE_FAILED"@,
        ToolErrorCode::InsufficientData => "INSUFFICIENT_DATA"@,
        ToolErrorCode::InternalError => "INTERNAL_ERROR"@,
    }
}

impl ToolErrorCode {
    /// The code as it appears in messages and in the error data.
    pub fn as_str(&self) -> (r: &'static str)
        ensures
            r@ == spec_code_text(*self),
    {
        match self {
            ToolErrorCode::SessionNotFound => "SESSION_NOT_FOUND",
            ToolErrorCode::AmbiguousSessionId => "AMBIGUOUS_SESSION_ID",
            ToolErrorCode::ParseFailed => "PARSE_FAILED",
            ToolErrorCode::InsufficientData => "INSUFFICIENT_DATA",
            ToolErrorCode::InternalError => "INTERNAL_ERROR",
        }
    }
}

/// A failure of the pattern tool: a symbolic code and a message.
#[derive(Debug, PartialEq, Eq)]
pub struct PatternToolError {
    pub code: ToolErrorCode,
    pub message: String,
}

/// The MCP error class a tool error is reported under.
#[derive(Debug, Clone, Copy, PartialEq, Eq, Structural)]
pub enum McpErrorKind {
    /// The request named no single session, or one too short to classify.
    InvalidParams,
    /// The session log could not be parsed.
    InvalidRequest,
    /// Anything else.
    InternalError,
}

/// The MCP error class of each code.
pub open spec fn spec_error_kind(code: ToolErrorCode) -> McpErrorKind {
    match code {
        ToolErrorCode::SessionNotFound => McpErrorKind::InvalidParams,
        ToolErrorCode::AmbiguousSessionId => McpErrorKind::InvalidParams,
        ToolErrorCode::InsufficientData => McpErrorKind::InvalidParams,
        ToolErrorCode::ParseFailed => McpErrorKind::InvalidRequest,
        ToolErrorCode::InternalError => McpErrorKind::InternalError,
    }
}

/// The MCP error class of a tool error code.
pub fn mcp_error_kind(code: ToolErrorCode) -> (r: McpErrorKind)
    ensures
        r == spec_error_kind(code),
{
    match code {
        ToolErrorCode::SessionNotFound => McpErrorKind::InvalidParams,
        ToolErrorCode::AmbiguousSessionId => McpErrorKind::InvalidParams,
        ToolErrorCode::InsufficientData => McpErrorKind::InvalidParams,
        ToolErrorCode::ParseFailed => McpErrorKind::InvalidRequest,
        ToolErrorCode::InternalError => McpErrorKind::InternalError,
    }
}

/// The MCP message of a tool error: `<CODE>: <message>`.
pub fn mcp_error_message(error: &PatternToolError) -> (r: String)
    ensures
        r@ == spec_code_text(error.code) + ": "@ + error.message@,
{
    let mut s = String::from_str(error.code.as_str());
    s.append(": ");
    s.append(error.message.as_str());
    s
}

// ============================================================
// Lookup errors
// ============================================================
/// The stems of the paths that have one, in order.
pub open spec fn stems(paths: Seq<Seq<char>>) -> Seq<Seq<char>>
    decreases paths.len(),
{
    if paths.len() == 0 {
        Seq::empty()
    } else {
        let rest = stems(paths.drop_last());
        match std_file_stem(paths.last()) {
            Some(s) => rest.push(s),
            None => rest,
        }
    }
}

/// The pieces joined with `, `.
pub open spec fn join_comma(pieces: Seq<Seq<char>>) -> Seq<char>
    decreases pieces.len(),
{
    if pieces.len() == 0 {
        Seq::empty()
    } else if pieces.len() == 1 {
        pieces[0]
    } else {
        join_comma(pieces.drop_last()) + ", "@ + pieces.last()
    }
}

/// The tool error for a failed session lookup.
pub open spec fn spec_lookup_message(error: SessionLookupError) -> Seq<char> {
    match error {
        SessionLookupError::NotFound => "Session file not found"@,
        SessionLookupError::Ambiguous(paths) => "Session ID prefix matched multiple files: "@
            + join_comma(stems(string_views(paths@))),
    }
}

/// The tool error for a failed session lookup: not found, or an ambiguous
/// prefix listing the stems of the matching files.
pub fn session_lookup_error(error: SessionLookupError) -> (r: PatternToolError)
    ensures
        r.code == match error {
            SessionLookupError::NotFound => ToolErrorCode::SessionNotFound,
            SessionLookupError::Ambiguous(_) => ToolErrorCode::AmbiguousSessionId,
        },
        r.message@ == spec_lookup_message(error),
{
    match error {
        SessionLookupError::NotFound => PatternToolError {
            code: ToolErrorCode::SessionNotFound,
            message: String::from_str("Session file not found"),
        },
        SessionLookupError::Ambiguous(paths) => {
            let ghost ps = string_views(paths@);
            let mut joined = String::new();
            let mut any: bool = false;
            let mut i: usize = 0;
            while i < paths.len()
                invariant
                    i <= paths.len(),
                    ps == string_views(paths@),
                    any == (stems(ps.take(i as int)).len() > 0),
                    joined@ == join_comma(stems(ps.take(i as int))),
                decreases paths.len() - i,
            {
                assert(ps.take(i + 1).drop_last() =~= ps.take(i as int));
                match file_stem(paths[i].as_str()) {
                    Some(stem) => {
                        if any {
                            joined.append(", ");
                        }
                        joined.append(stem.as_str());
                        any = true;
                        proof {
                            reveal_strlit(", ");
                            let st = stems(ps.take(i + 1));
                            if st.len() == 1 {
                                assert(st =~= seq![stem@]);
                                assert(joined@ =~= join_comma(st));
                            } else {
                                assert(st.drop_last() =~= stems(ps.take(i as int)));
                                assert(joined@ =~= join_comma(st));
                            }
                        }
                    },
                    None => {},
                }
                i = i + 1;
            }
            assert(ps.take(paths.len() as int) =~= ps);
            let mut message = String::from_str("Session ID prefix matched multiple files: ");
            message.append(joined.as_str());
            PatternToolError { code: ToolErrorCode::AmbiguousSessionId, message }
        },
    }
}

// ============================================================
// Classification
// ============================================================
/// The message of a log that could not be parsed.
pub open spec fn parse_failed_message(e: ParseError) -> Seq<char> {
    "Failed to parse session file: "@ + e.spec_message()
}

/// The tool error for a log that could not be parsed.
pub fn parse_failed_error(e: &ParseError) -> (r: PatternToolError)
    requires
        e.is_consistent(),
    ensures
        r.code == ToolErrorCode::ParseFailed,
        r.message@ == parse_failed_message(*e),
{
    let mut message = String::from_str("Failed to parse session file: ");
    message.append(e.message().as_str());
    PatternToolError { code: ToolErrorCode::ParseFailed, message }
}

/// The tool error for a session too short to classify.
pub fn insufficient_data_error(e: &ClassifyError) -> (r: PatternToolError)
    ensures
        r.code == ToolErrorCode::InsufficientData,
        r.message@ == e.spec_message(),
{
    PatternToolError { code: ToolErrorCode::InsufficientData, message: e.message() }
}

/// `r` is what classifying the session whose log at `path` has the records
/// `records` gives.  A log that cannot be parsed is `PARSE_FAILED`, and so
/// is one whose rates would divide by a token sum beyond a `u64`; a session
/// with fewer than three turns is `INSUFFICIENT_DATA`.
pub open spec fn classification_of(
    path: Seq<char>,
    records: Seq<Option<JsonValue>>,
    r: Result<PatternResult, PatternToolError>,
) -> bool {
    let st = scan(records);
    if too_many_failed(st.2, records.len()) {
        r matches Err(e) && e.code == ToolErrorCode::ParseFailed && e.message@
            == parse_failed_message(
            ParseError::TooManyFailedLines { failed: st.2 as u64, total: records.len() as u64 },
        )
    } else if !fields_fit(st.0) {
        r matches Err(e) && e.code == ToolErrorCode::ParseFailed && e.message@
            == parse_failed_message(ParseError::TokenCountOverflow)
    } else {
        exists|p: crate::types::ParseResult|
            #[trigger] parsed_from(p, path, records) && if !signal_sums_fit(p) {
                r matches Err(e) && e.code == ToolErrorCode::ParseFailed && e.message@
                    == parse_failed_message(ParseError::TokenCountOverflow)
            } else {
                let s = spec_signals(p);
                if s.turn_count < MIN_TURNS_FOR_CLASSIFICATION {
                    r matches Err(e) && e.code == ToolErrorCode::InsufficientData && e.message@
                        == (ClassifyError::InsufficientData {
                        turn_count: s.turn_count,
                        minimum: MIN_TURNS_FOR_CLASSIFICATION,
                    }).spec_message()
                } else {
                    r matches Ok(res) && classified_as(res, s)
                }
            }
    }
}

/// Classify the session whose log at `path` has the records `records`: parse
/// it, extract its signals and classify them.
pub fn classify_session_records(path: &str, records: &Vec<Option<JsonValue>>) -> (r: Result<
    PatternResult,
    PatternToolError,
>)
    ensures
        classification_of(path@, records@, r),
{
    let parsed = match parse_session(path, records) {
        Ok(p) => p,
        Err(e) => {
            return Err(parse_failed_error(&e));
        },
    };
    if parsed.total_input_tokens as u128 + parsed.total_cache_read_tokens as u128
        + parsed.total_cache_creation_tokens as u128 > u64::MAX as u128
        || parsed.total_input_tokens as u128 + parsed.total_output_tokens as u128
        > u64::MAX as u128 {
        return Err(parse_failed_error(&ParseError::TokenCountOverflow));
    }
    let signals = build_signals(&parsed);
    match classify_with_validation(signals) {
        Ok(res) => Ok(res),
        Err(e) => Err(insufficient_data_error(&e)),
    }
}

/// Classify the session whose log at `path` holds the text `content`: its
/// record lines are read as JSON and classified as
/// [`classify_session_records`] does.
pub fn classify_session_text(path: &str, content: &str) -> (r: Result<
    PatternResult,
    PatternToolError,
>)
    ensures
        classification_of(path@, spec_records(content@), r),
{
    let records = parse_records(content);
    classify_session_records(path, &records)
}

} // verus!
