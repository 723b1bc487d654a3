use token_analyzer::pattern_classifier::{Pattern, PatternResult, Severity};
use token_analyzer::pattern_tool::{
    classify_session_text, mcp_error_kind, mcp_error_message, session_lookup_error,
    McpErrorKind, PatternToolError, ToolErrorCode,
};
use token_analyzer::session_finder::resolve_session_file;

const DIR: &str = "/tmp/projects";

fn assistant_line(
    request_id: &str,
    timestamp: &str,
    input_tokens: u64,
    output_tokens: u64,
    cache_creation_input_tokens: u64,
    cache_read_input_tokens: u64,
    tools_json: &str,
) -> String {
    format!(
        r#"{{"type":"assistant","requestId":"{request_id}","timestamp":"{timestamp}","isSidechain":false,"message":{{"model":"sonnet-4-20250514","id":"msg_{request_id}","role":"assistant","content":[{{"type":"text","text":"turn"}},{tools_json}],"stop_reason":"tool_use","usage":{{"input_tokens":{input_tokens},"output_tokens":{output_tokens},"cache_creation_input_tokens":{cache_creation_input_tokens},"cache_read_input_tokens":{cache_read_input_tokens}}}}}}}"#
    )
}

fn timestamp_for(offset_minutes: u32) -> String {
    let total_minutes = 6 * 60 + offset_minutes;
    let hour = total_minutes / 60;
    let minute = total_minutes % 60;
    format!("2026-03-20T{hour:02}:{minute:02}:00.000Z")
}

/// A session log: its path and its text.
fn write_session(session_id: &str, lines: &[String]) -> (String, String) {
    (format!("{DIR}/{session_id}.jsonl"), lines.join("\n"))
}

/// What the session-pattern tool answers for `query` over the given logs.
fn classify_session_pattern(
    logs: &[(String, String)],
    query: &str,
) -> Result<PatternResult, PatternToolError> {
    let files: Vec<String> = logs.iter().map(|(p, _)| p.clone()).collect();
    let path = resolve_session_file(&files, query).map_err(session_lookup_error)?;
    let content = &logs.iter().find(|(p, _)| *p == path).unwrap().1;
    classify_session_text(&path, content)
}

#[test]
fn test_classify_session_pattern_json_supports_unique_prefix() {
    let logs = [write_session(
        "abc12345-session",
        &[
            assistant_line("req_1", "2026-03-20T06:00:00.000Z", 100, 50, 0, 200, r#"{"type":"tool_use","id":"toolu_1","name":"Read","input":{"file_path":"/src/lib.rs"}}"#),
            assistant_line("req_2", "2026-03-20T06:01:00.000Z", 100, 50, 0, 200, r#"{"type":"tool_use","id":"toolu_2","name":"Grep","input":{"pattern":"todo"}}"#),
            assistant_line("req_3", "2026-03-20T06:02:00.000Z", 100, 50, 0, 200, r#"{"type":"tool_use","id":"toolu_3","name":"Read","input":{"file_path":"/src/main.rs"}}"#),
        ],
    )];
    let value = classify_session_pattern(&logs, "abc12345").unwrap();
    assert_eq!(value.pattern, Pattern::Observer);
    assert_eq!(value.severity, Severity::Info);
    assert_eq!(value.signals.turn_count, 3);
}

#[test]
fn test_classify_session_pattern_json_returns_cold_session() {
    let logs = [write_session(
        "cold-session",
        &[
            assistant_line("req_1", &timestamp_for(0), 200, 20, 0, 0, r#"{"type":"tool_use","id":"toolu_1","name":"Read","input":{"file_path":"/src/lib.rs"}}"#),
            assistant_line("req_2", &timestamp_for(1), 200, 20, 0, 0, r#"{"type":"tool_use","id":"toolu_2","name":"Read","input":{"file_path":"/src/main.rs"}}"#),
            assistant_line("req_3", &timestamp_for(2), 200, 20, 0, 0, r#"{"type":"tool_use","id":"toolu_3","name":"Grep","input":{"pattern":"todo"}}"#),
        ],
    )];
    let value = classify_session_pattern(&logs, "cold-session").unwrap();
    assert_eq!(value.pattern, Pattern::ColdSession);
    assert_eq!(value.severity, Severity::Alert);
}

#[test]
fn test_classify_session_pattern_json_returns_correction_spiral() {
    let logs = [write_session(
        "spiral-session",
        &[
            assistant_line("req_1", &timestamp_for(0), 50, 45, 0, 50, r#"{"type":"tool_use","id":"toolu_1","name":"Edit","input":{"file_path":"/src/lib.rs"}}"#),
            assistant_line("req_2", &timestamp_for(1), 50, 45, 0, 50, r#"{"type":"tool_use","id":"toolu_2","name":"Write","input":{"file_path":"/src/lib.rs"}}"#),
            assistant_line("req_3", &timestamp_for(2), 50, 45, 0, 50, r#"{"type":"tool_use","id":"toolu_3","name":"MultiEdit","input":{"file_path":"/src/lib.rs"}}"#),
            assistant_line("req_4", &timestamp_for(3), 50, 45, 0, 50, r#"{"type":"tool_use","id":"toolu_4","name":"Edit","input":{"file_path":"/src/lib.rs"}}"#),
        ],
    )];
    let value = classify_session_pattern(&logs, "spiral-session").unwrap();
    assert_eq!(value.pattern, Pattern::CorrectionSpiral);
    assert_eq!(value.severity, Severity::Warn);
    assert_eq!(value.signals.repeated_edit_peak, 4);
}

#[test]
fn test_classify_session_pattern_json_returns_subagent_swarm() {
    let lines: Vec<String> = (0..11)
        .map(|i| {
            assistant_line(&format!("req_{}", i + 1), &timestamp_for(i), 100, 30, 0, 200, r#"{"type":"tool_use","id":"toolu_agent","name":"Agent","input":{"task":"review"}}"#)
        })
        .collect();
    let logs = [write_session("swarm-session", &lines)];
    let value = classify_session_pattern(&logs, "swarm-session").unwrap();
    assert_eq!(value.pattern, Pattern::SubagentSwarm);
    assert_eq!(value.severity, Severity::Warn);
    assert_eq!(value.signals.subagent_count, 11);
}

#[test]
fn test_classify_session_pattern_json_returns_kitchen_sink() {
    let tool_payloads = [
        r#"{"type":"tool_use","id":"toolu_1","name":"Read","input":{"file_path":"/src/a.rs"}}"#,
        r#"{"type":"tool_use","id":"toolu_2","name":"Grep","input":{"pattern":"alpha"}}"#,
        r#"{"type":"tool_use","id":"toolu_3","name":"Edit","input":{"file_path":"/src/a.rs"}}"#,
        r#"{"type":"tool_use","id":"toolu_4","name":"Read","input":{"file_path":"/src/b.rs"}}"#,
        r#"{"type":"tool_use","id":"toolu_5","name":"Glob","input":{"pattern":"*.rs"}}"#,
        r#"{"type":"tool_use","id":"toolu_6","name":"Edit","input":{"file_path":"/src/b.rs"}}"#,
        r#"{"type":"tool_use","id":"toolu_7","name":"Read","input":{"file_path":"/src/c.rs"}}"#,
        r#"{"type":"tool_use","id":"toolu_8","name":"Grep","input":{"pattern":"beta"}}"#,
        r#"{"type":"tool_use","id":"toolu_9","name":"Write","input":{"file_path":"/src/a.rs"}}"#,
        r#"{"type":"tool_use","id":"toolu_10","name":"Read","input":{"file_path":"/src/d.rs"}}"#,
        r#"{"type":"tool_use","id":"toolu_11","name":"Glob","input":{"pattern":"*.md"}}"#,
        r#"{"type":"tool_use","id":"toolu_12","name":"MultiEdit","input":{"file_path":"/src/b.rs"}}"#,
    ];
    let lines: Vec<String> = tool_payloads
        .iter()
        .enumerate()
        .map(|(i, payload)| assistant_line(&format!("req_{}", i + 1), &timestamp_for(i as u32), 100, 20, 0, 200, payload))
        .collect();
    let logs = [write_session("kitchen-session", &lines)];
    let value = classify_session_pattern(&logs, "kitchen-session").unwrap();
    assert_eq!(value.pattern, Pattern::KitchenSink);
    assert_eq!(value.severity, Severity::Info);
    assert_eq!(value.signals.topic_shift_count, 4);
    assert_eq!(value.signals.repeated_edit_peak, 2);
}

#[test]
fn test_classify_session_pattern_json_returns_marathon() {
    let lines: Vec<String> = (0..61)
        .map(|i| {
            assistant_line(&format!("req_{}", i + 1), &timestamp_for(i * 2), 50, 20, 0, 200, r#"{"type":"tool_use","id":"toolu_read","name":"Read","input":{"file_path":"/src/lib.rs"}}"#)
        })
        .collect();
    let logs = [write_session("marathon-session", &lines)];
    let value = classify_session_pattern(&logs, "marathon-session").unwrap();
    assert_eq!(value.pattern, Pattern::Marathon);
    assert_eq!(value.severity, Severity::Info);
    assert_eq!(value.signals.duration_minutes, Some(120));
}

#[test]
fn test_classify_session_pattern_json_returns_normal() {
    let logs = [write_session(
        "normal-session",
        &[
            assistant_line("req_1", &timestamp_for(0), 120, 30, 0, 120, r#"{"type":"tool_use","id":"toolu_1","name":"Read","input":{"file_path":"/src/a.rs"}}"#),
            assistant_line("req_2", &timestamp_for(1), 120, 30, 0, 120, r#"{"type":"tool_use","id":"toolu_2","name":"Edit","input":{"file_path":"/src/a.rs"}}"#),
            assistant_line("req_3", &timestamp_for(2), 120, 30, 0, 120, r#"{"type":"tool_use","id":"toolu_3","name":"Read","input":{"file_path":"/src/b.rs"}}"#),
            assistant_line("req_4", &timestamp_for(3), 120, 30, 0, 120, r#"{"type":"tool_use","id":"toolu_4","name":"Grep","input":{"pattern":"gamma"}}"#),
            assistant_line("req_5", &timestamp_for(4), 120, 30, 0, 120, r#"{"type":"tool_use","id":"toolu_5","name":"Write","input":{"file_path":"/src/a.rs"}}"#),
        ],
    )];
    let value = classify_session_pattern(&logs, "normal-session").unwrap();
    assert_eq!(value.pattern, Pattern::Normal);
    assert_eq!(value.severity, Severity::Info);
    assert_eq!(value.signals.repeated_edit_peak, 2);
}

#[test]
fn test_classify_session_pattern_json_returns_not_found_error() {
    let logs: [(String, String); 0] = [];
    let error = classify_session_pattern(&logs, "missing").unwrap_err();
    assert_eq!(error.code.as_str(), "SESSION_NOT_FOUND");
}

#[test]
fn test_classify_session_pattern_json_returns_ambiguous_error() {
    let logs = [
        write_session("abc12345-one", &[]),
        write_session("abc12345-two", &[]),
    ];
    let error = classify_session_pattern(&logs, "abc12345").unwrap_err();
    assert_eq!(error.code.as_str(), "AMBIGUOUS_SESSION_ID");
    assert_eq!(
        error.message,
        "Session ID prefix matched multiple files: abc12345-one, abc12345-two"
    );
}

#[test]
fn test_classify_session_pattern_json_returns_parse_failed_error() {
    let logs = [(format!("{DIR}/broken.jsonl"), "{\n{\n{\n".to_string())];
    let error = classify_session_pattern(&logs, "broken").unwrap_err();
    assert_eq!(error.code.as_str(), "PARSE_FAILED");
}

#[test]
fn test_classify_session_pattern_json_returns_insufficient_data_error() {
    let logs = [write_session(
        "short-session",
        &[
            assistant_line("req_1", "2026-03-20T06:00:00.000Z", 100, 50, 0, 200, r#"{"type":"tool_use","id":"toolu_1","name":"Read","input":{"file_path":"/src/lib.rs"}}"#),
            assistant_line("req_2", "2026-03-20T06:01:00.000Z", 100, 50, 0, 200, r#"{"type":"tool_use","id":"toolu_2","name":"Read","input":{"file_path":"/src/main.rs"}}"#),
        ],
    )];
    let error = classify_session_pattern(&logs, "short-session").unwrap_err();
    assert_eq!(error.code.as_str(), "INSUFFICIENT_DATA");
    assert!(error.message.contains("assistant turn(s), minimum is 3"));
}

#[test]
fn test_pattern_tool_error_to_mcp_includes_symbolic_code_in_data() {
    let error = PatternToolError {
        code: ToolErrorCode::SessionNotFound,
        message: "Session file not found".to_string(),
    };
    assert_eq!(mcp_error_kind(error.code), McpErrorKind::InvalidParams);
    assert_eq!(
        mcp_error_message(&error),
        "SESSION_NOT_FOUND: Session file not found"
    );
    assert_eq!(error.code.as_str(), "SESSION_NOT_FOUND");
}

// --- own checks ---

#[test]
fn error_classes_of_each_code() {
    assert_eq!(mcp_error_kind(ToolErrorCode::AmbiguousSessionId), McpErrorKind::InvalidParams);
    assert_eq!(mcp_error_kind(ToolErrorCode::InsufficientData), McpErrorKind::InvalidParams);
    assert_eq!(mcp_error_kind(ToolErrorCode::ParseFailed), McpErrorKind::InvalidRequest);
    assert_eq!(mcp_error_kind(ToolErrorCode::InternalError), McpErrorKind::InternalError);
    assert_eq!(ToolErrorCode::InternalError.as_str(), "INTERNAL_ERROR");
}

#[test]
fn parse_failure_message_carries_the_parse_error() {
    let logs = [(format!("{DIR}/broken.jsonl"), "{\n{\n{\n".to_string())];
    let error = classify_session_pattern(&logs, "broken").unwrap_err();
    assert_eq!(
        error.message,
        "Failed to parse session file: Too many failed lines: 3/3 (100.0% > 5% threshold)"
    );
}

#[test]
fn lookup_error_messages() {
    let not_found = session_lookup_error(token_analyzer::session_finder::SessionLookupError::NotFound);
    assert_eq!(not_found.code, ToolErrorCode::SessionNotFound);
    assert_eq!(not_found.message, "Session file not found");
}

#[test]
fn rates_beyond_u64_are_refused_as_parse_failures() {
    let max = u64::MAX;
    let logs = [write_session(
        "huge-session",
        &[assistant_line("req_1", "2026-03-20T06:00:00.000Z", max, 0, 0, 1, r#"{"type":"tool_use","id":"toolu_1","name":"Read","input":{"file_path":"/src/lib.rs"}}"#)],
    )];
    let error = classify_session_pattern(&logs, "huge-session").unwrap_err();
    assert_eq!(error.code, ToolErrorCode::ParseFailed);
    assert_eq!(
        error.message,
        "Failed to parse session file: Token counts exceed the largest 64-bit count"
    );
}
