use token_analyzer::parser::{extract_path_metadata, parse_session_text, ParseError};
use token_analyzer::types::ParseResult;

/// Parses the log text `content` as the file at `path` would be parsed.
fn parse_content(path: &str, content: &str) -> Result<ParseResult, ParseError> {
    parse_session_text(path, content)
}

/// Parses the given lines, one record per line.
fn parse_lines(path: &str, lines: &[&str]) -> Result<ParseResult, ParseError> {
    let mut content = String::new();
    for line in lines {
        content.push_str(line);
        content.push('\n');
    }
    parse_content(path, &content)
}

const PATH: &str = "/home/u/projects/-home-u-app/session-1.jsonl";

#[allow(clippy::too_many_arguments)]
fn make_assistant_line(
    request_id: &str,
    stop_reason: Option<&str>,
    input_tokens: u64,
    output_tokens: u64,
    cache_creation: u64,
    cache_read: u64,
    model: &str,
    timestamp: &str,
    tools: &[(&str, &str)],
) -> String {
    let stop_reason_json = match stop_reason {
        Some(s) => format!("\"{}\"", s),
        None => "null".to_string(),
    };
    let tools_json: Vec<String> = tools
        .iter()
        .map(|(name, id)| {
            format!(
                r#"{{"type":"tool_use","id":"{}","name":"{}","input":{{}}}}"#,
                id, name
            )
        })
        .collect();
    let tools_str = tools_json.join(",");
    let content = if tools.is_empty() {
        r#"[{"type":"text","text":"hello"}]"#.to_string()
    } else {
        format!(r#"[{{"type":"text","text":"hello"}},{}]"#, tools_str)
    };
    format!(
        r#"{{"type":"assistant","requestId":"{}","timestamp":"{}","isSidechain":false,"message":{{"model":"{}","id":"msg_test","role":"assistant","content":{},"stop_reason":{},"usage":{{"input_tokens":{},"output_tokens":{},"cache_creation_input_tokens":{},"cache_read_input_tokens":{}}}}}}}"#,
        request_id,
        timestamp,
        model,
        content,
        stop_reason_json,
        input_tokens,
        output_tokens,
        cache_creation,
        cache_read
    )
}

fn make_user_line(timestamp: &str) -> String {
    format!(
        r#"{{"type":"user","timestamp":"{}","message":{{"role":"user","content":"hello"}}}}"#,
        timestamp
    )
}

fn make_system_line(timestamp: &str, duration_ms: Option<u64>) -> String {
    let dur = match duration_ms {
        Some(d) => format!(r#","turn_duration_ms":{}"#, d),
        None => String::new(),
    };
    format!(
        r#"{{"type":"system","timestamp":"{}","message":{{"role":"system","content":"init"}}{}}}"#,
        timestamp, dur
    )
}

#[test]
fn test_parse_simple_session() {
    let line0 = make_assistant_line(
        "req_001", None, 0, 100, 0, 0, "opus-4-6", "2026-03-20T06:00:00.000Z", &[],
    );
    let line1 = make_assistant_line(
        "req_001", Some("end_turn"), 500, 200, 1000, 2000, "opus-4-6",
        "2026-03-20T06:00:01.000Z", &[("Read", "toolu_01")],
    );
    let line2 = make_user_line("2026-03-20T06:00:02.000Z");
    let line3 = make_assistant_line(
        "req_002", None, 0, 50, 0, 0, "opus-4-6", "2026-03-20T06:00:03.000Z", &[],
    );
    let line4 = make_assistant_line(
        "req_002", Some("tool_use"), 600, 300, 500, 3000, "opus-4-6",
        "2026-03-20T06:00:04.000Z", &[("Bash", "toolu_02"), ("Read", "toolu_03")],
    );
    let result = parse_lines(PATH, &[&line0, &line1, &line2, &line3, &line4])
        .expect("Parse should succeed");

    assert_eq!(result.total_lines, 5);
    assert_eq!(result.failed_lines, 0);
    assert_eq!(result.total_turns, 2, "Should have 2 deduplicated turns");
    assert_eq!(result.total_input_tokens, 1100);
    assert_eq!(result.total_output_tokens, 500);
    assert_eq!(result.total_cache_creation_tokens, 1500);
    assert_eq!(result.total_cache_read_tokens, 5000);
    assert!(!result.is_subagent);
    assert!(result.agent_id.is_none());

    let read_stat = result.tool_usage.iter().find(|t| t.name == "Read");
    assert!(read_stat.is_some());
    assert_eq!(read_stat.unwrap().invocation_count, 2);
    let bash_stat = result.tool_usage.iter().find(|t| t.name == "Bash");
    assert!(bash_stat.is_some());
    assert_eq!(bash_stat.unwrap().invocation_count, 1);

    assert_eq!(result.model_usage.len(), 1);
    assert_eq!(result.model_usage[0].model, "opus-4-6");
    assert_eq!(result.model_usage[0].turn_count, 2);
}

#[test]
fn test_parse_dedup_request_id() {
    let partial = make_assistant_line(
        "req_dup", None, 0, 50, 0, 0, "opus-4-6", "2026-03-20T06:00:00.000Z", &[],
    );
    let final_rec = make_assistant_line(
        "req_dup", Some("end_turn"), 1000, 500, 2000, 3000, "opus-4-6",
        "2026-03-20T06:00:01.000Z", &[("Read", "toolu_01")],
    );
    let result = parse_lines(PATH, &[&partial, &final_rec]).expect("Parse should succeed");

    assert_eq!(result.total_turns, 1, "Dedup should yield exactly 1 turn");
    assert_eq!(result.total_input_tokens, 1000, "Should use final record's tokens");
    assert_eq!(result.total_output_tokens, 500);
    assert_eq!(
        result.assistant_turns[0].stop_reason,
        Some("end_turn".to_string())
    );
}

#[test]
fn test_parse_empty_file() {
    let result = parse_lines(PATH, &[]).expect("Empty file should parse OK");

    assert_eq!(result.total_lines, 0);
    assert_eq!(result.total_turns, 0);
    assert_eq!(result.total_input_tokens, 0);
    assert_eq!(result.total_output_tokens, 0);
    assert!(result.assistant_turns.is_empty());
    assert!(result.model_usage.is_empty());
    assert!(result.tool_usage.is_empty());
    assert!(result.first_timestamp.is_none());
    assert!(result.last_timestamp.is_none());
}

#[test]
fn test_parse_failure_threshold() {
    let valid = make_assistant_line(
        "req_ok", Some("end_turn"), 100, 50, 0, 0, "opus-4-6", "2026-03-20T06:00:00.000Z", &[],
    );
    let mut lines: Vec<String> = (0..9).map(|i| format!("not valid json {}", i)).collect();
    lines.push(valid);
    let refs: Vec<&str> = lines.iter().map(|s| s.as_str()).collect();

    let result = parse_lines(PATH, &refs);

    assert!(result.is_err(), "Should fail when >5% lines are bad");
    let err_msg = result.unwrap_err().message();
    assert!(
        err_msg.contains("Too many failed lines"),
        "Error message should mention failed lines: {}",
        err_msg
    );
}

#[test]
fn test_parse_failure_threshold_small_file_tolerant() {
    let valid1 = make_assistant_line(
        "req_1", Some("end_turn"), 100, 50, 0, 0, "opus-4-6", "2026-03-20T06:00:00.000Z", &[],
    );
    let valid2 = make_assistant_line(
        "req_2", Some("end_turn"), 200, 100, 0, 0, "opus-4-6", "2026-03-20T06:00:01.000Z", &[],
    );
    let user = make_user_line("2026-03-20T06:00:02.000Z");
    let garbage = "not valid json";

    let result = parse_lines(PATH, &[&valid1, &valid2, &user, garbage]);

    assert!(
        result.is_ok(),
        "Small file with 1 bad line should not fail (absolute minimum = 3): {:?}",
        result.err()
    );
    let parsed = result.unwrap();
    assert_eq!(parsed.failed_lines, 1);
    assert_eq!(parsed.total_lines, 4);
    assert_eq!(parsed.total_turns, 2);
}

#[test]
fn test_parse_assistant_missing_request_id() {
    let line = r#"{"type":"assistant","uuid":"uuid-test-123","timestamp":"2026-03-20T06:00:00.000Z","isSidechain":false,"isApiErrorMessage":true,"message":{"model":"opus-4-6","id":"msg_test","role":"assistant","content":[{"type":"text","text":"error"}],"stop_reason":"stop_sequence","usage":{"input_tokens":100,"output_tokens":50,"cache_creation_input_tokens":0,"cache_read_input_tokens":0}}}"#.to_string();
    let user = make_user_line("2026-03-20T06:00:01.000Z");

    let result = parse_lines(PATH, &[&line, &user]).expect("Should parse OK with missing requestId");

    assert_eq!(result.total_turns, 1, "Should have 1 assistant turn");
    assert_eq!(result.failed_lines, 0, "Missing requestId should not count as failure");
    assert!(
        result.assistant_turns[0].request_id.starts_with("_no_request_id_"),
        "Should use fallback request_id, got: {}",
        result.assistant_turns[0].request_id
    );
}

#[test]
fn test_subagent_detection() {
    let path = "/tmp/t/project-hash/session-uuid/subagents/agent-compact-42a1c7.jsonl";
    let line = make_assistant_line(
        "req_sub", Some("end_turn"), 100, 50, 0, 0, "opus-4-6", "2026-03-20T06:00:00.000Z", &[],
    );
    let result = parse_lines(path, &[&line]).expect("Parse should succeed");

    assert!(result.is_subagent, "Should detect subagent from path");
    assert_eq!(
        result.agent_id,
        Some("agent-compact-42a1c7".to_string()),
        "Should extract agent_id from filename"
    );
    assert_eq!(result.session_id, "session-uuid");
    assert_eq!(result.project_path, "/tmp/t/project-hash");
}

#[test]
fn test_compression_detection() {
    let t0 = make_assistant_line(
        "req_c0", Some("end_turn"), 100, 50, 0, 10000, "opus-4-6", "2026-03-20T06:00:00.000Z", &[],
    );
    let t1 = make_assistant_line(
        "req_c1", Some("end_turn"), 100, 50, 0, 1000, "opus-4-6", "2026-03-20T06:00:01.000Z", &[],
    );
    let t2 = make_assistant_line(
        "req_c2", Some("end_turn"), 100, 50, 0, 900, "opus-4-6", "2026-03-20T06:00:02.000Z", &[],
    );
    let result = parse_lines(PATH, &[&t0, &t1, &t2]).expect("Parse should succeed");

    assert_eq!(result.compression_events.len(), 1, "Should detect exactly 1 compression event");
    let event = &result.compression_events[0];
    assert_eq!(event.turn_index, 1);
    assert_eq!(event.cache_read_before, 10000);
    assert_eq!(event.cache_read_after, 1000);
    let drop = (event.cache_read_before - event.cache_read_after) as f64
        / event.cache_read_before as f64;
    assert!((drop - 0.9).abs() < 0.001);
}

#[test]
fn test_system_turn_duration() {
    let sys = make_system_line("2026-03-20T06:00:00.000Z", Some(12345));
    let sys2 = make_system_line("2026-03-20T06:00:01.000Z", None);
    let result = parse_lines(PATH, &[&sys, &sys2]).expect("Parse should succeed");

    assert_eq!(result.turn_durations_ms, vec![12345]);
}

#[test]
fn test_skipped_record_types() {
    let lines: [&str; 4] = [
        r#"{"type":"progress","timestamp":"2026-03-20T06:00:00.000Z"}"#,
        r#"{"type":"file-history-snapshot","timestamp":"2026-03-20T06:00:01.000Z"}"#,
        r#"{"type":"queue-operation","timestamp":"2026-03-20T06:00:02.000Z"}"#,
        r#"{"type":"last-prompt","timestamp":"2026-03-20T06:00:03.000Z"}"#,
    ];
    let result = parse_lines(PATH, &lines).expect("Parse should succeed");

    assert_eq!(result.total_lines, 4);
    assert_eq!(result.failed_lines, 0, "Skipped types should not count as failures");
    assert_eq!(result.total_turns, 0);
}

#[test]
fn test_sidechain_flag() {
    let line = r#"{"type":"assistant","requestId":"req_sc","timestamp":"2026-03-20T06:00:00.000Z","isSidechain":true,"message":{"model":"opus-4-6","id":"msg_test","role":"assistant","content":[{"type":"text","text":"hi"}],"stop_reason":"end_turn","usage":{"input_tokens":100,"output_tokens":50,"cache_creation_input_tokens":0,"cache_read_input_tokens":0}}}"#.to_string();
    let result = parse_lines(PATH, &[&line]).expect("Parse should succeed");

    assert_eq!(result.assistant_turns.len(), 1);
    assert!(result.assistant_turns[0].is_sidechain);
}

#[test]
fn test_compression_not_triggered_by_model_switch() {
    let line1 = make_assistant_line(
        "req_001", Some("end_turn"), 500, 200, 0, 50000, "opus-4-6", "2026-03-20T06:00:00.000Z", &[],
    );
    let line2 = make_assistant_line(
        "req_002", Some("end_turn"), 500, 200, 0, 0, "sonnet-4-5", "2026-03-20T06:00:01.000Z", &[],
    );
    let result = parse_lines(PATH, &[&line1, &line2]).unwrap();

    assert_eq!(result.assistant_turns.len(), 2);
    assert!(
        result.compression_events.is_empty(),
        "Model switch (opus->sonnet) should NOT trigger compression detection"
    );
}

#[test]
fn test_compression_still_detected_same_model() {
    let line1 = make_assistant_line(
        "req_001", Some("end_turn"), 500, 200, 0, 50000, "opus-4-6", "2026-03-20T06:00:00.000Z", &[],
    );
    let line2 = make_assistant_line(
        "req_002", Some("end_turn"), 500, 200, 0, 3000, "opus-4-6", "2026-03-20T06:00:01.000Z", &[],
    );
    let result = parse_lines(PATH, &[&line1, &line2]).unwrap();

    assert_eq!(result.assistant_turns.len(), 2);
    assert_eq!(
        result.compression_events.len(),
        1,
        "Same-model cache drop (50000->3000 = 94%) should be detected as compression"
    );
    let event = &result.compression_events[0];
    let drop = (event.cache_read_before - event.cache_read_after) as f64
        / event.cache_read_before as f64;
    assert!(drop > 0.80);
    assert_eq!(event.cache_read_before, 50000);
    assert_eq!(event.cache_read_after, 3000);
}

// --- own checks ---

#[test]
fn failed_lines_message_gives_counts_and_share() {
    let lines = ["x", "y", "z", "{}"];
    let err = parse_lines(PATH, &lines).unwrap_err();
    assert_eq!(
        err,
        ParseError::TooManyFailedLines {
            failed: 3,
            total: 4
        }
    );
    assert_eq!(
        err.message(),
        "Too many failed lines: 3/4 (75.0% > 5% threshold)"
    );
}

#[test]
fn token_totals_beyond_u64_are_refused() {
    let a = make_assistant_line(
        "r1", Some("end_turn"), u64::MAX, 0, 0, 0, "m", "2026-03-20T06:00:00.000Z", &[],
    );
    let b = make_assistant_line(
        "r2", Some("end_turn"), 1, 0, 0, 0, "m", "2026-03-20T06:00:01.000Z", &[],
    );
    assert_eq!(
        parse_lines(PATH, &[&a, &b]).unwrap_err(),
        ParseError::TokenCountOverflow
    );
}

#[test]
fn each_token_total_may_use_the_whole_u64() {
    let a = make_assistant_line(
        "r1", Some("end_turn"), u64::MAX, u64::MAX, 0, u64::MAX, "m", "2026-03-20T06:00:00.000Z", &[],
    );
    let r = parse_lines(PATH, &[&a]).unwrap();
    assert_eq!(r.total_input_tokens, u64::MAX);
    assert_eq!(r.total_output_tokens, u64::MAX);
    assert_eq!(r.total_cache_read_tokens, u64::MAX);
    assert_eq!(r.model_usage[0].total_input, u64::MAX);
}

#[test]
fn turns_are_sorted_and_unique_and_models_add_up() {
    let lines = [
        make_assistant_line("b", Some("end_turn"), 10, 1, 0, 5, "m1", "2026-03-20T06:00:05.000Z", &[]),
        make_assistant_line("a", Some("end_turn"), 20, 2, 1, 0, "m2", "2026-03-20T06:00:01.000Z", &[]),
        make_assistant_line("b", None, 99, 99, 99, 99, "m1", "2026-03-20T06:00:09.000Z", &[]),
        make_assistant_line("c", None, 30, 3, 0, 7, "m1", "2026-03-20T06:00:03.000Z", &[]),
    ];
    let refs: Vec<&str> = lines.iter().map(|s| s.as_str()).collect();
    let r = parse_lines(PATH, &refs).unwrap();
    let ids: Vec<&str> = r.assistant_turns.iter().map(|t| t.request_id.as_str()).collect();
    assert_eq!(ids, vec!["a", "c", "b"]);
    assert_eq!(r.total_turns, 3);
    let turns: u64 = r.model_usage.iter().map(|m| m.turn_count).sum();
    let input: u64 = r.model_usage.iter().map(|m| m.total_input).sum();
    let read: u64 = r.model_usage.iter().map(|m| m.total_cache_read).sum();
    assert_eq!(turns, r.total_turns);
    assert_eq!(input, r.total_input_tokens);
    assert_eq!(read, r.total_cache_read_tokens);
    assert_eq!(r.model_usage[0].model, "m1");
    assert_eq!(r.model_usage[0].turn_count, 2);
    assert_eq!(r.first_timestamp.unwrap().secs + 4, r.last_timestamp.unwrap().secs);
}

#[test]
fn path_metadata_of_a_main_session() {
    let line = make_assistant_line(
        "r", Some("end_turn"), 1, 1, 0, 0, "m", "2026-03-20T06:00:00.000Z", &[],
    );
    let r = parse_lines(PATH, &[&line]).unwrap();
    assert_eq!(r.session_id, "session-1");
    assert_eq!(r.project_path, "/home/u/projects/-home-u-app");
    assert!(!r.is_subagent);
    assert_eq!(r.agent_id, None);
}

#[test]
fn failed_share_is_printed_like_the_float_percentage() {
    let mut lines: Vec<&str> = vec!["{}"; 45];
    lines.extend(["bad", "bad", "bad"]);
    let err = parse_lines(PATH, &lines).unwrap_err();
    assert_eq!(
        err.message(),
        "Too many failed lines: 3/48 (6.2% > 5% threshold)"
    );
    for (failed, total) in [(3u64, 48u64), (3, 7), (5, 9), (7, 11), (3, 3), (10, 160), (33, 600)] {
        let e = ParseError::TooManyFailedLines { failed, total };
        let pct = failed as f64 / total as f64 * 100.0;
        assert_eq!(
            e.message(),
            format!(
                "Too many failed lines: {}/{} ({:.1}% > 5% threshold)",
                failed, total, pct
            )
        );
    }
}

#[test]
fn path_metadata_of_main_and_subagent_logs() {
    let (id, project, sub, agent) = extract_path_metadata("/h/projects/-h-app/abc-123.jsonl");
    assert_eq!((id.as_str(), project.as_str(), sub, agent), ("abc-123", "/h/projects/-h-app", false, None));
    let (id, project, sub, agent) =
        extract_path_metadata("/h/projects/-h-app/sess-9/subagents/agent-x1.jsonl");
    assert_eq!(id, "sess-9");
    assert_eq!(project, "/h/projects/-h-app");
    assert!(sub);
    assert_eq!(agent, Some("agent-x1".to_string()));
    let (id, project, _, _) = extract_path_metadata("log.jsonl");
    assert_eq!((id.as_str(), project.as_str()), ("log", ""));
}

#[test]
fn a_leap_second_sorts_before_the_next_second() {
    let next = make_assistant_line(
        "r2", Some("end_turn"), 1, 0, 0, 0, "m", "2017-01-01T00:00:00.500Z", &[],
    );
    let leap = make_assistant_line(
        "r1", Some("end_turn"), 2, 0, 0, 0, "m", "2016-12-31T23:59:60.500Z", &[],
    );
    let r = parse_lines(PATH, &[&next, &leap]).unwrap();
    assert_eq!(r.assistant_turns.len(), 2);
    assert_eq!(r.assistant_turns[0].request_id, "r1");
    assert_eq!(r.assistant_turns[1].request_id, "r2");
    assert_eq!(r.assistant_turns[0].timestamp.nanos, 1_500_000_000);
}
