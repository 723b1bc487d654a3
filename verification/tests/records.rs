use token_analyzer::analyzer::{
    average_daily_tokens, session_token_breakdown, subagent_token_share, tool_rank_entries,
    DayCounts,
};
use token_analyzer::detector::{
    analyze_compression, anomaly_type_label, unusual_model_mix, AnomalyType,
};
use token_analyzer::storage::{
    files_to_sync, jsonl_files, needs_sync, session_cache_hit_rate, sync_report, SyncReport,
};
use token_analyzer::types::{CompressionEvent, ModelUsage, ParseResult, Timestamp, ToolUsageStat};

/// 2026-03-20T10:00:00Z.
const TS: Timestamp = Timestamp {
    secs: 1_774_000_800,
    nanos: 0,
};

fn make_parse_result(
    session_id: &str,
    project_path: &str,
    input: u64,
    output: u64,
    cache_creation: u64,
    cache_read: u64,
) -> ParseResult {
    ParseResult {
        session_id: session_id.to_string(),
        project_path: project_path.to_string(),
        is_subagent: false,
        agent_id: None,
        first_timestamp: Some(TS),
        last_timestamp: Some(TS),
        assistant_turns: vec![],
        model_usage: vec![ModelUsage {
            model: "sonnet-4-20250514".to_string(),
            turn_count: 1,
            total_input: input,
            total_output: output,
            total_cache_creation: cache_creation,
            total_cache_read: cache_read,
        }],
        tool_usage: vec![
            ToolUsageStat {
                name: "Read".to_string(),
                invocation_count: 3,
            },
            ToolUsageStat {
                name: "Bash".to_string(),
                invocation_count: 2,
            },
        ],
        compression_events: vec![],
        total_turns: 1,
        total_input_tokens: input,
        total_output_tokens: output,
        total_cache_creation_tokens: cache_creation,
        total_cache_read_tokens: cache_read,
        failed_lines: 0,
        total_lines: 1,
        turn_durations_ms: vec![],
    }
}

fn compression_result(agent_id: Option<&str>, events: Vec<CompressionEvent>) -> ParseResult {
    let mut r = make_parse_result("sess-comp", "/project/c", 5000, 2000, 1000, 3000);
    r.agent_id = agent_id.map(|s| s.to_string());
    r.compression_events = events;
    r
}

#[test]
fn test_analyze_compression() {
    let result = compression_result(
        None,
        vec![
            CompressionEvent {
                turn_index: 5,
                timestamp: TS,
                cache_read_before: 10000,
                cache_read_after: 500,
            },
            CompressionEvent {
                turn_index: 15,
                timestamp: TS,
                cache_read_before: 8000,
                cache_read_after: 400,
            },
        ],
    );
    let analysis = analyze_compression(&result);

    assert_eq!(analysis.total_compressions, 2);
    assert_eq!(analysis.estimated_tokens_recovered, 18000);
    assert!(!analysis.has_compact_agent);
    assert_eq!(analysis.events.len(), 2);
}

#[test]
fn test_analyze_compression_compact_agent() {
    let mut result = compression_result(
        Some("agent-compact-42a1c7"),
        vec![CompressionEvent {
            turn_index: 3,
            timestamp: TS,
            cache_read_before: 5000,
            cache_read_after: 200,
        }],
    );
    result.is_subagent = true;
    let analysis = analyze_compression(&result);

    assert!(analysis.has_compact_agent);
    assert_eq!(analysis.total_compressions, 1);
    assert_eq!(analysis.estimated_tokens_recovered, 5000);
}

#[test]
fn test_cache_hit_rate_zero_denominator() {
    let result = make_parse_result("sess-zero", "/project/zero", 0, 0, 0, 0);
    assert!(
        session_cache_hit_rate(&result).is_none(),
        "cache_hit_rate should be None when denominator is 0"
    );
}

#[test]
fn stored_cache_hit_rate_is_reads_over_all_input() {
    let result = make_parse_result("s", "/p", 1000, 500, 200, 800);
    let r = session_cache_hit_rate(&result).unwrap();
    assert_eq!((r.num, r.den), (800, 2000));
}

#[test]
fn anomaly_labels() {
    assert_eq!(anomaly_type_label(&AnomalyType::HighTokenUsage), "HIGH_TOKENS");
    assert_eq!(anomaly_type_label(&AnomalyType::HighCost), "HIGH_COST");
    assert_eq!(anomaly_type_label(&AnomalyType::UnusualModelMix), "UNUSUAL_MODELS");
    assert_eq!(anomaly_type_label(&AnomalyType::ExcessiveToolUse), "EXCESSIVE_TOOLS");
    assert_eq!(anomaly_type_label(&AnomalyType::LowCacheHitRate), "LOW_CACHE_HIT");
    assert_eq!(anomaly_type_label(&AnomalyType::CostInefficient), "COST_INEFFICIENT");
}

#[test]
fn model_mix_filters_by_project() {
    let multi = vec![("s1".to_string(), 4u32), ("s2".to_string(), 3u32)];
    let sessions = vec![
        ("s1".to_string(), "/p/a".to_string()),
        ("s2".to_string(), "/p/b".to_string()),
    ];
    assert_eq!(unusual_model_mix(&multi, &sessions, None), multi);
    assert_eq!(
        unusual_model_mix(&multi, &sessions, Some("/p/b")),
        vec![("s2".to_string(), 3u32)]
    );
    assert!(unusual_model_mix(&multi, &sessions, Some("/p/c")).is_empty());
}

#[test]
fn session_breakdown_shares_and_rates() {
    let result = make_parse_result("sess-001", "/project/a", 1000, 500, 200, 800);
    let b = session_token_breakdown(&result);
    assert_eq!(b.total_tokens, 2500);
    assert_eq!((b.input_share.num, b.input_share.den), (1000, 2500));
    assert_eq!((b.cache_read_share.num, b.cache_read_share.den), (800, 2500));
    // cache hit rate = 800 / (1000 + 800 + 200) = 0.4
    let rate = b.cache_hit_rate.num as f64 / b.cache_hit_rate.den as f64;
    assert!((rate - 0.4).abs() < 1e-9);
    assert_eq!(b.models.len(), 1);
    assert_eq!(b.models[0].total_tokens, 2500);
    assert_eq!((b.tokens_per_turn.num, b.tokens_per_turn.den), (2500, 1));
    let zero = session_token_breakdown(&make_parse_result("z", "/p", 0, 0, 0, 0));
    assert_eq!(zero.input_share.den, 0);
    assert_eq!(zero.cache_hit_rate.den, 0);
}

#[test]
fn subagent_share_and_tool_ranking() {
    let s = subagent_token_share(300, 100);
    assert_eq!((s.num, s.den), (100, 400));
    let entries = tool_rank_entries(vec![("Read".to_string(), 10, 3), ("Bash".to_string(), 4, 2)]);
    assert_eq!(entries.len(), 2);
    assert_eq!(entries[0].name, "Read");
    assert_eq!(entries[0].total_invocations, 10);
    assert_eq!(entries[1].session_count, 2);
}

fn day(date: &str, tokens: u64, sessions: u64) -> DayCounts {
    DayCounts {
        date: date.to_string(),
        input: tokens,
        output: 0,
        cache_creation: 0,
        cache_read: 0,
        sessions,
    }
}

#[test]
fn average_daily_tokens_divides_evenly_down() {
    assert_eq!(average_daily_tokens(&vec![]), 0);
    let days = vec![day("2026-03-01", 10, 1), day("2026-03-02", 5, 1)];
    assert_eq!(average_daily_tokens(&days), 7);
}

#[test]
fn sync_decisions() {
    assert!(needs_sync(10, None));
    assert!(needs_sync(11, Some(10)));
    assert!(!needs_sync(10, Some(10)));
    assert!(!needs_sync(9, Some(10)));
    let files = vec![
        ("a.jsonl".to_string(), 5i64, Some(5i64)),
        ("b.jsonl".to_string(), 6, Some(5)),
        ("c.jsonl".to_string(), 1, None),
    ];
    assert_eq!(files_to_sync(&files), vec!["b.jsonl".to_string(), "c.jsonl".to_string()]);
    let walked = vec!["x/a.jsonl".to_string(), "x/b.txt".to_string(), "x/c.jsonl".to_string()];
    assert_eq!(jsonl_files(&walked), vec!["x/a.jsonl".to_string(), "x/c.jsonl".to_string()]);
}

#[test]
fn sync_report_counts_each_log_once() {
    let r = sync_report(7, &vec![true, false, true]);
    assert_eq!(
        r,
        SyncReport {
            total_files_on_disk: 7,
            files_to_sync: 3,
            files_synced: 2,
            files_failed: 1,
            sessions_upserted: 2,
        }
    );
    let mut s = SyncReport::start(1, 1);
    s.record(false);
    assert_eq!(s.files_failed, 1);
    assert_eq!(s.files_synced, 0);
}

#[test]
fn a_second_sync_reads_only_the_failed_logs() {
    let files = vec![
        ("a.jsonl".to_string(), 5i64, Some(5i64)),
        ("b.jsonl".to_string(), 6, Some(5)),
        ("c.jsonl".to_string(), 1, None),
    ];
    let first = files_to_sync(&files);
    // b is stored, c fails.
    let report = sync_report(3, &vec![true, false]);
    assert_eq!(report.files_to_sync, first.len() as u64);
    let after: Vec<(String, i64, Option<i64>)> = files
        .iter()
        .map(|(p, m, s)| if p == "b.jsonl" { (p.clone(), *m, Some(*m)) } else { (p.clone(), *m, *s) })
        .collect();
    let second = files_to_sync(&after);
    assert_eq!(second, vec!["c.jsonl".to_string()]);
    assert_eq!(second.len() as u64, report.files_failed);
}
