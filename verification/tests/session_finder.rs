use token_analyzer::session_finder::{find_session_file, resolve_session_file, SessionLookupError};

/// The regular files below a projects directory, in walk order.
fn files(paths: &[&str]) -> Vec<String> {
    paths.iter().map(|p| format!("/tmp/projects/{}", p)).collect()
}

#[test]
fn test_find_session_in_flat_dir() {
    let dir = files(&["abc123.jsonl"]);
    let result = find_session_file(&dir, "abc123");
    assert!(result.is_some());
    assert!(result.unwrap().ends_with("abc123.jsonl"));
}

#[test]
fn test_find_session_in_nested_dir() {
    let dir = files(&["project-a/sessions/def456.jsonl"]);
    let result = find_session_file(&dir, "def456");
    assert!(result.is_some());
    assert!(result.unwrap().ends_with("def456.jsonl"));
}

#[test]
fn test_find_session_not_found() {
    let dir = files(&["other.jsonl"]);
    let result = find_session_file(&dir, "nonexistent");
    assert!(result.is_none());
}

#[test]
fn test_find_session_in_subagent_dir() {
    let dir = files(&["project-a/sessions/subagents/agent-abc/ghi789.jsonl"]);
    let result = find_session_file(&dir, "ghi789");
    assert!(result.is_some());
    assert!(result.unwrap().ends_with("ghi789.jsonl"));
}

#[test]
fn test_find_session_empty_dir() {
    let dir: Vec<String> = Vec::new();
    let result = find_session_file(&dir, "anything");
    assert!(result.is_none());
}

#[test]
fn test_resolve_session_exact_match() {
    let dir = files(&["abc12345.jsonl"]);
    let result = resolve_session_file(&dir, "abc12345").unwrap();
    assert!(result.ends_with("abc12345.jsonl"));
}

#[test]
fn test_resolve_session_unique_prefix_match() {
    let dir = files(&["abc12345-long.jsonl"]);
    let result = resolve_session_file(&dir, "abc12345").unwrap();
    assert!(result.ends_with("abc12345-long.jsonl"));
}

#[test]
fn test_resolve_session_ambiguous_prefix_match() {
    let dir = files(&["abc12345-one.jsonl", "abc12345-two.jsonl"]);
    let result = resolve_session_file(&dir, "abc12345");
    assert!(matches!(result, Err(SessionLookupError::Ambiguous(_))));
}

#[test]
fn test_resolve_session_exact_match_beats_prefix_ambiguity() {
    let dir = files(&["abc12345.jsonl", "abc12345-other.jsonl"]);
    let result = resolve_session_file(&dir, "abc12345").unwrap();
    assert!(result.ends_with("abc12345.jsonl"));
}

// --- own checks ---

#[test]
fn first_exact_match_in_walk_order_wins() {
    let dir = files(&["a/s1.jsonl", "b/s1.jsonl"]);
    assert_eq!(find_session_file(&dir, "s1").unwrap(), "/tmp/projects/a/s1.jsonl");
    assert_eq!(
        resolve_session_file(&dir, "s1").unwrap(),
        "/tmp/projects/a/s1.jsonl"
    );
}

#[test]
fn prefix_matches_need_the_jsonl_extension() {
    let dir = files(&["abc-1.txt", "abc-2.jsonl.bak", "abc-3.jsonl"]);
    assert_eq!(
        resolve_session_file(&dir, "abc").unwrap(),
        "/tmp/projects/abc-3.jsonl"
    );
    assert_eq!(
        resolve_session_file(&dir, "zzz"),
        Err(SessionLookupError::NotFound)
    );
}

#[test]
fn ambiguity_lists_every_match_in_order() {
    let dir = files(&["x/ab-2.jsonl", "ab-1.jsonl", "other.jsonl"]);
    assert_eq!(
        resolve_session_file(&dir, "ab"),
        Err(SessionLookupError::Ambiguous(vec![
            "/tmp/projects/x/ab-2.jsonl".to_string(),
            "/tmp/projects/ab-1.jsonl".to_string(),
        ]))
    );
}
