use token_analyzer::archiver::{ArchiveError, Archiver};

#[test]
fn test_compress_decompress_roundtrip() {
    let original_content = r#"{"type":"assistant","requestId":"req_001","timestamp":"2026-03-20T10:00:00Z","message":{"model":"sonnet-4-20250514","content":[],"usage":{"input_tokens":100,"output_tokens":50}}}
{"type":"user","timestamp":"2026-03-20T10:00:01Z","message":{"role":"user","content":"hello"}}
{"type":"assistant","requestId":"req_002","timestamp":"2026-03-20T10:00:02Z","message":{"model":"sonnet-4-20250514","content":[],"usage":{"input_tokens":200,"output_tokens":100}}}
"#;
    let source_path = "/src/project-abc123/session-uuid-001.jsonl";

    let archiver = Archiver::new("/archive");
    let data = original_content.as_bytes().to_vec();
    let archived = archiver
        .archive_file(source_path, &data, "2026-03-20T10:00:00+00:00")
        .unwrap();
    let entry = &archived.entry;

    assert_eq!(entry.session_id, "session-uuid-001");
    assert_eq!(entry.original_size, original_content.len() as u64);
    assert!(entry.compressed_size > 0);
    assert!(
        entry.compressed_size <= entry.original_size,
        "Compressed should be <= original (compressed={}, original={})",
        entry.compressed_size,
        entry.original_size
    );
    assert_eq!(entry.compressed_size, archived.compressed.len() as u64);

    let restored = archiver.restore_file(&archived.compressed).unwrap();
    let restored_content = String::from_utf8(restored).unwrap();
    assert_eq!(
        restored_content, original_content,
        "Restored content should match original exactly"
    );
}

#[test]
fn test_find_expiring_sessions() {
    let day: u64 = 24 * 60 * 60;
    let files = vec![
        ("/src/project-a/sess-new.jsonl".to_string(), Some(10u64)),
        ("/src/project-b/sess-old.jsonl".to_string(), Some(26 * day)),
    ];
    let expiring = Archiver::find_expiring_sessions(&files, 25);
    let old_found = expiring.iter().any(|p| p.ends_with("sess-old.jsonl"));
    assert!(
        old_found,
        "Old file should be found as expiring. Found: {:?}",
        expiring
    );
    assert!(!expiring.iter().any(|p| p.ends_with("sess-new.jsonl")));
}

#[test]
fn test_archive_creates_subdirectory() {
    let archiver = Archiver::new("/archive");
    let target = archiver.archive_target("/src/my-project-hash/session-123.jsonl");
    assert_eq!(target.subdir, "/archive/my-project-hash");
    let archived = archiver
        .archive_file(
            "/src/my-project-hash/session-123.jsonl",
            &b"test data".to_vec(),
            "t",
        )
        .unwrap();
    assert!(
        archived.entry.archive_path.contains("my-project-hash"),
        "Archive path should contain project name"
    );
    assert!(
        archived.entry.archive_path.ends_with(".jsonl.zst"),
        "Archive should have .jsonl.zst extension"
    );
}

// --- own checks ---

#[test]
fn archive_target_names() {
    let archiver = Archiver::new("/archive/");
    let t = archiver.archive_target("/logs/proj/abc.jsonl");
    assert_eq!(t.project_name, "proj");
    assert_eq!(t.session_id, "abc");
    assert_eq!(t.archive_path, "/archive/proj/abc.jsonl.zst");
    assert_eq!(archiver.archive_dir(), "/archive/");
}

#[test]
fn compressed_bytes_are_zstd_frames() {
    let archiver = Archiver::new("/a");
    let data = b"hello hello hello hello".to_vec();
    let archived = archiver.archive_file("/s/p/x.jsonl", &data, "now").unwrap();
    assert_ne!(archived.compressed, data);
    assert_eq!(zstd::decode_all(archived.compressed.as_slice()).unwrap(), data);
    assert_eq!(archived.entry.archived_at, "now");
    assert_eq!(archived.entry.source_path, "/s/p/x.jsonl");
}

#[test]
fn restoring_garbage_fails() {
    let archiver = Archiver::new("/a");
    assert_eq!(
        archiver.restore_file(&b"not zstd".to_vec()),
        Err(ArchiveError::DecompressFailed)
    );
    assert_eq!(
        ArchiveError::DecompressFailed.message(),
        "Failed to decompress zstd data"
    );
}

#[test]
fn expiry_threshold_in_days() {
    let day: u64 = 86_400;
    let files = vec![
        ("a.jsonl".to_string(), Some(5 * day)),
        ("b.jsonl".to_string(), Some(5 * day - 1)),
        ("c.jsonl".to_string(), None),
        ("d.txt".to_string(), Some(40 * day)),
    ];
    assert_eq!(Archiver::find_expiring_sessions(&files, 25), vec!["a.jsonl".to_string()]);
    // A threshold of 30 days or more makes every readable log expiring.
    assert_eq!(
        Archiver::find_expiring_sessions(&files, 40),
        vec!["a.jsonl".to_string(), "b.jsonl".to_string()]
    );
}

#[test]
fn stems_and_extensions_of_dotted_names() {
    let archiver = Archiver::new("/archive");
    assert_eq!(archiver.archive_target("/p/proj/.hidden").session_id, ".hidden");
    assert_eq!(archiver.archive_target("/p/proj/a.b.jsonl").session_id, "a.b");
    assert_eq!(archiver.archive_target("/p/proj/noext").session_id, "noext");
    let files = vec![
        (".jsonl".to_string(), Some(10_000_000u64)),
        ("x.jsonl".to_string(), Some(10_000_000u64)),
        ("y.json".to_string(), Some(10_000_000u64)),
    ];
    assert_eq!(Archiver::find_expiring_sessions(&files, 25), vec!["x.jsonl".to_string()]);
}
