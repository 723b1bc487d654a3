use token_analyzer::format::{
    csv_escape, fmt_count, fmt_tokens, pad, short_project_name, truncate_session_id,
};

// --- fmt_tokens ---

#[test]
fn test_fmt_tokens_billions() {
    assert_eq!(fmt_tokens(2_500_000_000), "2.50B");
}

#[test]
fn test_fmt_tokens_millions() {
    assert_eq!(fmt_tokens(1_234_567), "1.23M");
}

#[test]
fn test_fmt_tokens_thousands() {
    assert_eq!(fmt_tokens(45_678), "45.7K");
}

#[test]
fn test_fmt_tokens_boundary_million() {
    // Exact boundary: 999,999 should be K, 1,000,000 should be M
    assert_eq!(fmt_tokens(999_999), "1000.0K");
    assert_eq!(fmt_tokens(1_000_000), "1.00M");
}

#[test]
fn fmt_tokens_small_counts_are_plain() {
    assert_eq!(fmt_tokens(0), "0");
    assert_eq!(fmt_tokens(999), "999");
    assert_eq!(fmt_tokens(1_000), "1.0K");
}

#[test]
fn fmt_tokens_rounds_the_binary_quotient() {
    // 1.015 has no exact binary form; the nearest double is just below it.
    assert_eq!(fmt_tokens(1_015_000), "1.01M");
    // 1.125 is exact, a tie, and goes to the even digit.
    assert_eq!(fmt_tokens(1_125_000), "1.12M");
    assert_eq!(fmt_tokens(1_135_000), "1.14M");
    assert_eq!(fmt_tokens(1_250), "1.2K");
    assert_eq!(fmt_tokens(1_350), "1.4K");
}

#[test]
fn fmt_tokens_matches_float_formatting() {
    let samples: [u64; 12] = [
        1_000,
        1_049,
        1_050,
        12_345,
        999_950,
        1_005_000,
        9_995_000,
        123_456_789,
        999_999_999,
        1_000_000_000,
        9_007_199_254_740_993,
        u64::MAX,
    ];
    for n in samples {
        let expected = if n >= 1_000_000_000 {
            format!("{:.2}B", n as f64 / 1_000_000_000.0)
        } else if n >= 1_000_000 {
            format!("{:.2}M", n as f64 / 1_000_000.0)
        } else {
            format!("{:.1}K", n as f64 / 1_000.0)
        };
        assert_eq!(fmt_tokens(n), expected, "n = {}", n);
    }
}

#[test]
fn fmt_tokens_largest_count() {
    assert_eq!(fmt_tokens(u64::MAX), "18446744073.71B");
}

// --- fmt_count ---

#[test]
fn test_fmt_count_with_thousands() {
    assert_eq!(fmt_count(1_234), "1,234");
    assert_eq!(fmt_count(42_007), "42,007");
}

#[test]
fn test_fmt_count_small() {
    assert_eq!(fmt_count(42), "42");
}

#[test]
fn fmt_count_groups_every_three_digits() {
    assert_eq!(fmt_count(1_000), "1,000");
    assert_eq!(fmt_count(999_999), "999,999");
    assert_eq!(fmt_count(1_000_000), "1,000,000");
    assert_eq!(fmt_count(1_234_567), "1,234,567");
    assert_eq!(fmt_count(u64::MAX), "18,446,744,073,709,551,615");
}

// --- truncate_session_id ---

#[test]
fn test_truncate_session_id_exact_length() {
    let id = "abcdef";
    assert_eq!(truncate_session_id(id, 6), "abcdef");
}

#[test]
fn test_truncate_session_id_over_length() {
    let id = "abcdefghij";
    let result = truncate_session_id(id, 6);
    assert_eq!(result, "abcde…");
}

#[test]
fn truncate_session_id_counts_wide_characters_twice() {
    // Each CJK character takes two columns.
    assert_eq!(truncate_session_id("日本語テキスト", 6), "日本…");
    assert_eq!(truncate_session_id("日本", 4), "日本");
    assert_eq!(truncate_session_id("abc", 0), "");
    assert_eq!(truncate_session_id("", 0), "");
}

// --- pad ---

#[test]
fn pad_fills_with_spaces() {
    assert_eq!(pad("abc", 6), "abc   ");
    assert_eq!(pad("abc", 3), "abc");
}

#[test]
fn pad_truncates_wide_text() {
    assert_eq!(pad("abcdefgh", 5), "abcd…");
    // "日" and "…" take three columns; a space fills the fourth.
    assert_eq!(pad("日本語", 4), "日… ");
    assert_eq!(pad("日本語", 5), "日本…");
    assert_eq!(pad("abc", 0), "");
    assert_eq!(pad("", 0), "");
    assert_eq!(pad("日本", 5), "日本 ");
}

// --- short_project_name ---

#[test]
fn test_short_project_name_standard() {
    let path = "/Users/x/.config/projects/-Users-x-Desktop-QC-QCliHub";
    assert_eq!(short_project_name(path), "Desktop-QC-QCliHub");
}

#[test]
fn test_short_project_name_no_users_prefix() {
    let path = "/some/other/path/my-project";
    assert_eq!(short_project_name(path), "my-project");
}

#[test]
fn short_project_name_keeps_a_name_with_nothing_after_the_user() {
    assert_eq!(short_project_name("/p/-Users-x-"), "-Users-x-");
    assert_eq!(short_project_name("/p/-Users-onlyuser"), "-Users-onlyuser");
    assert_eq!(short_project_name("plain"), "plain");
    assert_eq!(short_project_name("/trailing/"), "");
}

// --- csv_escape ---

#[test]
fn test_csv_escape_with_comma() {
    assert_eq!(csv_escape("hello,world"), "\"hello,world\"");
}

#[test]
fn test_csv_escape_with_quote() {
    assert_eq!(csv_escape(r#"say "hi""#), r#""say ""hi""""#);
}

#[test]
fn test_csv_escape_plain() {
    assert_eq!(csv_escape("simple"), "simple");
}

#[test]
fn csv_escape_quotes_line_feeds_and_reads_back() {
    assert_eq!(csv_escape("a\nb"), "\"a\nb\"");
    for value in ["plain", "a,b", "say \"hi\"", "\"", "x\ny", ""] {
        let field = csv_escape(value);
        let back = if field.len() >= 2 && field.starts_with('"') && field.ends_with('"') {
            field[1..field.len() - 1].replace("\"\"", "\"")
        } else {
            field.clone()
        };
        assert_eq!(back, value);
    }
}
