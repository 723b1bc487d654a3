use token_analyzer::analyzer::DayCounts;
use token_analyzer::cli_lib::{
    trend_buckets, validate_granularity, validate_month_format, Granularity, MonthError,
};

#[test]
fn test_cmd_cost_specific_month_invalid_format_returns_err() {
    let result = validate_month_format("2026/04");
    assert!(
        result.is_err(),
        "invalid month format should return Err, got Ok"
    );
}

#[test]
fn test_cmd_trend_daily_granularity_returns_ok() {
    assert_eq!(validate_granularity("daily"), Ok(Granularity::Daily));
}

#[test]
fn test_cmd_trend_weekly_granularity_returns_ok() {
    assert_eq!(validate_granularity("weekly"), Ok(Granularity::Weekly));
}

#[test]
fn test_cmd_trend_invalid_granularity_returns_err() {
    let result = validate_granularity("hourly");
    assert!(result.is_err(), "'hourly' is not a valid granularity");
}

// --- own checks ---

#[test]
fn month_validation_messages() {
    assert_eq!(validate_month_format("2026-04"), Ok(()));
    assert_eq!(validate_month_format("2026-12"), Ok(()));
    let e = validate_month_format("2026/04").unwrap_err();
    assert_eq!(e, MonthError::Format("2026/04".to_string()));
    assert_eq!(
        e.message(),
        "Invalid month format '2026/04'. Expected YYYY-MM (e.g., 2026-04)."
    );
    let r = validate_month_format("2026-13").unwrap_err();
    assert_eq!(r, MonthError::Range("13".to_string()));
    assert_eq!(r.message(), "Month value out of range: 13. Expected 01-12.");
    assert_eq!(
        validate_month_format("2026-00"),
        Err(MonthError::Range("00".to_string()))
    );
    assert!(matches!(validate_month_format("26-04"), Err(MonthError::Format(_))));
    assert!(matches!(validate_month_format("2026-4a"), Err(MonthError::Format(_))));
    // Seven characters but more than seven bytes.
    assert!(matches!(validate_month_format("2026-é1"), Err(MonthError::Format(_))));
}

#[test]
fn granularity_message_and_bucket_sizes() {
    assert_eq!(validate_granularity("monthly"), Ok(Granularity::Monthly));
    assert_eq!(
        validate_granularity("hourly"),
        Err("Unsupported granularity: 'hourly'. Use 'daily', 'weekly', or 'monthly'.".to_string())
    );
    assert_eq!(Granularity::Daily.bucket_days(), 1);
    assert_eq!(Granularity::Weekly.bucket_days(), 7);
    assert_eq!(Granularity::Monthly.bucket_days(), 30);
}

fn day(date: &str, input: u64, output: u64, sessions: u64) -> DayCounts {
    DayCounts {
        date: date.to_string(),
        input,
        output,
        cache_creation: 0,
        cache_read: 1,
        sessions,
    }
}

#[test]
fn weekly_buckets_sum_their_days() {
    let days: Vec<DayCounts> = (1..=9)
        .map(|d| day(&format!("2026-03-{:02}", d), 10, 5, 1))
        .collect();
    let buckets = trend_buckets(&days, 7);
    assert_eq!(buckets.len(), 2);
    assert_eq!(buckets[0].label, "03-01~03-07");
    assert_eq!(buckets[0].total_tokens, 7 * 16);
    assert_eq!(buckets[0].total_sessions, 7);
    assert_eq!((buckets[0].first_day, buckets[0].day_count), (0, 7));
    assert_eq!(buckets[1].label, "03-08~03-09");
    assert_eq!(buckets[1].total_tokens, 2 * 16);
    assert_eq!((buckets[1].first_day, buckets[1].day_count), (7, 2));
}

#[test]
fn a_bucket_of_one_day_keeps_the_date() {
    let days = vec![day("2026-03-01", 1, 1, 2)];
    let buckets = trend_buckets(&days, 30);
    assert_eq!(buckets.len(), 1);
    assert_eq!(buckets[0].label, "2026-03-01");
    assert_eq!(buckets[0].total_sessions, 2);
    assert!(trend_buckets(&vec![], 7).is_empty());
}

#[test]
fn monthly_buckets_add_up_to_all_days() {
    let days: Vec<DayCounts> = (0..65u64)
        .map(|i| day(&format!("2026-{:02}-{:02}", 1 + i / 28, 1 + i % 28), i, 2 * i, i % 3))
        .collect();
    let buckets = trend_buckets(&days, 30);
    assert_eq!(buckets.len(), 3);
    let day_tokens: u64 = days.iter().map(|d| d.input + d.output + d.cache_creation + d.cache_read).sum();
    let day_sessions: u64 = days.iter().map(|d| d.sessions).sum();
    assert_eq!(buckets.iter().map(|b| b.total_tokens).sum::<u64>(), day_tokens);
    assert_eq!(buckets.iter().map(|b| b.total_sessions).sum::<u64>(), day_sessions);
    assert_eq!(buckets.iter().map(|b| b.day_count).sum::<usize>(), days.len());
    assert_eq!(buckets[2].day_count, 5);
}

#[test]
fn a_month_cut_inside_a_character_is_refused() {
    // Seven bytes, with 'é' across bytes 3 and 4.
    assert!(matches!(validate_month_format("123é45"), Err(MonthError::Format(_))));
    assert!(matches!(validate_month_format("2026-4"), Err(MonthError::Format(_))));
}
