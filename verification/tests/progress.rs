use std::time::Duration;

use emukc_bootstrap::progress::{
    build_summary_lines, download_aggregate_style, format_duration, format_duration_secs, make_list_style,
    populate_style, stats_message, FailedItem, PopulateStats,
};

#[test]
fn durations_read_in_seconds_then_minutes() {
    assert_eq!(format_duration_secs(0), "0s");
    assert_eq!(format_duration_secs(42), "42s");
    assert_eq!(format_duration_secs(60), "1m 0s");
    assert_eq!(format_duration_secs(187), "3m 7s");
    assert_eq!(format_duration(Duration::from_millis(61_900)), "1m 1s");
}

#[test]
fn stats_message_counts_active_and_errors() {
    assert_eq!(stats_message(0, 8, 0), "0/8 active │ 0 errors");
    assert_eq!(stats_message(3, 16, 12), "3/16 active │ 12 errors");
}

#[test]
fn bar_templates() {
    assert_eq!(populate_style(), "{msg}  {bar:40.cyan/blue}  {pos}/{len} ({percent}%, ETA: {eta})");
    assert_eq!(make_list_style(), "{msg}  {bar:40.cyan/blue}  {pos}/{len} ({percent}%, {per_sec}, ETA: {eta})");
    assert_eq!(download_aggregate_style(), "{msg}  {bar:40.cyan/blue}  {pos}/{len} ({percent}%, ETA: {eta})");
}

#[test]
fn summary_lists_counts_and_failures() {
    let clean = PopulateStats {
        total: 10,
        succeeded: 10,
        retried: 0,
        recovered: 0,
        failed: 0,
        elapsed: Duration::from_secs(5),
    };
    assert_eq!(
        build_summary_lines(&clean, &[]),
        vec!["── Populate Summary ─────────────────────", "Total: 10 │ OK: 10 │ Time: 5s"]
    );

    let rough = PopulateStats {
        total: 10,
        succeeded: 8,
        retried: 3,
        recovered: 1,
        failed: 2,
        elapsed: Duration::from_secs(75),
    };
    let failures = vec![FailedItem {
        path: "kcs2/a.png".to_string(),
        version: None,
        error: "failed on all CDN".to_string(),
    }];
    assert_eq!(
        build_summary_lines(&rough, &failures),
        vec![
            "── Populate Summary ─────────────────────",
            "Total: 10 │ OK: 8 │ Retried: 3 │ Recovered: 1 │ Failed: 2 │ Time: 1m 15s",
            "",
            "Failed files:",
            "  ✗ kcs2/a.png (failed on all CDN)",
        ]
    );
}
