use emukc_bootstrap::populate::{
    carries_class_marker, class_list_file_name, classify_failure, failure_list_action, failure_list_path,
    failures_to_jsonl, populate_outcome, split_first_pass, split_second_pass, FailureKind,
    FailureListAction, FetchError,
};
use emukc_bootstrap::progress::FailedItem;

#[test]
fn failure_list_suffix_does_not_stack() {
    let src = "/z/cache/cache_resources.nedb";
    assert_eq!(failure_list_path(src, "failed"), "/z/cache/cache_resources.failed.nedb");
    assert_eq!(failure_list_path(src, "missing"), "/z/cache/cache_resources.missing.nedb");

    let retry = "/z/cache/cache_resources.failed.nedb";
    assert_eq!(failure_list_path(retry, "failed"), retry, "overwrites in place");
    assert_eq!(
        failure_list_path(retry, "missing"),
        "/z/cache/cache_resources.missing.nedb",
        "the other class is derived from the base name, not appended"
    );
}

#[test]
fn a_list_without_extension_gets_the_default_one() {
    assert_eq!(failure_list_path("/z/list", "failed"), "/z/list.failed.nedb");
    assert_eq!(failure_list_path("/z/list.missing.json", "failed"), "/z/list.failed.json");
}

#[test]
fn class_marker_is_read_from_the_stem() {
    assert!(carries_class_marker("/z/cache/cache_resources.failed.nedb"));
    assert!(carries_class_marker("/z/cache/cache_resources.missing.nedb"));
    assert!(!carries_class_marker("/z/cache/cache_resources.nedb"));
    assert!(!carries_class_marker("/z/cache/failed.nedb"));
}

#[test]
fn retrying_one_class_list_leaves_the_other_alone() {
    let failed_list = "/z/cache/cache_resources.failed.nedb";
    assert_eq!(
        failure_list_action(failed_list, "failed", false),
        FailureListAction::RemoveStale(failed_list.to_string()),
        "its own class list is cleared"
    );
    assert_eq!(
        failure_list_action(failed_list, "missing", false),
        FailureListAction::Keep,
        "the other class list is untouched"
    );
}

#[test]
fn a_clean_full_run_clears_both_class_lists() {
    let src = "/z/cache/cache_resources.nedb";
    assert_eq!(
        failure_list_action(src, "failed", false),
        FailureListAction::RemoveStale("/z/cache/cache_resources.failed.nedb".to_string())
    );
    assert_eq!(
        failure_list_action(src, "missing", false),
        FailureListAction::RemoveStale("/z/cache/cache_resources.missing.nedb".to_string())
    );
}

#[test]
fn a_run_with_failures_writes_its_class_list() {
    assert_eq!(
        failure_list_action("/z/cache/cache_resources.nedb", "failed", true),
        FailureListAction::Write("/z/cache/cache_resources.failed.nedb".to_string())
    );
}

fn failed(path: &str, version: Option<&str>, error: &str) -> FailedItem {
    FailedItem { path: path.into(), version: version.map(Into::into), error: error.into() }
}

#[test]
fn failures_serialize_into_readable_list_items() {
    let items = vec![
        failed("kcs2/a.png", Some("6.3.5.0"), "failed on all CDN"),
        failed("kcs2/b.png", None, "failed on all CDN"),
    ];

    let jsonl = failures_to_jsonl(&items).unwrap();
    let parsed: Vec<serde_json::Value> = jsonl.lines().map(|l| serde_json::from_str(l).unwrap()).collect();

    assert_eq!(parsed.len(), 2);
    assert_eq!(parsed[0]["path"], "kcs2/a.png");
    assert_eq!(parsed[0]["version"].as_str(), Some("6.3.5.0"));
    assert_eq!(parsed[1]["path"], "kcs2/b.png");
    assert_eq!(parsed[1].get("version"), None);

    assert!(!jsonl.lines().nth(1).unwrap().contains("version"));
}

#[test]
fn empty_failure_set_serializes_to_nothing() {
    assert_eq!(failures_to_jsonl(&[]).unwrap(), "");
}

#[test]
fn list_lines_escape_quotes_in_paths() {
    let jsonl = failures_to_jsonl(&[failed("kcs2/\"odd\".png", None, "x")]).unwrap();
    assert_eq!(jsonl, "{\"path\":\"kcs2/\\\"odd\\\".png\"}\n");
}

fn item(path: &str) -> FailedItem {
    FailedItem { path: path.to_string(), version: None, error: String::from("e") }
}

#[test]
fn classify_failure_keeps_the_three_outcomes_apart() {
    assert_eq!(classify_failure(&FetchError::VersionRollback), FailureKind::Rollback);
    assert_eq!(classify_failure(&FetchError::NotFound), FailureKind::Missing);
    assert_eq!(classify_failure(&FetchError::Other), FailureKind::Retryable);
}

#[test]
fn first_pass_splits_by_class_in_order() {
    let fs = vec![
        (item("a"), FetchError::Other),
        (item("b"), FetchError::NotFound),
        (item("c"), FetchError::VersionRollback),
        (item("d"), FetchError::Other),
        (item("e"), FetchError::VersionRollback),
    ];
    let split = split_first_pass(&fs);
    assert_eq!(split.rollback, 2);
    let missing: Vec<&str> = split.missing.iter().map(|f| f.path.as_str()).collect();
    let retry: Vec<&str> = split.retryable.iter().map(|f| f.path.as_str()).collect();
    assert_eq!(missing, vec!["b"]);
    assert_eq!(retry, vec!["a", "d"]);
}

#[test]
fn second_pass_404s_join_the_missing_list() {
    let mut missing = vec![item("b")];
    let fs = vec![(item("a"), FetchError::NotFound), (item("d"), FetchError::Other)];
    let failed = split_second_pass(&fs, &mut missing);
    let m: Vec<&str> = missing.iter().map(|f| f.path.as_str()).collect();
    let f: Vec<&str> = failed.iter().map(|f| f.path.as_str()).collect();
    assert_eq!(m, vec!["b", "a"]);
    assert_eq!(f, vec!["d"]);
}

#[test]
fn outcome_reports_only_leftover_failures() {
    assert_eq!(populate_outcome(0, 0), None);
    assert_eq!(
        populate_outcome(3, 1),
        Some(String::from("3 items failed after retry, 1 missing (404)"))
    );
    assert_eq!(
        populate_outcome(0, 12),
        Some(String::from("0 items failed after retry, 12 missing (404)"))
    );
}

#[test]
fn list_lines_escape_quotes_backslashes_and_controls() {
    let items = vec![FailedItem {
        path: "a\"b\\c\n\u{1}\u{1f}é".to_string(),
        version: Some("\t".to_string()),
        error: String::new(),
    }];
    let body = failures_to_jsonl(&items).unwrap();
    assert_eq!(body, "{\"path\":\"a\\\"b\\\\c\\n\\u0001\\u001fé\",\"version\":\"\\t\"}\n");
}

#[test]
fn class_list_names_replace_a_marker() {
    assert_eq!(class_list_file_name(Some("cache_resources"), Some("nedb"), "failed"), "cache_resources.failed.nedb");
    assert_eq!(class_list_file_name(Some("cache_resources.failed"), Some("nedb"), "failed"), "cache_resources.failed.nedb");
    assert_eq!(class_list_file_name(Some("cache_resources.failed"), Some("nedb"), "missing"), "cache_resources.missing.nedb");
    assert_eq!(class_list_file_name(Some("list.missing"), None, "failed"), "list.failed.nedb");
    assert_eq!(class_list_file_name(None, Some("jsonl"), "missing"), "cache_resources.missing.jsonl");
}
