use emukc_bootstrap::grid::{is_drop_table_rows, table_has_headers};
use emukc_bootstrap::node_label::{
    find_header_index, normalize_text, parse_formation, parse_node_label, parse_node_labels,
};

#[test]
fn parse_node_labels_splits_slash_separated_labels() {
    let labels = parse_node_labels("A/B");
    assert_eq!(labels, vec!["A", "B"]);
}

#[test]
fn parse_node_labels_single_label() {
    let labels = parse_node_labels("A");
    assert_eq!(labels, vec!["A"]);
}

#[test]
fn parse_node_labels_empty_input() {
    let labels = parse_node_labels("");
    assert!(labels.is_empty(), "empty input should produce no labels");
}

#[test]
fn parse_node_labels_start_keyword_normalized() {
    let labels = parse_node_labels("スタート");
    assert_eq!(labels, vec!["Start"]);
}

#[test]
fn parse_node_labels_triple_label() {
    let labels = parse_node_labels("A/B/C");
    assert_eq!(labels, vec!["A", "B", "C"]);
}

#[test]
fn normalize_text_collapses_whitespace_runs() {
    assert_eq!(normalize_text("  a \t b\n\nc  "), "a b c");
    assert_eq!(normalize_text("\u{3000}ボス\u{3000}"), "ボス");
    assert_eq!(normalize_text("   "), "");
    assert_eq!(normalize_text(""), "");
}

#[test]
fn node_label_trims_separators_and_reads_the_leading_label() {
    assert_eq!(parse_node_label(" B → "), Some("B".to_string()));
    assert_eq!(parse_node_label("：Z1"), Some("Z1".to_string()));
    assert_eq!(parse_node_label("Bマス"), Some("B".to_string()));
    assert_eq!(parse_node_label("出撃ポイント"), Some("Start".to_string()));
    assert_eq!(parse_node_label("start"), Some("Start".to_string()));
    assert_eq!(parse_node_label("ボス"), None);
    assert_eq!(parse_node_label("b"), None);
}

#[test]
fn node_labels_skip_pieces_without_a_label() {
    assert_eq!(parse_node_labels("A/?/C"), vec!["A", "C"]);
    assert_eq!(parse_node_labels("出撃/B"), vec!["Start", "B"]);
}

#[test]
fn formations_are_read_by_name() {
    assert_eq!(parse_formation("単縦陣"), Some(1));
    assert_eq!(parse_formation("複縦陣"), Some(2));
    assert_eq!(parse_formation("輪形陣"), Some(3));
    assert_eq!(parse_formation("梯形陣"), Some(4));
    assert_eq!(parse_formation("単横陣"), Some(5));
    assert_eq!(parse_formation("警戒陣"), Some(6));
    assert_eq!(parse_formation("第四警戒航行序列"), Some(6));
    assert_eq!(parse_formation("不明"), None);
}

#[test]
fn header_index_is_the_first_header_naming_any() {
    let headers = vec!["マス".to_string(), "敵艦隊".to_string(), "陣形".to_string()];
    assert_eq!(find_header_index(&headers, &["陣形", "艦隊"]), Some(1));
    assert_eq!(find_header_index(&headers, &["陣形"]), Some(2));
    assert_eq!(find_header_index(&headers, &["経験値"]), None);
    assert_eq!(find_header_index(&[], &["マス"]), None);
}

#[test]
fn drop_tables_name_two_enemy_classes_in_their_first_rows() {
    let rows = vec![
        vec!["マス".to_string(), "戦艦級".to_string()],
        vec!["".to_string(), "駆逐艦".to_string()],
    ];
    assert!(is_drop_table_rows(&rows));
    let late = vec![
        vec!["マス".to_string(), "戦艦級".to_string()],
        vec!["A".to_string()],
        vec!["駆逐艦".to_string()],
    ];
    assert!(!is_drop_table_rows(&late));
    assert!(!is_drop_table_rows(&[]));
}

#[test]
fn header_test_looks_at_the_first_three_rows() {
    let rows = vec![
        vec!["分岐点".to_string()],
        vec!["ルート".to_string()],
        vec!["移動条件".to_string()],
        vec!["備考".to_string()],
    ];
    assert!(table_has_headers(&rows, &["分岐点", "移動条件"]));
    assert!(!table_has_headers(&rows, &["備考"]));
    assert!(table_has_headers(&rows, &[]));
}

#[test]
fn normalizing_twice_changes_nothing() {
    for s in ["  a \t b\n\nc  ", "", "   ", "ボス\u{3000}マス", "x"] {
        let once = normalize_text(s);
        assert_eq!(normalize_text(&once), once);
    }
}
