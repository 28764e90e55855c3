use emukc_bootstrap::grid::is_route_table_rows;
use emukc_bootstrap::route_table::{
    collect_formations, find_route_table_sections, parse_gauge_defeat_counts, FoldSection,
    extract_gauge_variant_key, parse_gauge_defeat_count_row, route_section_variant_key,
};

fn row(cells: &[&str]) -> Vec<String> {
    cells.iter().map(|c| c.to_string()).collect()
}

#[test]
fn route_section_variant_key_gauge_3_kanji() {
    assert_eq!(route_section_variant_key("## 第三ゲージ破壊後ルート", 2, 3), "gauge_3");
}

#[test]
fn route_section_variant_key_gauge_4_arabic() {
    assert_eq!(route_section_variant_key("## ゲージ4", 3, 4), "gauge_4");
}

#[test]
fn route_section_variant_key_gauge_1_still_works() {
    assert_eq!(route_section_variant_key("## 第一ゲージ", 0, 2), "gauge_1");
}

#[test]
fn route_section_variant_key_gauge_5_regex_fallback() {
    assert_eq!(route_section_variant_key("## ゲージ5ルート", 4, 5), "gauge_5");
}

#[test]
fn route_section_variant_key_unknown_falls_to_indexed() {
    assert_eq!(route_section_variant_key("## some other section", 3, 5), "variant_4");
}

#[test]
fn a_single_section_has_no_variant_key() {
    assert_eq!(route_section_variant_key("第一ゲージ", 0, 1), "");
    assert_eq!(route_section_variant_key("第一ゲージ", 0, 0), "");
}

#[test]
fn p_cell_unlock_sections_take_precedence_and_ignore_spaces() {
    assert_eq!(route_section_variant_key("P マス 出現前 第一ゲージ", 0, 2), "pre_p_unlock");
    assert_eq!(route_section_variant_key("Pマス出現後", 1, 2), "post_p_unlock");
}

#[test]
fn gauge_keys_follow_their_precedence() {
    let k = |s: &str| extract_gauge_variant_key(&s.chars().collect::<Vec<_>>());
    assert_eq!(k("ゲージ12"), Some("gauge_1".to_string()));
    assert_eq!(k("ゲージ37"), Some("gauge_37".to_string()));
    assert_eq!(k("ゲージ"), None);
    assert_eq!(k("ゲージA ゲージ9"), None);
    assert_eq!(k("nothing"), None);
}

#[test]
fn route_tables_are_recognised_by_their_headers() {
    let rows = vec![row(&["分岐点", "ルート", "移動条件"]), row(&["A", "B", "x"])];
    assert!(is_route_table_rows(&rows));
    let split = vec![row(&["分岐点"]), row(&["ルート"]), row(&["移動条件"]), row(&["x"])];
    assert!(is_route_table_rows(&split));
    let late = vec![row(&["分岐点"]), row(&["ルート"]), row(&["x"]), row(&["移動条件"])];
    assert!(!is_route_table_rows(&late));
    assert!(!is_route_table_rows(&[]));
}

#[test]
fn gauge_rows_give_their_defeat_count() {
    assert_eq!(parse_gauge_defeat_count_row(&row(&["第一ゲージ", "4回撃沈"])), Some(4));
    assert_eq!(parse_gauge_defeat_count_row(&row(&["ゲージ", "x", "a12回撃沈"])), Some(12));
    assert_eq!(parse_gauge_defeat_count_row(&row(&["ボス", "4回撃沈"])), None);
    assert_eq!(
        parse_gauge_defeat_count_row(&row(&["ゲージ", "99999999999999999999回撃沈", "3回撃沈"])),
        Some(3)
    );
    assert_eq!(parse_gauge_defeat_count_row(&[]), None);
}

#[test]
fn named_sections_ignore_the_index_bound() {
    assert_eq!(route_section_variant_key("Pマス出現前", usize::MAX, 2), "pre_p_unlock");
    assert_eq!(route_section_variant_key("ゲージ2", usize::MAX, 3), "gauge_2");
    assert_eq!(route_section_variant_key("第一ゲージ", usize::MAX, 1), "");
}

fn grid(rows: &[&[&str]]) -> Vec<Vec<String>> {
    rows.iter().map(|r| r.iter().map(|c| c.to_string()).collect()).collect()
}

#[test]
fn defeat_counts_come_from_the_first_table_with_two_gauges() {
    let lone = grid(&[&["ゲージ", "4回撃沈"]]);
    let other = grid(&[&["海域", "x"]]);
    let gauges = grid(&[
        &["第1ゲージ", "4回撃沈"],
        &["備考", "7回撃沈"],
        &["第2ゲージ", "x", "5回撃沈"],
    ]);
    let later = grid(&[&["ゲージ", "9回撃沈"], &["ゲージ", "8回撃沈"]]);
    assert_eq!(parse_gauge_defeat_counts(&[lone.clone(), other, gauges, later]), vec![4, 5]);
    assert_eq!(parse_gauge_defeat_counts(&[lone]), Vec::<i64>::new());
}

#[test]
fn formations_are_distinct_ascending_or_line_ahead() {
    assert_eq!(collect_formations(&[Some(4), None, Some(1), Some(4)]), vec![1, 4]);
    assert_eq!(collect_formations(&[None, None]), vec![1]);
    assert_eq!(collect_formations(&[]), vec![1]);
}

#[test]
fn route_tables_come_from_fold_sections_or_the_headed_table() {
    let route = grid(&[&["分岐点", "ルート", "移動条件"], &["A", "B", "x"]]);
    let other = grid(&[&["出現場所", "出現艦船"]]);
    let folds = vec![
        FoldSection {
            summary_text: Some("第一ゲージ  ルート".to_string()),
            tables: Some(vec![other.clone(), route.clone()]),
        },
        FoldSection { summary_text: Some("no content".to_string()), tables: None },
        FoldSection { summary_text: None, tables: Some(vec![route.clone()]) },
    ];
    let found = find_route_table_sections(&folds, Some(other.clone()));
    assert_eq!(found.len(), 2);
    assert_eq!(found[0].summary, "第一ゲージ ルート");
    assert_eq!(found[0].rows, route);
    assert_eq!(found[1].summary, "");

    let none = vec![FoldSection { summary_text: None, tables: Some(vec![other.clone()]) }];
    let fallback = find_route_table_sections(&none, Some(route.clone()));
    assert_eq!(fallback.len(), 1);
    assert_eq!(fallback[0].summary, "");
    assert_eq!(fallback[0].rows, route);
    assert!(find_route_table_sections(&none, None).is_empty());
}
