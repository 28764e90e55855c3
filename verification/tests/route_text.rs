use emukc_bootstrap::route_model::{RouteOperator, RoutePredicate};
use emukc_bootstrap::route_text::{
    combine_route_predicates, combine_ship_id_predicates, compact_route_raw_text,
    count_route_line_indent, is_ignorable_route_annotation_line, is_incomplete_los_source_text,
    is_probability_modifier_note, parse_los_range_predicate, parse_los_simple_predicate,
    parse_visited_node_predicate, predicate_contains_unknown, predicate_for_contains_selector,
    predicate_for_only_selector, predicate_is_los_only, split_once_keyword_top_level,
    strip_case_suffix, trim_wrapping_parentheses, Junction, RouteSelector,
};

fn los(op: RouteOperator, value: i64) -> RoutePredicate {
    RoutePredicate::LoS { formula: None, op, value }
}

fn los_parts(p: &RoutePredicate) -> Vec<(RouteOperator, i64)> {
    match p {
        RoutePredicate::And(v) => v
            .iter()
            .map(|q| match q {
                RoutePredicate::LoS { op, value, .. } => (*op, *value),
                other => panic!("unexpected {other:?}"),
            })
            .collect(),
        other => panic!("unexpected {other:?}"),
    }
}

#[test]
fn keyword_split_ignores_parenthesised_keywords() {
    assert_eq!(
        split_once_keyword_top_level("(AまたはB)かつC", "かつ"),
        Some(("(AまたはB)".to_string(), "C".to_string()))
    );
    assert_eq!(split_once_keyword_top_level("(AまたはB)", "または"), None);
    assert_eq!(
        split_once_keyword_top_level("A または B または C", "または"),
        Some(("A".to_string(), "B または C".to_string()))
    );
    assert_eq!(split_once_keyword_top_level("または B", "または"), None);
    assert_eq!(
        split_once_keyword_top_level("（戦艦かつ空母）または 駆逐", "または"),
        Some(("（戦艦かつ空母）".to_string(), "駆逐".to_string()))
    );
}

#[test]
fn wrapping_parentheses_come_off_only_when_they_wrap_everything() {
    assert_eq!(trim_wrapping_parentheses(" (A かつ B) "), Some("A かつ B".to_string()));
    assert_eq!(trim_wrapping_parentheses("（戦艦）"), Some("戦艦".to_string()));
    assert_eq!(trim_wrapping_parentheses("(A)かつ(B)"), None);
    assert_eq!(trim_wrapping_parentheses("((A))"), Some("(A)".to_string()));
    assert_eq!(trim_wrapping_parentheses("(A"), None);
    assert_eq!(trim_wrapping_parentheses("()"), Some(String::new()));
    assert_eq!(trim_wrapping_parentheses(""), None);
}

#[test]
fn case_suffixes_and_indent() {
    assert_eq!(strip_case_suffix("駆逐艦2隻以上の場合"), Some("駆逐艦2隻以上".to_string()));
    assert_eq!(strip_case_suffix("空母を含むとき"), Some("空母を含む".to_string()));
    assert_eq!(strip_case_suffix("Bへ"), None);
    assert_eq!(count_route_line_indent("__＿　text"), 4);
    assert_eq!(count_route_line_indent("text__"), 0);
}

#[test]
fn los_text_without_numbers_is_incomplete() {
    assert!(is_incomplete_los_source_text("索敵値が一定以上"));
    assert!(!is_incomplete_los_source_text("索敵値40以上"));
    assert!(!is_incomplete_los_source_text("駆逐艦以上"));
}

#[test]
fn annotations_and_notes() {
    assert!(is_probability_modifier_note("Bへ行く割合を増やせる"));
    assert!(!is_probability_modifier_note("割合"));
    assert!(is_ignorable_route_annotation_line("[注]"));
    assert!(is_ignorable_route_annotation_line("（補足）"));
    assert!(!is_ignorable_route_annotation_line("駆逐艦2隻"));
}

#[test]
fn los_ranges_become_two_bounds() {
    let p = parse_los_range_predicate("索敵値40以上50未満").unwrap();
    assert_eq!(los_parts(&p), vec![(RouteOperator::Gte, 40), (RouteOperator::Lte, 49)]);
    let p = parse_los_range_predicate("50未満40以上").unwrap();
    assert_eq!(los_parts(&p), vec![(RouteOperator::Gte, 40), (RouteOperator::Lte, 49)]);
    assert!(parse_los_range_predicate("索敵値50以上50未満").is_none());
    assert!(parse_los_range_predicate("駆逐艦2隻").is_none());
}

#[test]
fn single_los_bounds() {
    assert!(matches!(
        parse_los_simple_predicate("索敵スコアが63以上"),
        Some(RoutePredicate::LoS { op: RouteOperator::Gte, value: 63, .. })
    ));
    assert!(matches!(
        parse_los_simple_predicate("45以下"),
        Some(RoutePredicate::LoS { op: RouteOperator::Lte, value: 45, .. })
    ));
    assert!(matches!(
        parse_los_simple_predicate("索敵値30未満"),
        Some(RoutePredicate::LoS { op: RouteOperator::Lte, value: 29, .. })
    ));
    assert!(parse_los_simple_predicate("高速統一").is_none());
}

#[test]
fn visited_nodes_by_label() {
    match parse_visited_node_predicate("Jマス未経由") {
        Some(RoutePredicate::VisitedNodeLabel { node_labels, visited }) => {
            assert_eq!(node_labels, vec!["J".to_string()]);
            assert!(!visited);
        }
        other => panic!("unexpected {other:?}"),
    }
    match parse_visited_node_predicate("G1マスを経由済み") {
        Some(RoutePredicate::VisitedNodeLabel { node_labels, visited }) => {
            assert_eq!(node_labels, vec!["G1".to_string()]);
            assert!(visited);
        }
        other => panic!("unexpected {other:?}"),
    }
    assert!(parse_visited_node_predicate("Jマス").is_none());
}

#[test]
fn predicate_tree_tests() {
    let tree = RoutePredicate::And(vec![
        los(RouteOperator::Gte, 3),
        RoutePredicate::Not(Box::new(RoutePredicate::SourceUnknown { raw_text: "?".to_string() })),
    ]);
    assert!(predicate_contains_unknown(&tree));
    assert!(!predicate_is_los_only(&tree));
    let los_tree = RoutePredicate::Or(vec![los(RouteOperator::Gte, 3), los(RouteOperator::Lte, 9)]);
    assert!(predicate_is_los_only(&los_tree));
    assert!(!predicate_contains_unknown(&los_tree));
    assert!(!predicate_is_los_only(&RoutePredicate::And(vec![])));
}

#[test]
fn combining_appends_to_an_existing_conjunction() {
    let c = combine_route_predicates(Some(RoutePredicate::And(vec![RoutePredicate::Always])), los(RouteOperator::Gte, 1));
    assert!(matches!(&c, RoutePredicate::And(v) if v.len() == 2));
    let c = combine_route_predicates(Some(RoutePredicate::Always), los(RouteOperator::Gte, 1));
    assert!(matches!(&c, RoutePredicate::And(v) if v.len() == 2));
    let c = combine_route_predicates(None, RoutePredicate::Always);
    assert!(matches!(c, RoutePredicate::Always));
}

#[test]
fn raw_text_is_kept_only_for_unreadable_predicates() {
    let unknown = RoutePredicate::Unknown { raw_text: "x".to_string() };
    assert_eq!(compact_route_raw_text(&unknown, "原文".to_string()), "原文");
    assert_eq!(compact_route_raw_text(&RoutePredicate::Always, "原文".to_string()), "");
}

#[test]
fn selectors_become_predicates() {
    let types = RouteSelector { ship_types: vec![2, 3], ship_ids: vec![] };
    assert!(matches!(predicate_for_contains_selector(types.clone()), Some(RoutePredicate::ContainsShipType { .. })));
    assert!(matches!(predicate_for_only_selector(types), Some(RoutePredicate::OnlyShipTypes { .. })));
    let one = RouteSelector { ship_types: vec![], ship_ids: vec![101] };
    assert!(matches!(predicate_for_contains_selector(one.clone()), Some(RoutePredicate::ContainsShipId { .. })));
    assert!(matches!(predicate_for_only_selector(one), Some(RoutePredicate::OnlyShipSet { .. })));
    let mixed = RouteSelector { ship_types: vec![2], ship_ids: vec![101] };
    assert!(matches!(predicate_for_contains_selector(mixed), Some(RoutePredicate::ContainsShipSet { .. })));
    assert!(predicate_for_contains_selector(RouteSelector::default()).is_none());
    assert!(predicate_for_only_selector(RouteSelector::default()).is_none());
}

#[test]
fn ship_id_tests_are_joined() {
    match combine_ship_id_predicates(vec![1, 2], Junction::Or) {
        RoutePredicate::Or(v) => assert_eq!(v.len(), 2),
        other => panic!("unexpected {other:?}"),
    }
    assert!(matches!(combine_ship_id_predicates(vec![7], Junction::And), RoutePredicate::ContainsShipId { .. }));
}
