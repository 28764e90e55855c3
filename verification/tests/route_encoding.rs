use emukc_bootstrap::label_overlay::RouteRuleDraft;
use emukc_bootstrap::route_encoding::check_mixed_routing_encoding;
use emukc_bootstrap::route_model::RoutePredicate;

fn make_draft(from: &str, to: &str, probability_pct: Option<f64>) -> RouteRuleDraft<Option<f64>> {
    RouteRuleDraft {
        from_label: from.to_string(),
        to_label: to.to_string(),
        probability: probability_pct,
        predicate: RoutePredicate::Always,
        raw_text: String::new(),
        random_placeholder: false,
    }
}

#[test]
fn check_mixed_routing_encoding_emits_warning_for_mixed_cell() {
    let rules = vec![make_draft("A", "B", Some(50.0)), make_draft("A", "C", None)];
    let mut warnings = Vec::new();
    check_mixed_routing_encoding(&rules, &mut warnings);
    assert!(
        warnings.iter().any(|w| w == "mixed_routing_encoding_cell_A"),
        "expected mixed_routing_encoding_cell_A, got: {warnings:?}"
    );
}

#[test]
fn check_mixed_routing_encoding_no_warning_when_all_probability() {
    let rules = vec![make_draft("B", "C", Some(60.0)), make_draft("B", "D", Some(40.0))];
    let mut warnings = Vec::new();
    check_mixed_routing_encoding(&rules, &mut warnings);
    assert!(!warnings.iter().any(|w| w.contains("mixed_routing_encoding")), "unexpected warning: {warnings:?}");
}

#[test]
fn check_mixed_routing_encoding_no_warning_when_all_weight() {
    let rules = vec![make_draft("C", "D", None), make_draft("C", "E", None)];
    let mut warnings = Vec::new();
    check_mixed_routing_encoding(&rules, &mut warnings);
    assert!(!warnings.iter().any(|w| w.contains("mixed_routing_encoding")), "unexpected warning: {warnings:?}");
}

#[test]
fn check_mixed_routing_encoding_different_cells_no_cross_contamination() {
    let rules = vec![
        make_draft("A", "X", Some(70.0)),
        make_draft("A", "Y", Some(30.0)),
        make_draft("B", "X", None),
        make_draft("B", "Z", None),
    ];
    let mut warnings = Vec::new();
    check_mixed_routing_encoding(&rules, &mut warnings);
    assert!(!warnings.iter().any(|w| w.contains("mixed_routing_encoding")), "unexpected warning: {warnings:?}");
}

#[test]
fn mixed_cells_are_reported_once_each_in_label_order_after_earlier_warnings() {
    let mut placeholder = make_draft("D", "E", Some(10.0));
    placeholder.random_placeholder = true;
    let rules = vec![
        make_draft("K", "L", Some(20.0)),
        make_draft("B", "C", None),
        make_draft("K", "M", None),
        make_draft("B", "D", Some(50.0)),
        make_draft("K", "N", None),
        placeholder,
        make_draft("D", "F", None),
        make_draft("AA", "B", None),
        make_draft("AA", "C", Some(1.0)),
    ];
    let mut warnings = vec!["earlier".to_string()];
    check_mixed_routing_encoding(&rules, &mut warnings);
    assert_eq!(
        warnings,
        vec![
            "earlier",
            "mixed_routing_encoding_cell_AA",
            "mixed_routing_encoding_cell_B",
            "mixed_routing_encoding_cell_K",
        ]
    );
}
