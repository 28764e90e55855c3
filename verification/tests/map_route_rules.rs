use emukc_bootstrap::map_route_rules::{
    validate_map_route_stage, MapRouteValidationFindingKind, MapRouteValidationSeverity,
};
use emukc_bootstrap::route_model::{MapCellDefinition, MapStageDefinition, RoutePredicate, RouteRule};

fn cell(cell_no: i64, next_cells: Vec<i64>) -> MapCellDefinition {
    MapCellDefinition { cell_no, color_no: 0, event_id: 0, event_kind: 0, next_cells }
}

fn always_rule(from: i64, to: i64) -> RouteRule {
    RouteRule {
        from_cell_no: from,
        to_cell_no: to,
        priority: 0,
        predicate: RoutePredicate::Always,
        raw_text: String::new(),
    }
}

/// 0 -> {1,2}; 1 -> {3}; 2 -> {3}; 3 -> {}. Cell 0 routes to both children.
fn clean_stage() -> MapStageDefinition {
    MapStageDefinition {
        cells: vec![cell(0, vec![1, 2]), cell(1, vec![3]), cell(2, vec![3]), cell(3, vec![])],
        routing_rules: vec![(0, vec![always_rule(0, 1), always_rule(0, 2)])],
    }
}

fn set_next_cells(stage: &mut MapStageDefinition, cell_no: i64, next_cells: Vec<i64>) {
    let cell = stage.cells.iter_mut().find(|c| c.cell_no == cell_no).expect("cell exists");
    cell.next_cells = next_cells;
}

#[test]
fn clean_stage_has_no_violations() {
    let report = validate_map_route_stage(&clean_stage());
    assert!(report.findings.is_empty(), "clean stage produced findings: {report:?}");
    assert!(!report.has_errors());
}

#[test]
fn rule_target_absent_from_next_cells_is_flagged() {
    let mut stage = clean_stage();
    set_next_cells(&mut stage, 0, vec![1]);
    let report = validate_map_route_stage(&stage);
    assert!(report.has_errors());
    assert!(
        report.findings.iter().any(|f| f.kind == MapRouteValidationFindingKind::RuleTargetNotInNextCells
            && f.from_cell_no == 0
            && f.to_cell_no == Some(2)),
        "expected RuleTargetNotInNextCells for 0->2, got {report:?}"
    );
}

#[test]
fn next_cell_not_in_stage_is_flagged() {
    let mut stage = clean_stage();
    set_next_cells(&mut stage, 1, vec![3, 99]);
    let report = validate_map_route_stage(&stage);
    assert!(report.has_errors());
    assert!(
        report.findings.iter().any(|f| f.kind == MapRouteValidationFindingKind::NextCellNotInStage
            && f.from_cell_no == 1
            && f.to_cell_no == Some(99)),
        "expected NextCellNotInStage for cell 1 -> 99, got {report:?}"
    );
}

#[test]
fn rule_from_cell_not_in_stage_is_flagged() {
    let mut stage = clean_stage();
    stage.routing_rules.push((42, vec![always_rule(42, 1)]));
    let report = validate_map_route_stage(&stage);
    assert!(report.has_errors());
    assert!(
        report.findings.iter().any(|f| f.kind == MapRouteValidationFindingKind::RuleFromCellNotInStage
            && f.from_cell_no == 42),
        "expected RuleFromCellNotInStage for cell 42, got {report:?}"
    );
}

#[test]
fn unknown_predicate_is_flagged_as_warning() {
    let mut stage = clean_stage();
    stage.routing_rules[0].1[0].predicate = RoutePredicate::Unknown { raw_text: "???".to_string() };
    let report = validate_map_route_stage(&stage);
    assert!(!report.has_errors(), "unsupported predicate must not be a hard error: {report:?}");
    assert!(
        report.findings.iter().any(|f| f.kind == MapRouteValidationFindingKind::UnsupportedPredicate
            && f.severity == MapRouteValidationSeverity::Warning
            && f.from_cell_no == 0),
        "expected UnsupportedPredicate warning, got {report:?}"
    );
}

#[test]
fn source_unknown_predicate_is_flagged_as_warning() {
    let mut stage = clean_stage();
    stage.routing_rules[0].1[1].predicate =
        RoutePredicate::SourceUnknown { raw_text: "ambiguous wiki text".to_string() };
    let report = validate_map_route_stage(&stage);
    assert!(!report.has_errors());
    assert!(
        report.findings.iter().any(|f| f.kind == MapRouteValidationFindingKind::UnsupportedPredicate
            && f.severity == MapRouteValidationSeverity::Warning
            && f.to_cell_no == Some(2)),
        "expected UnsupportedPredicate warning for rule 0->2, got {report:?}"
    );
}

#[test]
fn unsupported_predicate_nested_in_and_is_flagged() {
    let mut stage = clean_stage();
    stage.routing_rules[0].1[0].predicate = RoutePredicate::And(vec![
        RoutePredicate::Always,
        RoutePredicate::Not(Box::new(RoutePredicate::SourceUnknown { raw_text: "nested".to_string() })),
    ]);
    let report = validate_map_route_stage(&stage);
    assert!(
        report.findings.iter().any(|f| f.kind == MapRouteValidationFindingKind::UnsupportedPredicate),
        "expected nested unsupported predicate to be flagged, got {report:?}"
    );
}

#[test]
fn findings_carry_readable_messages() {
    let mut stage = clean_stage();
    set_next_cells(&mut stage, 1, vec![3, 99]);
    let report = validate_map_route_stage(&stage);
    assert_eq!(report.findings.len(), 1);
    assert_eq!(report.findings[0].severity, MapRouteValidationSeverity::Error);
    assert!(report.findings[0].message.contains("99"), "{report:?}");
}

#[test]
fn a_stage_without_rules_or_cells_is_clean() {
    let stage = MapStageDefinition { cells: vec![], routing_rules: vec![] };
    let report = validate_map_route_stage(&stage);
    assert!(report.findings.is_empty());
    assert!(!report.has_errors());
}

#[test]
fn one_warning_per_unsupported_leaf() {
    let mut stage = clean_stage();
    stage.routing_rules[0].1[0].predicate = RoutePredicate::Or(vec![
        RoutePredicate::Unknown { raw_text: "a".to_string() },
        RoutePredicate::And(vec![
            RoutePredicate::Always,
            RoutePredicate::SourceUnknown { raw_text: "b".to_string() },
            RoutePredicate::Not(Box::new(RoutePredicate::Unknown { raw_text: "c".to_string() })),
        ]),
    ]);
    let report = validate_map_route_stage(&stage);
    let warnings = report
        .findings
        .iter()
        .filter(|f| f.severity == MapRouteValidationSeverity::Warning)
        .count();
    assert_eq!(warnings, 3);
    assert!(report
        .findings
        .iter()
        .filter(|f| f.severity == MapRouteValidationSeverity::Warning)
        .all(|f| f.kind == MapRouteValidationFindingKind::UnsupportedPredicate));
}
