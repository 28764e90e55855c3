use emukc_bootstrap::label_overlay::{
    lift_predicate_to_labels, WikiwikiEnemyFleetDefinition, WikiwikiLabelOverlay,
    WikiwikiMapCatalog, WikiwikiMapDefinition, WikiwikiMapOverlayCatalog,
    WikiwikiMapVariantDefinition, WikiwikiNodeDefinition, WikiwikiRouteRule,
};
use emukc_bootstrap::route_model::RoutePredicate;

#[derive(Debug, Clone, PartialEq)]
struct Composition {
    ship_ids: Vec<i64>,
}

#[derive(Debug, Clone, PartialEq)]
struct Drop {
    ship_id: i64,
}

type Variant = WikiwikiMapVariantDefinition<Option<f64>, Composition, Drop>;
type Catalog = WikiwikiMapCatalog<Option<f64>, Composition, Drop>;
type Overlay = WikiwikiLabelOverlay<Option<f64>, Composition, Drop>;

fn empty_variant() -> Variant {
    WikiwikiMapVariantDefinition {
        variant_key: String::new(),
        nodes: vec![],
        routing_rules: vec![],
        enemy_fleets: vec![],
        ship_drops: vec![],
        required_defeat_count: None,
        clear_to_variant_key: None,
        parse_warnings: vec![],
    }
}

fn node(label: &str, cell_no: i64) -> WikiwikiNodeDefinition {
    WikiwikiNodeDefinition { label: label.to_string(), cell_no, is_boss: false, is_battle: true }
}

fn rule(from: i64, to: i64, predicate: RoutePredicate) -> WikiwikiRouteRule<Option<f64>> {
    WikiwikiRouteRule {
        from_cell_no: from,
        to_cell_no: to,
        priority: 0,
        probability: None,
        predicate,
        raw_text: String::new(),
    }
}

fn map_def(map_id: i64, variants: Vec<(String, Variant)>) -> WikiwikiMapDefinition<Option<f64>, Composition, Drop> {
    WikiwikiMapDefinition {
        map_id,
        maparea_id: map_id / 10,
        mapinfo_no: map_id % 10,
        name: String::new(),
        source_url: String::new(),
        default_variant: String::new(),
        variants,
        overlays: vec![],
    }
}

fn catalog_of(variant: Variant) -> Catalog {
    WikiwikiMapCatalog { maps: vec![(45, map_def(45, vec![(String::new(), variant)]))] }
}

fn only_variant(catalog: WikiwikiMapOverlayCatalog<Option<f64>, Composition, Drop>) -> Overlay {
    let mut maps = catalog.maps;
    assert_eq!(maps.len(), 1);
    let (id, def) = maps.remove(0);
    assert_eq!(id, 45);
    let mut variants = def.variants;
    let (key, overlay) = variants.remove(0);
    assert_eq!(key, "");
    overlay
}

#[test]
fn ingestion_lifts_visited_node_to_its_label() {
    let mut variant = empty_variant();
    variant.nodes = vec![node("A", 1), node("C", 7), node("M", 9)];
    variant.routing_rules = vec![
        rule(1, 9, RoutePredicate::VisitedNode { cell_nos: vec![7], visited: true }),
        rule(1, 42, RoutePredicate::Always),
    ];

    let overlay = only_variant(catalog_of(variant).into_label_overlay_catalog());

    assert_eq!(overlay.routing_rules.len(), 1);
    let draft = &overlay.routing_rules[0];
    assert_eq!((draft.from_label.as_str(), draft.to_label.as_str()), ("A", "M"));
    match &draft.predicate {
        RoutePredicate::VisitedNodeLabel { node_labels, visited } => {
            assert_eq!(node_labels, &vec!["C".to_string()]);
            assert!(visited);
        }
        other => panic!("expected VisitedNodeLabel, got {other:?}"),
    }
}

#[test]
fn ingestion_merges_rows_of_a_label_split_across_cells() {
    let mut variant = empty_variant();
    variant.nodes = vec![node("E", 3), node("E", 11)];
    variant.enemy_fleets = [3, 11]
        .into_iter()
        .map(|cell_no| WikiwikiEnemyFleetDefinition {
            node_label: "E".to_string(),
            cell_no,
            battle_kind: if cell_no == 11 { 5 } else { 1 },
            formations: vec![1],
            compositions: vec![Composition { ship_ids: vec![1500 + cell_no] }],
        })
        .collect();
    variant.ship_drops = vec![(3, vec![Drop { ship_id: 1 }]), (11, vec![Drop { ship_id: 2 }])];

    let overlay = only_variant(catalog_of(variant).into_label_overlay_catalog());

    assert_eq!(overlay.enemy_nodes.len(), 1);
    let (label, rows) = &overlay.enemy_nodes[0];
    assert_eq!(label, "E");
    assert!(rows.is_boss);
    assert_eq!(
        rows.compositions.iter().map(|c| c.ship_ids.clone()).collect::<Vec<_>>(),
        vec![vec![1503], vec![1511]]
    );
    assert_eq!(
        overlay.ship_drops.iter().map(|d| (d.node_label.as_str(), d.drop.ship_id)).collect::<Vec<_>>(),
        vec![("E", 1), ("E", 2)]
    );
}

#[test]
fn validate_rejects_empty_catalog() {
    let catalog: Catalog = WikiwikiMapCatalog { maps: vec![] };
    assert_eq!(catalog.validate(), Err("catalog has no maps".to_string()));
}

#[test]
fn validate_names_the_first_faulty_map_and_variant() {
    let no_variants: Catalog = WikiwikiMapCatalog { maps: vec![(12, map_def(12, vec![]))] };
    assert_eq!(no_variants.validate(), Err("map 12 has no variants".to_string()));

    let mut fleets_only = empty_variant();
    fleets_only.enemy_fleets = vec![WikiwikiEnemyFleetDefinition {
        node_label: "A".to_string(),
        cell_no: 1,
        battle_kind: 1,
        formations: vec![],
        compositions: vec![],
    }];
    let mut fine = empty_variant();
    fine.nodes = vec![node("A", 1)];
    let catalog: Catalog = WikiwikiMapCatalog {
        maps: vec![(
            71,
            map_def(71, vec![("a".to_string(), fine), ("b".to_string(), fleets_only)]),
        )],
    };
    assert_eq!(
        catalog.validate(),
        Err("map 71 variant 'b' has enemy fleets but no nodes".to_string())
    );

    let mut ok = empty_variant();
    ok.nodes = vec![node("A", 1)];
    let good: Catalog = WikiwikiMapCatalog { maps: vec![(11, map_def(11, vec![(String::new(), ok)]))] };
    assert_eq!(good.validate(), Ok(()));
}

#[test]
fn rules_come_out_by_departing_cell_then_priority() {
    let mut variant = empty_variant();
    variant.nodes = vec![node("A", 1), node("B", 2), node("C", 3)];
    let mut r1 = rule(1, 3, RoutePredicate::Always);
    r1.priority = 2;
    let mut r2 = rule(1, 2, RoutePredicate::Always);
    r2.priority = 1;
    let r3 = rule(0, 1, RoutePredicate::Always);
    let mut r4 = rule(1, 2, RoutePredicate::Always);
    r4.priority = 1;
    r4.raw_text = "second of equal key".to_string();
    variant.routing_rules = vec![r1, r2, r3, r4];

    let overlay = variant.into_label_overlay();

    let ends: Vec<(&str, &str, &str)> = overlay
        .routing_rules
        .iter()
        .map(|d| (d.from_label.as_str(), d.to_label.as_str(), d.raw_text.as_str()))
        .collect();
    assert_eq!(
        ends,
        vec![("Start", "A", ""), ("A", "B", ""), ("A", "B", "second of equal key"), ("A", "C", "")]
    );
}

#[test]
fn a_later_fleet_on_the_same_cell_replaces_the_earlier() {
    let mut variant = empty_variant();
    variant.nodes = vec![node("B", 2)];
    variant.enemy_fleets = vec![
        WikiwikiEnemyFleetDefinition {
            node_label: "B".to_string(),
            cell_no: 2,
            battle_kind: 5,
            formations: vec![],
            compositions: vec![Composition { ship_ids: vec![1] }],
        },
        WikiwikiEnemyFleetDefinition {
            node_label: "B".to_string(),
            cell_no: 2,
            battle_kind: 1,
            formations: vec![],
            compositions: vec![Composition { ship_ids: vec![2] }],
        },
        WikiwikiEnemyFleetDefinition {
            node_label: "?".to_string(),
            cell_no: 8,
            battle_kind: 1,
            formations: vec![],
            compositions: vec![Composition { ship_ids: vec![3] }],
        },
    ];
    let overlay = variant.into_label_overlay();
    assert_eq!(overlay.enemy_nodes.len(), 1);
    assert!(!overlay.enemy_nodes[0].1.is_boss);
    assert_eq!(overlay.enemy_nodes[0].1.compositions, vec![Composition { ship_ids: vec![2] }]);
}

#[test]
fn lifting_keeps_labels_once_and_drops_unknown_cells() {
    let nodes = vec![node("A", 1), node("B", 2), node("", 5)];
    let lifted = lift_predicate_to_labels(
        RoutePredicate::Not(Box::new(RoutePredicate::And(vec![
            RoutePredicate::VisitedNode { cell_nos: vec![2, 9, 2, 1, 5, 0], visited: false },
            RoutePredicate::VisitedNodeLabel {
                node_labels: vec!["Start".to_string(), "Z".to_string(), "B".to_string()],
                visited: true,
            },
            RoutePredicate::FleetSize { op: emukc_bootstrap::route_model::RouteOperator::Lte, value: 4 },
        ]))),
        &nodes,
    );
    let RoutePredicate::Not(inner) = lifted else { panic!("expected Not") };
    let RoutePredicate::And(parts) = *inner else { panic!("expected And") };
    match &parts[0] {
        RoutePredicate::VisitedNodeLabel { node_labels, visited } => {
            assert_eq!(node_labels, &vec!["B".to_string(), "A".to_string(), "Start".to_string()]);
            assert!(!visited);
        }
        other => panic!("unexpected {other:?}"),
    }
    match &parts[1] {
        RoutePredicate::VisitedNodeLabel { node_labels, visited } => {
            assert_eq!(node_labels, &vec!["Start".to_string(), "B".to_string()]);
            assert!(visited);
        }
        other => panic!("unexpected {other:?}"),
    }
    assert!(matches!(parts[2], RoutePredicate::FleetSize { value: 4, .. }));
}
