use emukc_bootstrap::tsunkit_nav::{
    build_variant, parse_map_name, tsunkit_color_no, TsunkitEnemyCompEntry, TsunkitMapResult,
    TsunkitNodeSummaryEntry, TsunkitRenderedSpot, TsunkitRoute, TsunkitSpot,
};

fn spot(key: &str, x: i64, y: i64, label: Option<&str>) -> TsunkitSpot {
    TsunkitSpot { key: key.to_string(), x, y, label: label.map(|l| l.to_string()) }
}

fn route(from: Option<&str>, to: &str) -> TsunkitRoute {
    TsunkitRoute { from: from.map(|f| f.to_string()), to: to.to_string() }
}

fn drawn(x: i64, y: i64, no: Option<i64>) -> TsunkitRenderedSpot {
    TsunkitRenderedSpot { x, y, no, color: None }
}

fn entry(node: &str, ships: Vec<i64>, formation: i64, count: i64, master_id: i64) -> TsunkitEnemyCompEntry {
    TsunkitEnemyCompEntry {
        node: node.to_string(),
        main_fleet: ships,
        escort_fleet: vec![],
        formation,
        count,
        master_id,
    }
}

fn map_1_1() -> TsunkitMapResult {
    TsunkitMapResult {
        route: vec![route(None, "1"), route(Some("1"), "A"), route(Some("A"), "B"), route(Some("A"), "C")],
        spots: vec![
            spot("1", 260, 246, Some("Start")),
            spot("A", 597, 328, None),
            spot("B", 840, 204, None),
            spot("C", 858, 486, None),
        ],
        rendered: vec![
            drawn(260, 246, None),
            drawn(597, 328, Some(1)),
            drawn(840, 204, Some(2)),
            drawn(858, 486, Some(3)),
        ],
        enemies: vec![],
        airraids: vec![],
    }
}

#[test]
fn parse_restores_graph_and_enemy_comps() {
    let comps = vec![
        ("B".to_string(), vec![entry("B", vec![1501, 1501], 1, 10, 1002)]),
        ("C".to_string(), vec![entry("C", vec![1503, 1502], 2, 7, 1003)]),
    ];
    let variant = build_variant("1-1", &map_1_1(), None, &comps);

    let start = &variant.cells[0];
    assert_eq!(start.cell_no, 0);
    assert_eq!(start.next_cells, vec![1]);
    let branch = variant.cells.iter().find(|c| c.cell_no == 1).unwrap();
    let boss = variant.cells.iter().find(|c| c.cell_no == 3).unwrap();
    let node_b = variant.enemy_fleets.iter().find(|f| f.cell_no == 2).unwrap();
    let node_c = variant.enemy_fleets.iter().find(|f| f.cell_no == 3).unwrap();

    assert_eq!(branch.next_cells, vec![2, 3]);
    assert_eq!(variant.boss_cell_no, 3);
    assert_eq!(boss.event_kind, 1);
    assert_eq!(node_b.compositions[0].ship_ids, vec![1501, 1501]);
    assert_eq!(node_b.formations, vec![1]);
    assert_eq!(node_c.compositions[0].ship_ids, vec![1503, 1502]);
    assert_eq!(node_c.formations, vec![2]);
    assert_eq!(node_b.compositions[0].comp_id, "1-1:B:1002");
    assert_eq!(node_b.compositions[0].weight, 10);
}

#[test]
fn cells_are_coloured_by_what_happens_there() {
    let mut data = map_1_1();
    data.airraids = vec![1, 0];
    data.rendered[2].color = Some(-3);
    let summary = vec![
        TsunkitNodeSummaryEntry { key: "3".to_string(), battles: 2 },
        TsunkitNodeSummaryEntry { key: "x".to_string(), battles: 9 },
    ];
    let variant = build_variant("1-1", &data, Some(&summary), &vec![]);
    let colours: Vec<(i64, i64, i64, i64)> =
        variant.cells.iter().map(|c| (c.cell_no, c.color_no, c.event_id, c.event_kind)).collect();
    assert_eq!(colours, vec![(0, 0, 0, 0), (1, 6, 1, 0), (2, 0, 1, 0), (3, 5, 5, 1)]);
    assert_eq!(variant.boss_cell_no, 3);
    assert!(variant.enemy_fleets.is_empty());
}

#[test]
fn composition_ids_fall_back_to_node_and_position() {
    let comps = vec![(
        "B".to_string(),
        vec![
            entry("", vec![0, -1], 3, 1, 0),
            entry("B", vec![1501], 0, 0, 0),
            entry("", vec![1502], 4, 3, 0),
        ],
    )];
    let variant = build_variant("7-4", &map_1_1(), None, &comps);
    let fleet = &variant.enemy_fleets[0];
    let ids: Vec<(&str, i64)> = fleet.compositions.iter().map(|c| (c.comp_id.as_str(), c.weight)).collect();
    assert_eq!(ids, vec![("7-4:B:B:1", 1), ("7-4:B:2", 3)]);
    assert_eq!(fleet.formations, vec![4]);
    assert_eq!(variant.boss_cell_no, 2);
}

#[test]
fn map_names_and_colours() {
    assert_eq!(parse_map_name("7-4"), Some((7, 4)));
    assert_eq!(parse_map_name("57-3"), Some((57, 3)));
    assert_eq!(parse_map_name("7"), None);
    assert_eq!(parse_map_name("a-1"), None);
    assert_eq!(tsunkit_color_no(Some(-2)), 5);
    assert_eq!(tsunkit_color_no(Some(-3)), 0);
    assert_eq!(tsunkit_color_no(Some(9)), 9);
    assert_eq!(tsunkit_color_no(Some(-1)), 6);
    assert_eq!(tsunkit_color_no(None), 6);
}
