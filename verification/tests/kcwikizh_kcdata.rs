use emukc_bootstrap::kcwikizh_kcdata::{
    parse_ship_class, parse_ship_info, KcWikiZhShip, KcWikiZhShipClass, ManifestShipLink,
};

fn manifest() -> Vec<ManifestShipLink> {
    vec![
        ManifestShipLink { api_id: 1, api_ctype: 66, api_aftershipid: Some("254".to_string()) },
        ManifestShipLink { api_id: 1501, api_ctype: 1, api_aftershipid: None },
        ManifestShipLink { api_id: 2, api_ctype: 66, api_aftershipid: Some("0".to_string()) },
    ]
}

fn ship(id: i64, info: &str) -> KcWikiZhShip {
    KcWikiZhShip { id, book_sinfo: info.to_string(), cnum: 1, can_drop: true, can_construct: false }
}

#[test]
fn only_allied_ships_of_the_master_data_are_kept() {
    let map = parse_ship_info(&vec![ship(1, "a"), ship(1501, "abyssal"), ship(99, "unknown"), ship(2, "b")], &manifest());
    assert_eq!(map.keys().copied().collect::<Vec<_>>(), vec![1, 2]);
    let e = map.get(&1).unwrap();
    assert_eq!((e.api_id, e.info.as_str(), e.droppable, e.buildable), (1, "a", true, false));
}

#[test]
fn a_later_record_replaces_an_earlier_one() {
    let map = parse_ship_info(&vec![ship(1, "old"), ship(1, "new")], &manifest());
    assert_eq!(map.get(&1).unwrap().info, "new");
}

#[test]
fn class_names_are_kept_for_classes_the_master_data_has() {
    let classes = vec![
        KcWikiZhShipClass { id: 66, name: "睦月型".to_string() },
        KcWikiZhShipClass { id: 5, name: "missing".to_string() },
    ];
    let map = parse_ship_class(&classes, &manifest());
    assert_eq!(map.len(), 1);
    assert_eq!(map.get(&66).unwrap().name, "睦月型");
}
