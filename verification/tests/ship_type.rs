use emukc_bootstrap::ship_type::{ManifestShipType, ShipTypeResolver};

fn stype(id: i64, name: &str) -> ManifestShipType {
    ManifestShipType { api_id: id, api_name: name.to_string() }
}

fn resolver() -> ShipTypeResolver {
    ShipTypeResolver::new(&[
        stype(1, "海防艦"),
        stype(2, "駆逐艦"),
        stype(3, "軽巡洋艦"),
        stype(8, "戦艦"),
        stype(9, "戦艦"),
        stype(22, "補給艦"),
        stype(99, "  "),
    ])
}

#[test]
fn master_data_names_resolve_to_their_ids() {
    let r = resolver();
    assert_eq!(r.resolve("駆逐艦"), Some(2));
    assert_eq!(r.resolve(" 軽巡洋艦 "), Some(3));
    // A later ship type of the same name replaces the earlier one.
    assert_eq!(r.resolve("戦艦"), Some(9));
}

#[test]
fn short_names_resolve_through_their_full_names() {
    let r = resolver();
    assert_eq!(r.resolve("海防"), Some(1));
    assert_eq!(r.resolve("駆逐"), Some(2));
    assert_eq!(r.resolve("補給"), Some(22));
    // A short name whose full name the master data lacks is not added.
    assert_eq!(r.resolve("重巡"), None);
}

#[test]
fn a_trailing_kan_is_dropped_when_the_whole_name_is_unknown() {
    let r = resolver();
    assert_eq!(r.resolve("軽巡艦"), Some(3));
    assert_eq!(r.resolve("潜水艦"), None);
    assert_eq!(r.resolve(""), None);
}

#[test]
fn blank_names_give_no_entry() {
    let r = resolver();
    assert!(r.aliases.iter().all(|(name, _)| !name.is_empty()));
}
