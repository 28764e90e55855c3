use emukc_bootstrap::kaisou::{
    extract_buildkit, extract_devkit, extract_from_main_js, extract_from_start2_json,
    extract_hokoheso_from_main_js, extract_use_devkit_group, parse, KcShipRemodelRequirement, ManifestShip,
    ShipUpgrade,
};

const MAIN_JS: &str = "var x = function() {};
Object.defineProperty(Foo.prototype, 'newhokohesosizai', {
    get: function () {
        switch (this.mst_id_after) {
            case 101:
            case 102:
                return 3;
            case 103:
                return 50 == this.mst_id_before ? 5 : 7;
            default:
                return 0;
        }
    }
});
Foo.prototype._getRequiredDevkitNum = function(_f4j) {
    switch (this.mst_id_before) {
        case 1:
            return 5;
        case 2:
        case 3:
            return 10;
        default:
            return 0 != this._isDrawing ? 0 : _f4j < 4500 ? 0 : _f4j < 5500 ? 10 : _f4j < 6500 ? 15 : 20;
    }
};
this._USE_DEVKIT_GROUP_ = [10, 11];
Foo.prototype._getRequiredBuildKitNum = function() {
    switch (this.mst_id_before) {
        case 1:
            return 20;
        case 4:
            return 30;
        default:
            return 0;
    }
};
";

fn ship(id: i64, sortno: Option<i64>, after: Option<&str>, bull: i64, fuel: i64) -> ManifestShip {
    ManifestShip {
        api_id: id,
        api_sortno: sortno,
        api_aftershipid: after.map(|a| a.to_string()),
        api_afterbull: Some(bull),
        api_afterfuel: Some(fuel),
    }
}

fn ships() -> Vec<ManifestShip> {
    vec![
        ship(1, Some(1), Some("101"), 100, 200),
        ship(2, Some(2), Some("102"), 0, 0),
        ship(50, Some(3), Some("103"), 0, 6000),
        ship(60, Some(4), Some("103"), 0, 3000),
        ship(4, Some(0), Some("104"), 0, 0),
        ship(5, Some(5), Some("0"), 0, 0),
        ship(6, None, Some("106"), 0, 0),
        ship(7, Some(7), Some("abc"), 0, 0),
        ship(10, Some(8), Some("110"), 0, 5000),
        ship(12, Some(9), Some("112"), 0, 5000),
        ship(3, Some(10), Some("103"), 0, 100),
    ]
}

fn upgrades() -> Vec<ShipUpgrade> {
    vec![
        ShipUpgrade {
            api_id: 110,
            api_current_ship_id: 10,
            api_drawing_count: 1,
            api_catapult_count: 0,
            api_report_count: 0,
            api_aviation_mat_count: 0,
            api_arms_mat_count: 2,
            api_boiler_count: Some(3),
        },
        ShipUpgrade {
            api_id: 112,
            api_current_ship_id: 12,
            api_drawing_count: 1,
            api_catapult_count: 4,
            api_report_count: 0,
            api_aviation_mat_count: 0,
            api_arms_mat_count: 0,
            api_boiler_count: None,
        },
    ]
}

fn base(id_from: i64, id_to: i64) -> KcShipRemodelRequirement {
    KcShipRemodelRequirement {
        id_from,
        id_to,
        ammo: 0,
        steel: 0,
        drawing: 0,
        catapult: 0,
        report: 0,
        devmat: 0,
        torch: 0,
        aviation: 0,
        artillery: 0,
        arms: 0,
        boiler: 0,
    }
}

#[test]
fn start2_keeps_ships_with_a_next_form_and_their_upgrades() {
    let data = extract_from_start2_json(&ships(), &upgrades());
    let pairs: Vec<(i64, i64)> = data.iter().map(|r| (r.id_from, r.id_to)).collect();
    assert_eq!(pairs, vec![(1, 101), (2, 102), (50, 103), (60, 103), (10, 110), (12, 112), (3, 103)]);
    assert_eq!(data[0], KcShipRemodelRequirement { ammo: 100, steel: 200, ..base(1, 101) });
    assert_eq!(data[4], KcShipRemodelRequirement { steel: 5000, drawing: 1, artillery: 2, boiler: 3, ..base(10, 110) });
    assert_eq!(data[5], KcShipRemodelRequirement { steel: 5000, drawing: 1, catapult: 4, ..base(12, 112) });
}

#[test]
fn buildkit_table_sets_torch_of_first_remodel_from_listed_ship() {
    let mut data = vec![base(1, 101), base(1, 102), base(4, 104)];
    extract_buildkit(MAIN_JS, &mut data);
    assert_eq!(data[0].torch, 20);
    assert_eq!(data[1].torch, 0);
    assert_eq!(data[2].torch, 30);
}

#[test]
fn hokoheso_table_sets_artillery_by_target_ship() {
    let mut data = vec![base(1, 101), base(2, 102), base(50, 103), base(60, 103), base(9, 109)];
    let r = extract_hokoheso_from_main_js(MAIN_JS, &mut data);
    assert!(r.is_ok());
    let artillery: Vec<i64> = data.iter().map(|r| r.artillery).collect();
    assert_eq!(artillery, vec![3, 3, 5, 7, 0]);
}

#[test]
fn devkit_group_lists_its_ships() {
    assert_eq!(extract_use_devkit_group(MAIN_JS), vec![10, 11]);
    assert_eq!(extract_use_devkit_group("no group here"), Vec::<i64>::new());
}

#[test]
fn devkit_table_uses_cases_then_steel_brackets() {
    let mut data = vec![
        base(1, 101),
        base(2, 102),
        KcShipRemodelRequirement { steel: 6000, ..base(50, 103) },
        KcShipRemodelRequirement { steel: 3000, ..base(60, 103) },
        KcShipRemodelRequirement { steel: 5000, drawing: 1, ..base(10, 110) },
        KcShipRemodelRequirement { steel: 5000, drawing: 1, ..base(12, 112) },
        KcShipRemodelRequirement { steel: 100, ..base(3, 103) },
    ];
    extract_devkit(MAIN_JS, &mut data);
    let devmat: Vec<i64> = data.iter().map(|r| r.devmat).collect();
    assert_eq!(devmat, vec![5, 10, 15, 0, 10, 0, 10]);
}

#[test]
fn devkit_without_group_changes_nothing() {
    let script = MAIN_JS.replace("this._USE_DEVKIT_GROUP_ = [10, 11];", "");
    let mut data = vec![KcShipRemodelRequirement { steel: 6000, ..base(50, 103) }];
    extract_devkit(&script, &mut data);
    assert_eq!(data[0].devmat, 0);
}

#[test]
fn parse_completes_and_keys_the_remodels() {
    let m = parse(MAIN_JS, &ships(), &upgrades()).expect("script tables read");
    assert_eq!(m.len(), 7);
    assert_eq!(
        m[&(1, 101)],
        KcShipRemodelRequirement { ammo: 100, steel: 200, artillery: 3, devmat: 5, torch: 20, ..base(1, 101) }
    );
    assert_eq!(m[&(2, 102)], KcShipRemodelRequirement { artillery: 3, devmat: 10, ..base(2, 102) });
    assert_eq!(m[&(50, 103)], KcShipRemodelRequirement { steel: 6000, artillery: 5, devmat: 15, ..base(50, 103) });
    assert_eq!(m[&(60, 103)], KcShipRemodelRequirement { steel: 3000, artillery: 7, ..base(60, 103) });
    assert_eq!(
        m[&(10, 110)],
        KcShipRemodelRequirement { steel: 5000, drawing: 1, artillery: 2, boiler: 3, devmat: 10, ..base(10, 110) }
    );
    assert_eq!(m[&(12, 112)], KcShipRemodelRequirement { steel: 5000, drawing: 1, catapult: 4, ..base(12, 112) });
    assert_eq!(m[&(3, 103)], KcShipRemodelRequirement { steel: 100, artillery: 7, devmat: 10, ..base(3, 103) });
}

#[test]
fn unreadable_table_line_leaves_remodels_unchanged() {
    let script = MAIN_JS.replace("case 4:", "case four:");
    let mut data = vec![base(1, 101), base(4, 104)];
    assert!(!extract_from_main_js(&script, &mut data));
    assert_eq!(data, vec![base(1, 101), base(4, 104)]);
    assert!(parse(&script, &ships(), &upgrades()).is_none());
}

#[test]
fn the_tables_keep_every_remodel_pair_in_order() {
    let before = extract_from_start2_json(&ships(), &upgrades());
    let mut after = before.clone();
    assert!(extract_from_main_js(MAIN_JS, &mut after));
    let pairs = |v: &Vec<KcShipRemodelRequirement>| v.iter().map(|r| (r.id_from, r.id_to)).collect::<Vec<_>>();
    assert_eq!(pairs(&before), pairs(&after));
    assert_ne!(before, after);
}
