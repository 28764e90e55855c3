use emukc_bootstrap::data_types::Equipment;
use emukc_bootstrap::kcwiki::ParseContext;
use emukc_bootstrap::kcwiki_ship::{parse, Kc3rdShipRemodelRequirement, Kc3rdShipSlotInfo, KcwikiShip};
use emukc_bootstrap::kcwiki_types::{BoolOrInt, BoolOrString};

fn blank() -> KcwikiShip {
    KcwikiShip {
        aa: 0,
        aa_max: BoolOrInt::Bool(false),
        aa_mod: BoolOrInt::Bool(false),
        ammo: 0,
        api_id: 0,
        armor: 0,
        armor_max: 0,
        armor_mod: BoolOrInt::Bool(false),
        asw: None,
        asw_max: None,
        buildable: None,
        buildable_lsc: None,
        class_number: 0,
        equipment: vec![],
        evasion: None,
        evasion_max: None,
        firepower: 0,
        firepower_max: 0,
        firepower_mod: BoolOrInt::Bool(false),
        fuel: 0,
        id: 0,
        japanese_name: String::new(),
        los: None,
        los_max: None,
        luck: 0,
        luck_max: 0,
        range: 0,
        rarity: 0,
        remodel_from: None,
        remodel_level: BoolOrInt::Bool(false),
        remodel_to: BoolOrString::Bool(false),
        torpedo: 0,
        torpedo_max: BoolOrInt::Bool(false),
        torpedo_mod: BoolOrInt::Bool(false),
        full_name: String::new(),
        remodel_ammo: None,
        remodel_blueprint: None,
        remodel_catapult: None,
        remodel_development_material: None,
        remodel_steel: None,
        remodel_airmat: None,
        remodel_report: None,
        remodel_construction_material: None,
        remodel_to_ammo: None,
        remodel_to_blueprint: None,
        remodel_to_catapult: None,
        remodel_to_construction_material: None,
        remodel_to_development_material: None,
        remodel_to_level: None,
        remodel_to_steel: None,
        back: None,
        remodel_to_report: None,
        remodel_armament: None,
        remodel_screw: None,
        remodel_gunmat: None,
        reversible: None,
        remodel_overseas: None,
        remodel_from_fixme: None,
        remodel_boiler: None,
    }
}

fn context() -> ParseContext {
    ParseContext {
        slotitem_name_map: vec![("12.7cm Twin Gun Mount".to_string(), 2), ("Type 93 Sonar".to_string(), 46)],
        useitem_name_map: vec![],
        ship_name_map: vec![("Suzuya Kai Ni".to_string(), 503), ("Suzuya Carrier Kai Ni".to_string(), 508)],
    }
}

fn slot(name: Option<BoolOrString>, size: i64, stars: Option<i64>) -> Equipment {
    Equipment { equipment: name, size, stars }
}

fn cost(level: i64) -> Kc3rdShipRemodelRequirement {
    Kc3rdShipRemodelRequirement {
        level,
        ammo: 0,
        steel: 0,
        blueprint: 0,
        catapult: 0,
        report: 0,
        devmat: 0,
        torch: 0,
        aviation: 0,
        artillery: 0,
        armament: 0,
        boiler: 0,
        overseas: 0,
    }
}

#[test]
fn ship_card_reads_stats_slots_and_remodels() {
    let w = KcwikiShip {
        api_id: 508,
        evasion: Some(40),
        evasion_max: Some(80),
        asw: Some(0),
        asw_max: Some(BoolOrInt::Bool(false)),
        los: Some(50),
        los_max: Some(70),
        luck: 20,
        luck_max: 89,
        armor_mod: BoolOrInt::Int(3),
        class_number: 4,
        buildable: Some(false),
        buildable_lsc: None,
        equipment: vec![
            slot(Some(BoolOrString::String("12.7cm Twin Gun Mount*".to_string())), 6, Some(2)),
            slot(Some(BoolOrString::String("Unknown Gun".to_string())), 6, None),
            slot(Some(BoolOrString::Bool(false)), 0, None),
            slot(None, 4, None),
        ],
        remodel_from: Some(BoolOrString::String("Suzuya Kai Ni".to_string())),
        remodel_level: BoolOrInt::Int(88),
        remodel_ammo: Some(1200),
        remodel_steel: Some(800),
        remodel_blueprint: Some(BoolOrInt::Int(1)),
        remodel_catapult: Some(BoolOrInt::Bool(false)),
        remodel_boiler: Some(2),
        reversible: Some(true),
        remodel_to: BoolOrString::String("Suzuya/Kai Ni".to_string()),
        remodel_to_level: Some(88),
        remodel_to_ammo: Some(100),
        remodel_to_blueprint: Some(true),
        remodel_to_catapult: Some(false),
        remodel_to_construction_material: Some(5),
        ..blank()
    };
    let cards = parse(&context(), &vec![("Suzuya Carrier Kai Ni".to_string(), w)]);
    let card = cards.get(&508).unwrap();
    assert_eq!(card.kaih, [40, 80]);
    assert_eq!(card.tais, [0, 0]);
    assert_eq!(card.saku, [50, 70]);
    assert_eq!(card.luck, [20, 89]);
    assert_eq!((card.armor_bonus, card.cnum, card.buildable, card.buildable_lsc), (3, 4, false, false));
    assert_eq!(
        card.slots,
        vec![
            Kc3rdShipSlotInfo { onslot: 6, item_id: 2, stars: 2 },
            Kc3rdShipSlotInfo { onslot: 6, item_id: 0, stars: 0 },
            Kc3rdShipSlotInfo { onslot: 0, item_id: 0, stars: 0 },
            Kc3rdShipSlotInfo { onslot: 4, item_id: 0, stars: 0 },
        ]
    );
    assert_eq!(card.remodel, Some(Kc3rdShipRemodelRequirement { ammo: 1200, steel: 800, blueprint: 1, boiler: 2, ..cost(88) }));
    assert_eq!(card.remodel_back_to, Some(503));
    assert_eq!(
        card.remodel_back_requirement,
        Some(Kc3rdShipRemodelRequirement { ammo: 100, blueprint: 1, torch: 5, ..cost(88) })
    );
}

#[test]
fn base_ships_and_level_zero_remodels_have_no_remodel() {
    let base = parse(&context(), &vec![("a".to_string(), KcwikiShip { api_id: 1, ..blank() })]);
    let card = base.get(&1).unwrap();
    assert_eq!(card.remodel, None);
    assert_eq!((card.remodel_back_to, card.remodel_back_requirement), (None, None));

    let zero = KcwikiShip {
        api_id: 2,
        remodel_from: Some(BoolOrString::Bool(false)),
        remodel_level: BoolOrInt::Bool(false),
        reversible: Some(true),
        ..blank()
    };
    let cards = parse(&context(), &vec![("b".to_string(), zero)]);
    let card = cards.get(&2).unwrap();
    assert_eq!(card.remodel, None);
    assert_eq!(card.remodel_back_to, Some(0));
}

#[test]
fn a_later_record_of_an_id_replaces_the_earlier() {
    let cards = parse(
        &context(),
        &vec![
            ("x".to_string(), KcwikiShip { api_id: 7, luck: 1, ..blank() }),
            ("y".to_string(), KcwikiShip { api_id: 7, luck: 9, ..blank() }),
        ],
    );
    assert_eq!(cards.len(), 1);
    assert_eq!(cards.get(&7).unwrap().luck, [9, 0]);
}
