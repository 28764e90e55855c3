use emukc_bootstrap::error::ParseError;
use emukc_bootstrap::kcwiki::ParseContext;
use emukc_bootstrap::kcwiki_enemy::{
    enemy_slot_item_id, insert_slotitem_alias, normalize_opt_i64, parse_enemy_equipment, parse_enemy_ships,
    KcwikiEnemyEquipment, KcwikiEnemyEquipmentSlot, KcwikiEnemyShip, ManifestShipExtra, ManifestSlotitemName,
};
use emukc_bootstrap::kcwiki_types::{BoolOrInt, BoolOrString};

fn num(v: i64) -> Option<BoolOrInt> {
    Some(BoolOrInt::Int(v))
}

fn flag() -> Option<BoolOrInt> {
    Some(BoolOrInt::Bool(false))
}

fn equipment(id: i64, jp: &str, name: &str, item_type: i64) -> KcwikiEnemyEquipment {
    KcwikiEnemyEquipment {
        id,
        japanese_name: jp.to_string(),
        name: name.to_string(),
        item_type,
        firepower: flag(),
        torpedo: flag(),
        aa: flag(),
        armor: flag(),
        los: flag(),
        asw: flag(),
        range: flag(),
        evasion: flag(),
        bombing: flag(),
        speed: flag(),
    }
}

fn slot(equipment: BoolOrString, size: i64) -> KcwikiEnemyEquipmentSlot {
    KcwikiEnemyEquipmentSlot { equipment, size }
}

fn named(name: &str) -> BoolOrString {
    BoolOrString::String(name.to_string())
}

fn destroyer_i_class() -> KcwikiEnemyShip {
    KcwikiEnemyShip {
        api_id: 1501,
        japanese_name: "駆逐イ級".to_string(),
        reading: "くちくイきゅう".to_string(),
        ship_type: 2,
        hp: num(20),
        firepower: num(5),
        torpedo: num(15),
        aa: num(6),
        armor: num(5),
        evasion: num(14),
        asw: num(25),
        los: num(3),
        luck: num(1),
        speed: num(10),
        range: num(1),
        rarity: num(1),
        back: num(-1),
        equipment: vec![
            slot(named("5inch Single Gun Mount"), 0),
            slot(named("Abyssal Night Cat Fighter II"), 12),
            slot(BoolOrString::Bool(false), 0),
        ],
    }
}

fn context() -> ParseContext {
    ParseContext {
        slotitem_name_map: vec![("5inch Single Gun Mount".to_string(), 1501)],
        useitem_name_map: vec![],
        ship_name_map: vec![],
    }
}

fn equipment_file() -> Vec<(String, KcwikiEnemyEquipment)> {
    let gun = KcwikiEnemyEquipment {
        firepower: num(1),
        range: num(1),
        ..equipment(1501, "5inch単装砲", "5inch Single Gun Mount", 1)
    };
    let cat = KcwikiEnemyEquipment {
        aa: num(11),
        los: num(3),
        range: num(3),
        evasion: num(1),
        ..equipment(601, "深海夜猫艦戦II", "Abyssal Night Cat Fighter II", 48)
    };
    vec![
        ("5inch Single Gun Mount".to_string(), gun),
        ("Abyssal Night Cat Fighter II".to_string(), cat),
    ]
}

#[test]
fn parse_enemy_data_enriches_missing_equipment_and_ship_stats() {
    let mut context = context();
    let slotitems = vec![ManifestSlotitemName { api_id: 1501, api_name: "5inch単装砲".to_string() }];
    let missing = parse_enemy_equipment(&mut context, &slotitems, &equipment_file());
    assert_eq!(missing.len(), 1);
    assert_eq!(missing[0].api_id, 601);
    assert_eq!(missing[0].api_type[2], 48);
    assert_eq!(missing[0].api_tyku, 11);
    assert_eq!(missing[0].api_usebull, "0");
    assert_eq!(context.find_slotitem_id("Abyssal Night Cat Fighter II"), Some(601));

    let ships = vec![ManifestShipExtra {
        api_id: 1501,
        api_yomi: "old".to_string(),
        api_ctype: 1,
        api_backs: Some(2),
    }];
    let raw = vec![("Destroyer I-Class".to_string(), destroyer_i_class())];
    let map = parse_enemy_ships(&context, &ships, &raw).unwrap();
    let ship = map.get(&1501).unwrap();
    assert_eq!(ship.hp, 20);
    assert_eq!(ship.maxeq, [0, 12, 0, 0, 0]);
    assert_eq!(ship.slots.len(), 2);
    assert_eq!(ship.slots[0].item_id, 1501);
    assert_eq!(ship.slots[1].item_id, 601);
    assert_eq!(ship.slots[1].onslot, 12);
    assert_eq!(ship.slot_num, 3);
    assert_eq!(ship.yomi, "くちくイきゅう");
    assert_eq!(ship.ctype, 1);
    assert_eq!(ship.backs, 2);
}

#[test]
fn equipment_known_by_japanese_name_gets_the_master_id_and_is_not_added() {
    let mut context = ParseContext { slotitem_name_map: vec![], useitem_name_map: vec![], ship_name_map: vec![] };
    let slotitems = vec![ManifestSlotitemName { api_id: 77, api_name: "深海夜猫艦戦II".to_string() }];
    let missing = parse_enemy_equipment(&mut context, &slotitems, &equipment_file()[1..].to_vec());
    assert!(missing.is_empty());
    assert_eq!(context.find_slotitem_id("Abyssal Night Cat Fighter II"), Some(77));
    assert_eq!(context.find_slotitem_id("深海夜猫艦戦II"), Some(77));
}

#[test]
fn an_alias_keeps_the_id_it_already_names() {
    let mut context = context();
    insert_slotitem_alias(&mut context, "5inch Single Gun Mount", 9);
    insert_slotitem_alias(&mut context, "", 9);
    insert_slotitem_alias(&mut context, "New Gun", 9);
    assert_eq!(context.slotitem_name_map.len(), 2);
    assert_eq!(context.find_slotitem_id("5inch Single Gun Mount"), Some(1501));
    assert_eq!(context.find_slotitem_id("New Gun"), Some(9));
}

#[test]
fn stats_written_as_flags_read_as_zero() {
    assert_eq!(normalize_opt_i64(None), 0);
    assert_eq!(normalize_opt_i64(flag()), 0);
    assert_eq!(normalize_opt_i64(num(-3)), -3);
}

#[test]
fn unreadable_slots_are_reported() {
    let context = context();
    let ship = destroyer_i_class();
    match enemy_slot_item_id(&context, &ship, &slot(BoolOrString::Bool(true), 0)) {
        Err(ParseError::Generic(m)) => {
            assert_eq!(m, "unexpected boolean enemy equipment flag for ship 1501 (駆逐イ級)")
        }
        other => panic!("unexpected {other:?}"),
    }
    match enemy_slot_item_id(&context, &ship, &slot(named("Mystery Gun"), 0)) {
        Err(ParseError::KeyMissing(m)) => assert_eq!(m, "enemy equipment `Mystery Gun` for ship 1501 (駆逐イ級)"),
        other => panic!("unexpected {other:?}"),
    }
    assert!(matches!(enemy_slot_item_id(&context, &ship, &slot(BoolOrString::Bool(false), 0)), Ok(-1)));

    let raw = vec![("x".to_string(), destroyer_i_class())];
    assert!(matches!(parse_enemy_ships(&context, &[].to_vec(), &raw), Err(ParseError::KeyMissing(_))));
}

#[test]
fn master_data_fills_reading_and_silhouette() {
    let mut context = context();
    context.slotitem_name_map.push(("Abyssal Night Cat Fighter II".to_string(), 601));
    let ships = vec![ManifestShipExtra { api_id: 1501, api_yomi: "old".to_string(), api_ctype: 4, api_backs: None }];
    let ship = KcwikiEnemyShip {
        reading: String::new(),
        rarity: num(3),
        equipment: vec![
            slot(BoolOrString::Bool(false), -5),
            slot(BoolOrString::Bool(false), 1),
            slot(BoolOrString::Bool(false), 2),
            slot(BoolOrString::Bool(false), 3),
            slot(BoolOrString::Bool(false), 4),
            slot(BoolOrString::Bool(false), 5),
        ],
        ..destroyer_i_class()
    };
    let map = parse_enemy_ships(&context, &ships, &vec![("a".to_string(), ship)]).unwrap();
    let s = map.get(&1501).unwrap();
    assert_eq!(s.yomi, "old");
    assert_eq!(s.backs, 3);
    assert_eq!(s.ctype, 4);
    assert_eq!(s.maxeq, [0, 1, 2, 3, 4]);
    assert_eq!(s.slot_num, 5);
    assert!(s.slots.is_empty());
}

#[test]
fn names_already_known_keep_their_ids() {
    let mut context = context();
    context.slotitem_name_map.push(("Abyssal Night Cat Fighter II".to_string(), 5));
    let missing = parse_enemy_equipment(&mut context, &vec![], &equipment_file());
    assert_eq!(context.find_slotitem_id("5inch Single Gun Mount"), Some(1501));
    assert_eq!(context.find_slotitem_id("Abyssal Night Cat Fighter II"), Some(5));
    assert_eq!(context.find_slotitem_id("深海夜猫艦戦II"), Some(601));
    assert_eq!(missing.len(), 2);
}

#[test]
fn name_tables_keep_each_name_once_and_the_last_id() {
    let entries = vec![
        ("Gun".to_string(), 1),
        ("Radar".to_string(), 2),
        ("Gun".to_string(), 3),
    ];
    let m = emukc_bootstrap::kcwiki::name_map_from(&entries);
    assert_eq!(m, vec![("Gun".to_string(), 3), ("Radar".to_string(), 2)]);
    let context = ParseContext::new(&entries, &vec![], &vec![]);
    assert_eq!(context.find_slotitem_id("Gun"), Some(3));
    assert_eq!(context.find_slotitem_id("Radar"), Some(2));
    assert_eq!(context.find_useitem_id("Gun"), None);
}
