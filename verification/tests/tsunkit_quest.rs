use emukc_bootstrap::tsunkit_quest::{
    ClassId, CombatResult, Criteria, Frequency, Id, Kc3rdQuestCategory, Kc3rdQuestPeriod, TsunkitQuestCategory, Kc3rdQuestConditionMapInfo, Kc3rdQuestConditionShip,
    Kc3rdQuestConditionSortieMap, Kc3rdQuestShipAmount, Kc3rdQuestShipNavy, KcSortieResult, KcSortieResultRank,
    RequirementsComp, ShipMasterIds, Sortie,
};

fn master() -> ShipMasterIds {
    ShipMasterIds { ships: vec![1, 2, 3], ship_classes: vec![20, 21], ship_types: vec![2, 3, 7] }
}

fn comp() -> RequirementsComp {
    RequirementsComp {
        otherships: None,
        amount: None,
        class_id: None,
        position: None,
        ship_id: None,
        group_id: None,
        lv: None,
        family_id: None,
        criteria: None,
        ship: None,
        ship_en: None,
        class: None,
        class_en: None,
    }
}

fn map(area: i64, number: i64, phase: Option<i64>) -> Kc3rdQuestConditionMapInfo {
    Kc3rdQuestConditionMapInfo { area, number, phase }
}

fn sortie(map: Option<Id>) -> Sortie {
    Sortie { map, boss: None, result: None, times: None, node: None, any: None }
}

#[test]
fn selectors_need_every_id_in_the_master_data() {
    let m = master();
    assert_eq!(ClassId::Integer(2).to_kc3rd_ship_ids(&m), Some(Kc3rdQuestConditionShip::Ship(2)));
    assert_eq!(ClassId::Integer(9).to_kc3rd_ship_ids(&m), None);
    assert_eq!(
        ClassId::IntegerArray(vec![1, 3]).to_kc3rd_ship_ids(&m),
        Some(Kc3rdQuestConditionShip::Ships(vec![1, 3]))
    );
    assert_eq!(ClassId::IntegerArray(vec![1, 4]).to_kc3rd_ship_ids(&m), None);
    assert_eq!(ClassId::Integer(21).to_kc3rd_ship_class(&m), Some(Kc3rdQuestConditionShip::ShipClass(21)));
    assert_eq!(ClassId::Integer(2).to_kc3rd_ship_class(&m), None);
    assert_eq!(
        ClassId::IntegerArray(vec![2, 7]).to_kc3rd_ship_types(&m),
        Some(Kc3rdQuestConditionShip::ShipTypes(vec![2, 7]))
    );
}

#[test]
fn group_ids_stand_for_types_speed_and_navies() {
    assert_eq!(ClassId::find_ship_group(5007), Some(Kc3rdQuestConditionShip::ShipType(7)));
    assert_eq!(ClassId::find_ship_group(1100), Some(Kc3rdQuestConditionShip::HighSpeed));
    assert_eq!(ClassId::find_ship_group(4002), Some(Kc3rdQuestConditionShip::Navy(Kc3rdQuestShipNavy::RN)));
    assert_eq!(ClassId::find_ship_group(4003), None);
    assert_eq!(ClassId::find_ship_group(5000), None);

    assert_eq!(ClassId::find_ship_groups(&[5002, 5003]), Some(Kc3rdQuestConditionShip::ShipTypes(vec![2, 3])));
    assert_eq!(ClassId::find_ship_groups(&[1100, 1200]), Some(Kc3rdQuestConditionShip::HighSpeed));
    assert_eq!(
        ClassId::find_ship_groups(&[4004, 7, 4005]),
        Some(Kc3rdQuestConditionShip::Navies(vec![Kc3rdQuestShipNavy::RNN, Kc3rdQuestShipNavy::RAN]))
    );
    assert_eq!(ClassId::find_ship_groups(&[7, 8]), None);
    assert_eq!(ClassId::find_ship_groups(&[]), Some(Kc3rdQuestConditionShip::ShipTypes(vec![])));
    assert_eq!(ClassId::IntegerArray(vec![4001]).to_kc3rd_ship_group_ships(), Some(Kc3rdQuestConditionShip::Navies(vec![Kc3rdQuestShipNavy::USN])));
}

#[test]
fn amounts_read_counts_and_ranges() {
    assert_eq!(ClassId::Integer(4).to_kc3rd_amount(), Kc3rdQuestShipAmount::Exactly(4));
    assert_eq!(ClassId::IntegerArray(vec![]).to_kc3rd_amount(), Kc3rdQuestShipAmount::Exactly(1));
    assert_eq!(ClassId::IntegerArray(vec![2]).to_kc3rd_amount(), Kc3rdQuestShipAmount::Exactly(2));
    assert_eq!(ClassId::IntegerArray(vec![2, 6, 9]).to_kc3rd_amount(), Kc3rdQuestShipAmount::Range(2, 6));
}

#[test]
fn composition_slot_takes_the_first_selector_and_defaults() {
    let m = master();
    let plain = comp().to_kc3rd_ship_group(&m).unwrap();
    assert_eq!(plain.ship, Kc3rdQuestConditionShip::Any);
    assert_eq!(plain.amount, Kc3rdQuestShipAmount::Exactly(1));
    assert_eq!((plain.lv, plain.position, plain.white_list.clone()), (0, 0, None));

    let slot = RequirementsComp {
        ship_id: Some(ClassId::Integer(3)),
        class_id: Some(ClassId::Integer(99)),
        amount: Some(ClassId::IntegerArray(vec![2, 3])),
        lv: Some(vec![50, 99]),
        position: Some(1),
        criteria: Some(Criteria { group_id: vec![4001, 5002] }),
        ..comp()
    };
    let g = slot.to_kc3rd_ship_group(&m).unwrap();
    assert_eq!(g.ship, Kc3rdQuestConditionShip::Ship(3));
    assert_eq!(g.amount, Kc3rdQuestShipAmount::Range(2, 3));
    assert_eq!((g.lv, g.position), (50, 1));
    assert_eq!(g.white_list, Some(vec![]));

    let by_type = RequirementsComp { class_id: Some(ClassId::Integer(99)), ..comp() };
    assert!(by_type.to_kc3rd_ship_group(&m).is_none());
    let by_family = RequirementsComp { family_id: Some(ClassId::Integer(20)), ..comp() };
    assert_eq!(by_family.to_kc3rd_ship_group(&m).unwrap().ship, Kc3rdQuestConditionShip::ShipClass(20));
    let by_group = RequirementsComp { group_id: Some(ClassId::Integer(1100)), ..comp() };
    assert_eq!(by_group.to_kc3rd_ship_group(&m).unwrap().ship, Kc3rdQuestConditionShip::HighSpeed);
}

#[test]
fn combat_results_map_to_ranks() {
    assert_eq!(CombatResult::Clear.to_kc3rd_combat_result(), KcSortieResult::Clear);
    assert_eq!(CombatResult::S.to_kc3rd_combat_result(), KcSortieResult::Ranked(KcSortieResultRank::S));
    assert_eq!(CombatResult::C.to_kc3rd_combat_result(), KcSortieResult::Ranked(KcSortieResultRank::C));
}

#[test]
fn map_names_read_area_number_and_phase() {
    assert_eq!(Sortie::parse_single_map_info("2-4"), Some(map(2, 4, None)));
    assert_eq!(Sortie::parse_single_map_info("7-2-P2"), Some(map(7, 2, Some(2))));
    assert_eq!(Sortie::parse_single_map_info("7-2-3"), Some(map(7, 2, Some(3))));
    assert_eq!(Sortie::parse_single_map_info("7-2-X"), Some(map(7, 2, None)));
    assert_eq!(Sortie::parse_single_map_info("7-2-P2-1"), Some(map(7, 2, None)));
    assert_eq!(Sortie::parse_single_map_info("7"), None);
    assert_eq!(Sortie::parse_single_map_info("E-2"), None);
}

#[test]
fn sortie_conditions_take_defaults_and_map_lists() {
    let s = sortie(None).to_kc3rd_sortie();
    assert_eq!((s.defeat_boss, s.fleet_id, s.times, s.map.clone(), s.result), (false, 0, 1, None, None));

    let one = Sortie {
        boss: Some(true),
        times: Some(3),
        result: Some(CombatResult::A),
        ..sortie(Some(Id::String("1-4".to_string())))
    }
    .to_kc3rd_sortie();
    assert!(one.defeat_boss);
    assert_eq!(one.times, 3);
    assert_eq!(one.result, Some(KcSortieResult::Ranked(KcSortieResultRank::A)));
    assert_eq!(one.map, Some(Kc3rdQuestConditionSortieMap::One(map(1, 4, None))));

    let names = |v: &[&str]| Some(Id::StringArray(v.iter().map(|s| s.to_string()).collect()));
    assert_eq!(sortie(names(&["x", "5-1"])).to_kc3rd_sortie().map, Some(Kc3rdQuestConditionSortieMap::One(map(5, 1, None))));
    assert_eq!(sortie(names(&["x"])).to_kc3rd_sortie().map, None);
    assert_eq!(
        sortie(names(&["5-1", "5-3"])).to_kc3rd_sortie().map,
        Some(Kc3rdQuestConditionSortieMap::All(vec![map(5, 1, None), map(5, 3, None)]))
    );
    assert_eq!(
        Sortie { any: Some(true), ..sortie(names(&["5-1", "5-3"])) }.to_kc3rd_sortie().map,
        Some(Kc3rdQuestConditionSortieMap::AnyOf(vec![map(5, 1, None), map(5, 3, None)]))
    );
}

#[test]
fn categories_and_frequencies_map_to_the_quest_model() {
    assert_eq!(Kc3rdQuestCategory::from(TsunkitQuestCategory::Exercise), Kc3rdQuestCategory::Excercise);
    assert_eq!(Kc3rdQuestCategory::from(TsunkitQuestCategory::Supply), Kc3rdQuestCategory::SupplyOrDocking);
    assert_eq!(Kc3rdQuestCategory::from(TsunkitQuestCategory::Modernization), Kc3rdQuestCategory::Mordenization);
    assert_eq!(Kc3rdQuestPeriod::from(Frequency::Seasonal), Kc3rdQuestPeriod::Oneshot);
    assert_eq!(Kc3rdQuestPeriod::from(Frequency::Event), Kc3rdQuestPeriod::Oneshot);
    assert_eq!(Kc3rdQuestPeriod::from(Frequency::Special1), Kc3rdQuestPeriod::Daily3rd7th0th);
    assert_eq!(Kc3rdQuestPeriod::from(Frequency::Special2), Kc3rdQuestPeriod::Daily2nd8th);
    assert_eq!(Kc3rdQuestPeriod::from(Frequency::Weekly), Kc3rdQuestPeriod::Weekly);
}
