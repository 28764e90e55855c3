use emukc_bootstrap::tsunkit_quest::{
    ClassId, CombatResult, Id, Kc3rdQuestConditionShip, Sortie, KcSortieResult, KcSortieResultRank,
    RequirementsComp, ShipMasterIds,
};
use emukc_bootstrap::tsunkit_requirement::{
    CompBanned, Disallowed, Exped, Kc3rdQuestCondition, Kc3rdQuestConditionFactory, Kc3rdQuestConditionMaterialConsumption,
    Kc3rdQuestConditionScrap, Requirements, RequirementsSubCategory,
};

fn empty_requirements() -> Requirements {
    Requirements {
        comp: None,
        fleet_id: None,
        disallowed: None,
        comp_banned: None,
        sortie: None,
        group_id: None,
        amount: None,
        subcategory: None,
        times: None,
        result: None,
        daily: None,
        expeds: None,
        resources: None,
    }
}

fn comp() -> RequirementsComp {
    RequirementsComp {
        otherships: None,
        amount: None,
        class_id: None,
        position: None,
        ship_id: None,
        group_id: None,
        lv: None,
        family_id: None,
        criteria: None,
        ship: None,
        ship_en: None,
        class: None,
        class_en: None,
    }
}

#[test]
fn resources_read_as_fuel_ammo_steel_bauxite() {
    let req = Requirements { resources: Some(vec![10, 20, 30, 40]), ..empty_requirements() };
    assert_eq!(
        req.extract_resource_consumption(),
        Some(Kc3rdQuestCondition::Resources(Kc3rdQuestConditionMaterialConsumption {
            fuel: 10,
            ammo: 20,
            steel: 30,
            bauxite: 40,
        }))
    );
    assert_eq!(empty_requirements().extract_resource_consumption(), None);
}

#[test]
fn expeditions_follow_their_resources() {
    let req = Requirements {
        resources: Some(vec![1, 2, 3, 4]),
        expeds: Some(vec![
            Exped { times: 2, id: Some(Id::String("A1".to_string())) },
            Exped { times: 1, id: Some(Id::StringArray(vec!["B1".to_string(), "B2".to_string()])) },
            Exped { times: 3, id: None },
        ]),
        ..empty_requirements()
    };
    let cs = req.extract_requirements_expedition();
    assert_eq!(cs.len(), 2);
    assert!(matches!(cs[0], Kc3rdQuestCondition::Resources(_)));
    match &cs[1] {
        Kc3rdQuestCondition::Expedition(list) => {
            assert_eq!(list.len(), 3);
            assert_eq!(list[0].list, Some(vec!["A1".to_string()]));
            assert_eq!(list[0].times, 2);
            assert_eq!(list[1].list, Some(vec!["B1".to_string(), "B2".to_string()]));
            assert_eq!(list[2].list, None);
            assert_eq!(list[2].times, 3);
        },
        other => panic!("unexpected {other:?}"),
    }
    assert!(empty_requirements().extract_requirements_expedition().is_empty());
}

#[test]
fn simple_tasks_count_their_times() {
    let req = |sub, times| Requirements { subcategory: Some(sub), times, ..empty_requirements() };
    assert_eq!(
        req(RequirementsSubCategory::Equipment, Some(3)).extract_requirements_simple(),
        vec![Kc3rdQuestCondition::Factory(Kc3rdQuestConditionFactory::SlotItemConstruction(3))]
    );
    assert_eq!(
        req(RequirementsSubCategory::Scrapship, None).extract_requirements_simple(),
        vec![Kc3rdQuestCondition::Scrap(Kc3rdQuestConditionScrap::AnyShip(0))]
    );
    assert_eq!(
        req(RequirementsSubCategory::Repair, Some(5)).extract_requirements_simple(),
        vec![Kc3rdQuestCondition::Repair(5)]
    );
    match &req(RequirementsSubCategory::Battle, Some(2)).extract_requirements_simple()[0] {
        Kc3rdQuestCondition::Sortie(s) => {
            assert_eq!((s.times, s.defeat_boss, s.fleet_id), (2, false, 0));
            assert!(s.map.is_none() && s.result.is_none());
        },
        other => panic!("unexpected {other:?}"),
    }
    match &req(RequirementsSubCategory::Modernization, Some(4)).extract_requirements_simple()[0] {
        Kc3rdQuestCondition::Modernization(m) => {
            assert_eq!(m.target_ship, Kc3rdQuestConditionShip::Any);
            assert_eq!(m.material_ship, Kc3rdQuestConditionShip::Any);
            assert_eq!((m.batch_size, m.times), (1, 4));
        },
        other => panic!("unexpected {other:?}"),
    }
}

#[test]
fn a_simple_requirement_without_a_task_gives_no_condition() {
    assert!(empty_requirements().extract_requirements_simple().is_empty());
}

#[test]
fn exercises_default_to_once_any_result() {
    let m = ShipMasterIds { ships: vec![1, 2, 3], ship_classes: vec![20], ship_types: vec![2] };
    match &empty_requirements().extract_requirements_exercise(&m)[0] {
        Kc3rdQuestCondition::Excercise(e) => {
            assert_eq!(e.times, 1);
            assert_eq!(e.expect_result, KcSortieResult::Any);
            assert!(!e.expire_next_day);
            assert!(e.groups.is_none());
        },
        other => panic!("unexpected {other:?}"),
    }
    let req = Requirements {
        times: Some(3),
        daily: Some(true),
        result: Some(CombatResult::S),
        comp: Some(vec![
            RequirementsComp { ship_id: Some(ClassId::Integer(2)), ..comp() },
            RequirementsComp { ship_id: Some(ClassId::Integer(99)), ..comp() },
        ]),
        ..empty_requirements()
    };
    match &req.extract_requirements_exercise(&m)[0] {
        Kc3rdQuestCondition::Excercise(e) => {
            assert_eq!(e.times, 3);
            assert_eq!(e.expect_result, KcSortieResult::Ranked(KcSortieResultRank::S));
            assert!(e.expire_next_day);
            let groups = e.groups.as_ref().unwrap();
            assert_eq!(groups.len(), 1);
            assert_eq!(groups[0].ship, Kc3rdQuestConditionShip::Ship(2));
        },
        other => panic!("unexpected {other:?}"),
    }
}

fn master() -> ShipMasterIds {
    ShipMasterIds { ships: vec![1, 2, 3], ship_classes: vec![20], ship_types: vec![2] }
}

#[test]
fn a_fleet_needs_a_composition_and_collects_its_bans() {
    let m = master();
    assert!(empty_requirements().extract_fleet(&m).is_none());
    let req = Requirements {
        fleet_id: Some(2),
        comp: Some(vec![RequirementsComp { ship_id: Some(ClassId::Integer(1)), ..comp() }]),
        comp_banned: Some(vec![
            CompBanned { ship_id: Some(ClassId::Integer(3)), class_id: None },
            CompBanned { ship_id: Some(ClassId::Integer(3)), class_id: Some(ClassId::Integer(20)) },
            CompBanned { ship_id: Some(ClassId::Integer(77)), class_id: None },
            CompBanned { ship_id: None, class_id: None },
        ]),
        disallowed: Some(Disallowed::Carriers),
        ..empty_requirements()
    };
    let fleet = req.extract_fleet(&m).unwrap();
    assert_eq!(fleet.fleet_id, 2);
    assert_eq!(fleet.groups.len(), 1);
    assert_eq!(
        fleet.disallowed,
        Some(vec![
            Kc3rdQuestConditionShip::Ship(3),
            Kc3rdQuestConditionShip::ShipClass(20),
            Kc3rdQuestConditionShip::Carrier,
        ])
    );
    let no_bans = Requirements { comp: Some(vec![]), disallowed: Some(Disallowed::Aviation), ..empty_requirements() };
    let fleet = no_bans.extract_fleet(&m).unwrap();
    assert_eq!((fleet.fleet_id, fleet.disallowed), (0, None));
}

#[test]
fn sorties_follow_their_fleet() {
    let m = master();
    assert!(empty_requirements().extract_requirements_sortie(&m).is_err());
    let sortie = Sortie { map: None, boss: Some(true), result: None, times: Some(2), node: None, any: None };
    let req = Requirements {
        comp: Some(vec![]),
        sortie: Some(vec![sortie.clone(), sortie]),
        ..empty_requirements()
    };
    let cs = req.extract_requirements_sortie(&m).unwrap();
    assert_eq!(cs.len(), 3);
    assert!(matches!(cs[0], Kc3rdQuestCondition::Composition(_)));
    match &cs[2] {
        Kc3rdQuestCondition::Sortie(s) => assert_eq!((s.times, s.defeat_boss), (2, true)),
        other => panic!("unexpected {other:?}"),
    }
    let bare = Requirements { sortie: Some(vec![]), ..empty_requirements() };
    assert!(bare.extract_requirements_sortie(&m).unwrap().is_empty());
}

#[test]
fn sinks_name_a_known_group() {
    assert!(empty_requirements().extract_requirements_sink().is_empty());
    let unknown = Requirements { group_id: Some(42), ..empty_requirements() };
    assert!(unknown.extract_requirements_sink().is_empty());
    let subs = Requirements { group_id: Some(5013), amount: Some(3), ..empty_requirements() };
    assert_eq!(
        subs.extract_requirements_sink(),
        vec![Kc3rdQuestCondition::Sink(Kc3rdQuestConditionShip::ShipType(13), 3)]
    );
    let once = Requirements { group_id: Some(1100), ..empty_requirements() };
    assert_eq!(
        once.extract_requirements_sink(),
        vec![Kc3rdQuestCondition::Sink(Kc3rdQuestConditionShip::HighSpeed, 1)]
    );
}

#[test]
fn a_fleet_requirement_is_its_composition() {
    let m = master();
    assert!(empty_requirements().extract_requirements_fleet(&m).is_empty());
    let req = Requirements { comp: Some(vec![]), fleet_id: Some(1), ..empty_requirements() };
    let cs = req.extract_requirements_fleet(&m);
    assert_eq!(cs.len(), 1);
    assert!(matches!(&cs[0], Kc3rdQuestCondition::Composition(c) if c.fleet_id == 1));
}
