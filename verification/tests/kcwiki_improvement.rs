use emukc_bootstrap::error::ParseError;
use emukc_bootstrap::kcwiki::ParseContext;
use emukc_bootstrap::kcwiki_improvement::{
    items_readable,
    slot_item_catalogue, Kc3rdSlotItemAswDamageType, parse_level_consumption, parse_secretary, slot_item_improvement, Kc3rdSlotItemImproveItemConsumption,
};
use emukc_bootstrap::kcwiki_slot_item::{
    AswDamageType, BoolOrInt, BoolOrString, ImprovementsClass, ImprovementsUnion, ImprovmentEquipConsumption,
    ImprovmentExtraConsumption, KcwikiSlotitem, Product, StringOrInt, WeekInfo,
};

fn context() -> ParseContext {
    ParseContext {
        slotitem_name_map: vec![("12.7cm Twin Gun Mount".to_string(), 2), ("Type 3 Shell".to_string(), 35)],
        useitem_name_map: vec![("Development Material".to_string(), 3), ("Medal".to_string(), 57)],
        ship_name_map: vec![("Akashi".to_string(), 182), ("Yuubari Kai".to_string(), 293)],
    }
}

fn cost(dev: i64, dev_x: StringOrInt, screw: i64, screw_x: StringOrInt, items: Vec<(&str, i64)>) -> Product {
    Product::Level2Consumption(ImprovmentExtraConsumption {
        development_material: dev,
        development_material_x: dev_x,
        equipment: if items.is_empty() {
            ImprovmentEquipConsumption::Bool(false)
        } else {
            ImprovmentEquipConsumption::ItemMap(items.into_iter().map(|(k, v)| (k.to_string(), v)).collect())
        },
        improvement_material: screw,
        improvement_material_x: screw_x,
    })
}

fn days(mon: bool, sun: Option<bool>) -> WeekInfo {
    WeekInfo {
        friday: None,
        monday: Some(mon),
        saturday: None,
        sunday: sun,
        thursday: None,
        tuesday: Some(false),
        wednesday: None,
    }
}

fn step_entry(step: (&str, Product)) -> (String, Product) {
    (step.0.to_string(), step.1)
}

fn product_entry(product: (&str, Vec<(&str, Product)>)) -> (String, Vec<(String, Product)>) {
    let steps: Vec<(String, Product)> = product.1.into_iter().map(step_entry).collect();
    (product.0.to_string(), steps)
}

fn item(products: Vec<(&str, Vec<(&str, Product)>)>) -> KcwikiSlotitem {
    KcwikiSlotitem {
        buildable: true,
        id: 2,
        improvements: ImprovementsUnion::ImprovementsClass(ImprovementsClass {
            ammo: BoolOrInt::Int(20),
            bauxite: BoolOrInt::Bool(false),
            fuel: BoolOrInt::Int(10),
            products: products.into_iter().map(product_entry).collect(),
            steel: BoolOrInt::Int(60),
        }),
        info: String::new(),
        japanese_name: "12.7cm連装砲".to_string(),
        name: "12.7cm Twin Gun Mount".to_string(),
        special: BoolOrString::Bool(false),
        flight_cost: None,
        flight_range: None,
        stars: None,
        can_attack_installations: None,
        asw_damage_type: None,
    }
}

#[test]
fn level_cost_sorts_items_into_slot_and_use_items() {
    let p = cost(
        1,
        StringOrInt::String("2".to_string()),
        1,
        StringOrInt::Int(3),
        vec![("Medal", 1), ("true", 2), ("Type 3 Shell", 1), ("Unknown Thing", 5)],
    );
    let c = parse_level_consumption(2, &context(), &p).unwrap();
    assert_eq!((c.dev_mat_min, c.dev_mat_max, c.screw_min, c.screw_max), (1, 2, 1, 3));
    assert_eq!(
        c.slot_item_consumption,
        Some(vec![
            Kc3rdSlotItemImproveItemConsumption { id: 2, count: 2 },
            Kc3rdSlotItemImproveItemConsumption { id: 35, count: 1 },
        ])
    );
    assert_eq!(c.use_item_consumption, Some(vec![Kc3rdSlotItemImproveItemConsumption { id: 57, count: 1 }]));

    let bare = cost(0, StringOrInt::Int(0), 0, StringOrInt::Int(0), vec![]);
    let c = parse_level_consumption(2, &context(), &bare).unwrap();
    assert!(c.slot_item_consumption.is_none() && c.use_item_consumption.is_none());

    assert!(matches!(
        parse_level_consumption(2, &context(), &Product::Stars(None)),
        Err(ParseError::KeyMissing(_))
    ));
}

#[test]
fn secretaries_resolve_ship_names_and_default_days_to_off() {
    let p = Product::Secretary2WeekInfo(vec![
        ("Akashi".to_string(), days(true, None)),
        ("Nobody".to_string(), days(true, Some(true))),
        ("true".to_string(), days(false, Some(true))),
    ]);
    let s = parse_secretary(&context(), &p).unwrap();
    assert_eq!(s.len(), 2);
    assert_eq!((s[0].id, s[0].monday, s[0].sunday, s[0].friday), (182, true, false, false));
    assert_eq!((s[1].id, s[1].monday, s[1].sunday), (0, false, true));
    assert!(parse_secretary(&context(), &Product::Stars(None)).unwrap().is_empty());
}

#[test]
fn improvement_reads_own_levels_and_upgrades() {
    let it = item(vec![
        (
            "false",
            vec![
                ("0", cost(1, StringOrInt::Int(2), 1, StringOrInt::Int(2), vec![])),
                ("6", cost(2, StringOrInt::Int(3), 2, StringOrInt::Int(3), vec![("true", 1)])),
                ("_ships", Product::Secretary2WeekInfo(vec![("Akashi".to_string(), days(true, None))])),
                ("10", Product::Stars(None)),
            ],
        ),
        (
            "Type 3 Shell",
            vec![
                ("10", cost(5, StringOrInt::Int(7), 4, StringOrInt::Int(6), vec![])),
                ("_stars", Product::Stars(Some(BoolOrInt::Int(3)))),
            ],
        ),
        ("Not An Item", vec![("0", Product::Stars(None))]),
    ]);
    let imp = slot_item_improvement(&it, &context()).unwrap().unwrap();
    assert_eq!(
        (imp.base_consumption.fuel, imp.base_consumption.ammo, imp.base_consumption.steel, imp.base_consumption.bauxite),
        (10, 20, 60, 0)
    );
    let own = imp.level_consumption.unwrap();
    assert_eq!(own.first_half.unwrap().dev_mat_max, 2);
    assert_eq!(own.second_half.unwrap().slot_item_consumption.unwrap()[0].id, 2);
    assert!(own.remodel.is_none());
    assert_eq!(own.secretary[0].id, 182);
    let variants = imp.remodel_variants.unwrap();
    assert_eq!(variants.len(), 1);
    assert_eq!((variants[0].slot_item_id, variants[0].initial_stars), (35, 3));
    assert_eq!(variants[0].requirements.remodel.as_ref().unwrap().screw_max, 6);
}

#[test]
fn a_cost_step_that_is_no_consumption_fails_the_item() {
    let it = item(vec![("false", vec![("0", Product::Stars(None))])]);
    assert!(matches!(slot_item_improvement(&it, &context()), Err(ParseError::KeyMissing(_))));
}

#[test]
fn items_without_products_have_no_improvement() {
    let mut it = item(vec![]);
    assert!(slot_item_improvement(&it, &context()).unwrap().is_none());
    it.improvements = ImprovementsUnion::Bool(true);
    assert!(slot_item_improvement(&it, &context()).unwrap().is_none());
}

#[test]
fn catalogue_keys_items_by_id_and_keeps_the_later_record() {
    let first = item(vec![]);
    let mut other = item(vec![]);
    other.id = 9;
    other.japanese_name = "other".to_string();
    let mut again = item(vec![]);
    again.japanese_name = "replaced".to_string();
    let items = vec![
        ("a".to_string(), first),
        ("b".to_string(), other),
        ("c".to_string(), again),
    ];
    let map = slot_item_catalogue(&items, &context()).unwrap();
    assert_eq!(map.len(), 2);
    assert_eq!(map[&2].name, "replaced");
    assert_eq!(map[&9].name, "other");
    assert!(map[&9].improvement.is_none());

    let mut w = item(vec![]);
    w.flight_cost = Some(BoolOrInt::Int(4));
    w.flight_range = Some(BoolOrInt::Bool(false));
    w.asw_damage_type = Some(AswDamageType::Dcr);
    w.can_attack_installations = Some(true);
    let single = vec![("a".to_string(), w)];
    let map = slot_item_catalogue(&single, &context()).unwrap();
    let e = &map[&2];
    assert_eq!((e.flight_cost, e.flight_range, e.can_attack_installations), (Some(4), None, true));
    assert_eq!(e.asw_damage_type, Some(Kc3rdSlotItemAswDamageType::DepthChargeRack));
    assert!(e.craftable);
}

#[test]
fn readable_items_have_integer_material_counts() {
    let ok = item(vec![("Gun", vec![("0", cost(1, StringOrInt::String("2".to_string()), 1, StringOrInt::Int(3), vec![]))])]);
    let bad = item(vec![("Gun", vec![("0", cost(1, StringOrInt::String("x".to_string()), 1, StringOrInt::Int(3), vec![]))])]);
    assert!(items_readable(&vec![("a".to_string(), ok.clone())]));
    assert!(!items_readable(&vec![("a".to_string(), ok), ("b".to_string(), bad)]));
    assert!(items_readable(&vec![]));
}
