use emukc_bootstrap::data_types::{KCanotifyExpedition, KCanotifyExpeditionName};
use emukc_bootstrap::error::ParseError;
use emukc_bootstrap::expedition::{
    collect_expeditions, convert_rewards, convert_to_internal_model, parse_composition,
    parse_drum_requirements, parse_flagship_type, parse_ship_type_requirement,
};

#[test]
fn test_parse_composition_simple() {
    let result = parse_composition(&Some("3-1".to_string())).unwrap();
    assert_eq!(result.len(), 1);
    assert_eq!(result[0].conditions.len(), 1);
    assert_eq!(result[0].conditions[0].ship_types, vec![3]);
    assert_eq!(result[0].conditions[0].count, 1);
}

#[test]
fn test_parse_composition_and() {
    let result = parse_composition(&Some("3-1|2-2".to_string())).unwrap();
    assert_eq!(result.len(), 1);
    assert_eq!(result[0].conditions.len(), 2);
    assert_eq!(result[0].conditions[0].ship_types, vec![3]);
    assert_eq!(result[0].conditions[0].count, 1);
    assert_eq!(result[0].conditions[1].ship_types, vec![2]);
    assert_eq!(result[0].conditions[1].count, 2);
}

#[test]
fn test_parse_composition_or() {
    let result = parse_composition(&Some("3-1/2-2".to_string())).unwrap();
    assert_eq!(result.len(), 2);
    assert_eq!(result[0].conditions[0].ship_types, vec![3]);
    assert_eq!(result[0].conditions[0].count, 1);
    assert_eq!(result[1].conditions[0].ship_types, vec![2]);
    assert_eq!(result[1].conditions[0].count, 2);
}

#[test]
fn test_parse_composition_multi_ship_types() {
    let result = parse_composition(&Some("3-1|1,2-2".to_string())).unwrap();
    assert_eq!(result.len(), 1);
    assert_eq!(result[0].conditions[0].ship_types, vec![3]);
    assert_eq!(result[0].conditions[1].ship_types, vec![1, 2]);
    assert_eq!(result[0].conditions[1].count, 2);
}

#[test]
fn test_parse_composition_multi_branch_or() {
    let result = parse_composition(&Some("2-2/3-1".to_string())).unwrap();
    assert_eq!(result.len(), 2);
    assert_eq!(result[0].conditions[0].ship_types, vec![2]);
    assert_eq!(result[0].conditions[0].count, 2);
    assert_eq!(result[1].conditions[0].ship_types, vec![3]);
    assert_eq!(result[1].conditions[0].count, 1);
}

#[test]
fn test_parse_composition_empty() {
    assert!(parse_composition(&None).unwrap().is_empty());
    assert!(parse_composition(&Some("".to_string())).unwrap().is_empty());
}

#[test]
fn test_parse_composition_invalid_format() {
    assert!(parse_composition(&Some("invalid".to_string())).is_err());
    assert!(parse_composition(&Some("1-2-3".to_string())).is_err());
}

#[test]
fn test_parse_drum_requirements_required() {
    let result = parse_drum_requirements(Some(3), Some(4), None);
    assert!(result.is_some());
    let req = result.unwrap();
    assert_eq!(req.ship_count, 3);
    assert_eq!(req.total_count, 4);
    assert!(!req.optional);
}

#[test]
fn test_parse_drum_requirements_optional() {
    let result = parse_drum_requirements(None, None, Some(3));
    assert!(result.is_some());
    let req = result.unwrap();
    assert_eq!(req.ship_count, 1);
    assert_eq!(req.total_count, 3);
    assert!(req.optional);
}

#[test]
fn test_parse_drum_requirements_none() {
    assert!(parse_drum_requirements(None, None, None).is_none());
    assert!(parse_drum_requirements(Some(1), None, None).is_none());
    assert!(parse_drum_requirements(None, Some(1), None).is_none());
}

#[test]
fn test_parse_ship_type_requirement_invalid() {
    assert!(parse_ship_type_requirement("invalid").is_err());
    assert!(parse_ship_type_requirement("1-2-3").is_err());
    assert!(parse_ship_type_requirement("abc-def").is_err());
}

#[test]
fn test_convert_rewards_filters_zero() {
    let rewards = vec![[0, 0], [1, 2], [0, 0], [3, 4]];
    let result = convert_rewards(&rewards);
    assert_eq!(result.len(), 2);
    assert_eq!(result[0].item_id, 1);
    assert_eq!(result[0].count, 2);
    assert_eq!(result[1].item_id, 3);
    assert_eq!(result[1].count, 4);
}

#[test]
fn test_parse_flagship_type() {
    assert_eq!(parse_flagship_type(&Some("3".to_string())), Some(3));
    assert_eq!(parse_flagship_type(&Some("invalid".to_string())), None);
    assert_eq!(parse_flagship_type(&None), None);
}

fn name(text: &str) -> KCanotifyExpeditionName {
    KCanotifyExpeditionName {
        jp: text.to_string(),
        ko: text.to_string(),
        en: text.to_string(),
        scn: text.to_string(),
        tcn: text.to_string(),
    }
}

fn record(id: &str, code: &str, area: i64, title: &str, time: i64, res: i64) -> KCanotifyExpedition {
    KCanotifyExpedition {
        id: id.to_string(),
        code: code.to_string(),
        area,
        name: name(title),
        time,
        resource: [res, res, res, res],
        reward: vec![[area, area + 1]],
        exp: [100, 200],
        total_num: area,
        flagship_level: None,
        total_level: None,
        flagship_type: None,
        total_condition: None,
        total_firepower: None,
        total_fp: None,
        total_asw: None,
        total_los: None,
        drum_ship: None,
        drum_num: None,
        drum_num_optional: None,
    }
}

#[test]
fn test_parse_detects_duplicate_ids() {
    let data = vec![
        record("1", "EXP-001", 1, "Test1", 30, 100),
        record("1", "EXP-002", 2, "Test2", 45, 200),
    ];
    let result = collect_expeditions(&data);
    assert!(result.is_err());
    let err_msg = match result.unwrap_err() {
        ParseError::Generic(m) => m,
        other => panic!("unexpected error {other:?}"),
    };
    assert!(err_msg.contains("duplicate expedition IDs"));
    assert!(err_msg.contains("EXP-001"));
    assert!(err_msg.contains("EXP-002"));
    assert_eq!(err_msg, "Found duplicate expedition IDs:\n  id=1: 'EXP-001' and 'EXP-002'");
}

#[test]
fn distinct_ids_convert_in_order() {
    let data = vec![
        record("2", "B1", 2, "Second", 45, 200),
        record("1", "A1", 1, "First", 30, 100),
    ];
    let out = collect_expeditions(&data).unwrap();
    assert_eq!(out.len(), 2);
    assert_eq!(out[0].api_id, 2);
    assert_eq!(out[0].code, "B1");
    assert_eq!(out[0].name.ja, "Second");
    assert_eq!(out[1].api_id, 1);
    assert_eq!(out[1].time_minutes, 30);
    assert_eq!(out[1].resource_reward, [100, 100, 100, 100]);
}

#[test]
fn a_bad_id_is_reported_before_duplicates() {
    let data = vec![
        record("1", "A", 1, "x", 1, 1),
        record("1", "B", 1, "x", 1, 1),
        record("x1", "C", 1, "x", 1, 1),
    ];
    match collect_expeditions(&data) {
        Err(ParseError::IntParse(m)) => assert_eq!(m, "invalid digit found in string"),
        other => panic!("unexpected result {other:?}"),
    }
}

#[test]
fn conversion_prefers_total_firepower_and_reads_drums() {
    let mut src = record("5", "5", 1, "Five", 90, 0);
    src.total_fp = Some(7);
    src.total_firepower = Some(9);
    src.drum_num_optional = Some(2);
    src.total_condition = Some("2-4".to_string());
    src.flagship_type = Some("3".to_string());
    let c = convert_to_internal_model(&src).unwrap();
    assert_eq!(c.api_id, 5);
    assert_eq!(c.requirements.total_firepower, Some(9));
    assert_eq!(c.requirements.flagship_type, Some(3));
    assert_eq!(c.requirements.composition.len(), 1);
    assert_eq!(c.requirements.composition[0].conditions[0].count, 4);
    let d = c.requirements.drum_requirements.unwrap();
    assert_eq!((d.ship_count, d.total_count, d.optional), (1, 2, true));
    assert_eq!(c.admiral_exp, 100);
    assert_eq!(c.fleet_exp, 200);

    src.total_firepower = None;
    let c = convert_to_internal_model(&src).unwrap();
    assert_eq!(c.requirements.total_firepower, Some(7));
}

#[test]
fn a_triplicate_id_pairs_each_repeat_with_the_code_before_it() {
    let data = vec![
        record("3", "X", 1, "x", 1, 1),
        record("3", "Y", 1, "x", 1, 1),
        record("3", "Z", 1, "x", 1, 1),
    ];
    match collect_expeditions(&data) {
        Err(ParseError::Generic(m)) => assert_eq!(
            m,
            "Found duplicate expedition IDs:\n  id=3: 'X' and 'Y'\n  id=3: 'Y' and 'Z'"
        ),
        other => panic!("unexpected result {other:?}"),
    }
}
