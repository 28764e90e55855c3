use emukc_bootstrap::kccp_quest::{quests_from_entries, KccpQuestInfo};

fn entries(pairs: &[(&str, &str)]) -> Vec<(String, String)> {
    pairs.iter().map(|(k, v)| (k.to_string(), v.to_string())).collect()
}

#[test]
fn a_trailing_id_with_no_entries_is_skipped_rather_than_panicking() {
    let raw = entries(&[
        ("_quest_id_101", "_quest_code_A1"),
        ("はじめての「編成」！", "The First Attempt at Fleet Organization!"),
        ("２隻以上の艦で構成される「艦隊」を編成せよ！", "Have 2 ships in your main fleet."),
        ("_quest_id_999", "_quest_code_Z9"),
    ]);

    let result = quests_from_entries(&raw);

    assert!(result.contains_key(&101));
    assert!(!result.contains_key(&999));
}

#[test]
fn grouping_follows_entry_order_not_line_position() {
    let raw = entries(&[
        ("_quest_id_101", "_quest_code_A1"),
        ("はじめての「編成」！", "The First Attempt at Fleet Organization!"),
        ("２隻以上の艦で構成される「艦隊」を編成せよ！", "Have 2 ships in your main fleet."),
    ]);

    let result = quests_from_entries(&raw);

    let q101 = result.get(&101).unwrap();
    assert_eq!(q101.name, "はじめての「編成」！");
    assert_eq!(q101.desc, "２隻以上の艦で構成される「艦隊」を編成せよ！");
}

#[test]
fn a_lone_sentence_is_read_as_the_description() {
    let raw = entries(&[
        ("_quest_id_615", "_quest_code_F1"),
        ("「彗星」を2つ廃棄！", "Scrap 2 Suisei."),
        ("_quest_id_616", "_quest_code_F2"),
        ("これはとても長い説明文でありタイトルとしては長すぎるので説明として扱われるべき文章", "x"),
        ("_quest_id_1124", "_quest_code_S1"),
        ("【早春限定任務】夜間航空作戦能力の増強", "x"),
    ]);

    let result = quests_from_entries(&raw);

    let q615 = result.get(&615).unwrap();
    assert_eq!(q615.name, "n/a");
    assert_eq!(q615.desc, "「彗星」を2つ廃棄！");
    let q616 = result.get(&616).unwrap();
    assert_eq!(q616.name, "n/a");
    let q1124 = result.get(&1124).unwrap();
    assert_eq!(q1124.name, "【早春限定任務】夜間航空作戦能力の増強");
    assert_eq!(q1124.desc, "n/a");
}

#[test]
fn the_dummy_sentinel_is_dropped_and_line_breaks_become_br() {
    let raw = entries(&[
        ("_quest_id_1169", "_quest_code_X"),
        ("端午の節句工廠", "t"),
        ("配備。\n準備せよ！", "d"),
        ("dummy", "forNoComma"),
    ]);

    let result = quests_from_entries(&raw);

    let q = result.get(&1169).unwrap();
    assert_eq!(q.id, 1169);
    assert_eq!(q.name, "端午の節句工廠");
    assert_eq!(q.desc, "配備。<br>準備せよ！");
    assert_eq!(result.len(), 1);
}

#[test]
fn entries_before_the_first_id_and_beyond_two_are_ignored() {
    let raw = entries(&[
        ("stray", "s"),
        ("_quest_id_7", "c"),
        ("name", "n"),
        ("desc", "d"),
        ("extra", "e"),
        ("_quest_id_x", "not an id, so it joins quest 7"),
    ]);

    let result = quests_from_entries(&raw);

    assert_eq!(result.keys().copied().collect::<Vec<_>>(), vec![7]);
    let q = result.get(&7).unwrap();
    assert_eq!((q.name.as_str(), q.desc.as_str()), ("name", "desc"));
}

#[test]
fn a_repeated_id_keeps_the_later_record() {
    let raw = entries(&[("_quest_id_5", "a"), ("first", "1"), ("_quest_id_5", "b"), ("second", "2")]);
    let result = quests_from_entries(&raw);
    assert_eq!(result.get(&5).unwrap().name, "second");
}

#[test]
fn the_default_record_is_not_available() {
    let q = KccpQuestInfo::default();
    assert_eq!((q.id, q.name.as_str(), q.desc.as_str()), (0, "n/a", "n/a"));
}

/// The quests of the upstream sample, in its entry order (translations shortened).
fn sample() -> Vec<(String, String)> {
    entries(&[
        ("_quest_id_101", "_quest_code_A1"),
        ("はじめての「編成」！", "The First Attempt at Fleet Organization!"),
        ("２隻以上の艦で構成される「艦隊」を編成せよ！", "Have 2 ships in your main fleet."),
        ("_quest_id_102", "_quest_code_A2"),
        ("「駆逐隊」を編成せよ！", "Form a Destroyer Division!"),
        ("駆逐艦４隻以上で構成される「駆逐隊」を編成せよ！", "Have 4 destroyers in your fleet."),
        ("_quest_id_103", "_quest_code_A3"),
        ("「水雷戦隊」を編成せよ！", "Form a Torpedo Squadron!"),
        ("軽巡洋艦を旗艦とし、数隻の駆逐艦で構成される「水雷戦隊」を編成せよ！", "A light cruiser flagship and destroyers."),
        ("_quest_id_615", "_quest_code_F37"),
        ("「九九式艦爆(江草隊)」搭載空母を秘書艦にした状態で新たに「彗星」を2つ廃棄！", "Scrap 2 Suisei."),
        ("_quest_id_616", "_quest_code_F38"),
        ("「零戦52型丙(六〇一空)」搭載空母を秘書艦にした状態で新たに「試製烈風 後期型」を2つ廃棄！", "Scrap 2 Reppuu."),
        ("_quest_id_1124", "_quest_code_F90"),
        ("【早春限定任務】夜間航空作戦能力の増強", "Early Spring Quest"),
        ("_quest_id_1169", "_quest_code_F95"),
        ("【期間限定任務・拡張任務】端午の節句工廠【II】", "Children's Day Arsenal II"),
        (
            "第一艦隊の旗艦及び二番艦に「山汐丸改」または「第四号海防艦」「第三〇号海防艦」を配備。\n練度maxの「九七式艦攻」x5廃棄。工廠資源x2、開発資材x155、燃料と弾薬x各550を準備せよ！",
            "Equip and scrap.",
        ),
        ("dummy", "forNoComma"),
    ])
}

#[test]
fn well_formed_quests_get_their_japanese_name_and_desc() {
    let result = quests_from_entries(&sample());

    let q101 = result.get(&101).unwrap();
    assert_eq!(q101.name, "はじめての「編成」！");
    assert_eq!(q101.desc, "２隻以上の艦で構成される「艦隊」を編成せよ！");

    let q102 = result.get(&102).unwrap();
    assert_eq!(q102.name, "「駆逐隊」を編成せよ！");
    assert_eq!(q102.desc, "駆逐艦４隻以上で構成される「駆逐隊」を編成せよ！");
}

#[test]
fn a_quest_without_a_name_keeps_its_desc_and_leaves_the_next_quest_alone() {
    let result = quests_from_entries(&sample());

    let q615 = result.get(&615).unwrap();
    assert_eq!(q615.name, "n/a");
    assert_eq!(q615.desc, "「九九式艦爆(江草隊)」搭載空母を秘書艦にした状態で新たに「彗星」を2つ廃棄！");

    let q616 = result.get(&616).unwrap();
    assert_eq!(q616.name, "n/a");
    assert_eq!(
        q616.desc,
        "「零戦52型丙(六〇一空)」搭載空母を秘書艦にした状態で新たに「試製烈風 後期型」を2つ廃棄！"
    );
}

#[test]
fn a_quest_without_a_desc_keeps_its_name_and_leaves_the_next_quest_alone() {
    let result = quests_from_entries(&sample());

    let q1124 = result.get(&1124).unwrap();
    assert_eq!(q1124.name, "【早春限定任務】夜間航空作戦能力の増強");
    assert_eq!(q1124.desc, "n/a");

    let q103 = result.get(&103).unwrap();
    assert_eq!(q103.name, "「水雷戦隊」を編成せよ！");
    assert_eq!(q103.desc, "軽巡洋艦を旗艦とし、数隻の駆逐艦で構成される「水雷戦隊」を編成せよ！");
}

#[test]
fn the_dummy_sentinel_is_dropped() {
    let result = quests_from_entries(&sample());

    let q1169 = result.get(&1169).unwrap();
    assert_eq!(q1169.name, "【期間限定任務・拡張任務】端午の節句工廠【II】");
    assert_eq!(
        q1169.desc,
        "第一艦隊の旗艦及び二番艦に「山汐丸改」または「第四号海防艦」「第三〇号海防艦」を配備。<br>練度maxの「九七式艦攻」x5廃棄。工廠資源x2、開発資材x155、燃料と弾薬x各550を準備せよ！"
    );
    assert!(result.values().all(|q| q.name != "dummy" && q.desc != "dummy"));
}

#[test]
fn every_id_in_the_sample_yields_a_record() {
    let result = quests_from_entries(&sample());

    assert_eq!(result.keys().copied().collect::<Vec<_>>(), vec![101, 102, 103, 615, 616, 1124, 1169]);
    assert!(
        result.values().all(|q| !q.name.starts_with("_quest_id_") && !q.desc.starts_with("_quest_id_")),
        "no field may hold an internal id key"
    );
}
