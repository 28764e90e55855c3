use emukc_bootstrap::quest_reward::{
    Choice, Kc3rdQuestReward, Kc3rdQuestRewardCategory, MasterIds, Other, OtherCategory, Rewards,
};

fn master() -> MasterIds {
    MasterIds { slotitems: vec![1, 2, 3], furniture: vec![50], useitems: vec![10, 44], ships: vec![100] }
}

fn other(category: Option<OtherCategory>, id: Option<i64>, amount: Option<i64>) -> Other {
    Other { category, id, amount, stars: None, choices: None }
}

fn choice(category: OtherCategory, id: i64, amount: Option<i64>) -> Choice {
    Choice { category, id: Some(id), stars: None, amount, name: None, name_en: None }
}

#[test]
fn known_items_become_rewards_and_unknown_ones_are_dropped() {
    let m = master();
    assert_eq!(
        Rewards::extract_reward(&m, "B1", &OtherCategory::Equipment, 2, 3, 1),
        Some(Kc3rdQuestReward { api_id: 2, category: Kc3rdQuestRewardCategory::Slotitem, amount: 1, stars: 3 })
    );
    assert_eq!(Rewards::extract_reward(&m, "B1", &OtherCategory::Equipment, 9, 0, 1), None);
    assert_eq!(Rewards::extract_reward(&m, "B1", &OtherCategory::Ship, 101, 0, 1), None);
    assert_eq!(
        Rewards::extract_reward(&m, "B1", &OtherCategory::Inventory, 44, 0, 2),
        Some(Kc3rdQuestReward { api_id: 44, category: Kc3rdQuestRewardCategory::UseItem, amount: 2, stars: 0 })
    );
    assert_eq!(
        Rewards::extract_reward(&m, "Z9", &OtherCategory::Senka, 999, 0, 5),
        Some(Kc3rdQuestReward { api_id: 999, category: Kc3rdQuestRewardCategory::WarResult, amount: 5, stars: 0 })
    );
}

#[test]
fn features_are_read_from_the_quest_id() {
    let m = master();
    assert_eq!(
        Rewards::extract_reward(&m, "A14", &OtherCategory::Feature, 0, 0, 1),
        Some(Kc3rdQuestReward { api_id: 3, category: Kc3rdQuestRewardCategory::FleetUnlock, amount: 1, stars: 0 })
    );
    assert_eq!(
        Rewards::extract_reward(&m, "B175", &OtherCategory::Feature, 0, 0, 1),
        Some(Kc3rdQuestReward { api_id: 7, category: Kc3rdQuestRewardCategory::AirbaseUnlock, amount: 1, stars: 0 })
    );
    assert_eq!(Rewards::extract_reward(&m, "A1", &OtherCategory::Feature, 0, 0, 1), None);
}

#[test]
fn fixed_rewards_skip_choices_and_default_to_one_piece() {
    let rewards = Rewards {
        resources: vec![10, 20, 30, 40],
        other: vec![
            other(Some(OtherCategory::Furniture), Some(50), None),
            other(None, Some(1), Some(1)),
            Other {
                category: Some(OtherCategory::Equipment),
                id: Some(1),
                amount: Some(1),
                stars: None,
                choices: Some(vec![choice(OtherCategory::Equipment, 1, None)]),
            },
            other(Some(OtherCategory::Ship), Some(100), Some(2)),
        ],
    };
    let got = rewards.to_additional_reward(&master(), "B1").unwrap();
    assert_eq!(
        got,
        vec![
            Kc3rdQuestReward { api_id: 50, category: Kc3rdQuestRewardCategory::Furniture, amount: 1, stars: 0 },
            Kc3rdQuestReward { api_id: 100, category: Kc3rdQuestRewardCategory::Ship, amount: 2, stars: 0 },
        ]
    );
}

#[test]
fn choices_keep_only_grantable_alternatives() {
    let rewards = Rewards {
        resources: vec![0, 0, 0, 0],
        other: vec![
            Other {
                category: None,
                id: None,
                amount: None,
                stars: None,
                choices: Some(vec![
                    choice(OtherCategory::Equipment, 3, Some(1)),
                    choice(OtherCategory::Equipment, 77, Some(1)),
                    choice(OtherCategory::Inventory, 10, None),
                ]),
            },
            Other {
                category: None,
                id: None,
                amount: None,
                stars: None,
                choices: Some(vec![choice(OtherCategory::Ship, 5, Some(1))]),
            },
            other(Some(OtherCategory::Senka), Some(1), Some(1)),
        ],
    };
    let got = rewards.to_choice_rewards(&master(), "B1").unwrap();
    assert_eq!(got.len(), 1);
    assert_eq!(
        got[0].choices,
        vec![
            Kc3rdQuestReward { api_id: 3, category: Kc3rdQuestRewardCategory::Slotitem, amount: 1, stars: 0 },
            Kc3rdQuestReward { api_id: 10, category: Kc3rdQuestRewardCategory::UseItem, amount: 0, stars: 0 },
        ]
    );
}
