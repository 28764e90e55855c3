//! The extra rewards of a tsunkit quest record: which of them the client can
//! grant, checked against the master data, and what each one becomes.
use vstd::prelude::*;

use crate::text::{chars_eq, chars_of};

verus! {

/// What kind of thing a reward entry gives.
#[derive(Debug, Clone, Copy, PartialEq, Eq, Structural)]
pub enum OtherCategory {
    Equipment,
    Feature,
    Furniture,
    Inventory,
    Senka,
    Ship,
}

/// One alternative of a reward the player chooses from.
#[derive(Debug, Clone)]
pub struct Choice {
    pub category: OtherCategory,
    pub id: Option<i64>,
    pub stars: Option<i64>,
    pub amount: Option<i64>,
    pub name: Option<String>,
    pub name_en: Option<String>,
}

/// A reward entry besides the resources: a fixed reward, or a choice.
#[derive(Debug, Clone)]
pub struct Other {
    pub category: Option<OtherCategory>,
    pub id: Option<i64>,
    pub amount: Option<i64>,
    pub stars: Option<i64>,
    pub choices: Option<Vec<Choice>>,
}

/// The rewards of a quest record: fuel, ammo, steel, bauxite, then the rest.
#[derive(Debug, Clone)]
pub struct Rewards {
    pub resources: Vec<i64>,
    pub other: Vec<Other>,
}

#[derive(Debug, Clone, Copy, PartialEq, Eq, Structural)]
pub enum Kc3rdQuestRewardCategory {
    Slotitem,
    FleetUnlock,
    FactoryImprovementUnlock,
    ExpeditionSupplyUnlock,
    LargeShipConstructionUnlock,
    AirbaseUnlock,
    Furniture,
    UseItem,
    WarResult,
    Ship,
}

#[derive(Debug, Clone, Copy, PartialEq, Eq, Structural)]
pub struct Kc3rdQuestReward {
    pub api_id: i64,
    pub category: Kc3rdQuestRewardCategory,
    pub amount: i64,
    pub stars: i64,
}

/// A reward the player picks one of.
#[derive(Debug, Clone)]
pub struct Kc3rdQuestChoiceReward {
    pub choices: Vec<Kc3rdQuestReward>,
}

/// The ids of the master data a reward can name.
#[derive(Debug, Clone)]
pub struct MasterIds {
    pub slotitems: Vec<i64>,
    pub furniture: Vec<i64>,
    pub useitems: Vec<i64>,
    pub ships: Vec<i64>,
}

/// The unlock a "feature" reward stands for, by the quest's wiki id.
pub open spec fn feature_unlock(wiki_id: Seq<char>) -> Option<(i64, Kc3rdQuestRewardCategory)> {
    if wiki_id == "A4"@ {
        Some((2, Kc3rdQuestRewardCategory::FleetUnlock))
    } else if wiki_id == "A14"@ {
        Some((3, Kc3rdQuestRewardCategory::FleetUnlock))
    } else if wiki_id == "A16"@ {
        Some((4, Kc3rdQuestRewardCategory::FleetUnlock))
    } else if wiki_id == "A45"@ {
        Some((0, Kc3rdQuestRewardCategory::FactoryImprovementUnlock))
    } else if wiki_id == "D25"@ {
        Some((0, Kc3rdQuestRewardCategory::ExpeditionSupplyUnlock))
    } else if wiki_id == "F10"@ {
        Some((0, Kc3rdQuestRewardCategory::LargeShipConstructionUnlock))
    } else if wiki_id == "F43"@ {
        Some((6, Kc3rdQuestRewardCategory::AirbaseUnlock))
    } else if wiki_id == "B175"@ {
        Some((7, Kc3rdQuestRewardCategory::AirbaseUnlock))
    } else {
        None
    }
}

/// The reward an entry makes: equipment, furniture, items and ships only
/// when the master data has the id; a feature by the quest it belongs to;
/// a ranking reward always.
pub open spec fn reward_of(
    m: MasterIds,
    wiki_id: Seq<char>,
    category: OtherCategory,
    api_id: i64,
    stars: i64,
    amount: i64,
) -> Option<Kc3rdQuestReward> {
    let grant = |c: Kc3rdQuestRewardCategory| Kc3rdQuestReward { api_id, category: c, amount, stars };
    match category {
        OtherCategory::Equipment => if m.slotitems@.contains(api_id) {
            Some(grant(Kc3rdQuestRewardCategory::Slotitem))
        } else {
            None
        },
        OtherCategory::Feature => match feature_unlock(wiki_id) {
            Some((id, c)) => Some(Kc3rdQuestReward { api_id: id, category: c, amount, stars }),
            None => None,
        },
        OtherCategory::Furniture => if m.furniture@.contains(api_id) {
            Some(grant(Kc3rdQuestRewardCategory::Furniture))
        } else {
            None
        },
        OtherCategory::Inventory => if m.useitems@.contains(api_id) {
            Some(grant(Kc3rdQuestRewardCategory::UseItem))
        } else {
            None
        },
        OtherCategory::Senka => Some(grant(Kc3rdQuestRewardCategory::WarResult)),
        OtherCategory::Ship => if m.ships@.contains(api_id) {
            Some(grant(Kc3rdQuestRewardCategory::Ship))
        } else {
            None
        },
    }
}

fn has_id(ids: &Vec<i64>, id: i64) -> (b: bool)
    ensures
        b == ids@.contains(id),
{
    let mut i: usize = 0;
    while i < ids.len()
        invariant
            i <= ids@.len(),
            forall|k: int| 0 <= k < i ==> ids@[k] != id,
        decreases ids@.len() - i,
    {
        if ids[i] == id {
            assert(ids@[i as int] == id);
            return true;
        }
        i += 1;
    }
    false
}

fn feature_of(wiki_id: &str) -> (r: Option<(i64, Kc3rdQuestRewardCategory)>)
    ensures
        r == feature_unlock(wiki_id@),
{
    let w = chars_of(wiki_id);
    let w = w.as_slice();
    if chars_eq(w, chars_of("A4").as_slice()) {
        Some((2, Kc3rdQuestRewardCategory::FleetUnlock))
    } else if chars_eq(w, chars_of("A14").as_slice()) {
        Some((3, Kc3rdQuestRewardCategory::FleetUnlock))
    } else if chars_eq(w, chars_of("A16").as_slice()) {
        Some((4, Kc3rdQuestRewardCategory::FleetUnlock))
    } else if chars_eq(w, chars_of("A45").as_slice()) {
        Some((0, Kc3rdQuestRewardCategory::FactoryImprovementUnlock))
    } else if chars_eq(w, chars_of("D25").as_slice()) {
        Some((0, Kc3rdQuestRewardCategory::ExpeditionSupplyUnlock))
    } else if chars_eq(w, chars_of("F10").as_slice()) {
        Some((0, Kc3rdQuestRewardCategory::LargeShipConstructionUnlock))
    } else if chars_eq(w, chars_of("F43").as_slice()) {
        Some((6, Kc3rdQuestRewardCategory::AirbaseUnlock))
    } else if chars_eq(w, chars_of("B175").as_slice()) {
        Some((7, Kc3rdQuestRewardCategory::AirbaseUnlock))
    } else {
        None
    }
}

/// The fixed rewards: each entry that is no choice and names a category,
/// with id 0, no stars and one piece where it leaves them out.
pub open spec fn additional_rewards(m: MasterIds, wiki_id: Seq<char>, other: Seq<Other>) -> Seq<Kc3rdQuestReward>
    decreases other.len(),
{
    if other.len() == 0 {
        Seq::empty()
    } else {
        let acc = additional_rewards(m, wiki_id, other.drop_last());
        let o = other.last();
        if o.choices is Some {
            acc
        } else {
            match o.category {
                None => acc,
                Some(c) => match reward_of(
                    m,
                    wiki_id,
                    c,
                    o.id.unwrap_or(0),
                    o.stars.unwrap_or(0),
                    o.amount.unwrap_or(1),
                ) {
                    Some(r) => acc.push(r),
                    None => acc,
                },
            }
        }
    }
}

/// The rewards the choices of one entry make, in order; an absent id,
/// star count or amount is 0.
pub open spec fn choice_list(m: MasterIds, wiki_id: Seq<char>, choices: Seq<Choice>) -> Seq<Kc3rdQuestReward>
    decreases choices.len(),
{
    if choices.len() == 0 {
        Seq::empty()
    } else {
        let acc = choice_list(m, wiki_id, choices.drop_last());
        let c = choices.last();
        match reward_of(m, wiki_id, c.category, c.id.unwrap_or(0), c.stars.unwrap_or(0), c.amount.unwrap_or(0)) {
            Some(r) => acc.push(r),
            None => acc,
        }
    }
}

/// The choice rewards: one per entry with choices of which at least one
/// can be granted.
pub open spec fn choice_rewards(m: MasterIds, wiki_id: Seq<char>, other: Seq<Other>) -> Seq<Seq<Kc3rdQuestReward>>
    decreases other.len(),
{
    if other.len() == 0 {
        Seq::empty()
    } else {
        let acc = choice_rewards(m, wiki_id, other.drop_last());
        match other.last().choices {
            None => acc,
            Some(cs) => {
                let list = choice_list(m, wiki_id, cs@);
                if list.len() == 0 {
                    acc
                } else {
                    acc.push(list)
                }
            },
        }
    }
}

pub open spec fn choice_views(v: Seq<Kc3rdQuestChoiceReward>) -> Seq<Seq<Kc3rdQuestReward>> {
    v.map_values(|c: Kc3rdQuestChoiceReward| c.choices@)
}

impl Rewards {
    /// The reward one entry makes, if the client can grant it.
    pub fn extract_reward(
        mst: &MasterIds,
        wiki_id: &str,
        category: &OtherCategory,
        api_id: i64,
        stars: i64,
        amount: i64,
    ) -> (r: Option<Kc3rdQuestReward>)
        ensures
            r == reward_of(*mst, wiki_id@, *category, api_id, stars, amount),
    {
        match category {
            OtherCategory::Equipment => {
                if !has_id(&mst.slotitems, api_id) {
                    return None;
                }
                Some(Kc3rdQuestReward { api_id, category: Kc3rdQuestRewardCategory::Slotitem, amount, stars })
            },
            OtherCategory::Feature => match feature_of(wiki_id) {
                Some((id, c)) => Some(Kc3rdQuestReward { api_id: id, category: c, amount, stars }),
                None => None,
            },
            OtherCategory::Furniture => {
                if !has_id(&mst.furniture, api_id) {
                    return None;
                }
                Some(Kc3rdQuestReward { api_id, category: Kc3rdQuestRewardCategory::Furniture, amount, stars })
            },
            OtherCategory::Inventory => {
                if !has_id(&mst.useitems, api_id) {
                    return None;
                }
                Some(Kc3rdQuestReward { api_id, category: Kc3rdQuestRewardCategory::UseItem, amount, stars })
            },
            OtherCategory::Senka => Some(
                Kc3rdQuestReward { api_id, category: Kc3rdQuestRewardCategory::WarResult, amount, stars },
            ),
            OtherCategory::Ship => {
                if !has_id(&mst.ships, api_id) {
                    return None;
                }
                Some(Kc3rdQuestReward { api_id, category: Kc3rdQuestRewardCategory::Ship, amount, stars })
            },
        }
    }

    /// The fixed extra rewards of the quest, in order.
    pub fn to_additional_reward(&self, mst: &MasterIds, wiki_id: &str) -> (r: Option<Vec<Kc3rdQuestReward>>)
        ensures
            r matches Some(v) && v@ == additional_rewards(*mst, wiki_id@, self.other@),
    {
        let mut result: Vec<Kc3rdQuestReward> = Vec::new();
        let mut i: usize = 0;
        while i < self.other.len()
            invariant
                i <= self.other@.len(),
                result@ == additional_rewards(*mst, wiki_id@, self.other@.take(i as int)),
            decreases self.other@.len() - i,
        {
            assert(self.other@.take(i as int + 1).drop_last() =~= self.other@.take(i as int));
            let o = &self.other[i];
            if o.choices.is_none() {
                match o.category {
                    None => {},
                    Some(c) => {
                        let id = match o.id {
                            Some(v) => v,
                            None => 0,
                        };
                        let stars = match o.stars {
                            Some(v) => v,
                            None => 0,
                        };
                        let amount = match o.amount {
                            Some(v) => v,
                            None => 1,
                        };
                        match Self::extract_reward(mst, wiki_id, &c, id, stars, amount) {
                            Some(r) => result.push(r),
                            None => {},
                        }
                    },
                }
            }
            i += 1;
        }
        assert(self.other@.take(self.other@.len() as int) =~= self.other@);
        Some(result)
    }

    /// The rewards to choose from, one list per entry that has choices.
    pub fn to_choice_rewards(&self, mst: &MasterIds, wiki_id: &str) -> (r: Option<Vec<Kc3rdQuestChoiceReward>>)
        ensures
            r matches Some(v) && choice_views(v@) == choice_rewards(*mst, wiki_id@, self.other@),
    {
        let mut result: Vec<Kc3rdQuestChoiceReward> = Vec::new();
        let mut i: usize = 0;
        while i < self.other.len()
            invariant
                i <= self.other@.len(),
                choice_views(result@) == choice_rewards(*mst, wiki_id@, self.other@.take(i as int)),
            decreases self.other@.len() - i,
        {
            assert(self.other@.take(i as int + 1).drop_last() =~= self.other@.take(i as int));
            let o = &self.other[i];
            match &o.choices {
                None => {},
                Some(choices) => {
                    let mut rewards: Vec<Kc3rdQuestReward> = Vec::new();
                    let mut j: usize = 0;
                    while j < choices.len()
                        invariant
                            j <= choices@.len(),
                            rewards@ == choice_list(*mst, wiki_id@, choices@.take(j as int)),
                        decreases choices@.len() - j,
                    {
                        assert(choices@.take(j as int + 1).drop_last() =~= choices@.take(j as int));
                        let c = &choices[j];
                        let id = match c.id {
                            Some(v) => v,
                            None => 0,
                        };
                        let stars = match c.stars {
                            Some(v) => v,
                            None => 0,
                        };
                        let amount = match c.amount {
                            Some(v) => v,
                            None => 0,
                        };
                        match Self::extract_reward(mst, wiki_id, &c.category, id, stars, amount) {
                            Some(r) => rewards.push(r),
                            None => {},
                        }
                        j += 1;
                    }
                    assert(choices@.take(choices@.len() as int) =~= choices@);
                    if rewards.len() > 0 {
                        let ghost before = choice_views(result@);
                        let ghost rv = rewards@;
                        result.push(Kc3rdQuestChoiceReward { choices: rewards });
                        assert(choice_views(result@) =~= before.push(rv));
                    }
                },
            }
            i += 1;
        }
        assert(self.other@.take(self.other@.len() as int) =~= self.other@);
        Some(result)
    }
}

} // verus!
