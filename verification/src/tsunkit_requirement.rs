//! The conditions a tsunkit quest requirement turns into: resource use,
//! expeditions, the simple counted tasks, and exercises.
use vstd::prelude::*;

use crate::error::{ParseError, ParseErrorView};
use crate::tsunkit_quest::{
    combat_result_of, master_selector, ship_group_of, ship_group_view, sortie_view, ClassId, CombatResult, Id, Sortie, KcSortieResult,
    Kc3rdQuestConditionShip, Kc3rdQuestConditionShipGroup, Kc3rdQuestConditionSortie,
    RequirementsComp, ShipCondView, ShipGroupView, ShipMasterIds, SortieView,
};

verus! {

/// The counted task a simple requirement names.
#[derive(Debug, Clone, Copy, PartialEq, Eq, Structural)]
pub enum RequirementsSubCategory {
    Battle,
    Equipment,
    Improvement,
    Modernization,
    Repair,
    Resupply,
    Scrapequipment,
    Scrapship,
    Ship,
}

/// One expedition entry: how often, and which expeditions (one or a list).
#[derive(Debug, Clone, PartialEq)]
pub struct Exped {
    pub times: i64,
    pub id: Option<Id>,
}

/// A ship that a composition bans, by its id or its class.
#[derive(Debug, Clone, PartialEq)]
pub struct CompBanned {
    pub ship_id: Option<ClassId>,
    pub class_id: Option<ClassId>,
}

/// A kind of ship a composition may not hold.
#[derive(Debug, Clone, Copy, PartialEq, Eq, Structural)]
pub enum Disallowed {
    Aviation,
    Carriers,
    Otherships,
}

/// The fields of a requirement that these conditions read.
#[derive(Debug, Clone, PartialEq)]
pub struct Requirements {
    pub comp: Option<Vec<RequirementsComp>>,
    pub fleet_id: Option<i64>,
    pub disallowed: Option<Disallowed>,
    pub comp_banned: Option<Vec<CompBanned>>,
    pub sortie: Option<Vec<Sortie>>,
    pub group_id: Option<i64>,
    pub amount: Option<i64>,
    pub subcategory: Option<RequirementsSubCategory>,
    pub times: Option<i64>,
    pub result: Option<CombatResult>,
    pub daily: Option<bool>,
    pub expeds: Option<Vec<Exped>>,
    pub resources: Option<Vec<i64>>,
}

#[derive(Debug, Clone, Copy, PartialEq, Eq, Structural)]
pub struct Kc3rdQuestConditionMaterialConsumption {
    pub fuel: i64,
    pub ammo: i64,
    pub steel: i64,
    pub bauxite: i64,
}

#[derive(Debug, Clone, PartialEq)]
pub struct Kc3rdQuestConditionExpedition {
    pub list: Option<Vec<String>>,
    pub times: i64,
}

#[derive(Debug, Clone, Copy, PartialEq, Eq, Structural)]
pub enum Kc3rdQuestConditionFactory {
    SlotItemConstruction(i64),
    SlotItemImprovement(i64),
    ShipConstruction(i64),
}

#[derive(Debug, Clone, Copy, PartialEq, Eq, Structural)]
pub enum Kc3rdQuestConditionScrap {
    AnyEquipment(i64),
    AnyShip(i64),
}

#[derive(Debug, Clone, PartialEq)]
pub struct Kc3rdQuestConditionModernization {
    pub target_ship: Kc3rdQuestConditionShip,
    pub material_ship: Kc3rdQuestConditionShip,
    pub batch_size: i64,
    pub times: i64,
}

#[derive(Debug, Clone, PartialEq)]
pub struct Kc3rdQuestConditionExcerise {
    pub times: i64,
    pub expect_result: KcSortieResult,
    pub expire_next_day: bool,
    pub groups: Option<Vec<Kc3rdQuestConditionShipGroup>>,
}

/// The fleet a condition asks for: its slots, the ships it may not hold
/// (when it bans any), and the fleet number (0 for any fleet).
#[derive(Debug, Clone, PartialEq)]
pub struct Kc3rdQuestConditionComposition {
    pub groups: Vec<Kc3rdQuestConditionShipGroup>,
    pub disallowed: Option<Vec<Kc3rdQuestConditionShip>>,
    pub fleet_id: i64,
}

pub type CompositionView = (Seq<ShipGroupView>, Option<Seq<ShipCondView>>, i64);

pub open spec fn composition_view(c: Kc3rdQuestConditionComposition) -> CompositionView {
    (
        group_views(c.groups@),
        match c.disallowed {
            Some(v) => Some(v@.map_values(|s: Kc3rdQuestConditionShip| s@)),
            None => None,
        },
        c.fleet_id,
    )
}

/// One condition of a quest.
#[derive(Debug, Clone, PartialEq)]
pub enum Kc3rdQuestCondition {
    Resources(Kc3rdQuestConditionMaterialConsumption),
    Expedition(Vec<Kc3rdQuestConditionExpedition>),
    Sortie(Kc3rdQuestConditionSortie),
    Factory(Kc3rdQuestConditionFactory),
    Modernization(Kc3rdQuestConditionModernization),
    Repair(i64),
    Resupply(i64),
    Scrap(Kc3rdQuestConditionScrap),
    Excercise(Kc3rdQuestConditionExcerise),
    Composition(Kc3rdQuestConditionComposition),
    /// Sink ships of a group, this many times.
    Sink(Kc3rdQuestConditionShip, i64),
}

/// An expedition entry as plain values.
pub type ExpedConditionView = (Option<Seq<Seq<char>>>, i64);

pub enum ConditionView {
    Resources(Kc3rdQuestConditionMaterialConsumption),
    Expedition(Seq<ExpedConditionView>),
    Sortie(SortieView),
    Factory(Kc3rdQuestConditionFactory),
    Modernization(ShipCondView, ShipCondView, i64, i64),
    Repair(i64),
    Resupply(i64),
    Scrap(Kc3rdQuestConditionScrap),
    Excercise(i64, KcSortieResult, bool, Option<Seq<ShipGroupView>>),
    Composition(CompositionView),
    Sink(ShipCondView, i64),
}

pub open spec fn exped_condition_view(e: Kc3rdQuestConditionExpedition) -> ExpedConditionView {
    (
        match e.list {
            Some(v) => Some(v.deep_view()),
            None => None,
        },
        e.times,
    )
}

pub open spec fn group_views(gs: Seq<Kc3rdQuestConditionShipGroup>) -> Seq<ShipGroupView> {
    gs.map_values(|g: Kc3rdQuestConditionShipGroup| g@)
}

impl View for Kc3rdQuestCondition {
    type V = ConditionView;

    open spec fn view(&self) -> ConditionView {
        match self {
            Kc3rdQuestCondition::Resources(m) => ConditionView::Resources(*m),
            Kc3rdQuestCondition::Expedition(v) => ConditionView::Expedition(
                v@.map_values(|e: Kc3rdQuestConditionExpedition| exped_condition_view(e)),
            ),
            Kc3rdQuestCondition::Sortie(s) => ConditionView::Sortie(s@),
            Kc3rdQuestCondition::Factory(f) => ConditionView::Factory(*f),
            Kc3rdQuestCondition::Modernization(m) => ConditionView::Modernization(
                m.target_ship@,
                m.material_ship@,
                m.batch_size,
                m.times,
            ),
            Kc3rdQuestCondition::Repair(t) => ConditionView::Repair(*t),
            Kc3rdQuestCondition::Resupply(t) => ConditionView::Resupply(*t),
            Kc3rdQuestCondition::Scrap(s) => ConditionView::Scrap(*s),
            Kc3rdQuestCondition::Excercise(e) => ConditionView::Excercise(
                e.times,
                e.expect_result,
                e.expire_next_day,
                match e.groups {
                    Some(g) => Some(group_views(g@)),
                    None => None,
                },
            ),
            Kc3rdQuestCondition::Composition(c) => ConditionView::Composition(composition_view(*c)),
            Kc3rdQuestCondition::Sink(ship, n) => ConditionView::Sink(ship@, *n),
        }
    }
}

pub open spec fn condition_views(cs: Seq<Kc3rdQuestCondition>) -> Seq<ConditionView> {
    cs.map_values(|c: Kc3rdQuestCondition| c@)
}

/// The resources a requirement consumes: its first four amounts as fuel,
/// ammunition, steel and bauxite.
pub open spec fn resource_condition_of(r: Requirements) -> Option<ConditionView> {
    match r.resources {
        Some(v) => Some(
            ConditionView::Resources(
                Kc3rdQuestConditionMaterialConsumption {
                    fuel: v@[0],
                    ammo: v@[1],
                    steel: v@[2],
                    bauxite: v@[3],
                },
            ),
        ),
        None => None,
    }
}

/// A requirement's resource list, where it has one, names all four amounts.
pub open spec fn resources_complete(r: Requirements) -> bool {
    r.resources matches Some(v) ==> v@.len() >= 4
}

/// The expeditions an entry names: its one id, or its list.
pub open spec fn exped_list_of(id: Option<Id>) -> Option<Seq<Seq<char>>> {
    match id {
        Some(Id::String(s)) => Some(seq![s@]),
        Some(Id::StringArray(v)) => Some(v.deep_view()),
        None => None,
    }
}

pub open spec fn exped_views(es: Seq<Exped>) -> Seq<ExpedConditionView> {
    es.map_values(|e: Exped| (exped_list_of(e.id), e.times))
}

/// An expedition requirement: its resource use, if any, then its expedition
/// entries, if it has them.
pub open spec fn expedition_conditions_of(r: Requirements) -> Seq<ConditionView> {
    let head = match resource_condition_of(r) {
        Some(c) => seq![c],
        None => Seq::empty(),
    };
    match r.expeds {
        Some(es) => head.push(ConditionView::Expedition(exped_views(es@))),
        None => head,
    }
}


/// The one condition a simple requirement makes, counting `times` (0 when
/// unset).
pub open spec fn simple_condition_of(sub: RequirementsSubCategory, times: i64) -> ConditionView {
    match sub {
        RequirementsSubCategory::Battle => ConditionView::Sortie(
            SortieView { defeat_boss: false, fleet_id: 0, map: None, result: None, times },
        ),
        RequirementsSubCategory::Equipment => ConditionView::Factory(
            Kc3rdQuestConditionFactory::SlotItemConstruction(times),
        ),
        RequirementsSubCategory::Improvement => ConditionView::Factory(
            Kc3rdQuestConditionFactory::SlotItemImprovement(times),
        ),
        RequirementsSubCategory::Modernization => ConditionView::Modernization(
            ShipCondView::Any,
            ShipCondView::Any,
            1,
            times,
        ),
        RequirementsSubCategory::Repair => ConditionView::Repair(times),
        RequirementsSubCategory::Resupply => ConditionView::Resupply(times),
        RequirementsSubCategory::Scrapequipment => ConditionView::Scrap(
            Kc3rdQuestConditionScrap::AnyEquipment(times),
        ),
        RequirementsSubCategory::Scrapship => ConditionView::Scrap(
            Kc3rdQuestConditionScrap::AnyShip(times),
        ),
        RequirementsSubCategory::Ship => ConditionView::Factory(
            Kc3rdQuestConditionFactory::ShipConstruction(times),
        ),
    }
}

/// A simple requirement's conditions: the one its task makes, or none when
/// it names no task.
pub open spec fn simple_conditions_of(r: Requirements) -> Seq<ConditionView> {
    match r.subcategory {
        Some(sub) => seq![
            simple_condition_of(
                sub,
                match r.times {
                    Some(t) => t,
                    None => 0,
                },
            ),
        ],
        None => Seq::empty(),
    }
}

/// The composition slots of a requirement that name ships the master data
/// knows, in order.
pub open spec fn comp_groups_of(comps: Seq<RequirementsComp>, mst: ShipMasterIds) -> Seq<ShipGroupView>
    decreases comps.len(),
{
    if comps.len() == 0 {
        Seq::empty()
    } else {
        let prev = comp_groups_of(comps.drop_last(), mst);
        match ship_group_view(comps.last(), mst) {
            Some(g) => prev.push(g),
            None => prev,
        }
    }
}

/// Every composition slot that lists levels lists at least one.
pub open spec fn comp_levels_listed(r: Requirements) -> bool {
    r.comp matches Some(cs) ==> forall|i: int|
        0 <= i < cs@.len() ==> ((#[trigger] cs@[i]).lv matches Some(v) ==> v@.len() > 0)
}

/// An exercise requirement: once by default, any result unless one is
/// named, expiring the next day when it is a daily, with its composition.
pub open spec fn exercise_condition_of(r: Requirements, mst: ShipMasterIds) -> ConditionView {
    ConditionView::Excercise(
        match r.times {
            Some(t) => t,
            None => 1,
        },
        match r.result {
            Some(c) => combat_result_of(c),
            None => KcSortieResult::Any,
        },
        match r.daily {
            Some(d) => d,
            None => false,
        },
        match r.comp {
            Some(cs) => Some(comp_groups_of(cs@, mst)),
            None => None,
        },
    )
}

fn copy_strings(v: &Vec<String>) -> (r: Vec<String>)
    ensures
        r.deep_view() == v.deep_view(),
{
    let mut r: Vec<String> = Vec::new();
    let mut i: usize = 0;
    while i < v.len()
        invariant
            i <= v@.len(),
            r@.len() == i,
            forall|j: int| 0 <= j < i ==> r@[j]@ == v@[j]@,
        decreases v@.len() - i,
    {
        r.push(v[i].clone());
        i += 1;
    }
    assert(r.deep_view() =~= v.deep_view());
    r
}

impl Requirements {
    pub fn extract_resource_consumption(&self) -> (r: Option<Kc3rdQuestCondition>)
        requires
            resources_complete(*self),
        ensures
            match r {
                Some(c) => resource_condition_of(*self) == Some(c@),
                None => resource_condition_of(*self) is None,
            },
    {
        match &self.resources {
            Some(v) => Some(
                Kc3rdQuestCondition::Resources(
                    Kc3rdQuestConditionMaterialConsumption {
                        fuel: v[0],
                        ammo: v[1],
                        steel: v[2],
                        bauxite: v[3],
                    },
                ),
            ),
            None => None,
        }
    }

    pub fn extract_requirements_expedition(&self) -> (r: Vec<Kc3rdQuestCondition>)
        requires
            resources_complete(*self),
        ensures
            condition_views(r@) == expedition_conditions_of(*self),
    {
        let mut conditions: Vec<Kc3rdQuestCondition> = Vec::new();
        match self.extract_resource_consumption() {
            Some(c) => {
                conditions.push(c);
            },
            None => {},
        }
        let ghost head = condition_views(conditions@);
        match &self.expeds {
            Some(expeds) => {
                let mut list: Vec<Kc3rdQuestConditionExpedition> = Vec::new();
                let mut i: usize = 0;
                while i < expeds.len()
                    invariant
                        i <= expeds@.len(),
                        list@.len() == i,
                        forall|j: int|
                            0 <= j < i ==> exped_condition_view(#[trigger] list@[j]) == (
                                exped_list_of(expeds@[j].id),
                                expeds@[j].times,
                            ),
                    decreases expeds@.len() - i,
                {
                    let e = &expeds[i];
                    let ids = match &e.id {
                        Some(Id::String(s)) => {
                            let mut one: Vec<String> = Vec::new();
                            one.push(s.clone());
                            assert(one.deep_view() =~= seq![s@]);
                            Some(one)
                        },
                        Some(Id::StringArray(v)) => Some(copy_strings(v)),
                        None => None,
                    };
                    list.push(Kc3rdQuestConditionExpedition { list: ids, times: e.times });
                    i += 1;
                }
                let ghost lv = list@.map_values(|e: Kc3rdQuestConditionExpedition| exped_condition_view(e));
                assert(lv =~= exped_views(expeds@));
                let ghost before = conditions@;
                conditions.push(Kc3rdQuestCondition::Expedition(list));
                assert(condition_views(conditions@) =~= condition_views(before).push(
                    ConditionView::Expedition(exped_views(expeds@)),
                ));
            },
            None => {},
        }
        assert(condition_views(conditions@) =~= expedition_conditions_of(*self));
        conditions
    }

    /// A simple requirement's one counted task; a requirement that names no
    /// task gives no condition.
    pub fn extract_requirements_simple(&self) -> (r: Vec<Kc3rdQuestCondition>)
        ensures
            condition_views(r@) == simple_conditions_of(*self),
    {
        let sub = match self.subcategory {
            Some(s) => s,
            None => {
                let empty: Vec<Kc3rdQuestCondition> = Vec::new();
                assert(condition_views(empty@) =~= Seq::<ConditionView>::empty());
                return empty;
            },
        };
        let times = match self.times {
            Some(t) => t,
            None => 0,
        };
        let c = match sub {
            RequirementsSubCategory::Battle => Kc3rdQuestCondition::Sortie(
                Kc3rdQuestConditionSortie { defeat_boss: false, fleet_id: 0, map: None, result: None, times },
            ),
            RequirementsSubCategory::Equipment => Kc3rdQuestCondition::Factory(
                Kc3rdQuestConditionFactory::SlotItemConstruction(times),
            ),
            RequirementsSubCategory::Improvement => Kc3rdQuestCondition::Factory(
                Kc3rdQuestConditionFactory::SlotItemImprovement(times),
            ),
            RequirementsSubCategory::Modernization => Kc3rdQuestCondition::Modernization(
                Kc3rdQuestConditionModernization {
                    target_ship: Kc3rdQuestConditionShip::Any,
                    material_ship: Kc3rdQuestConditionShip::Any,
                    batch_size: 1,
                    times,
                },
            ),
            RequirementsSubCategory::Repair => Kc3rdQuestCondition::Repair(times),
            RequirementsSubCategory::Resupply => Kc3rdQuestCondition::Resupply(times),
            RequirementsSubCategory::Scrapequipment => Kc3rdQuestCondition::Scrap(
                Kc3rdQuestConditionScrap::AnyEquipment(times),
            ),
            RequirementsSubCategory::Scrapship => Kc3rdQuestCondition::Scrap(
                Kc3rdQuestConditionScrap::AnyShip(times),
            ),
            RequirementsSubCategory::Ship => Kc3rdQuestCondition::Factory(
                Kc3rdQuestConditionFactory::ShipConstruction(times),
            ),
        };
        let mut out: Vec<Kc3rdQuestCondition> = Vec::new();
        out.push(c);
        assert(condition_views(out@) =~= seq![simple_condition_of(sub, times)]);
        out
    }

    pub fn extract_requirements_exercise(&self, mst: &ShipMasterIds) -> (r: Vec<Kc3rdQuestCondition>)
        requires
            comp_levels_listed(*self),
        ensures
            condition_views(r@) == seq![exercise_condition_of(*self, *mst)],
    {
        let times = match self.times {
            Some(t) => t,
            None => 1,
        };
        let expire_next_day = match self.daily {
            Some(d) => d,
            None => false,
        };
        let groups = match &self.comp {
            Some(comp) => Some(comp_groups_exec(comp, mst)),
            None => None,
        };
        let expect_result = match self.result {
            Some(c) => c.to_kc3rd_combat_result(),
            None => KcSortieResult::Any,
        };
        let mut out: Vec<Kc3rdQuestCondition> = Vec::new();
        out.push(
            Kc3rdQuestCondition::Excercise(
                Kc3rdQuestConditionExcerise { times, expect_result, expire_next_day, groups },
            ),
        );
        assert(condition_views(out@) =~= seq![exercise_condition_of(*self, *mst)]);
        out
    }
}

/// The ship a ban entry names: by class when it names a class, else by id,
/// when the master data knows every id it lists.
pub open spec fn banned_ship_of(b: CompBanned, mst: ShipMasterIds) -> Option<ShipCondView> {
    match b.class_id {
        Some(c) => master_selector(c, mst.ship_classes@, 1),
        None => match b.ship_id {
            Some(s) => master_selector(s, mst.ships@, 0),
            None => None,
        },
    }
}

pub open spec fn banned_ships_of(bs: Seq<CompBanned>, mst: ShipMasterIds) -> Seq<ShipCondView>
    decreases bs.len(),
{
    if bs.len() == 0 {
        Seq::empty()
    } else {
        let prev = banned_ships_of(bs.drop_last(), mst);
        match banned_ship_of(bs.last(), mst) {
            Some(s) => prev.push(s),
            None => prev,
        }
    }
}

/// The ship kind a disallowed entry adds to the bans.
pub open spec fn disallowed_ship_of(d: Option<Disallowed>) -> Option<ShipCondView> {
    match d {
        Some(Disallowed::Aviation) => Some(ShipCondView::Aviation),
        Some(Disallowed::Carriers) => Some(ShipCondView::Carrier),
        _ => None,
    }
}

/// The fleet a requirement asks for, when it names a composition: its
/// known slots, its bans (when it has a ban list: the known banned ships,
/// then the disallowed kind), and its fleet number (0 by default).
pub open spec fn fleet_of(r: Requirements, mst: ShipMasterIds) -> Option<CompositionView> {
    match r.comp {
        None => None,
        Some(cs) => Some(
            (
                comp_groups_of(cs@, mst),
                match r.comp_banned {
                    Some(bs) => Some(
                        match disallowed_ship_of(r.disallowed) {
                            Some(s) => banned_ships_of(bs@, mst).push(s),
                            None => banned_ships_of(bs@, mst),
                        },
                    ),
                    None => None,
                },
                match r.fleet_id {
                    Some(f) => f,
                    None => 0,
                },
            ),
        ),
    }
}

/// A sortie requirement: its fleet, when it names one, then one sortie
/// condition for each of its sorties.
pub open spec fn sortie_conditions_of(r: Requirements, ss: Seq<Sortie>, mst: ShipMasterIds) -> Seq<ConditionView> {
    let head = match fleet_of(r, mst) {
        Some(f) => seq![ConditionView::Composition(f)],
        None => Seq::empty(),
    };
    head + ss.map_values(|s: Sortie| ConditionView::Sortie(sortie_view(s)))
}

/// The reason a sortie requirement without sorties is refused.
pub open spec fn sortie_without_sorties() -> Seq<char> {
    "sortie requirement must have a 'sortie' field"@
}

fn comp_groups_exec(comp: &Vec<RequirementsComp>, mst: &ShipMasterIds) -> (gs: Vec<Kc3rdQuestConditionShipGroup>)
    requires
        forall|i: int| 0 <= i < comp@.len() ==> ((#[trigger] comp@[i]).lv matches Some(v) ==> v@.len() > 0),
    ensures
        group_views(gs@) == comp_groups_of(comp@, *mst),
{
    let mut gs: Vec<Kc3rdQuestConditionShipGroup> = Vec::new();
    let mut i: usize = 0;
    while i < comp.len()
        invariant
            i <= comp@.len(),
            forall|k: int| 0 <= k < comp@.len() ==> ((#[trigger] comp@[k]).lv matches Some(v) ==> v@.len() > 0),
            group_views(gs@) == comp_groups_of(comp@.take(i as int), *mst),
        decreases comp@.len() - i,
    {
        assert(comp@.take(i as int + 1).drop_last() =~= comp@.take(i as int));
        assert(comp@.take(i as int + 1).last() == comp@[i as int]);
        assert(comp@[i as int].lv matches Some(v) ==> v@.len() > 0);
        match comp[i].to_kc3rd_ship_group(mst) {
            Some(g) => {
                let ghost before = gs@;
                gs.push(g);
                assert(group_views(gs@) =~= group_views(before).push(g@));
            },
            None => {},
        }
        i += 1;
    }
    assert(comp@.take(comp@.len() as int) =~= comp@);
    gs
}

impl Requirements {
    /// The fleet the requirement asks for, when it names a composition.
    pub fn extract_fleet(&self, mst: &ShipMasterIds) -> (r: Option<Kc3rdQuestConditionComposition>)
        requires
            comp_levels_listed(*self),
        ensures
            match r {
                Some(c) => fleet_of(*self, *mst) == Some(composition_view(c)),
                None => fleet_of(*self, *mst) is None,
            },
    {
        let fleet_id = match self.fleet_id {
            Some(f) => f,
            None => 0,
        };
        let groups = match &self.comp {
            Some(comp) => comp_groups_exec(comp, mst),
            None => {
                return None;
            },
        };
        let disallowed = match &self.comp_banned {
            Some(bans) => {
                let mut banned: Vec<Kc3rdQuestConditionShip> = Vec::new();
                let mut i: usize = 0;
                while i < bans.len()
                    invariant
                        i <= bans@.len(),
                        banned@.map_values(|s: Kc3rdQuestConditionShip| s@) == banned_ships_of(
                            bans@.take(i as int),
                            *mst,
                        ),
                    decreases bans@.len() - i,
                {
                    assert(bans@.take(i as int + 1).drop_last() =~= bans@.take(i as int));
                    assert(bans@.take(i as int + 1).last() == bans@[i as int]);
                    let ban = &bans[i];
                    let ship = match &ban.class_id {
                        Some(c) => c.to_kc3rd_ship_class(mst),
                        None => match &ban.ship_id {
                            Some(s) => s.to_kc3rd_ship_ids(mst),
                            None => None,
                        },
                    };
                    match ship {
                        Some(s) => {
                            let ghost before = banned@;
                            banned.push(s);
                            assert(banned@.map_values(|x: Kc3rdQuestConditionShip| x@) =~= before.map_values(
                                |x: Kc3rdQuestConditionShip| x@,
                            ).push(s@));
                        },
                        None => {},
                    }
                    i += 1;
                }
                assert(bans@.take(bans@.len() as int) =~= bans@);
                let extra = match self.disallowed {
                    Some(Disallowed::Aviation) => Some(Kc3rdQuestConditionShip::Aviation),
                    Some(Disallowed::Carriers) => Some(Kc3rdQuestConditionShip::Carrier),
                    _ => None,
                };
                match extra {
                    Some(s) => {
                        let ghost before = banned@;
                        banned.push(s);
                        assert(banned@.map_values(|x: Kc3rdQuestConditionShip| x@) =~= before.map_values(
                            |x: Kc3rdQuestConditionShip| x@,
                        ).push(s@));
                    },
                    None => {},
                }
                Some(banned)
            },
            None => None,
        };
        Some(Kc3rdQuestConditionComposition { groups, disallowed, fleet_id })
    }

    /// A sortie requirement's conditions: its fleet, then its sorties. A
    /// requirement without a sortie list is refused.
    pub fn extract_requirements_sortie(&self, mst: &ShipMasterIds) -> (r: Result<Vec<Kc3rdQuestCondition>, ParseError>)
        requires
            comp_levels_listed(*self),
        ensures
            match r {
                Ok(cs) => self.sortie matches Some(ss) && condition_views(cs@) == sortie_conditions_of(*self, ss@, *mst),
                Err(e) => self.sortie is None && e@ == ParseErrorView::Generic(sortie_without_sorties()),
            },
    {
        let mut result: Vec<Kc3rdQuestCondition> = Vec::new();
        match self.extract_fleet(mst) {
            Some(f) => {
                result.push(Kc3rdQuestCondition::Composition(f));
            },
            None => {},
        }
        let ghost head = condition_views(result@);
        let sorties = match &self.sortie {
            Some(s) => s,
            None => {
                return Err(ParseError::Generic("sortie requirement must have a 'sortie' field".to_owned()));
            },
        };
        let mut i: usize = 0;
        while i < sorties.len()
            invariant
                i <= sorties@.len(),
                condition_views(result@) == head + sorties@.take(i as int).map_values(
                    |s: Sortie| ConditionView::Sortie(sortie_view(s)),
                ),
            decreases sorties@.len() - i,
        {
            let s = sorties[i].to_kc3rd_sortie();
            let ghost before = result@;
            result.push(Kc3rdQuestCondition::Sortie(s));
            assert(condition_views(result@) =~= condition_views(before).push(
                ConditionView::Sortie(sortie_view(sorties@[i as int])),
            ));
            assert(sorties@.take(i as int + 1).map_values(|s: Sortie| ConditionView::Sortie(sortie_view(s)))
                =~= sorties@.take(i as int).map_values(|s: Sortie| ConditionView::Sortie(sortie_view(s))).push(
                ConditionView::Sortie(sortie_view(sorties@[i as int])),
            ));
            i += 1;
        }
        assert(sorties@.take(sorties@.len() as int) =~= sorties@);
        proof {
            assert(head == match fleet_of(*self, *mst) {
                Some(f) => seq![ConditionView::Composition(f)],
                None => Seq::<ConditionView>::empty(),
            });
        }
        Ok(result)
    }
}

/// A sink requirement: its group's ships, sunk `amount` times (once by
/// default); none when it names no group or a group that is not known.
pub open spec fn sink_conditions_of(r: Requirements) -> Seq<ConditionView> {
    match r.group_id {
        None => Seq::empty(),
        Some(g) => match ship_group_of(g) {
            None => Seq::empty(),
            Some(ship) => seq![
                ConditionView::Sink(
                    ship,
                    match r.amount {
                        Some(a) => a,
                        None => 1,
                    },
                ),
            ],
        },
    }
}

/// A fleet requirement: its fleet, or nothing when it names no composition.
pub open spec fn fleet_conditions_of(r: Requirements, mst: ShipMasterIds) -> Seq<ConditionView> {
    match fleet_of(r, mst) {
        Some(f) => seq![ConditionView::Composition(f)],
        None => Seq::empty(),
    }
}

impl Requirements {
    pub fn extract_requirements_sink(&self) -> (r: Vec<Kc3rdQuestCondition>)
        ensures
            condition_views(r@) == sink_conditions_of(*self),
    {
        let mut out: Vec<Kc3rdQuestCondition> = Vec::new();
        let group_id = match self.group_id {
            Some(g) => g,
            None => {
                assert(condition_views(out@) =~= Seq::<ConditionView>::empty());
                return out;
            },
        };
        let ship = match ClassId::find_ship_group(group_id) {
            Some(s) => s,
            None => {
                assert(condition_views(out@) =~= Seq::<ConditionView>::empty());
                return out;
            },
        };
        let amount = match self.amount {
            Some(a) => a,
            None => 1,
        };
        out.push(Kc3rdQuestCondition::Sink(ship, amount));
        assert(condition_views(out@) =~= sink_conditions_of(*self));
        out
    }

    pub fn extract_requirements_fleet(&self, mst: &ShipMasterIds) -> (r: Vec<Kc3rdQuestCondition>)
        requires
            comp_levels_listed(*self),
        ensures
            condition_views(r@) == fleet_conditions_of(*self, *mst),
    {
        let mut out: Vec<Kc3rdQuestCondition> = Vec::new();
        match self.extract_fleet(mst) {
            Some(c) => {
                out.push(Kc3rdQuestCondition::Composition(c));
            },
            None => {},
        }
        assert(condition_views(out@) =~= fleet_conditions_of(*self, *mst));
        out
    }
}

} // verus!
