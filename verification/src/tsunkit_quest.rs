//! The tsunkit quest database's ship selectors and sortie conditions, read
//! into the quest model: which ships a composition asks for, how many, and
//! which maps a sortie quest sends the fleet to.
use vstd::prelude::*;

use crate::text::{chars_of, has_at, copy_range, drop_lead, find_from, in_set, index_from, lemma_index_from_first, parse_i64, parse_i64_chars, trim_start_set};

verus! {

// ---------------------------------------------------------------------------
// The database's records
// ---------------------------------------------------------------------------

/// An id, or a list of them.
#[derive(Debug, Clone, PartialEq)]
pub enum ClassId {
    Integer(i64),
    IntegerArray(Vec<i64>),
}

/// A map name, or a list of them.
#[derive(Debug, Clone, PartialEq)]
pub enum Id {
    String(String),
    StringArray(Vec<String>),
}

#[derive(Debug, Clone, Copy, PartialEq, Eq, Structural)]
pub enum CombatResult {
    A,
    B,
    C,
    Clear,
    S,
}

#[derive(Debug, Clone, Copy, PartialEq, Eq, Structural)]
pub enum Node {
    N,
    O,
    P,
}

/// The ship groups whose members a composition accepts besides its own.
#[derive(Debug, Clone, PartialEq)]
pub struct Criteria {
    pub group_id: Vec<i64>,
}

/// One ship slot of a composition requirement.
#[derive(Debug, Clone, PartialEq)]
pub struct RequirementsComp {
    pub otherships: Option<bool>,
    pub amount: Option<ClassId>,
    pub class_id: Option<ClassId>,
    pub position: Option<i64>,
    pub ship_id: Option<ClassId>,
    pub group_id: Option<ClassId>,
    pub lv: Option<Vec<i64>>,
    pub family_id: Option<ClassId>,
    pub criteria: Option<Criteria>,
    pub ship: Option<Vec<String>>,
    pub ship_en: Option<Vec<String>>,
    pub class: Option<String>,
    pub class_en: Option<String>,
}

/// One sortie requirement.
#[derive(Debug, Clone, PartialEq)]
pub struct Sortie {
    pub map: Option<Id>,
    pub boss: Option<bool>,
    pub result: Option<CombatResult>,
    pub times: Option<i64>,
    pub node: Option<Node>,
    pub any: Option<bool>,
}

/// The ids of the ships, ship classes and ship types the master data has.
#[derive(Debug, Clone)]
pub struct ShipMasterIds {
    pub ships: Vec<i64>,
    pub ship_classes: Vec<i64>,
    pub ship_types: Vec<i64>,
}

// ---------------------------------------------------------------------------
// The quest model
// ---------------------------------------------------------------------------

#[derive(Debug, Clone, Copy, PartialEq, Eq, Structural)]
pub enum Kc3rdQuestShipNavy {
    USN,
    RN,
    RNN,
    RAN,
}

/// The ships a composition slot accepts.
#[derive(Debug, Clone, PartialEq)]
pub enum Kc3rdQuestConditionShip {
    Any,
    Ship(i64),
    Ships(Vec<i64>),
    ShipClass(i64),
    ShipClasses(Vec<i64>),
    ShipType(i64),
    ShipTypes(Vec<i64>),
    HighSpeed,
    Navy(Kc3rdQuestShipNavy),
    Navies(Vec<Kc3rdQuestShipNavy>),
    /// Any aviation ship.
    Aviation,
    /// Any carrier.
    Carrier,
}

pub enum ShipCondView {
    Any,
    Ship(i64),
    Ships(Seq<i64>),
    ShipClass(i64),
    ShipClasses(Seq<i64>),
    ShipType(i64),
    ShipTypes(Seq<i64>),
    HighSpeed,
    Navy(Kc3rdQuestShipNavy),
    Navies(Seq<Kc3rdQuestShipNavy>),
    Aviation,
    Carrier,
}

impl View for Kc3rdQuestConditionShip {
    type V = ShipCondView;

    open spec fn view(&self) -> ShipCondView {
        match self {
            Kc3rdQuestConditionShip::Any => ShipCondView::Any,
            Kc3rdQuestConditionShip::Ship(i) => ShipCondView::Ship(*i),
            Kc3rdQuestConditionShip::Ships(v) => ShipCondView::Ships(v@),
            Kc3rdQuestConditionShip::ShipClass(i) => ShipCondView::ShipClass(*i),
            Kc3rdQuestConditionShip::ShipClasses(v) => ShipCondView::ShipClasses(v@),
            Kc3rdQuestConditionShip::ShipType(i) => ShipCondView::ShipType(*i),
            Kc3rdQuestConditionShip::ShipTypes(v) => ShipCondView::ShipTypes(v@),
            Kc3rdQuestConditionShip::HighSpeed => ShipCondView::HighSpeed,
            Kc3rdQuestConditionShip::Navy(n) => ShipCondView::Navy(*n),
            Kc3rdQuestConditionShip::Navies(v) => ShipCondView::Navies(v@),
            Kc3rdQuestConditionShip::Aviation => ShipCondView::Aviation,
            Kc3rdQuestConditionShip::Carrier => ShipCondView::Carrier,
        }
    }
}

#[derive(Debug, Clone, Copy, PartialEq, Eq, Structural)]
pub enum Kc3rdQuestShipAmount {
    Exactly(i64),
    Range(i64, i64),
}

/// One ship slot of a composition condition.
#[derive(Debug, Clone, PartialEq)]
pub struct Kc3rdQuestConditionShipGroup {
    pub ship: Kc3rdQuestConditionShip,
    pub amount: Kc3rdQuestShipAmount,
    pub lv: i64,
    pub position: i64,
    pub white_list: Option<Vec<i64>>,
}

pub struct ShipGroupView {
    pub ship: ShipCondView,
    pub amount: Kc3rdQuestShipAmount,
    pub lv: i64,
    pub position: i64,
    pub white_list: Option<Seq<i64>>,
}

impl View for Kc3rdQuestConditionShipGroup {
    type V = ShipGroupView;

    open spec fn view(&self) -> ShipGroupView {
        ShipGroupView {
            ship: self.ship@,
            amount: self.amount,
            lv: self.lv,
            position: self.position,
            white_list: match self.white_list {
                Some(v) => Some(v@),
                None => None,
            },
        }
    }
}

#[derive(Debug, Clone, Copy, PartialEq, Eq, Structural)]
pub enum KcSortieResultRank {
    S,
    A,
    B,
    C,
}

#[derive(Debug, Clone, Copy, PartialEq, Eq, Structural)]
pub enum KcSortieResult {
    /// Any result counts.
    Any,
    Clear,
    Ranked(KcSortieResultRank),
}

/// A map by area and number, with the event phase where one is named.
#[derive(Debug, Clone, Copy, PartialEq, Eq, Structural)]
pub struct Kc3rdQuestConditionMapInfo {
    pub area: i64,
    pub number: i64,
    pub phase: Option<i64>,
}

#[derive(Debug, Clone, PartialEq)]
pub enum Kc3rdQuestConditionSortieMap {
    One(Kc3rdQuestConditionMapInfo),
    AnyOf(Vec<Kc3rdQuestConditionMapInfo>),
    All(Vec<Kc3rdQuestConditionMapInfo>),
}

pub enum SortieMapView {
    One(Kc3rdQuestConditionMapInfo),
    AnyOf(Seq<Kc3rdQuestConditionMapInfo>),
    All(Seq<Kc3rdQuestConditionMapInfo>),
}

impl View for Kc3rdQuestConditionSortieMap {
    type V = SortieMapView;

    open spec fn view(&self) -> SortieMapView {
        match self {
            Kc3rdQuestConditionSortieMap::One(m) => SortieMapView::One(*m),
            Kc3rdQuestConditionSortieMap::AnyOf(v) => SortieMapView::AnyOf(v@),
            Kc3rdQuestConditionSortieMap::All(v) => SortieMapView::All(v@),
        }
    }
}

/// A sortie condition. The fleet composition it may also ask for is not set
/// by this reading and is not modelled here.
#[derive(Debug, Clone, PartialEq)]
pub struct Kc3rdQuestConditionSortie {
    pub defeat_boss: bool,
    pub fleet_id: i64,
    pub map: Option<Kc3rdQuestConditionSortieMap>,
    pub result: Option<KcSortieResult>,
    pub times: i64,
}

pub struct SortieView {
    pub defeat_boss: bool,
    pub fleet_id: i64,
    pub map: Option<SortieMapView>,
    pub result: Option<KcSortieResult>,
    pub times: i64,
}

impl View for Kc3rdQuestConditionSortie {
    type V = SortieView;

    open spec fn view(&self) -> SortieView {
        SortieView {
            defeat_boss: self.defeat_boss,
            fleet_id: self.fleet_id,
            map: match self.map {
                Some(m) => Some(m@),
                None => None,
            },
            result: self.result,
            times: self.times,
        }
    }
}

// ---------------------------------------------------------------------------
// Ship selectors
// ---------------------------------------------------------------------------

/// The navy a group id stands for.
pub open spec fn navy_of(id: i64) -> Option<Kc3rdQuestShipNavy> {
    if id == 4001 {
        Some(Kc3rdQuestShipNavy::USN)
    } else if id == 4002 {
        Some(Kc3rdQuestShipNavy::RN)
    } else if id == 4004 {
        Some(Kc3rdQuestShipNavy::RNN)
    } else if id == 4005 {
        Some(Kc3rdQuestShipNavy::RAN)
    } else {
        None
    }
}

/// What one group id selects: a ship type (5001 to 5999, less 5000), fast
/// ships (1100), or a navy.
pub open spec fn ship_group_of(id: i64) -> Option<ShipCondView> {
    if 5000 < id < 6000 {
        Some(ShipCondView::ShipType((id - 5000) as i64))
    } else if id == 1100 {
        Some(ShipCondView::HighSpeed)
    } else {
        match navy_of(id) {
            Some(n) => Some(ShipCondView::Navy(n)),
            None => None,
        }
    }
}

/// The navies among the group ids, in order.
pub open spec fn navies_of(ids: Seq<i64>) -> Seq<Kc3rdQuestShipNavy>
    decreases ids.len(),
{
    if ids.len() == 0 {
        Seq::empty()
    } else {
        match navy_of(ids.last()) {
            Some(n) => navies_of(ids.drop_last()).push(n),
            None => navies_of(ids.drop_last()),
        }
    }
}

/// What a list of group ids selects: ship types when all are type groups,
/// fast ships when all lie in 1001 to 1999, else the navies named, if any.
pub open spec fn ship_groups_of(ids: Seq<i64>) -> Option<ShipCondView> {
    if forall|k: int| 0 <= k < ids.len() ==> 5000 < #[trigger] ids[k] < 6000 {
        Some(ShipCondView::ShipTypes(ids.map_values(|x: i64| (x - 5000) as i64)))
    } else if forall|k: int| 0 <= k < ids.len() ==> 1000 < #[trigger] ids[k] < 2000 {
        Some(ShipCondView::HighSpeed)
    } else if navies_of(ids).len() == 0 {
        None
    } else {
        Some(ShipCondView::Navies(navies_of(ids)))
    }
}

/// Every listed id is a known one.
pub open spec fn all_in(ids: Seq<i64>, known: Seq<i64>) -> bool {
    forall|k: int| 0 <= k < ids.len() ==> known.contains(#[trigger] ids[k])
}

pub open spec fn class_id_ids(c: ClassId) -> Seq<i64> {
    match c {
        ClassId::Integer(i) => seq![i],
        ClassId::IntegerArray(v) => v@,
    }
}

/// The selector as named ships, ship classes or ship types (`kind` 0, 1, 2),
/// when the master data has every id it lists.
pub open spec fn master_selector(c: ClassId, known: Seq<i64>, kind: int) -> Option<ShipCondView> {
    if !all_in(class_id_ids(c), known) {
        None
    } else {
        match c {
            ClassId::Integer(i) => Some(
                if kind == 0 {
                    ShipCondView::Ship(i)
                } else if kind == 1 {
                    ShipCondView::ShipClass(i)
                } else {
                    ShipCondView::ShipType(i)
                },
            ),
            ClassId::IntegerArray(v) => Some(
                if kind == 0 {
                    ShipCondView::Ships(v@)
                } else if kind == 1 {
                    ShipCondView::ShipClasses(v@)
                } else {
                    ShipCondView::ShipTypes(v@)
                },
            ),
        }
    }
}

pub open spec fn opt_view(r: Option<Kc3rdQuestConditionShip>) -> Option<ShipCondView> {
    match r {
        Some(s) => Some(s@),
        None => None,
    }
}

/// How many ships: the count, or the first count of a list (1 for an empty
/// one), or the range its first two give.
pub open spec fn amount_of(c: ClassId) -> Kc3rdQuestShipAmount {
    match c {
        ClassId::Integer(i) => Kc3rdQuestShipAmount::Exactly(i),
        ClassId::IntegerArray(v) => if v@.len() == 0 {
            Kc3rdQuestShipAmount::Exactly(1)
        } else if v@.len() == 1 {
            Kc3rdQuestShipAmount::Exactly(v@[0])
        } else {
            Kc3rdQuestShipAmount::Range(v@[0], v@[1])
        },
    }
}

fn contains_id(ids: &[i64], x: i64) -> (b: bool)
    ensures
        b == ids@.contains(x),
{
    let mut i: usize = 0;
    while i < ids.len()
        invariant
            i <= ids@.len(),
            forall|k: int| 0 <= k < i ==> ids@[k] != x,
        decreases ids@.len() - i,
    {
        if ids[i] == x {
            assert(ids@[i as int] == x);
            return true;
        }
        i += 1;
    }
    false
}

fn all_known(ids: &[i64], known: &Vec<i64>) -> (b: bool)
    ensures
        b == all_in(ids@, known@),
{
    let mut i: usize = 0;
    while i < ids.len()
        invariant
            i <= ids@.len(),
            forall|k: int| 0 <= k < i ==> known@.contains(#[trigger] ids@[k]),
        decreases ids@.len() - i,
    {
        if !contains_id(known.as_slice(), ids[i]) {
            return false;
        }
        i += 1;
    }
    true
}

fn navy_exec(id: i64) -> (r: Option<Kc3rdQuestShipNavy>)
    ensures
        r == navy_of(id),
{
    if id == 4001 {
        Some(Kc3rdQuestShipNavy::USN)
    } else if id == 4002 {
        Some(Kc3rdQuestShipNavy::RN)
    } else if id == 4004 {
        Some(Kc3rdQuestShipNavy::RNN)
    } else if id == 4005 {
        Some(Kc3rdQuestShipNavy::RAN)
    } else {
        None
    }
}

impl ClassId {
    fn all_known_in(&self, known: &Vec<i64>) -> (b: bool)
        ensures
            b == all_in(class_id_ids(*self), known@),
    {
        match self {
            ClassId::Integer(i) => {
                let b = contains_id(known.as_slice(), *i);
                assert(class_id_ids(*self)[0] == *i);
                b
            },
            ClassId::IntegerArray(v) => all_known(v.as_slice(), known),
        }
    }

    /// The ships it names, when the master data has all of them.
    pub fn to_kc3rd_ship_ids(&self, mst: &ShipMasterIds) -> (r: Option<Kc3rdQuestConditionShip>)
        ensures
            opt_view(r) == master_selector(*self, mst.ships@, 0),
    {
        if !self.all_known_in(&mst.ships) {
            return None;
        }
        match self {
            ClassId::Integer(id) => Some(Kc3rdQuestConditionShip::Ship(*id)),
            ClassId::IntegerArray(ids) => Some(Kc3rdQuestConditionShip::Ships(ids.clone())),
        }
    }

    /// The ship classes it names, when the master data has all of them.
    pub fn to_kc3rd_ship_class(&self, mst: &ShipMasterIds) -> (r: Option<Kc3rdQuestConditionShip>)
        ensures
            opt_view(r) == master_selector(*self, mst.ship_classes@, 1),
    {
        if !self.all_known_in(&mst.ship_classes) {
            return None;
        }
        match self {
            ClassId::Integer(id) => Some(Kc3rdQuestConditionShip::ShipClass(*id)),
            ClassId::IntegerArray(ids) => Some(Kc3rdQuestConditionShip::ShipClasses(ids.clone())),
        }
    }

    /// The ship types it names, when the master data has all of them.
    pub fn to_kc3rd_ship_types(&self, mst: &ShipMasterIds) -> (r: Option<Kc3rdQuestConditionShip>)
        ensures
            opt_view(r) == master_selector(*self, mst.ship_types@, 2),
    {
        if !self.all_known_in(&mst.ship_types) {
            return None;
        }
        match self {
            ClassId::Integer(id) => Some(Kc3rdQuestConditionShip::ShipType(*id)),
            ClassId::IntegerArray(ids) => Some(Kc3rdQuestConditionShip::ShipTypes(ids.clone())),
        }
    }

    /// What one group id selects.
    pub fn find_ship_group(id: i64) -> (r: Option<Kc3rdQuestConditionShip>)
        ensures
            opt_view(r) == ship_group_of(id),
    {
        if id > 5000 && id < 6000 {
            return Some(Kc3rdQuestConditionShip::ShipType(id - 5000));
        }
        if id == 1100 {
            return Some(Kc3rdQuestConditionShip::HighSpeed);
        }
        match navy_exec(id) {
            Some(n) => Some(Kc3rdQuestConditionShip::Navy(n)),
            None => None,
        }
    }

    /// What a list of group ids selects.
    pub fn find_ship_groups(ids: &[i64]) -> (r: Option<Kc3rdQuestConditionShip>)
        ensures
            opt_view(r) == ship_groups_of(ids@),
    {
        let mut types: Vec<i64> = Vec::new();
        let mut all_types = true;
        let mut all_fast = true;
        let mut navies: Vec<Kc3rdQuestShipNavy> = Vec::new();
        let mut i: usize = 0;
        while i < ids.len()
            invariant
                i <= ids@.len(),
                all_types == forall|k: int| 0 <= k < i ==> 5000 < #[trigger] ids@[k] < 6000,
                all_fast == forall|k: int| 0 <= k < i ==> 1000 < #[trigger] ids@[k] < 2000,
                all_types ==> types@ == ids@.take(i as int).map_values(|x: i64| (x - 5000) as i64),
                navies@ == navies_of(ids@.take(i as int)),
            decreases ids@.len() - i,
        {
            let x = ids[i];
            assert(ids@.take(i as int + 1).drop_last() =~= ids@.take(i as int));
            assert(ids@.take(i as int + 1).last() == x);
            if all_types {
                if x > 5000 && x < 6000 {
                    types.push(x - 5000);
                    assert(types@ =~= ids@.take(i as int + 1).map_values(|x: i64| (x - 5000) as i64));
                } else {
                    all_types = false;
                }
            }
            if !(x > 1000 && x < 2000) {
                all_fast = false;
            }
            match navy_exec(x) {
                Some(n) => navies.push(n),
                None => {},
            }
            i += 1;
        }
        assert(ids@.take(ids@.len() as int) =~= ids@);
        if all_types {
            Some(Kc3rdQuestConditionShip::ShipTypes(types))
        } else if all_fast {
            Some(Kc3rdQuestConditionShip::HighSpeed)
        } else if navies.len() == 0 {
            None
        } else {
            Some(Kc3rdQuestConditionShip::Navies(navies))
        }
    }

    /// What the group id, or list of them, selects.
    pub fn to_kc3rd_ship_group_ships(&self) -> (r: Option<Kc3rdQuestConditionShip>)
        ensures
            opt_view(r) == match *self {
                ClassId::Integer(id) => ship_group_of(id),
                ClassId::IntegerArray(ids) => ship_groups_of(ids@),
            },
    {
        match self {
            ClassId::Integer(id) => Self::find_ship_group(*id),
            ClassId::IntegerArray(ids) => Self::find_ship_groups(ids.as_slice()),
        }
    }

    /// How many ships it asks for.
    pub fn to_kc3rd_amount(&self) -> (r: Kc3rdQuestShipAmount)
        ensures
            r == amount_of(*self),
    {
        match self {
            ClassId::Integer(id) => Kc3rdQuestShipAmount::Exactly(*id),
            ClassId::IntegerArray(ids) => {
                if ids.len() == 0 {
                    Kc3rdQuestShipAmount::Exactly(1)
                } else if ids.len() == 1 {
                    Kc3rdQuestShipAmount::Exactly(ids[0])
                } else {
                    Kc3rdQuestShipAmount::Range(ids[0], ids[1])
                }
            },
        }
    }
}

/// The ships a composition slot accepts: by ship, by ship type, by ship
/// class or by group, in that order of precedence; `None` when the selector
/// it has names what the master data lacks; any ship when it has none.
pub open spec fn slot_ship_of(comp: RequirementsComp, mst: ShipMasterIds) -> Option<ShipCondView> {
    match comp.ship_id {
        Some(c) => master_selector(c, mst.ships@, 0),
        None => match comp.class_id {
            Some(c) => master_selector(c, mst.ship_types@, 2),
            None => match comp.family_id {
                Some(c) => master_selector(c, mst.ship_classes@, 1),
                None => match comp.group_id {
                    Some(ClassId::Integer(id)) => ship_group_of(id),
                    Some(ClassId::IntegerArray(ids)) => ship_groups_of(ids@),
                    None => Some(ShipCondView::Any),
                },
            },
        },
    }
}

/// The composition slot: its ships, count (one by default), level (the
/// first listed, else 0), position (0 by default), and, when it names
/// criteria, a white list. No group id stands for named ships, so that
/// list is always empty.
pub open spec fn ship_group_view(comp: RequirementsComp, mst: ShipMasterIds) -> Option<ShipGroupView> {
    match slot_ship_of(comp, mst) {
        None => None,
        Some(ship) => Some(
            ShipGroupView {
                ship,
                amount: match comp.amount {
                    Some(a) => amount_of(a),
                    None => Kc3rdQuestShipAmount::Exactly(1),
                },
                lv: match comp.lv {
                    Some(v) => v@[0],
                    None => 0,
                },
                position: match comp.position {
                    Some(p) => p,
                    None => 0,
                },
                white_list: match comp.criteria {
                    Some(_) => Some(Seq::empty()),
                    None => None,
                },
            },
        ),
    }
}

impl RequirementsComp {
    pub fn to_kc3rd_ship_group(&self, mst: &ShipMasterIds) -> (r: Option<Kc3rdQuestConditionShipGroup>)
        requires
            self.lv matches Some(v) ==> v@.len() > 0,
        ensures
            match r {
                Some(g) => ship_group_view(*self, *mst) == Some(g@),
                None => ship_group_view(*self, *mst) is None,
            },
    {
        let position = match self.position {
            Some(p) => p,
            None => 0,
        };
        let lv = match &self.lv {
            Some(lv) => lv[0],
            None => 0,
        };
        let ship = match &self.ship_id {
            Some(ship_id) => match ship_id.to_kc3rd_ship_ids(mst) {
                Some(s) => s,
                None => return None,
            },
            None => match &self.class_id {
                Some(class_id) => match class_id.to_kc3rd_ship_types(mst) {
                    Some(s) => s,
                    None => return None,
                },
                None => match &self.family_id {
                    Some(family_id) => match family_id.to_kc3rd_ship_class(mst) {
                        Some(s) => s,
                        None => return None,
                    },
                    None => match &self.group_id {
                        Some(group_id) => match group_id.to_kc3rd_ship_group_ships() {
                            Some(s) => s,
                            None => return None,
                        },
                        None => Kc3rdQuestConditionShip::Any,
                    },
                },
            },
        };
        let white_list = match &self.criteria {
            Some(criteria) => {
                let mut list: Vec<i64> = Vec::new();
                let mut i: usize = 0;
                while i < criteria.group_id.len()
                    invariant
                        i <= criteria.group_id@.len(),
                        list@.len() == 0,
                    decreases criteria.group_id@.len() - i,
                {
                    match ClassId::find_ship_group(criteria.group_id[i]) {
                        Some(Kc3rdQuestConditionShip::Ships(ids)) => {
                            let mut k: usize = 0;
                            while k < ids.len()
                                invariant
                                    k <= ids@.len(),
                                decreases ids@.len() - k,
                            {
                                list.push(ids[k]);
                                k += 1;
                            }
                        },
                        _ => {},
                    }
                    i += 1;
                }
                assert(list@ =~= Seq::<i64>::empty());
                Some(list)
            },
            None => None,
        };
        let amount = match &self.amount {
            Some(amt) => amt.to_kc3rd_amount(),
            None => Kc3rdQuestShipAmount::Exactly(1),
        };
        Some(Kc3rdQuestConditionShipGroup { ship, amount, lv, position, white_list })
    }
}

// ---------------------------------------------------------------------------
// Sorties
// ---------------------------------------------------------------------------

pub open spec fn combat_result_of(r: CombatResult) -> KcSortieResult {
    match r {
        CombatResult::Clear => KcSortieResult::Clear,
        CombatResult::S => KcSortieResult::Ranked(KcSortieResultRank::S),
        CombatResult::A => KcSortieResult::Ranked(KcSortieResultRank::A),
        CombatResult::B => KcSortieResult::Ranked(KcSortieResultRank::B),
        CombatResult::C => KcSortieResult::Ranked(KcSortieResultRank::C),
    }
}

impl CombatResult {
    pub fn to_kc3rd_combat_result(self) -> (r: KcSortieResult)
        ensures
            r == combat_result_of(self),
    {
        match self {
            CombatResult::Clear => KcSortieResult::Clear,
            CombatResult::S => KcSortieResult::Ranked(KcSortieResultRank::S),
            CombatResult::A => KcSortieResult::Ranked(KcSortieResultRank::A),
            CombatResult::B => KcSortieResult::Ranked(KcSortieResultRank::B),
            CombatResult::C => KcSortieResult::Ranked(KcSortieResultRank::C),
        }
    }
}

/// A map name `area-number` or `area-number-phase` (`splitn(3, '-')`): the
/// area and number must parse; the phase, with leading `P`s dropped, is kept
/// when it parses.
pub open spec fn map_info_of(name: Seq<char>) -> Option<Kc3rdQuestConditionMapInfo> {
    match index_from(name, seq!['-'], 0) {
        None => None,
        Some(i) => {
            let area = name.subrange(0, i);
            let rest = name.subrange(i + 1, name.len() as int);
            let (number, phase) = match index_from(rest, seq!['-'], 0) {
                Some(j) => (
                    rest.subrange(0, j),
                    parse_i64(drop_lead(rest.subrange(j + 1, rest.len() as int), in_set(seq!['P']))),
                ),
                None => (rest, None),
            };
            match (parse_i64(area), parse_i64(number)) {
                (Some(a), Some(n)) => Some(Kc3rdQuestConditionMapInfo { area: a, number: n, phase }),
                _ => None,
            }
        },
    }
}

/// The names that read as maps, in order.
pub open spec fn map_infos_of(names: Seq<Seq<char>>) -> Seq<Kc3rdQuestConditionMapInfo>
    decreases names.len(),
{
    if names.len() == 0 {
        Seq::empty()
    } else {
        match map_info_of(names.last()) {
            Some(m) => map_infos_of(names.drop_last()).push(m),
            None => map_infos_of(names.drop_last()),
        }
    }
}

pub open spec fn string_views(v: Seq<String>) -> Seq<Seq<char>> {
    v.map_values(|s: String| s@)
}

/// The maps of a sortie: one map; or, of a list, none when no name reads,
/// the one that does, or any or all of them as the record's `any` says.
pub open spec fn sortie_map_of(s: Sortie) -> Option<SortieMapView> {
    match s.map {
        None => None,
        Some(Id::String(id)) => match map_info_of(id@) {
            Some(m) => Some(SortieMapView::One(m)),
            None => None,
        },
        Some(Id::StringArray(ids)) => {
            let maps = map_infos_of(string_views(ids@));
            if maps.len() == 0 {
                None
            } else if maps.len() == 1 {
                Some(SortieMapView::One(maps[0]))
            } else if s.any == Some(true) {
                Some(SortieMapView::AnyOf(maps))
            } else {
                Some(SortieMapView::All(maps))
            }
        },
    }
}

/// The sortie condition: one time and no boss by default, the first fleet.
pub open spec fn sortie_view(s: Sortie) -> SortieView {
    SortieView {
        defeat_boss: s.boss == Some(true),
        fleet_id: 0,
        map: sortie_map_of(s),
        result: match s.result {
            Some(r) => Some(combat_result_of(r)),
            None => None,
        },
        times: match s.times {
            Some(t) => t,
            None => 1,
        },
    }
}

impl Sortie {
    pub fn parse_single_map_info(name: &str) -> (r: Option<Kc3rdQuestConditionMapInfo>)
        ensures
            r == map_info_of(name@),
    {
        let s = chars_of(name);
        let dash = ['-'];
        assert(dash@ == seq!['-']);
        let i = match find_from(s.as_slice(), dash.as_slice(), 0) {
            Some(i) => i,
            None => {
                proof {
                    lemma_index_from_first(s@, seq!['-'], 0, None);
                }
                return None;
            },
        };
        proof {
            lemma_index_from_first(s@, seq!['-'], 0, Some(i as int));
        }
        assert(has_at(s@, dash@, i as int));
        assert(s@.len() == s.len());
        let area = copy_range(s.as_slice(), 0, i);
        let rest = copy_range(s.as_slice(), i + 1, s.len());
        let (number, phase) = match find_from(rest.as_slice(), dash.as_slice(), 0) {
            Some(j) => {
                proof {
                    lemma_index_from_first(rest@, seq!['-'], 0, Some(j as int));
                }
                assert(has_at(rest@, dash@, j as int));
                let number = copy_range(rest.as_slice(), 0, j);
                let tail = copy_range(rest.as_slice(), j + 1, rest.len());
                let p = ['P'];
                assert(p@ == seq!['P']);
                let trimmed = trim_start_set(tail.as_slice(), p.as_slice());
                (number, parse_i64_chars(trimmed.as_slice()))
            },
            None => {
                proof {
                    lemma_index_from_first(rest@, seq!['-'], 0, None);
                }
                (rest, None)
            },
        };
        match (parse_i64_chars(area.as_slice()), parse_i64_chars(number.as_slice())) {
            (Some(a), Some(n)) => Some(Kc3rdQuestConditionMapInfo { area: a, number: n, phase }),
            _ => None,
        }
    }

    pub fn to_kc3rd_sortie(&self) -> (r: Kc3rdQuestConditionSortie)
        ensures
            r@ == sortie_view(*self),
    {
        let times = match self.times {
            Some(t) => t,
            None => 1,
        };
        let defeat_boss = match self.boss {
            Some(b) => b,
            None => false,
        };
        let result = match self.result {
            Some(r) => Some(r.to_kc3rd_combat_result()),
            None => None,
        };
        let map = match &self.map {
            None => None,
            Some(Id::String(id)) => match Self::parse_single_map_info(id.as_str()) {
                Some(m) => Some(Kc3rdQuestConditionSortieMap::One(m)),
                None => None,
            },
            Some(Id::StringArray(ids)) => {
                let ghost names = string_views(ids@);
                let mut maps: Vec<Kc3rdQuestConditionMapInfo> = Vec::new();
                let mut i: usize = 0;
                while i < ids.len()
                    invariant
                        i <= ids@.len(),
                        names == string_views(ids@),
                        maps@ == map_infos_of(names.take(i as int)),
                    decreases ids@.len() - i,
                {
                    assert(names.take(i as int + 1).drop_last() =~= names.take(i as int));
                    assert(names.take(i as int + 1).last() == ids@[i as int]@);
                    match Self::parse_single_map_info(ids[i].as_str()) {
                        Some(m) => maps.push(m),
                        None => {},
                    }
                    i += 1;
                }
                assert(names.take(ids@.len() as int) =~= names);
                if maps.len() == 0 {
                    None
                } else if maps.len() == 1 {
                    Some(Kc3rdQuestConditionSortieMap::One(maps[0]))
                } else if self.any == Some(true) {
                    Some(Kc3rdQuestConditionSortieMap::AnyOf(maps))
                } else {
                    Some(Kc3rdQuestConditionSortieMap::All(maps))
                }
            },
        };
        Kc3rdQuestConditionSortie { defeat_boss, fleet_id: 0, map, result, times }
    }
}


// ---------------------------------------------------------------------------
// Categories and periods
// ---------------------------------------------------------------------------

#[derive(Debug, Clone, Copy, PartialEq, Eq, Structural)]
pub enum TsunkitQuestCategory {
    Composition,
    Exercise,
    Expedition,
    Factory,
    Modernization,
    Sortie,
    Supply,
}

#[derive(Debug, Clone, Copy, PartialEq, Eq, Structural)]
pub enum Frequency {
    Annual,
    Daily,
    Event,
    Monthly,
    Onetime,
    Quarterly,
    Seasonal,
    Special1,
    Special2,
    Weekly,
}

/// A quest's category in the quest model.
#[derive(Debug, Clone, Copy, PartialEq, Eq, Structural)]
pub enum Kc3rdQuestCategory {
    Composition,
    Excercise,
    Expedition,
    Factory,
    Mordenization,
    Sortie,
    SupplyOrDocking,
}

/// How often a quest resets, in the quest model.
#[derive(Debug, Clone, Copy, PartialEq, Eq, Structural)]
pub enum Kc3rdQuestPeriod {
    Annual,
    Daily,
    Oneshot,
    Monthly,
    Quarterly,
    Daily3rd7th0th,
    Daily2nd8th,
    Weekly,
}

pub open spec fn category_of(value: TsunkitQuestCategory) -> Kc3rdQuestCategory {
    match value {
        TsunkitQuestCategory::Composition => Kc3rdQuestCategory::Composition,
        TsunkitQuestCategory::Exercise => Kc3rdQuestCategory::Excercise,
        TsunkitQuestCategory::Expedition => Kc3rdQuestCategory::Expedition,
        TsunkitQuestCategory::Factory => Kc3rdQuestCategory::Factory,
        TsunkitQuestCategory::Modernization => Kc3rdQuestCategory::Mordenization,
        TsunkitQuestCategory::Sortie => Kc3rdQuestCategory::Sortie,
        TsunkitQuestCategory::Supply => Kc3rdQuestCategory::SupplyOrDocking,
    }
}

/// Event, one-time and seasonal quests never reset; the two special
/// frequencies are the daily quests of particular days of the month.
pub open spec fn period_of(value: Frequency) -> Kc3rdQuestPeriod {
    match value {
        Frequency::Annual => Kc3rdQuestPeriod::Annual,
        Frequency::Daily => Kc3rdQuestPeriod::Daily,
        Frequency::Event | Frequency::Onetime | Frequency::Seasonal => Kc3rdQuestPeriod::Oneshot,
        Frequency::Monthly => Kc3rdQuestPeriod::Monthly,
        Frequency::Quarterly => Kc3rdQuestPeriod::Quarterly,
        Frequency::Special1 => Kc3rdQuestPeriod::Daily3rd7th0th,
        Frequency::Special2 => Kc3rdQuestPeriod::Daily2nd8th,
        Frequency::Weekly => Kc3rdQuestPeriod::Weekly,
    }
}

impl From<TsunkitQuestCategory> for Kc3rdQuestCategory {
    fn from(value: TsunkitQuestCategory) -> (r: Kc3rdQuestCategory) {
        match value {
            TsunkitQuestCategory::Composition => Kc3rdQuestCategory::Composition,
            TsunkitQuestCategory::Exercise => Kc3rdQuestCategory::Excercise,
            TsunkitQuestCategory::Expedition => Kc3rdQuestCategory::Expedition,
            TsunkitQuestCategory::Factory => Kc3rdQuestCategory::Factory,
            TsunkitQuestCategory::Modernization => Kc3rdQuestCategory::Mordenization,
            TsunkitQuestCategory::Sortie => Kc3rdQuestCategory::Sortie,
            TsunkitQuestCategory::Supply => Kc3rdQuestCategory::SupplyOrDocking,
        }
    }
}

impl vstd::std_specs::convert::FromSpecImpl<TsunkitQuestCategory> for Kc3rdQuestCategory {
    open spec fn obeys_from_spec() -> bool {
        true
    }

    open spec fn from_spec(value: TsunkitQuestCategory) -> Kc3rdQuestCategory {
        category_of(value)
    }
}

impl From<Frequency> for Kc3rdQuestPeriod {
    fn from(value: Frequency) -> (r: Kc3rdQuestPeriod) {
        match value {
            Frequency::Annual => Kc3rdQuestPeriod::Annual,
            Frequency::Daily => Kc3rdQuestPeriod::Daily,
            Frequency::Event | Frequency::Onetime | Frequency::Seasonal => Kc3rdQuestPeriod::Oneshot,
            Frequency::Monthly => Kc3rdQuestPeriod::Monthly,
            Frequency::Quarterly => Kc3rdQuestPeriod::Quarterly,
            Frequency::Special1 => Kc3rdQuestPeriod::Daily3rd7th0th,
            Frequency::Special2 => Kc3rdQuestPeriod::Daily2nd8th,
            Frequency::Weekly => Kc3rdQuestPeriod::Weekly,
        }
    }
}

impl vstd::std_specs::convert::FromSpecImpl<Frequency> for Kc3rdQuestPeriod {
    open spec fn obeys_from_spec() -> bool {
        true
    }

    open spec fn from_spec(value: Frequency) -> Kc3rdQuestPeriod {
        period_of(value)
    }
}

/// A quest keeps its reset frequency: a daily, weekly, monthly, quarterly or
/// annual quest resets with the period of the same name and no other
/// frequency does; quests that never reset (events, one-time and seasonal
/// quests) become one-shot quests; the two special frequencies are the
/// quests of the days ending in 3, 7 or 0 and of those ending in 2 or 8.
pub proof fn law_quests_keep_their_reset_frequency(f: Frequency)
    ensures
        (period_of(f) == Kc3rdQuestPeriod::Daily) <==> (f == Frequency::Daily),
        (period_of(f) == Kc3rdQuestPeriod::Weekly) <==> (f == Frequency::Weekly),
        (period_of(f) == Kc3rdQuestPeriod::Monthly) <==> (f == Frequency::Monthly),
        (period_of(f) == Kc3rdQuestPeriod::Quarterly) <==> (f == Frequency::Quarterly),
        (period_of(f) == Kc3rdQuestPeriod::Annual) <==> (f == Frequency::Annual),
        (period_of(f) == Kc3rdQuestPeriod::Oneshot) <==> (f == Frequency::Event || f == Frequency::Onetime
            || f == Frequency::Seasonal),
        (period_of(f) == Kc3rdQuestPeriod::Daily3rd7th0th) <==> (f == Frequency::Special1),
        (period_of(f) == Kc3rdQuestPeriod::Daily2nd8th) <==> (f == Frequency::Special2),
{
}

/// A quest keeps its category: each database category becomes the model's
/// category of the same kind, and no two categories become the same one.
pub proof fn law_quests_keep_their_category(c: TsunkitQuestCategory, d: TsunkitQuestCategory)
    ensures
        (category_of(c) == Kc3rdQuestCategory::Composition) <==> (c == TsunkitQuestCategory::Composition),
        (category_of(c) == Kc3rdQuestCategory::Excercise) <==> (c == TsunkitQuestCategory::Exercise),
        (category_of(c) == Kc3rdQuestCategory::Expedition) <==> (c == TsunkitQuestCategory::Expedition),
        (category_of(c) == Kc3rdQuestCategory::Factory) <==> (c == TsunkitQuestCategory::Factory),
        (category_of(c) == Kc3rdQuestCategory::Mordenization) <==> (c == TsunkitQuestCategory::Modernization),
        (category_of(c) == Kc3rdQuestCategory::Sortie) <==> (c == TsunkitQuestCategory::Sortie),
        (category_of(c) == Kc3rdQuestCategory::SupplyOrDocking) <==> (c == TsunkitQuestCategory::Supply),
        category_of(c) == category_of(d) ==> c == d,
{
}

} // verus!
