//! The kcwikizh kcdata records: picture-book text and drop or build flags
//! of allied ships, and the names of ship classes, kept where the master
//! data knows the ship or class.
use std::collections::BTreeMap;

use vstd::prelude::*;

verus! {

/// A ship record of the kcdata.
#[derive(Debug, Clone, PartialEq)]
pub struct KcWikiZhShip {
    pub id: i64,
    pub book_sinfo: String,
    pub cnum: i64,
    pub can_drop: bool,
    pub can_construct: bool,
}

/// A ship class record of the kcdata.
#[derive(Debug, Clone, PartialEq)]
pub struct KcWikiZhShipClass {
    pub id: i64,
    pub name: String,
}

/// What the kcdata reading takes of a ship of the master data.
#[derive(Debug, Clone)]
pub struct ManifestShipLink {
    pub api_id: i64,
    pub api_ctype: i64,
    pub api_aftershipid: Option<String>,
}

#[derive(Debug, Clone, PartialEq)]
pub struct Kc3rdShipExtraInfo {
    pub api_id: i64,
    pub info: String,
    pub droppable: bool,
    pub buildable: bool,
}

impl View for Kc3rdShipExtraInfo {
    type V = (i64, Seq<char>, bool, bool);

    open spec fn view(&self) -> (i64, Seq<char>, bool, bool) {
        (self.api_id, self.info@, self.droppable, self.buildable)
    }
}

#[derive(Debug, Clone, PartialEq)]
pub struct Kc3rdShipClassNameInfo {
    pub api_id: i64,
    pub name: String,
}

impl View for Kc3rdShipClassNameInfo {
    type V = (i64, Seq<char>);

    open spec fn view(&self) -> (i64, Seq<char>) {
        (self.api_id, self.name@)
    }
}

/// Where the first master ship with this id stands, from `i` on.
pub open spec fn first_ship(m: Seq<ManifestShipLink>, id: i64, i: int) -> Option<int>
    decreases m.len() - i,
{
    if i < 0 || i >= m.len() {
        None
    } else if m[i].api_id == id {
        Some(i)
    } else {
        first_ship(m, id, i + 1)
    }
}

/// The master data has the ship and it is an allied one: it has a next form
/// entry, as only allied ships do.
pub open spec fn is_ally(m: Seq<ManifestShipLink>, id: i64) -> bool {
    match first_ship(m, id, 0) {
        Some(k) => m[k].api_aftershipid is Some,
        None => false,
    }
}

/// Some ship of the master data is of this class.
pub open spec fn has_class(m: Seq<ManifestShipLink>, ctype: i64) -> bool {
    exists|k: int| 0 <= k < m.len() && m[k].api_ctype == ctype
}

/// The allied ships' extra info keyed by id, a later record replacing an earlier one.
pub open spec fn extra_info_of(ships: Seq<KcWikiZhShip>, m: Seq<ManifestShipLink>) -> Map<i64, (i64, Seq<char>, bool, bool)>
    decreases ships.len(),
{
    if ships.len() == 0 {
        Map::empty()
    } else {
        let s = ships.last();
        let acc = extra_info_of(ships.drop_last(), m);
        if is_ally(m, s.id) {
            acc.insert(s.id, (s.id, s.book_sinfo@, s.can_drop, s.can_construct))
        } else {
            acc
        }
    }
}

/// The names of the classes the master data has, keyed by class id.
pub open spec fn class_names_of(classes: Seq<KcWikiZhShipClass>, m: Seq<ManifestShipLink>) -> Map<i64, (i64, Seq<char>)>
    decreases classes.len(),
{
    if classes.len() == 0 {
        Map::empty()
    } else {
        let c = classes.last();
        let acc = class_names_of(classes.drop_last(), m);
        if has_class(m, c.id) {
            acc.insert(c.id, (c.id, c.name@))
        } else {
            acc
        }
    }
}

fn is_ally_exec(m: &Vec<ManifestShipLink>, id: i64) -> (b: bool)
    ensures
        b == is_ally(m@, id),
{
    let mut i: usize = 0;
    while i < m.len()
        invariant
            i <= m@.len(),
            first_ship(m@, id, 0) == first_ship(m@, id, i as int),
        decreases m@.len() - i,
    {
        if m[i].api_id == id {
            return m[i].api_aftershipid.is_some();
        }
        i += 1;
    }
    false
}

fn has_class_exec(m: &Vec<ManifestShipLink>, ctype: i64) -> (b: bool)
    ensures
        b == has_class(m@, ctype),
{
    let mut i: usize = 0;
    while i < m.len()
        invariant
            i <= m@.len(),
            forall|k: int| 0 <= k < i ==> m@[k].api_ctype != ctype,
        decreases m@.len() - i,
    {
        if m[i].api_ctype == ctype {
            return true;
        }
        i += 1;
    }
    false
}

/// The extra info of the allied ships among the records.
pub fn parse_ship_info(ships: &Vec<KcWikiZhShip>, manifest: &Vec<ManifestShipLink>) -> (r: BTreeMap<
    i64,
    Kc3rdShipExtraInfo,
>)
    ensures
        r@.map_values(|e: Kc3rdShipExtraInfo| e@) == extra_info_of(ships@, manifest@),
{
    let mut out: BTreeMap<i64, Kc3rdShipExtraInfo> = BTreeMap::new();
    assert(out@.map_values(|e: Kc3rdShipExtraInfo| e@) =~= Map::<i64, (i64, Seq<char>, bool, bool)>::empty());
    let mut i: usize = 0;
    while i < ships.len()
        invariant
            i <= ships@.len(),
            out@.map_values(|e: Kc3rdShipExtraInfo| e@) == extra_info_of(ships@.take(i as int), manifest@),
        decreases ships@.len() - i,
    {
        assert(ships@.take(i as int + 1).drop_last() =~= ships@.take(i as int));
        assert(ships@.take(i as int + 1).last() == ships@[i as int]);
        let s = &ships[i];
        if is_ally_exec(manifest, s.id) {
            let e = Kc3rdShipExtraInfo {
                api_id: s.id,
                info: s.book_sinfo.clone(),
                droppable: s.can_drop,
                buildable: s.can_construct,
            };
            let ghost before = out@.map_values(|e: Kc3rdShipExtraInfo| e@);
            let ghost ev = e@;
            out.insert(s.id, e);
            assert(out@.map_values(|e: Kc3rdShipExtraInfo| e@) =~= before.insert(s.id, ev));
        }
        i += 1;
    }
    assert(ships@.take(ships@.len() as int) =~= ships@);
    out
}

/// The names of the ship classes the master data has.
pub fn parse_ship_class(classes: &Vec<KcWikiZhShipClass>, manifest: &Vec<ManifestShipLink>) -> (r: BTreeMap<
    i64,
    Kc3rdShipClassNameInfo,
>)
    ensures
        r@.map_values(|e: Kc3rdShipClassNameInfo| e@) == class_names_of(classes@, manifest@),
{
    let mut out: BTreeMap<i64, Kc3rdShipClassNameInfo> = BTreeMap::new();
    assert(out@.map_values(|e: Kc3rdShipClassNameInfo| e@) =~= Map::<i64, (i64, Seq<char>)>::empty());
    let mut i: usize = 0;
    while i < classes.len()
        invariant
            i <= classes@.len(),
            out@.map_values(|e: Kc3rdShipClassNameInfo| e@) == class_names_of(classes@.take(i as int), manifest@),
        decreases classes@.len() - i,
    {
        assert(classes@.take(i as int + 1).drop_last() =~= classes@.take(i as int));
        assert(classes@.take(i as int + 1).last() == classes@[i as int]);
        let c = &classes[i];
        if has_class_exec(manifest, c.id) {
            let e = Kc3rdShipClassNameInfo { api_id: c.id, name: c.name.clone() };
            let ghost before = out@.map_values(|e: Kc3rdShipClassNameInfo| e@);
            let ghost ev = e@;
            out.insert(c.id, e);
            assert(out@.map_values(|e: Kc3rdShipClassNameInfo| e@) =~= before.insert(c.id, ev));
        }
        i += 1;
    }
    assert(classes@.take(classes@.len() as int) =~= classes@);
    out
}

} // verus!
