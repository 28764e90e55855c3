//! Ship remodel requirements: what each remodel costs, read from the master
//! data and completed from the client script's requirement tables.
use std::collections::BTreeMap;

use vstd::prelude::*;

use crate::error::ParseError;
use crate::node_label::{words, words_of};
use crate::pattern::{capture_group, capture_pairs, regex_group, regex_group_pairs};
use crate::text::{
    chars_eq, chars_of, contains, contains_str, drop_trail, in_set, parse_i64, parse_i64_chars,
    parse_i64_str, split_by, split_chars, split_on, split_set, string_of, trim_end_set, views,
};

verus! {

/// The cost of one remodel, from one ship to the next.
#[derive(Debug, Clone, Copy, PartialEq, Eq, Structural)]
pub struct KcShipRemodelRequirement {
    pub id_from: i64,
    pub id_to: i64,
    pub ammo: i64,
    pub steel: i64,
    pub drawing: i64,
    pub catapult: i64,
    pub report: i64,
    pub devmat: i64,
    pub torch: i64,
    pub aviation: i64,
    pub artillery: i64,
    pub arms: i64,
    pub boiler: i64,
}

/// What the remodel reading takes from a ship of the master data.
#[derive(Debug, Clone)]
pub struct ManifestShip {
    pub api_id: i64,
    pub api_sortno: Option<i64>,
    pub api_aftershipid: Option<String>,
    pub api_afterbull: Option<i64>,
    pub api_afterfuel: Option<i64>,
}

/// A remodel's extra materials in the master data.
#[derive(Debug, Clone, Copy, PartialEq, Eq, Structural)]
pub struct ShipUpgrade {
    pub api_id: i64,
    pub api_current_ship_id: i64,
    pub api_drawing_count: i64,
    pub api_catapult_count: i64,
    pub api_report_count: i64,
    pub api_aviation_mat_count: i64,
    pub api_arms_mat_count: i64,
    pub api_boiler_count: Option<i64>,
}

// ---------------------------------------------------------------------------
// From the master data
// ---------------------------------------------------------------------------

/// The remodel a ship names, with the ammo and steel it costs; only
/// ships with a sort number and a real next ship have one.
pub open spec fn base_remodel(ship: ManifestShip) -> Option<KcShipRemodelRequirement> {
    match (ship.api_sortno, ship.api_aftershipid) {
        (Some(sortno), Some(after)) => if sortno == 0 || after@.len() == 0 || after@ == "0"@ {
            None
        } else {
            match parse_i64(after@) {
                Some(to) => Some(
                    KcShipRemodelRequirement {
                        id_from: ship.api_id,
                        id_to: to,
                        ammo: ship.api_afterbull.unwrap_or(0),
                        steel: ship.api_afterfuel.unwrap_or(0),
                        drawing: 0,
                        catapult: 0,
                        report: 0,
                        devmat: 0,
                        torch: 0,
                        aviation: 0,
                        artillery: 0,
                        arms: 0,
                        boiler: 0,
                    },
                ),
                None => None,
            }
        },
        _ => None,
    }
}

/// The first upgrade record of this exact remodel.
pub open spec fn upgrade_for(upgrades: Seq<ShipUpgrade>, from: i64, to: i64) -> Option<ShipUpgrade>
    decreases upgrades.len(),
{
    if upgrades.len() == 0 {
        None
    } else if upgrades[0].api_current_ship_id == from && upgrades[0].api_id == to {
        Some(upgrades[0])
    } else {
        upgrade_for(upgrades.drop_first(), from, to)
    }
}

/// A remodel with the materials its upgrade record names.
pub open spec fn with_upgrade(r: KcShipRemodelRequirement, upgrades: Seq<ShipUpgrade>) -> KcShipRemodelRequirement {
    match upgrade_for(upgrades, r.id_from, r.id_to) {
        Some(u) => KcShipRemodelRequirement {
            drawing: u.api_drawing_count,
            catapult: u.api_catapult_count,
            report: u.api_report_count,
            aviation: u.api_aviation_mat_count,
            artillery: u.api_arms_mat_count,
            boiler: u.api_boiler_count.unwrap_or(0),
            ..r
        },
        None => r,
    }
}

/// The remodels of the master data's ships, in ship order.
pub open spec fn remodels_of(ships: Seq<ManifestShip>, upgrades: Seq<ShipUpgrade>) -> Seq<KcShipRemodelRequirement>
    decreases ships.len(),
{
    if ships.len() == 0 {
        Seq::empty()
    } else {
        let acc = remodels_of(ships.drop_last(), upgrades);
        match base_remodel(ships.last()) {
            Some(r) => acc.push(with_upgrade(r, upgrades)),
            None => acc,
        }
    }
}

proof fn lemma_upgrade_for_first(ups: Seq<ShipUpgrade>, from: i64, to: i64, j: int)
    requires
        0 <= j < ups.len(),
        ups[j].api_current_ship_id == from && ups[j].api_id == to,
        forall|k: int| 0 <= k < j ==> !((#[trigger] ups[k]).api_current_ship_id == from && ups[k].api_id == to),
    ensures
        upgrade_for(ups, from, to) == Some(ups[j]),
    decreases j,
{
    if j > 0 {
        let t = ups.drop_first();
        assert(!(ups[0].api_current_ship_id == from && ups[0].api_id == to));
        assert forall|k: int| 0 <= k < j - 1 implies !((#[trigger] t[k]).api_current_ship_id == from && t[k].api_id == to) by {
            assert(t[k] == ups[k + 1]);
        }
        assert(t[j - 1] == ups[j]);
        lemma_upgrade_for_first(t, from, to, j - 1);
    }
}

proof fn lemma_upgrade_for_none(ups: Seq<ShipUpgrade>, from: i64, to: i64)
    requires
        forall|k: int| 0 <= k < ups.len() ==> !((#[trigger] ups[k]).api_current_ship_id == from && ups[k].api_id == to),
    ensures
        upgrade_for(ups, from, to) is None,
    decreases ups.len(),
{
    if ups.len() > 0 {
        let t = ups.drop_first();
        assert(!(ups[0].api_current_ship_id == from && ups[0].api_id == to));
        assert forall|k: int| 0 <= k < t.len() implies !((#[trigger] t[k]).api_current_ship_id == from && t[k].api_id == to) by {
            assert(t[k] == ups[k + 1]);
        }
        lemma_upgrade_for_none(t, from, to);
    }
}

/// The remodel materials of each produced requirement, read from its upgrade record.
spec fn materials_match(r: KcShipRemodelRequirement, u: ShipUpgrade) -> bool {
    &&& r.drawing == u.api_drawing_count
    &&& r.catapult == u.api_catapult_count
    &&& r.report == u.api_report_count
    &&& r.aviation == u.api_aviation_mat_count
    &&& r.artillery == u.api_arms_mat_count
    &&& r.boiler == u.api_boiler_count.unwrap_or(0)
}

spec fn no_materials(r: KcShipRemodelRequirement) -> bool {
    r.drawing == 0 && r.catapult == 0 && r.report == 0 && r.aviation == 0 && r.artillery == 0
        && r.boiler == 0
}

proof fn lemma_remodels_take_their_upgrade(ships: Seq<ManifestShip>, ups: Seq<ShipUpgrade>)
    ensures
        forall|k: int| 0 <= k < remodels_of(ships, ups).len() ==> {
            let r = #[trigger] remodels_of(ships, ups)[k];
            match upgrade_for(ups, r.id_from, r.id_to) {
                Some(u) => materials_match(r, u),
                None => no_materials(r),
            }
        },
    decreases ships.len(),
{
    if ships.len() > 0 {
        lemma_remodels_take_their_upgrade(ships.drop_last(), ups);
        let acc = remodels_of(ships.drop_last(), ups);
        match base_remodel(ships.last()) {
            Some(r0) => {
                assert forall|k: int| 0 <= k < remodels_of(ships, ups).len() implies {
                    let r = #[trigger] remodels_of(ships, ups)[k];
                    match upgrade_for(ups, r.id_from, r.id_to) {
                        Some(u) => materials_match(r, u),
                        None => no_materials(r),
                    }
                } by {
                    if k < acc.len() {
                        assert(remodels_of(ships, ups)[k] == acc[k]);
                    }
                }
            },
            None => {},
        }
    }
}

/// Each remodel takes its materials from the first upgrade record of the
/// same remodel (the record whose current ship and next ship are its own):
/// drawings, catapults, reports, aviation and arms materials, and boilers
/// (none when the record names none); with no such record it needs none.
pub proof fn law_remodels_take_their_upgrade_materials(ships: Seq<ManifestShip>, ups: Seq<ShipUpgrade>, k: int)
    requires
        0 <= k < remodels_of(ships, ups).len(),
    ensures
        ({
            let r = remodels_of(ships, ups)[k];
            &&& forall|j: int|
                0 <= j < ups.len() && (#[trigger] ups[j]).api_current_ship_id == r.id_from && ups[j].api_id == r.id_to
                    && (forall|i: int| 0 <= i < j ==> !((#[trigger] ups[i]).api_current_ship_id == r.id_from
                    && ups[i].api_id == r.id_to)) ==> {
                    &&& r.drawing == ups[j].api_drawing_count
                    &&& r.catapult == ups[j].api_catapult_count
                    &&& r.report == ups[j].api_report_count
                    &&& r.aviation == ups[j].api_aviation_mat_count
                    &&& r.artillery == ups[j].api_arms_mat_count
                    &&& r.boiler == ups[j].api_boiler_count.unwrap_or(0)
                }
            &&& (forall|j: int| 0 <= j < ups.len() ==> !((#[trigger] ups[j]).api_current_ship_id == r.id_from
                && ups[j].api_id == r.id_to)) ==> r.drawing == 0 && r.catapult == 0 && r.report == 0
                && r.aviation == 0 && r.artillery == 0 && r.boiler == 0
        }),
{
    lemma_remodels_take_their_upgrade(ships, ups);
    let r = remodels_of(ships, ups)[k];
    assert forall|j: int|
        0 <= j < ups.len() && (#[trigger] ups[j]).api_current_ship_id == r.id_from && ups[j].api_id == r.id_to
            && (forall|i: int| 0 <= i < j ==> !((#[trigger] ups[i]).api_current_ship_id == r.id_from
            && ups[i].api_id == r.id_to)) implies {
            &&& r.drawing == ups[j].api_drawing_count
            &&& r.catapult == ups[j].api_catapult_count
            &&& r.report == ups[j].api_report_count
            &&& r.aviation == ups[j].api_aviation_mat_count
            &&& r.artillery == ups[j].api_arms_mat_count
            &&& r.boiler == ups[j].api_boiler_count.unwrap_or(0)
        } by {
        lemma_upgrade_for_first(ups, r.id_from, r.id_to, j);
    }
    if forall|j: int| 0 <= j < ups.len() ==> !((#[trigger] ups[j]).api_current_ship_id == r.id_from
        && ups[j].api_id == r.id_to) {
        lemma_upgrade_for_none(ups, r.id_from, r.id_to);
    }
}

/// Each remodel is the one a ship of the master data names: it leaves that
/// ship, goes to the ship its next-ship id names, and costs that ship's
/// next-form ammo and steel (0 when unset).
pub proof fn law_remodels_come_from_their_ship(ships: Seq<ManifestShip>, ups: Seq<ShipUpgrade>, k: int)
    requires
        0 <= k < remodels_of(ships, ups).len(),
    ensures
        exists|i: int| 0 <= i < ships.len() && {
            let r = remodels_of(ships, ups)[k];
            let ship = #[trigger] ships[i];
            &&& r.id_from == ship.api_id
            &&& ship.api_aftershipid matches Some(a) && parse_i64(a@) == Some(r.id_to)
            &&& ship.api_sortno matches Some(n) && n != 0
            &&& r.ammo == ship.api_afterbull.unwrap_or(0)
            &&& r.steel == ship.api_afterfuel.unwrap_or(0)
        },
    decreases ships.len(),
{
    let init = ships.drop_last();
    let acc = remodels_of(init, ups);
    if k < acc.len() {
        assert(remodels_of(ships, ups)[k] == acc[k]) by {
            match base_remodel(ships.last()) {
                Some(_) => {},
                None => {},
            }
        }
        law_remodels_come_from_their_ship(init, ups, k);
        let i = choose|i: int| 0 <= i < init.len() && {
            let r = remodels_of(init, ups)[k];
            let ship = #[trigger] init[i];
            &&& r.id_from == ship.api_id
            &&& ship.api_aftershipid matches Some(a) && parse_i64(a@) == Some(r.id_to)
            &&& ship.api_sortno matches Some(n) && n != 0
            &&& r.ammo == ship.api_afterbull.unwrap_or(0)
            &&& r.steel == ship.api_afterfuel.unwrap_or(0)
        };
        assert(ships[i] == init[i]);
    } else {
        let i = ships.len() - 1;
        assert(ships[i] == ships.last());
    }
}

fn upgrade_of(upgrades: &Vec<ShipUpgrade>, from: i64, to: i64) -> (r: Option<ShipUpgrade>)
    ensures
        r == upgrade_for(upgrades@, from, to),
{
    let mut i: usize = 0;
    assert(upgrades@.subrange(0, upgrades@.len() as int) =~= upgrades@);
    while i < upgrades.len()
        invariant
            i <= upgrades@.len(),
            upgrade_for(upgrades@, from, to) == upgrade_for(upgrades@.subrange(i as int, upgrades@.len() as int), from, to),
        decreases upgrades@.len() - i,
    {
        let ghost rest = upgrades@.subrange(i as int, upgrades@.len() as int);
        assert(rest[0] == upgrades@[i as int]);
        assert(rest.drop_first() =~= upgrades@.subrange(i as int + 1, upgrades@.len() as int));
        if upgrades[i].api_current_ship_id == from && upgrades[i].api_id == to {
            return Some(upgrades[i]);
        }
        i += 1;
    }
    None
}

/// The remodels the master data describes, with the ammo and steel of each
/// ship's next form and the materials of its upgrade record.
pub fn extract_from_start2_json(ships: &Vec<ManifestShip>, upgrades: &Vec<ShipUpgrade>) -> (r: Vec<KcShipRemodelRequirement>)
    ensures
        r@ == remodels_of(ships@, upgrades@),
{
    let mut out: Vec<KcShipRemodelRequirement> = Vec::new();
    let mut i: usize = 0;
    while i < ships.len()
        invariant
            i <= ships@.len(),
            out@ == remodels_of(ships@.take(i as int), upgrades@),
        decreases ships@.len() - i,
    {
        assert(ships@.take(i as int + 1).drop_last() =~= ships@.take(i as int));
        assert(ships@.take(i as int + 1).last() == ships@[i as int]);
        let ship = &ships[i];
        match (&ship.api_sortno, &ship.api_aftershipid) {
            (Some(sortno), Some(after)) => {
                let a = chars_of(after.as_str());
                let is_zero = chars_eq(a.as_slice(), chars_of("0").as_slice());
                if *sortno != 0 && a.len() > 0 && !is_zero {
                    match parse_i64_chars(a.as_slice()) {
                        Some(to) => {
                            let mut r = KcShipRemodelRequirement {
                                id_from: ship.api_id,
                                id_to: to,
                                ammo: match ship.api_afterbull {
                                    Some(v) => v,
                                    None => 0,
                                },
                                steel: match ship.api_afterfuel {
                                    Some(v) => v,
                                    None => 0,
                                },
                                drawing: 0,
                                catapult: 0,
                                report: 0,
                                devmat: 0,
                                torch: 0,
                                aviation: 0,
                                artillery: 0,
                                arms: 0,
                                boiler: 0,
                            };
                            match upgrade_of(upgrades, r.id_from, r.id_to) {
                                Some(u) => {
                                    r.drawing = u.api_drawing_count;
                                    r.catapult = u.api_catapult_count;
                                    r.report = u.api_report_count;
                                    r.aviation = u.api_aviation_mat_count;
                                    r.artillery = u.api_arms_mat_count;
                                    r.boiler = match u.api_boiler_count {
                                        Some(v) => v,
                                        None => 0,
                                    };
                                },
                                None => {},
                            }
                            out.push(r);
                        },
                        None => {},
                    }
                }
            },
            _ => {},
        }
        i += 1;
    }
    assert(ships@.take(ships@.len() as int) =~= ships@);
    out
}

// ---------------------------------------------------------------------------
// Lines of the client script
// ---------------------------------------------------------------------------

/// A line without the carriage return it may end with.
pub open spec fn strip_cr(l: Seq<char>) -> Seq<char> {
    if l.len() > 0 && l.last() == '\r' {
        l.drop_last()
    } else {
        l
    }
}

/// The lines of a text (`str::lines`): split at line feeds, no empty last
/// line after a final line feed, each without its carriage return.
pub open spec fn text_lines(s: Seq<char>) -> Seq<Seq<char>> {
    let parts = split_by(s, in_set(seq!['\n']));
    let kept = if parts.len() > 0 && parts.last().len() == 0 {
        parts.drop_last()
    } else {
        parts
    };
    kept.map_values(|l: Seq<char>| strip_cr(l))
}

pub fn lines_of(s: &str) -> (r: Vec<Vec<char>>)
    ensures
        views(r@) == text_lines(s@),
{
    let cs = chars_of(s);
    let nl = ['\n'];
    assert(nl@ == seq!['\n']);
    let mut parts = split_set(cs.as_slice(), nl.as_slice());
    let ghost pv = views(parts@);
    if parts.len() > 0 && parts[parts.len() - 1].len() == 0 {
        let _ = parts.pop();
        assert(views(parts@) =~= pv.drop_last());
    }
    let ghost kept = views(parts@);
    let mut out: Vec<Vec<char>> = Vec::new();
    let mut i: usize = 0;
    while i < parts.len()
        invariant
            i <= parts@.len(),
            kept == views(parts@),
            views(out@) == kept.take(i as int).map_values(|l: Seq<char>| strip_cr(l)),
        decreases parts@.len() - i,
    {
        let mut l = parts[i].clone();
        assert(l@ == kept[i as int]);
        if l.len() > 0 && l[l.len() - 1] == '\r' {
            let _ = l.pop();
        }
        let ghost before = views(out@);
        let ghost lv = l@;
        out.push(l);
        assert(views(out@) =~= before.push(lv));
        assert(kept.take(i as int + 1).map_values(|l: Seq<char>| strip_cr(l)) =~= kept.take(i as int).map_values(
            |l: Seq<char>| strip_cr(l),
        ).push(strip_cr(kept[i as int])));
        i += 1;
    }
    assert(kept.take(parts@.len() as int) =~= kept);
    out
}

/// The number a `case N:` or `return N;` line ends with: its last word
/// without the trailing punctuation, when it parses.
pub open spec fn last_number(line: Seq<char>, punct: char) -> Option<i64> {
    let ws = words(line);
    if ws.len() == 0 {
        None
    } else {
        parse_i64(drop_trail(ws.last(), in_set(seq![punct])))
    }
}

pub fn last_number_of(line: &[char], punct: char) -> (r: Option<i64>)
    ensures
        r == last_number(line@, punct),
{
    let ws = words_of(line);
    if ws.len() == 0 {
        return None;
    }
    let p = [punct];
    assert(p@ == seq![punct]);
    let w = trim_end_set(ws[ws.len() - 1].as_slice(), p.as_slice());
    parse_i64_chars(w.as_slice())
}

/// The material a table of the client script fills in.
#[derive(Debug, Clone, Copy, PartialEq, Eq, Structural)]
pub enum Material {
    Devkit,
    Torch,
    Artillery,
}

/// The remodel with `v` of material `m`.
pub open spec fn with_material(r: KcShipRemodelRequirement, m: Material, v: i64) -> KcShipRemodelRequirement {
    match m {
        Material::Devkit => KcShipRemodelRequirement { devmat: v, ..r },
        Material::Torch => KcShipRemodelRequirement { torch: v, ..r },
        Material::Artillery => KcShipRemodelRequirement { artillery: v, ..r },
    }
}

/// The ship by which a table finds a remodel: its source, or its result.
pub open spec fn key_of(r: KcShipRemodelRequirement, by_to: bool) -> i64 {
    if by_to {
        r.id_to
    } else {
        r.id_from
    }
}

/// The first remodel keyed by `id` gets `v` of material `m`; the others stay.
pub open spec fn set_first(data: Seq<KcShipRemodelRequirement>, by_to: bool, id: i64, m: Material, v: i64) -> Seq<
    KcShipRemodelRequirement,
>
    decreases data.len(),
{
    if data.len() == 0 {
        data
    } else if key_of(data[0], by_to) == id {
        data.update(0, with_material(data[0], m, v))
    } else {
        seq![data[0]] + set_first(data.drop_first(), by_to, id, m, v)
    }
}

/// `set_first` for each listed ship in turn.
pub open spec fn set_each(data: Seq<KcShipRemodelRequirement>, ids: Seq<i64>, by_to: bool, m: Material, v: i64) -> Seq<
    KcShipRemodelRequirement,
>
    decreases ids.len(),
{
    if ids.len() == 0 {
        data
    } else {
        set_first(set_each(data, ids.drop_last(), by_to, m, v), by_to, ids.last(), m, v)
    }
}

fn with_material_exec(r: KcShipRemodelRequirement, m: Material, v: i64) -> (out: KcShipRemodelRequirement)
    ensures
        out == with_material(r, m, v),
{
    let mut out = r;
    match m {
        Material::Devkit => out.devmat = v,
        Material::Torch => out.torch = v,
        Material::Artillery => out.artillery = v,
    }
    out
}

proof fn lemma_set_first_at(d: Seq<KcShipRemodelRequirement>, by_to: bool, id: i64, m: Material, v: i64, i: int)
    requires
        0 <= i <= d.len(),
        forall|k: int| 0 <= k < i ==> key_of(d[k], by_to) != id,
        i < d.len() ==> key_of(d[i], by_to) == id,
    ensures
        set_first(d, by_to, id, m, v) == if i < d.len() {
            d.update(i, with_material(d[i], m, v))
        } else {
            d
        },
    decreases i,
{
    if d.len() == 0 {
    } else if i == 0 {
    } else {
        let t = d.drop_first();
        assert forall|k: int| 0 <= k < i - 1 implies key_of(t[k], by_to) != id by {
            assert(t[k] == d[k + 1]);
        }
        if i < d.len() {
            assert(t[i - 1] == d[i]);
        }
        lemma_set_first_at(t, by_to, id, m, v, i - 1);
        if i < d.len() {
            assert(seq![d[0]] + t.update(i - 1, with_material(t[i - 1], m, v)) =~= d.update(
                i,
                with_material(d[i], m, v),
            ));
        } else {
            assert(seq![d[0]] + t =~= d);
        }
    }
}

fn key_exec(r: &KcShipRemodelRequirement, by_to: bool) -> (k: i64)
    ensures
        k == key_of(*r, by_to),
{
    if by_to {
        r.id_to
    } else {
        r.id_from
    }
}

fn set_first_exec(data: &mut Vec<KcShipRemodelRequirement>, by_to: bool, id: i64, m: Material, v: i64)
    ensures
        final(data)@ == set_first(old(data)@, by_to, id, m, v),
{
    let ghost d0 = data@;
    let mut i: usize = 0;
    while i < data.len() && key_exec(&data[i], by_to) != id
        invariant
            i <= data@.len(),
            data@ == d0,
            forall|k: int| 0 <= k < i ==> key_of(d0[k], by_to) != id,
        decreases data@.len() - i,
    {
        i += 1;
    }
    proof {
        lemma_set_first_at(d0, by_to, id, m, v, i as int);
    }
    if i < data.len() {
        let r = with_material_exec(data[i], m, v);
        data.set(i, r);
    }
}

fn set_each_exec(data: &mut Vec<KcShipRemodelRequirement>, ids: &Vec<i64>, by_to: bool, m: Material, v: i64)
    ensures
        final(data)@ == set_each(old(data)@, ids@, by_to, m, v),
{
    let ghost d0 = data@;
    let mut k: usize = 0;
    while k < ids.len()
        invariant
            k <= ids@.len(),
            data@ == set_each(d0, ids@.take(k as int), by_to, m, v),
        decreases ids@.len() - k,
    {
        assert(ids@.take(k as int + 1).drop_last() =~= ids@.take(k as int));
        set_first_exec(data, by_to, ids[k], m, v);
        k += 1;
    }
    assert(ids@.take(ids@.len() as int) =~= ids@);
}

fn contains_id(ids: &Vec<i64>, x: i64) -> (b: bool)
    ensures
        b == ids@.contains(x),
{
    let mut i: usize = 0;
    while i < ids.len()
        invariant
            i <= ids@.len(),
            forall|k: int| 0 <= k < i ==> ids@[k] != x,
        decreases ids@.len() - i,
    {
        if ids[i] == x {
            assert(ids@[i as int] == x);
            return true;
        }
        i += 1;
    }
    false
}

fn copy_requirements(v: &Vec<KcShipRemodelRequirement>) -> (r: Vec<KcShipRemodelRequirement>)
    ensures
        r@ == v@,
{
    let mut r: Vec<KcShipRemodelRequirement> = Vec::new();
    let mut i: usize = 0;
    while i < v.len()
        invariant
            i <= v@.len(),
            r@ == v@.take(i as int),
        decreases v@.len() - i,
    {
        r.push(v[i]);
        assert(r@ =~= v@.take(i as int + 1));
        i += 1;
    }
    assert(v@.take(v@.len() as int) =~= v@);
    r
}

// ---------------------------------------------------------------------------
// The build-kit table
// ---------------------------------------------------------------------------

/// The build-kit table: after the function's header, `case` lines list
/// ships and a `return` line gives the first remodel from each of them its
/// torch count, up to `default:`. The scan state: in the table, past it, the
/// ships listed, the remodels; `None` where a listed line has no number.
pub open spec fn buildkit_scan(lines: Seq<Seq<char>>, data: Seq<KcShipRemodelRequirement>) -> Option<
    (bool, bool, Seq<i64>, Seq<KcShipRemodelRequirement>),
>
    decreases lines.len(),
{
    if lines.len() == 0 {
        Some((false, false, Seq::empty(), data))
    } else {
        match buildkit_scan(lines.drop_last(), data) {
            None => None,
            Some((found, done, ids, d)) => {
                let line = lines.last();
                if done {
                    Some((found, done, ids, d))
                } else if !found {
                    Some((contains(line, "_getRequiredBuildKitNum = function("@), false, ids, d))
                } else if contains(line, "case "@) {
                    match last_number(line, ':') {
                        Some(id) => Some((found, done, ids.push(id), d)),
                        None => None,
                    }
                } else if contains(line, "return "@) {
                    match last_number(line, ';') {
                        Some(n) => Some((found, done, Seq::empty(), set_each(d, ids, false, Material::Torch, n))),
                        None => None,
                    }
                } else if contains(line, "default:"@) {
                    Some((found, true, ids, d))
                } else {
                    Some((found, done, ids, d))
                }
            },
        }
    }
}

proof fn lemma_buildkit_stays_failed(lines: Seq<Seq<char>>, d: Seq<KcShipRemodelRequirement>, k: int)
    requires
        0 <= k <= lines.len(),
        buildkit_scan(lines.take(k), d) is None,
    ensures
        buildkit_scan(lines, d) is None,
    decreases lines.len() - k,
{
    if k < lines.len() {
        assert(lines.take(k + 1).drop_last() =~= lines.take(k));
        lemma_buildkit_stays_failed(lines, d, k + 1);
    } else {
        assert(lines.take(k) =~= lines);
    }
}

fn buildkit_lines(lines: &Vec<Vec<char>>, data: &mut Vec<KcShipRemodelRequirement>) -> (ok: bool)
    ensures
        ok == buildkit_scan(views(lines@), old(data)@) is Some,
        ok ==> (buildkit_scan(views(lines@), old(data)@) matches Some((_, _, _, d)) && final(data)@ == d),
{
    let ghost lv = views(lines@);
    let ghost d0 = data@;
    let mut found = false;
    let mut done = false;
    let mut ids: Vec<i64> = Vec::new();
    let mut i: usize = 0;
    while i < lines.len()
        invariant
            i <= lines@.len(),
            lv == views(lines@),
            d0 == old(data)@,
            buildkit_scan(lv.take(i as int), d0) == Some((found, done, ids@, data@)),
        decreases lines@.len() - i,
    {
        assert(lv.take(i as int + 1).drop_last() =~= lv.take(i as int));
        assert(lv.take(i as int + 1).last() == lines@[i as int]@);
        let line = lines[i].as_slice();
        if done {
        } else if !found {
            found = contains_str(line, "_getRequiredBuildKitNum = function(");
        } else if contains_str(line, "case ") {
            match last_number_of(line, ':') {
                Some(id) => ids.push(id),
                None => {
                    proof {
                        lemma_buildkit_stays_failed(lv, d0, i as int + 1);
                    }
                    return false;
                },
            }
        } else if contains_str(line, "return ") {
            match last_number_of(line, ';') {
                Some(n) => {
                    set_each_exec(data, &ids, false, Material::Torch, n);
                    ids = Vec::new();
                },
                None => {
                    proof {
                        lemma_buildkit_stays_failed(lv, d0, i as int + 1);
                    }
                    return false;
                },
            }
        } else if contains_str(line, "default:") {
            done = true;
        }
        i += 1;
    }
    assert(lv.take(lines@.len() as int) =~= lv);
    true
}

/// Completes the torch counts from the client script's build-kit table.
pub fn extract_buildkit(content: &str, data: &mut Vec<KcShipRemodelRequirement>)
    requires
        buildkit_scan(text_lines(content@), old(data)@) is Some,
    ensures
        buildkit_scan(text_lines(content@), old(data)@) matches Some((_, _, _, d)) && final(data)@ == d,
{
    let lines = lines_of(content);
    let _ = buildkit_lines(&lines, data);
}

// ---------------------------------------------------------------------------
// The artillery (new hokoheso material) table
// ---------------------------------------------------------------------------

pub open spec fn hokoheso_pattern() -> Seq<char> {
    "return (?P<from>\\d+) == this\\.mst_id_before \\? (?P<hit>\\d+) : (?P<miss>\\d+);"@
}

/// A remodel into one of the listed ships costs `hit` when it starts from
/// ship `from`, `miss` otherwise.
pub open spec fn hokoheso_pair(r: KcShipRemodelRequirement, ids: Seq<i64>, from: i64, hit: i64, miss: i64) -> KcShipRemodelRequirement {
    if ids.contains(r.id_to) {
        KcShipRemodelRequirement { artillery: if r.id_from == from { hit } else { miss }, ..r }
    } else {
        r
    }
}

/// One line inside the table: whether it ends the table, the ships listed,
/// the remodels. A `return` line gives the first remodel into each listed
/// ship its count, or, in the `A == this.mst_id_before ? B : C` form, every
/// remodel into a listed ship `B` or `C`; a line in that form that the
/// pattern does not match changes nothing.
pub open spec fn hokoheso_step(line: Seq<char>, ids: Seq<i64>, d: Seq<KcShipRemodelRequirement>) -> Option<
    (bool, Seq<i64>, Seq<KcShipRemodelRequirement>),
> {
    if contains(line, "case "@) {
        match last_number(line, ':') {
            Some(id) => Some((false, ids.push(id), d)),
            None => None,
        }
    } else if contains(line, "return "@) {
        if contains(line, "=="@) {
            match (
                regex_group(hokoheso_pattern(), line, "from"@),
                regex_group(hokoheso_pattern(), line, "hit"@),
                regex_group(hokoheso_pattern(), line, "miss"@),
            ) {
                (Some(a), Some(b), Some(c)) => match (parse_i64(a), parse_i64(b), parse_i64(c)) {
                    (Some(from), Some(hit), Some(miss)) => Some(
                        (false, ids, d.map_values(|r: KcShipRemodelRequirement| hokoheso_pair(r, ids, from, hit, miss))),
                    ),
                    _ => None,
                },
                _ => Some((false, ids, d)),
            }
        } else {
            match last_number(line, ';') {
                Some(n) => Some((false, Seq::empty(), set_each(d, ids, true, Material::Artillery, n))),
                None => None,
            }
        }
    } else if contains(line, "default:"@) {
        Some((true, ids, d))
    } else {
        Some((false, ids, d))
    }
}

/// The artillery table, read line by line as the build-kit table is.
pub open spec fn hokoheso_scan(lines: Seq<Seq<char>>, data: Seq<KcShipRemodelRequirement>) -> Option<
    (bool, bool, Seq<i64>, Seq<KcShipRemodelRequirement>),
>
    decreases lines.len(),
{
    if lines.len() == 0 {
        Some((false, false, Seq::empty(), data))
    } else {
        match hokoheso_scan(lines.drop_last(), data) {
            None => None,
            Some((found, done, ids, d)) => {
                let line = lines.last();
                if done {
                    Some((found, done, ids, d))
                } else if !found {
                    Some((contains(line, ".prototype, 'newhokohesosizai', {"@), false, ids, d))
                } else {
                    match hokoheso_step(line, ids, d) {
                        Some((end, ids2, d2)) => Some((true, end, ids2, d2)),
                        None => None,
                    }
                }
            },
        }
    }
}

proof fn lemma_hokoheso_stays_failed(lines: Seq<Seq<char>>, d: Seq<KcShipRemodelRequirement>, k: int)
    requires
        0 <= k <= lines.len(),
        hokoheso_scan(lines.take(k), d) is None,
    ensures
        hokoheso_scan(lines, d) is None,
    decreases lines.len() - k,
{
    if k < lines.len() {
        assert(lines.take(k + 1).drop_last() =~= lines.take(k));
        lemma_hokoheso_stays_failed(lines, d, k + 1);
    } else {
        assert(lines.take(k) =~= lines);
    }
}

fn hokoheso_apply_pair(data: &mut Vec<KcShipRemodelRequirement>, ids: &Vec<i64>, from: i64, hit: i64, miss: i64)
    ensures
        final(data)@ == old(data)@.map_values(|r: KcShipRemodelRequirement| hokoheso_pair(r, ids@, from, hit, miss)),
{
    let ghost d0 = data@;
    let mut i: usize = 0;
    while i < data.len()
        invariant
            i <= data@.len(),
            data@.len() == d0.len(),
            forall|k: int| 0 <= k < i ==> data@[k] == hokoheso_pair(d0[k], ids@, from, hit, miss),
            forall|k: int| i <= k < data@.len() ==> data@[k] == d0[k],
        decreases data@.len() - i,
    {
        let r = data[i];
        if contains_id(ids, r.id_to) {
            let mut n = r;
            n.artillery = if r.id_from == from {
                hit
            } else {
                miss
            };
            data.set(i, n);
        }
        i += 1;
    }
    assert(data@ =~= d0.map_values(|r: KcShipRemodelRequirement| hokoheso_pair(r, ids@, from, hit, miss)));
}

fn hokoheso_step_exec(line: &[char], ids: &mut Vec<i64>, data: &mut Vec<KcShipRemodelRequirement>) -> (r: Option<bool>)
    ensures
        r is None <==> hokoheso_step(line@, old(ids)@, old(data)@) is None,
        r matches Some(end) ==> hokoheso_step(line@, old(ids)@, old(data)@) == Some((end, final(ids)@, final(data)@)),
{
    if contains_str(line, "case ") {
        match last_number_of(line, ':') {
            Some(id) => {
                ids.push(id);
                Some(false)
            },
            None => None,
        }
    } else if contains_str(line, "return ") {
        if contains_str(line, "==") {
            let text = string_of(line);
            let pattern = "return (?P<from>\\d+) == this\\.mst_id_before \\? (?P<hit>\\d+) : (?P<miss>\\d+);";
            let a = capture_group(pattern, text.as_str(), "from");
            let b = capture_group(pattern, text.as_str(), "hit");
            let c = capture_group(pattern, text.as_str(), "miss");
            match (a, b, c) {
                (Some(a), Some(b), Some(c)) => match (
                    parse_i64_str(a.as_str()),
                    parse_i64_str(b.as_str()),
                    parse_i64_str(c.as_str()),
                ) {
                    (Some(from), Some(hit), Some(miss)) => {
                        hokoheso_apply_pair(data, ids, from, hit, miss);
                        Some(false)
                    },
                    _ => None,
                },
                _ => Some(false),
            }
        } else {
            match last_number_of(line, ';') {
                Some(n) => {
                    set_each_exec(data, ids, true, Material::Artillery, n);
                    *ids = Vec::new();
                    Some(false)
                },
                None => None,
            }
        }
    } else if contains_str(line, "default:") {
        Some(true)
    } else {
        Some(false)
    }
}

fn hokoheso_lines(lines: &Vec<Vec<char>>, data: &mut Vec<KcShipRemodelRequirement>) -> (ok: bool)
    ensures
        ok == hokoheso_scan(views(lines@), old(data)@) is Some,
        ok ==> (hokoheso_scan(views(lines@), old(data)@) matches Some((_, _, _, d)) && final(data)@ == d),
{
    let ghost lv = views(lines@);
    let ghost d0 = data@;
    let mut found = false;
    let mut done = false;
    let mut ids: Vec<i64> = Vec::new();
    let mut i: usize = 0;
    while i < lines.len()
        invariant
            i <= lines@.len(),
            lv == views(lines@),
            d0 == old(data)@,
            hokoheso_scan(lv.take(i as int), d0) == Some((found, done, ids@, data@)),
        decreases lines@.len() - i,
    {
        assert(lv.take(i as int + 1).drop_last() =~= lv.take(i as int));
        assert(lv.take(i as int + 1).last() == lines@[i as int]@);
        let line = lines[i].as_slice();
        if done {
        } else if !found {
            found = contains_str(line, ".prototype, 'newhokohesosizai', {");
        } else {
            match hokoheso_step_exec(line, &mut ids, data) {
                Some(end) => done = end,
                None => {
                    proof {
                        lemma_hokoheso_stays_failed(lv, d0, i as int + 1);
                    }
                    return false;
                },
            }
        }
        i += 1;
    }
    assert(lv.take(lines@.len() as int) =~= lv);
    true
}

/// Completes the artillery counts from the client script's table of
/// new hokoheso materials.
pub fn extract_hokoheso_from_main_js(content: &str, data: &mut Vec<KcShipRemodelRequirement>) -> (r: Result<
    (),
    ParseError,
>)
    requires
        hokoheso_scan(text_lines(content@), old(data)@) is Some,
    ensures
        r is Ok,
        hokoheso_scan(text_lines(content@), old(data)@) matches Some((_, _, _, d)) && final(data)@ == d,
{
    let lines = lines_of(content);
    let _ = hokoheso_lines(&lines, data);
    Ok(())
}

// ---------------------------------------------------------------------------
// The development-material table
// ---------------------------------------------------------------------------

pub open spec fn devkit_group_pattern() -> Seq<char> {
    "this._USE_DEVKIT_GROUP_ = \\[(?P<ids>(?:\\d+(?:, )?)+)\\];"@
}

pub open spec fn devkit_ternary_pattern() -> Seq<char> {
    "_f4j < (?P<range>\\d+) \\? (?P<value>\\d+) : "@
}

pub open spec fn devkit_fallback_pattern() -> Seq<char> {
    "(?P<value>\\d+);"@
}

/// Each piece as a number; `None` when one does not parse.
pub open spec fn parse_all(parts: Seq<Seq<char>>) -> Option<Seq<i64>>
    decreases parts.len(),
{
    if parts.len() == 0 {
        Some(Seq::empty())
    } else {
        match (parse_all(parts.drop_last()), parse_i64(parts.last())) {
            (Some(acc), Some(n)) => Some(acc.push(n)),
            _ => None,
        }
    }
}

/// The ships of the script's devkit group; none when the script names no group.
pub open spec fn devkit_group(content: Seq<char>) -> Option<Seq<i64>> {
    match regex_group(devkit_group_pattern(), content, "ids"@) {
        None => Some(Seq::empty()),
        Some(t) => parse_all(split_on(t, ", "@)),
    }
}

/// Both numbers of every pair; `None` when one is missing or does not parse.
pub open spec fn parse_pairs(ps: Seq<(Option<Seq<char>>, Option<Seq<char>>)>) -> Option<Seq<(i64, i64)>>
    decreases ps.len(),
{
    if ps.len() == 0 {
        Some(Seq::empty())
    } else {
        match (parse_pairs(ps.drop_last()), ps.last()) {
            (Some(acc), (Some(a), Some(b))) => match (parse_i64(a), parse_i64(b)) {
                (Some(x), Some(y)) => Some(acc.push((x, y))),
                _ => None,
            },
            _ => None,
        }
    }
}

/// The steel brackets of the default branch: each `_f4j < R ? V :` pair,
/// then the number before the first `;` as the bracket without bound.
pub open spec fn devkit_mappings(line: Seq<char>) -> Option<Seq<(i64, i64)>> {
    match parse_pairs(regex_group_pairs(devkit_ternary_pattern(), line, "range"@, "value"@)) {
        None => None,
        Some(ps) => match regex_group(devkit_fallback_pattern(), line, "value"@) {
            Some(t) => match parse_i64(t) {
                Some(v) => Some(ps.push((i64::MAX, v))),
                None => None,
            },
            None => Some(ps),
        },
    }
}

/// The value of the first bracket whose bound is above `steel`; 0 past all.
pub open spec fn first_below(maps: Seq<(i64, i64)>, steel: i64) -> i64
    decreases maps.len(),
{
    if maps.len() == 0 {
        0
    } else if steel < maps[0].0 {
        maps[0].1
    } else {
        first_below(maps.drop_first(), steel)
    }
}

/// A remodel that no `case` listed: the first bracket's value when it needs
/// drawings outside the devkit group or its steel is under the first bound,
/// else the value of the first later bracket above its steel.
pub open spec fn devkit_default(r: KcShipRemodelRequirement, group: Seq<i64>, marked: Seq<i64>, maps: Seq<(i64, i64)>) -> KcShipRemodelRequirement {
    if marked.contains(r.id_from) {
        r
    } else if (r.drawing != 0 && !group.contains(r.id_from)) || r.steel < maps[0].0 {
        KcShipRemodelRequirement { devmat: maps[0].1, ..r }
    } else {
        KcShipRemodelRequirement { devmat: first_below(maps.drop_first(), r.steel), ..r }
    }
}

/// One line inside the devkit table: whether it ends the table, the ships
/// listed since the last `return`, every ship listed, the remodels.
pub open spec fn devkit_step(
    line: Seq<char>,
    group: Seq<i64>,
    ids: Seq<i64>,
    marked: Seq<i64>,
    d: Seq<KcShipRemodelRequirement>,
) -> Option<(bool, Seq<i64>, Seq<i64>, Seq<KcShipRemodelRequirement>)> {
    let listed = if contains(line, "case "@) {
        match last_number(line, ':') {
            Some(id) => Some((ids.push(id), marked.push(id), d)),
            None => None,
        }
    } else if contains(line, "return "@) {
        match last_number(line, ';') {
            Some(n) => Some((Seq::<i64>::empty(), marked, set_each(d, ids, false, Material::Devkit, n))),
            None => None,
        }
    } else {
        Some((ids, marked, d))
    };
    match listed {
        None => None,
        Some((ids1, marked1, d1)) => if contains(line, "return 0 !="@) {
            match devkit_mappings(line) {
                None => None,
                Some(maps) => if maps.len() == 0 {
                    Some((true, ids1, marked1, d1))
                } else {
                    Some(
                        (
                            true,
                            ids1,
                            marked1,
                            d1.map_values(|r: KcShipRemodelRequirement| devkit_default(r, group, marked1, maps)),
                        ),
                    )
                },
            }
        } else {
            Some((false, ids1, marked1, d1))
        },
    }
}

/// The devkit table, read line by line from its header to the default branch.
pub open spec fn devkit_scan(lines: Seq<Seq<char>>, group: Seq<i64>, data: Seq<KcShipRemodelRequirement>) -> Option<
    (bool, bool, Seq<i64>, Seq<i64>, Seq<KcShipRemodelRequirement>),
>
    decreases lines.len(),
{
    if lines.len() == 0 {
        Some((false, false, Seq::empty(), Seq::empty(), data))
    } else {
        match devkit_scan(lines.drop_last(), group, data) {
            None => None,
            Some((found, done, ids, marked, d)) => {
                let line = lines.last();
                if done {
                    Some((found, done, ids, marked, d))
                } else if !found {
                    Some((contains(line, "_getRequiredDevkitNum = function("@), false, ids, marked, d))
                } else {
                    match devkit_step(line, group, ids, marked, d) {
                        Some((end, ids2, marked2, d2)) => Some((true, end, ids2, marked2, d2)),
                        None => None,
                    }
                }
            },
        }
    }
}

/// The remodels with their development materials; unchanged when the script
/// names no devkit group.
pub open spec fn devkit_result(content: Seq<char>, data: Seq<KcShipRemodelRequirement>) -> Option<
    Seq<KcShipRemodelRequirement>,
> {
    match devkit_group(content) {
        None => None,
        Some(group) => if group.len() == 0 {
            Some(data)
        } else {
            match devkit_scan(text_lines(content), group, data) {
                Some((_, _, _, _, d)) => Some(d),
                None => None,
            }
        },
    }
}

fn parse_all_exec(parts: &Vec<Vec<char>>) -> (r: Option<Vec<i64>>)
    ensures
        match r {
            Some(v) => parse_all(views(parts@)) == Some(v@),
            None => parse_all(views(parts@)) is None,
        },
{
    let ghost pv = views(parts@);
    let mut out: Vec<i64> = Vec::new();
    let mut i: usize = 0;
    while i < parts.len()
        invariant
            i <= parts@.len(),
            pv == views(parts@),
            parse_all(pv.take(i as int)) == Some(out@),
        decreases parts@.len() - i,
    {
        assert(pv.take(i as int + 1).drop_last() =~= pv.take(i as int));
        assert(pv.take(i as int + 1).last() == parts@[i as int]@);
        match parse_i64_chars(parts[i].as_slice()) {
            Some(n) => out.push(n),
            None => {
                proof {
                    lemma_parse_all_stays_failed(pv, i as int + 1);
                }
                return None;
            },
        }
        i += 1;
    }
    assert(pv.take(parts@.len() as int) =~= pv);
    Some(out)
}

proof fn lemma_parse_all_stays_failed(parts: Seq<Seq<char>>, k: int)
    requires
        0 <= k <= parts.len(),
        parse_all(parts.take(k)) is None,
    ensures
        parse_all(parts) is None,
    decreases parts.len() - k,
{
    if k < parts.len() {
        assert(parts.take(k + 1).drop_last() =~= parts.take(k));
        lemma_parse_all_stays_failed(parts, k + 1);
    } else {
        assert(parts.take(k) =~= parts);
    }
}

fn devkit_group_of(raw: &str) -> (r: Option<Vec<i64>>)
    ensures
        match r {
            Some(v) => devkit_group(raw@) == Some(v@),
            None => devkit_group(raw@) is None,
        },
{
    match capture_group("this._USE_DEVKIT_GROUP_ = \\[(?P<ids>(?:\\d+(?:, )?)+)\\];", raw, "ids") {
        None => Some(Vec::new()),
        Some(t) => {
            let tc = chars_of(t.as_str());
            let sep = chars_of(", ");
            proof {
                reveal_strlit(", ");
            }
            let parts = split_chars(tc.as_slice(), sep.as_slice());
            parse_all_exec(&parts)
        },
    }
}

/// The ships of the client script's devkit group (`this._USE_DEVKIT_GROUP_`).
pub fn extract_use_devkit_group(raw: &str) -> (r: Vec<i64>)
    requires
        devkit_group(raw@) is Some,
    ensures
        devkit_group(raw@) == Some(r@),
{
    match devkit_group_of(raw) {
        Some(v) => v,
        None => Vec::new(),
    }
}

proof fn lemma_parse_pairs_stays_failed(ps: Seq<(Option<Seq<char>>, Option<Seq<char>>)>, k: int)
    requires
        0 <= k <= ps.len(),
        parse_pairs(ps.take(k)) is None,
    ensures
        parse_pairs(ps) is None,
    decreases ps.len() - k,
{
    if k < ps.len() {
        assert(ps.take(k + 1).drop_last() =~= ps.take(k));
        lemma_parse_pairs_stays_failed(ps, k + 1);
    } else {
        assert(ps.take(k) =~= ps);
    }
}

fn devkit_mappings_of(line: &str) -> (r: Option<Vec<(i64, i64)>>)
    ensures
        match r {
            Some(v) => devkit_mappings(line@) == Some(v@),
            None => devkit_mappings(line@) is None,
        },
{
    let ps = capture_pairs("_f4j < (?P<range>\\d+) \\? (?P<value>\\d+) : ", line, "range", "value");
    let ghost pv = ps.deep_view();
    let mut maps: Vec<(i64, i64)> = Vec::new();
    let mut i: usize = 0;
    while i < ps.len()
        invariant
            i <= ps@.len(),
            pv == ps.deep_view(),
            pv == regex_group_pairs(devkit_ternary_pattern(), line@, "range"@, "value"@),
            pv.len() == ps@.len(),
            parse_pairs(pv.take(i as int)) == Some(maps@),
        decreases ps@.len() - i,
    {
        assert(pv.take(i as int + 1).drop_last() =~= pv.take(i as int));
        assert(pv.take(i as int + 1).last() == pv[i as int]);
        let pair = &ps[i];
        let parsed = match (&pair.0, &pair.1) {
            (Some(a), Some(b)) => match (parse_i64_str(a.as_str()), parse_i64_str(b.as_str())) {
                (Some(x), Some(y)) => Some((x, y)),
                _ => None,
            },
            _ => None,
        };
        match parsed {
            Some(p) => maps.push(p),
            None => {
                proof {
                    lemma_parse_pairs_stays_failed(pv, i as int + 1);
                }
                return None;
            },
        }
        i += 1;
    }
    assert(pv.take(ps@.len() as int) =~= pv);
    match capture_group("(?P<value>\\d+);", line, "value") {
        Some(t) => match parse_i64_str(t.as_str()) {
            Some(v) => {
                maps.push((i64::MAX, v));
                Some(maps)
            },
            None => None,
        },
        None => Some(maps),
    }
}

fn first_below_exec(maps: &Vec<(i64, i64)>, from: usize, steel: i64) -> (v: i64)
    requires
        from <= maps@.len(),
    ensures
        v == first_below(maps@.skip(from as int), steel),
    decreases maps@.len() - from,
{
    if from == maps.len() {
        assert(maps@.skip(from as int).len() == 0);
        0
    } else if steel < maps[from].0 {
        assert(maps@.skip(from as int)[0] == maps@[from as int]);
        maps[from].1
    } else {
        assert(maps@.skip(from as int).drop_first() =~= maps@.skip(from as int + 1));
        first_below_exec(maps, from + 1, steel)
    }
}

fn devkit_apply_default(
    data: &mut Vec<KcShipRemodelRequirement>,
    group: &Vec<i64>,
    marked: &Vec<i64>,
    maps: &Vec<(i64, i64)>,
)
    requires
        maps@.len() > 0,
    ensures
        final(data)@ == old(data)@.map_values(
            |r: KcShipRemodelRequirement| devkit_default(r, group@, marked@, maps@),
        ),
{
    let ghost d0 = data@;
    assert(maps@.skip(1) =~= maps@.drop_first());
    let mut i: usize = 0;
    while i < data.len()
        invariant
            i <= data@.len(),
            data@.len() == d0.len(),
            maps@.len() > 0,
            maps@.skip(1) == maps@.drop_first(),
            forall|k: int| 0 <= k < i ==> data@[k] == devkit_default(d0[k], group@, marked@, maps@),
            forall|k: int| i <= k < data@.len() ==> data@[k] == d0[k],
        decreases data@.len() - i,
    {
        let r = data[i];
        if !contains_id(marked, r.id_from) {
            let mut n = r;
            if (r.drawing != 0 && !contains_id(group, r.id_from)) || r.steel < maps[0].0 {
                n.devmat = maps[0].1;
            } else {
                n.devmat = first_below_exec(maps, 1, r.steel);
            }
            data.set(i, n);
        }
        i += 1;
    }
    assert(data@ =~= d0.map_values(|r: KcShipRemodelRequirement| devkit_default(r, group@, marked@, maps@)));
}

fn devkit_step_exec(
    line: &[char],
    group: &Vec<i64>,
    ids: &mut Vec<i64>,
    marked: &mut Vec<i64>,
    data: &mut Vec<KcShipRemodelRequirement>,
) -> (r: Option<bool>)
    ensures
        r is None <==> devkit_step(line@, group@, old(ids)@, old(marked)@, old(data)@) is None,
        r matches Some(end) ==> devkit_step(line@, group@, old(ids)@, old(marked)@, old(data)@) == Some(
            (end, final(ids)@, final(marked)@, final(data)@),
        ),
{
    if contains_str(line, "case ") {
        match last_number_of(line, ':') {
            Some(id) => {
                ids.push(id);
                marked.push(id);
            },
            None => return None,
        }
    } else if contains_str(line, "return ") {
        match last_number_of(line, ';') {
            Some(n) => {
                set_each_exec(data, ids, false, Material::Devkit, n);
                *ids = Vec::new();
            },
            None => return None,
        }
    }
    if contains_str(line, "return 0 !=") {
        let text = string_of(line);
        match devkit_mappings_of(text.as_str()) {
            None => None,
            Some(maps) => {
                if maps.len() > 0 {
                    devkit_apply_default(data, group, marked, &maps);
                }
                Some(true)
            },
        }
    } else {
        Some(false)
    }
}

proof fn lemma_devkit_stays_failed(lines: Seq<Seq<char>>, group: Seq<i64>, d: Seq<KcShipRemodelRequirement>, k: int)
    requires
        0 <= k <= lines.len(),
        devkit_scan(lines.take(k), group, d) is None,
    ensures
        devkit_scan(lines, group, d) is None,
    decreases lines.len() - k,
{
    if k < lines.len() {
        assert(lines.take(k + 1).drop_last() =~= lines.take(k));
        lemma_devkit_stays_failed(lines, group, d, k + 1);
    } else {
        assert(lines.take(k) =~= lines);
    }
}

fn devkit_lines(lines: &Vec<Vec<char>>, group: &Vec<i64>, data: &mut Vec<KcShipRemodelRequirement>) -> (ok: bool)
    ensures
        ok == devkit_scan(views(lines@), group@, old(data)@) is Some,
        ok ==> (devkit_scan(views(lines@), group@, old(data)@) matches Some((_, _, _, _, d)) && final(data)@ == d),
{
    let ghost lv = views(lines@);
    let ghost d0 = data@;
    let mut found = false;
    let mut done = false;
    let mut ids: Vec<i64> = Vec::new();
    let mut marked: Vec<i64> = Vec::new();
    let mut i: usize = 0;
    while i < lines.len()
        invariant
            i <= lines@.len(),
            lv == views(lines@),
            d0 == old(data)@,
            devkit_scan(lv.take(i as int), group@, d0) == Some((found, done, ids@, marked@, data@)),
        decreases lines@.len() - i,
    {
        assert(lv.take(i as int + 1).drop_last() =~= lv.take(i as int));
        assert(lv.take(i as int + 1).last() == lines@[i as int]@);
        let line = lines[i].as_slice();
        if done {
        } else if !found {
            found = contains_str(line, "_getRequiredDevkitNum = function(");
        } else {
            match devkit_step_exec(line, group, &mut ids, &mut marked, data) {
                Some(end) => done = end,
                None => {
                    proof {
                        lemma_devkit_stays_failed(lv, group@, d0, i as int + 1);
                    }
                    return false;
                },
            }
        }
        i += 1;
    }
    assert(lv.take(lines@.len() as int) =~= lv);
    true
}

fn devkit_try(content: &str, lines: &Vec<Vec<char>>, data: &mut Vec<KcShipRemodelRequirement>) -> (ok: bool)
    requires
        views(lines@) == text_lines(content@),
    ensures
        ok == devkit_result(content@, old(data)@) is Some,
        ok ==> devkit_result(content@, old(data)@) == Some(final(data)@),
{
    match devkit_group_of(content) {
        None => false,
        Some(group) => {
            if group.len() == 0 {
                true
            } else {
                devkit_lines(lines, &group, data)
            }
        },
    }
}

/// Completes the development materials from the client script's devkit
/// table: the ships it lists by `case`, then every other remodel by the
/// steel brackets of its default branch.
pub fn extract_devkit(content: &str, data: &mut Vec<KcShipRemodelRequirement>)
    requires
        devkit_result(content@, old(data)@) is Some,
    ensures
        devkit_result(content@, old(data)@) == Some(final(data)@),
{
    let group = extract_use_devkit_group(content);
    if group.len() == 0 {
        return;
    }
    let lines = lines_of(content);
    let _ = devkit_lines(&lines, &group, data);
}

// ---------------------------------------------------------------------------
// The whole client script, and the keyed result
// ---------------------------------------------------------------------------

/// The remodels completed by the three tables of the client script in turn.
pub open spec fn main_js_result(content: Seq<char>, data: Seq<KcShipRemodelRequirement>) -> Option<
    Seq<KcShipRemodelRequirement>,
> {
    match hokoheso_scan(text_lines(content), data) {
        None => None,
        Some((_, _, _, d1)) => match devkit_result(content, d1) {
            None => None,
            Some(d2) => match buildkit_scan(text_lines(content), d2) {
                None => None,
                Some((_, _, _, d3)) => Some(d3),
            },
        },
    }
}

/// Completes the remodels from the client script. `false`, with the
/// remodels unchanged, when a table holds a line whose number does not
/// parse; the tables are then not applied.
pub fn extract_from_main_js(content: &str, data: &mut Vec<KcShipRemodelRequirement>) -> (ok: bool)
    ensures
        ok == main_js_result(content@, old(data)@) is Some,
        ok ==> main_js_result(content@, old(data)@) == Some(final(data)@),
        !ok ==> final(data)@ == old(data)@,
{
    let lines = lines_of(content);
    let mut work = copy_requirements(data);
    if !hokoheso_lines(&lines, &mut work) {
        return false;
    }
    if !devkit_try(content, &lines, &mut work) {
        return false;
    }
    if !buildkit_lines(&lines, &mut work) {
        return false;
    }
    let _ = extract_hokoheso_from_main_js(content, data);
    extract_devkit(content, data);
    extract_buildkit(content, data);
    true
}

/// The remodels keyed by source and result ship; a later remodel of the
/// same pair replaces an earlier one.
pub open spec fn keyed(data: Seq<KcShipRemodelRequirement>) -> Map<(i64, i64), KcShipRemodelRequirement>
    decreases data.len(),
{
    if data.len() == 0 {
        Map::empty()
    } else {
        keyed(data.drop_last()).insert((data.last().id_from, data.last().id_to), data.last())
    }
}

/// The remodels of the master data, completed from the client script and
/// keyed by source and result ship; `None` when a table of the script
/// holds a line whose number does not parse.
pub fn parse(content: &str, ships: &Vec<ManifestShip>, upgrades: &Vec<ShipUpgrade>) -> (r: Option<
    BTreeMap<(i64, i64), KcShipRemodelRequirement>,
>)
    ensures
        match r {
            Some(m) => main_js_result(content@, remodels_of(ships@, upgrades@)) matches Some(d) && m@ == keyed(d),
            None => main_js_result(content@, remodels_of(ships@, upgrades@)) is None,
        },
{
    let mut data = extract_from_start2_json(ships, upgrades);
    if !extract_from_main_js(content, &mut data) {
        return None;
    }
    let mut m: BTreeMap<(i64, i64), KcShipRemodelRequirement> = BTreeMap::new();
    let mut i: usize = 0;
    while i < data.len()
        invariant
            i <= data@.len(),
            m@ == keyed(data@.take(i as int)),
        decreases data@.len() - i,
    {
        assert(data@.take(i as int + 1).drop_last() =~= data@.take(i as int));
        let r = data[i];
        m.insert((r.id_from, r.id_to), r);
        i += 1;
    }
    assert(data@.take(data@.len() as int) =~= data@);
    Some(m)
}


// ---------------------------------------------------------------------------
// What the tables keep
// ---------------------------------------------------------------------------

/// The same remodels, in the same order, whatever their materials.
pub open spec fn same_remodels(a: Seq<KcShipRemodelRequirement>, b: Seq<KcShipRemodelRequirement>) -> bool {
    &&& a.len() == b.len()
    &&& forall|i: int| #![trigger a[i]] 0 <= i < a.len() ==> a[i].id_from == b[i].id_from && a[i].id_to == b[i].id_to
}

proof fn lemma_set_first_keeps(d: Seq<KcShipRemodelRequirement>, by_to: bool, id: i64, m: Material, v: i64)
    ensures
        same_remodels(d, set_first(d, by_to, id, m, v)),
    decreases d.len(),
{
    if d.len() > 0 && key_of(d[0], by_to) != id {
        let t = d.drop_first();
        lemma_set_first_keeps(t, by_to, id, m, v);
        let r = set_first(t, by_to, id, m, v);
        assert forall|i: int| 0 <= i < d.len() implies d[i].id_from == (seq![d[0]] + r)[i].id_from
            && d[i].id_to == (seq![d[0]] + r)[i].id_to by {
            if i > 0 {
                assert(d[i] == t[i - 1]);
            }
        }
    }
}

proof fn lemma_set_each_keeps(d: Seq<KcShipRemodelRequirement>, ids: Seq<i64>, by_to: bool, m: Material, v: i64)
    ensures
        same_remodels(d, set_each(d, ids, by_to, m, v)),
    decreases ids.len(),
{
    if ids.len() > 0 {
        lemma_set_each_keeps(d, ids.drop_last(), by_to, m, v);
        let e = set_each(d, ids.drop_last(), by_to, m, v);
        lemma_set_first_keeps(e, by_to, ids.last(), m, v);
        let f = set_first(e, by_to, ids.last(), m, v);
        assert forall|i: int| 0 <= i < d.len() implies d[i].id_from == f[i].id_from && d[i].id_to
            == f[i].id_to by {
            assert(d[i].id_from == e[i].id_from && d[i].id_to == e[i].id_to);
            assert(e[i].id_from == f[i].id_from && e[i].id_to == f[i].id_to);
        }
    }
}

proof fn lemma_hokoheso_scan_keeps(lines: Seq<Seq<char>>, data: Seq<KcShipRemodelRequirement>)
    ensures
        hokoheso_scan(lines, data) matches Some((_, _, _, d)) ==> same_remodels(data, d),
    decreases lines.len(),
{
    if lines.len() > 0 {
        lemma_hokoheso_scan_keeps(lines.drop_last(), data);
        if let Some((found, done, ids, d)) = hokoheso_scan(lines.drop_last(), data) {
            let line = lines.last();
            if !done && found {
                if let Some((_, _, d2)) = hokoheso_step(line, ids, d) {
                    if contains(line, "case "@) {
                    } else if contains(line, "return "@) && !contains(line, "=="@) {
                        if let Some(n) = last_number(line, ';') {
                            lemma_set_each_keeps(d, ids, true, Material::Artillery, n);
                        }
                    }
                    assert forall|i: int| 0 <= i < data.len() implies data[i].id_from
                        == d2[i].id_from && data[i].id_to == d2[i].id_to by {
                        assert(data[i].id_from == d[i].id_from && data[i].id_to == d[i].id_to);
                    }
                }
            }
        }
    }
}

proof fn lemma_buildkit_scan_keeps(lines: Seq<Seq<char>>, data: Seq<KcShipRemodelRequirement>)
    ensures
        buildkit_scan(lines, data) matches Some((_, _, _, d)) ==> same_remodels(data, d),
    decreases lines.len(),
{
    if lines.len() > 0 {
        lemma_buildkit_scan_keeps(lines.drop_last(), data);
        if let Some((found, done, ids, d)) = buildkit_scan(lines.drop_last(), data) {
            let line = lines.last();
            if let Some((_, _, _, d2)) = buildkit_scan(lines, data) {
                if !done && found && !contains(line, "case "@) && contains(line, "return "@) {
                    if let Some(n) = last_number(line, ';') {
                        lemma_set_each_keeps(d, ids, false, Material::Torch, n);
                    }
                }
                assert forall|i: int| 0 <= i < data.len() implies data[i].id_from == d2[i].id_from
                    && data[i].id_to == d2[i].id_to by {
                    assert(data[i].id_from == d[i].id_from && data[i].id_to == d[i].id_to);
                }
            }
        }
    }
}

proof fn lemma_devkit_step_keeps(
    line: Seq<char>,
    group: Seq<i64>,
    ids: Seq<i64>,
    marked: Seq<i64>,
    d: Seq<KcShipRemodelRequirement>,
)
    ensures
        devkit_step(line, group, ids, marked, d) matches Some((_, _, _, d2)) ==> same_remodels(d, d2),
{
    if !contains(line, "case "@) && contains(line, "return "@) {
        if let Some(n) = last_number(line, ';') {
            lemma_set_each_keeps(d, ids, false, Material::Devkit, n);
        }
    }
}

proof fn lemma_devkit_scan_keeps(lines: Seq<Seq<char>>, group: Seq<i64>, data: Seq<KcShipRemodelRequirement>)
    ensures
        devkit_scan(lines, group, data) matches Some((_, _, _, _, d)) ==> same_remodels(data, d),
    decreases lines.len(),
{
    if lines.len() > 0 {
        lemma_devkit_scan_keeps(lines.drop_last(), group, data);
        if let Some((found, done, ids, marked, d)) = devkit_scan(lines.drop_last(), group, data) {
            let line = lines.last();
            lemma_devkit_step_keeps(line, group, ids, marked, d);
            if let Some((_, _, _, _, d2)) = devkit_scan(lines, group, data) {
                assert forall|i: int| 0 <= i < data.len() implies data[i].id_from == d2[i].id_from
                    && data[i].id_to == d2[i].id_to by {
                    assert(data[i].id_from == d[i].id_from && data[i].id_to == d[i].id_to);
                }
            }
        }
    }
}

/// The client script's tables only fill in materials: whenever the script
/// can be read, the remodels come out as they went in, the same pairs of
/// ships in the same order.
pub proof fn law_tables_keep_the_remodels(content: Seq<char>, data: Seq<KcShipRemodelRequirement>)
    ensures
        main_js_result(content, data) matches Some(d) ==> same_remodels(data, d),
{
    let lines = text_lines(content);
    lemma_hokoheso_scan_keeps(lines, data);
    if let Some((_, _, _, d1)) = hokoheso_scan(lines, data) {
        if let Some(group) = devkit_group(content) {
            if group.len() > 0 {
                lemma_devkit_scan_keeps(lines, group, d1);
            }
        }
        if let Some(d2) = devkit_result(content, d1) {
            lemma_buildkit_scan_keeps(lines, d2);
            if let Some((_, _, _, d3)) = buildkit_scan(lines, d2) {
                assert forall|i: int| 0 <= i < data.len() implies data[i].id_from == d3[i].id_from
                    && data[i].id_to == d3[i].id_to by {
                    assert(data[i].id_from == d1[i].id_from && data[i].id_to == d1[i].id_to);
                    assert(d1[i].id_from == d2[i].id_from && d1[i].id_to == d2[i].id_to);
                }
            }
        }
    }
}

} // verus!
