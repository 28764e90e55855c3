//! The kcwiki ship records read into ship cards: the stats the master data
//! leaves out, the starting loadout, and what each remodel costs.
use std::collections::BTreeMap;

use vstd::prelude::*;

use crate::data_types::Equipment;
use crate::kcwiki::{name_entries, ship_id_of, slotitem_id_of, ParseContext};
use crate::kcwiki_types::{BoolOrInt, BoolOrString};

verus! {

/// A ship record of the kcwiki data. Its luck modifier, a fractional
/// number, is read beside the record and not held here.
#[derive(Debug, Clone, PartialEq)]
pub struct KcwikiShip {
    pub aa: i64,
    pub aa_max: BoolOrInt,
    pub aa_mod: BoolOrInt,
    pub ammo: i64,
    pub api_id: i64,
    pub armor: i64,
    pub armor_max: i64,
    pub armor_mod: BoolOrInt,
    pub asw: Option<i64>,
    pub asw_max: Option<BoolOrInt>,
    pub buildable: Option<bool>,
    pub buildable_lsc: Option<bool>,
    pub class_number: i64,
    pub equipment: Vec<Equipment>,
    pub evasion: Option<i64>,
    pub evasion_max: Option<i64>,
    pub firepower: i64,
    pub firepower_max: i64,
    pub firepower_mod: BoolOrInt,
    pub fuel: i64,
    pub id: i64,
    pub japanese_name: String,
    pub los: Option<i64>,
    pub los_max: Option<i64>,
    pub luck: i64,
    pub luck_max: i64,
    pub range: i64,
    pub rarity: i64,
    pub remodel_from: Option<BoolOrString>,
    pub remodel_level: BoolOrInt,
    pub remodel_to: BoolOrString,
    pub torpedo: i64,
    pub torpedo_max: BoolOrInt,
    pub torpedo_mod: BoolOrInt,
    pub full_name: String,
    pub remodel_ammo: Option<i64>,
    pub remodel_blueprint: Option<BoolOrInt>,
    pub remodel_catapult: Option<BoolOrInt>,
    pub remodel_development_material: Option<BoolOrInt>,
    pub remodel_steel: Option<i64>,
    pub remodel_airmat: Option<BoolOrInt>,
    pub remodel_report: Option<BoolOrInt>,
    pub remodel_construction_material: Option<BoolOrInt>,
    pub remodel_to_ammo: Option<i64>,
    pub remodel_to_blueprint: Option<bool>,
    pub remodel_to_catapult: Option<bool>,
    pub remodel_to_construction_material: Option<i64>,
    pub remodel_to_development_material: Option<BoolOrInt>,
    pub remodel_to_level: Option<i64>,
    pub remodel_to_steel: Option<i64>,
    pub back: Option<i64>,
    pub remodel_to_report: Option<bool>,
    pub remodel_armament: Option<BoolOrInt>,
    pub remodel_screw: Option<i64>,
    pub remodel_gunmat: Option<BoolOrInt>,
    pub reversible: Option<bool>,
    pub remodel_overseas: Option<BoolOrInt>,
    pub remodel_from_fixme: Option<String>,
    pub remodel_boiler: Option<i64>,
}

#[derive(Debug, Clone, Copy, PartialEq, Eq, Structural)]
pub struct Kc3rdShipSlotInfo {
    pub onslot: i64,
    pub item_id: i64,
    pub stars: i64,
}

/// What a remodel costs, on a ship card.
#[derive(Debug, Clone, Copy, PartialEq, Eq, Structural)]
pub struct Kc3rdShipRemodelRequirement {
    pub level: i64,
    pub ammo: i64,
    pub steel: i64,
    pub blueprint: i64,
    pub catapult: i64,
    pub report: i64,
    pub devmat: i64,
    pub torch: i64,
    pub aviation: i64,
    pub artillery: i64,
    pub armament: i64,
    pub boiler: i64,
    pub overseas: i64,
}

/// A ship card. Its luck bonus, a fractional number, is added beside it.
#[derive(Debug, Clone, PartialEq)]
pub struct Kc3rdShip {
    pub api_id: i64,
    pub kaih: [i64; 2],
    pub tais: [i64; 2],
    pub saku: [i64; 2],
    pub luck: [i64; 2],
    pub armor_bonus: i64,
    pub cnum: i64,
    pub buildable: bool,
    pub buildable_lsc: bool,
    pub slots: Vec<Kc3rdShipSlotInfo>,
    pub remodel: Option<Kc3rdShipRemodelRequirement>,
    pub remodel_back_to: Option<i64>,
    pub remodel_back_requirement: Option<Kc3rdShipRemodelRequirement>,
}

/// A ship card as plain values.
pub struct ShipCardView {
    pub api_id: i64,
    pub kaih: Seq<i64>,
    pub tais: Seq<i64>,
    pub saku: Seq<i64>,
    pub luck: Seq<i64>,
    pub armor_bonus: i64,
    pub cnum: i64,
    pub buildable: bool,
    pub buildable_lsc: bool,
    pub slots: Seq<Kc3rdShipSlotInfo>,
    pub remodel: Option<Kc3rdShipRemodelRequirement>,
    pub remodel_back_to: Option<i64>,
    pub remodel_back_requirement: Option<Kc3rdShipRemodelRequirement>,
}

impl View for Kc3rdShip {
    type V = ShipCardView;

    open spec fn view(&self) -> ShipCardView {
        ShipCardView {
            api_id: self.api_id,
            kaih: self.kaih@,
            tais: self.tais@,
            saku: self.saku@,
            luck: self.luck@,
            armor_bonus: self.armor_bonus,
            cnum: self.cnum,
            buildable: self.buildable,
            buildable_lsc: self.buildable_lsc,
            slots: self.slots@,
            remodel: self.remodel,
            remodel_back_to: self.remodel_back_to,
            remodel_back_requirement: self.remodel_back_requirement,
        }
    }
}

pub open spec fn or_zero(v: Option<i64>) -> i64 {
    match v {
        Some(x) => x,
        None => 0,
    }
}

/// A count written as a number or a flag: the number, else 0.
pub open spec fn int_of(b: BoolOrInt) -> i64 {
    match b {
        BoolOrInt::Int(i) => i,
        BoolOrInt::Bool(_) => 0,
    }
}

pub open spec fn opt_int_of(v: Option<BoolOrInt>) -> i64 {
    match v {
        Some(b) => int_of(b),
        None => 0,
    }
}

/// A count written as a flag: one when set.
pub open spec fn flag_count(v: Option<bool>) -> i64 {
    match v {
        Some(true) => 1,
        _ => 0,
    }
}

/// A starting slot: its size, the item it holds (0 when empty, a flag, or a
/// name the tables do not know), and the item's stars.
pub open spec fn slot_of(m: Seq<(Seq<char>, i64)>, e: Equipment) -> Kc3rdShipSlotInfo {
    Kc3rdShipSlotInfo {
        onslot: e.size,
        item_id: match e.equipment {
            Some(BoolOrString::String(v)) => match slotitem_id_of(m, v@) {
                Some(id) => id,
                None => 0,
            },
            _ => 0,
        },
        stars: or_zero(e.stars),
    }
}

pub open spec fn slots_of(m: Seq<(Seq<char>, i64)>, es: Seq<Equipment>) -> Seq<Kc3rdShipSlotInfo> {
    es.map_values(|e: Equipment| slot_of(m, e))
}

/// The remodel into this ship: only for a ship remodelled from another, at a
/// level other than 0.
pub open spec fn remodel_of(w: KcwikiShip) -> Option<Kc3rdShipRemodelRequirement> {
    if w.remodel_from is Some && int_of(w.remodel_level) != 0 {
        Some(
            Kc3rdShipRemodelRequirement {
                level: int_of(w.remodel_level),
                ammo: or_zero(w.remodel_ammo),
                steel: or_zero(w.remodel_steel),
                blueprint: opt_int_of(w.remodel_blueprint),
                catapult: opt_int_of(w.remodel_catapult),
                report: opt_int_of(w.remodel_report),
                devmat: opt_int_of(w.remodel_development_material),
                torch: opt_int_of(w.remodel_construction_material),
                aviation: opt_int_of(w.remodel_airmat),
                artillery: opt_int_of(w.remodel_gunmat),
                armament: opt_int_of(w.remodel_armament),
                boiler: or_zero(w.remodel_boiler),
                overseas: opt_int_of(w.remodel_overseas),
            },
        )
    } else {
        None
    }
}

/// The way back of a reversible remodel: the ship it returns to (0 when
/// unnamed or unknown) and what the return costs.
pub open spec fn remodel_back_of(m: Seq<(Seq<char>, i64)>, w: KcwikiShip) -> (Option<i64>, Option<Kc3rdShipRemodelRequirement>) {
    if w.reversible == Some(true) {
        (
            Some(
                match w.remodel_to {
                    BoolOrString::Bool(_) => 0,
                    BoolOrString::String(v) => match ship_id_of(m, v@) {
                        Some(id) => id,
                        None => 0,
                    },
                },
            ),
            Some(
                Kc3rdShipRemodelRequirement {
                    level: or_zero(w.remodel_to_level),
                    ammo: or_zero(w.remodel_to_ammo),
                    steel: or_zero(w.remodel_to_steel),
                    blueprint: flag_count(w.remodel_to_blueprint),
                    catapult: flag_count(w.remodel_to_catapult),
                    report: flag_count(w.remodel_to_report),
                    devmat: opt_int_of(w.remodel_to_development_material),
                    torch: or_zero(w.remodel_to_construction_material),
                    aviation: 0,
                    artillery: 0,
                    armament: 0,
                    boiler: 0,
                    overseas: 0,
                },
            ),
        )
    } else {
        (None, None)
    }
}

/// The card of one record.
pub open spec fn ship_card_of(ctx: ParseContext, w: KcwikiShip) -> ShipCardView {
    ShipCardView {
        api_id: w.api_id,
        kaih: seq![or_zero(w.evasion), or_zero(w.evasion_max)],
        tais: seq![or_zero(w.asw), opt_int_of(w.asw_max)],
        saku: seq![or_zero(w.los), or_zero(w.los_max)],
        luck: seq![w.luck, w.luck_max],
        armor_bonus: int_of(w.armor_mod),
        cnum: w.class_number,
        buildable: w.buildable == Some(true),
        buildable_lsc: w.buildable_lsc == Some(true),
        slots: slots_of(name_entries(ctx.slotitem_name_map@), w.equipment@),
        remodel: remodel_of(w),
        remodel_back_to: remodel_back_of(name_entries(ctx.ship_name_map@), w).0,
        remodel_back_requirement: remodel_back_of(name_entries(ctx.ship_name_map@), w).1,
    }
}

/// The cards keyed by ship id, a later record of an id replacing an earlier one.
pub open spec fn ship_cards_of(ctx: ParseContext, raw: Seq<(String, KcwikiShip)>) -> Map<i64, ShipCardView>
    decreases raw.len(),
{
    if raw.len() == 0 {
        Map::empty()
    } else {
        ship_cards_of(ctx, raw.drop_last()).insert(raw.last().1.api_id, ship_card_of(ctx, raw.last().1))
    }
}

pub open spec fn cards_view(m: Map<i64, Kc3rdShip>) -> Map<i64, ShipCardView> {
    m.map_values(|s: Kc3rdShip| s@)
}

fn or_zero_exec(v: Option<i64>) -> (r: i64)
    ensures
        r == or_zero(v),
{
    match v {
        Some(x) => x,
        None => 0,
    }
}

fn int_exec(b: BoolOrInt) -> (r: i64)
    ensures
        r == int_of(b),
{
    match b {
        BoolOrInt::Int(i) => i,
        BoolOrInt::Bool(_) => 0,
    }
}

fn opt_int_exec(v: Option<BoolOrInt>) -> (r: i64)
    ensures
        r == opt_int_of(v),
{
    match v {
        Some(b) => int_exec(b),
        None => 0,
    }
}

fn flag_exec(v: Option<bool>) -> (r: i64)
    ensures
        r == flag_count(v),
{
    match v {
        Some(true) => 1,
        _ => 0,
    }
}

fn starting_slots(context: &ParseContext, es: &Vec<Equipment>) -> (r: Vec<Kc3rdShipSlotInfo>)
    requires
        context.wf(),
    ensures
        r@ == slots_of(name_entries(context.slotitem_name_map@), es@),
{
    let ghost m = name_entries(context.slotitem_name_map@);
    let mut out: Vec<Kc3rdShipSlotInfo> = Vec::new();
    let mut i: usize = 0;
    while i < es.len()
        invariant
            context.wf(),
            i <= es@.len(),
            m == name_entries(context.slotitem_name_map@),
            out@ == slots_of(m, es@.take(i as int)),
        decreases es@.len() - i,
    {
        let e = &es[i];
        let item_id = match &e.equipment {
            Some(BoolOrString::String(v)) => match context.find_slotitem_id(v.as_str()) {
                Some(id) => id,
                None => 0,
            },
            _ => 0,
        };
        out.push(Kc3rdShipSlotInfo { onslot: e.size, item_id, stars: or_zero_exec(e.stars) });
        assert(out@ =~= slots_of(m, es@.take(i as int + 1)));
        i += 1;
    }
    assert(es@.take(es@.len() as int) =~= es@);
    out
}

fn ship_card(context: &ParseContext, w: &KcwikiShip) -> (s: Kc3rdShip)
    requires
        context.wf(),
    ensures
        s@ == ship_card_of(*context, *w),
{
    let remodel = if w.remodel_from.is_some() && int_exec(w.remodel_level) != 0 {
        Some(
            Kc3rdShipRemodelRequirement {
                level: int_exec(w.remodel_level),
                ammo: or_zero_exec(w.remodel_ammo),
                steel: or_zero_exec(w.remodel_steel),
                blueprint: opt_int_exec(w.remodel_blueprint),
                catapult: opt_int_exec(w.remodel_catapult),
                report: opt_int_exec(w.remodel_report),
                devmat: opt_int_exec(w.remodel_development_material),
                torch: opt_int_exec(w.remodel_construction_material),
                aviation: opt_int_exec(w.remodel_airmat),
                artillery: opt_int_exec(w.remodel_gunmat),
                armament: opt_int_exec(w.remodel_armament),
                boiler: or_zero_exec(w.remodel_boiler),
                overseas: opt_int_exec(w.remodel_overseas),
            },
        )
    } else {
        None
    };
    let (remodel_back_to, remodel_back_requirement) = if w.reversible == Some(true) {
        let to = match &w.remodel_to {
            BoolOrString::Bool(_) => 0,
            BoolOrString::String(v) => match context.find_ship_id(v.as_str()) {
                Some(id) => id,
                None => 0,
            },
        };
        (
            Some(to),
            Some(
                Kc3rdShipRemodelRequirement {
                    level: or_zero_exec(w.remodel_to_level),
                    ammo: or_zero_exec(w.remodel_to_ammo),
                    steel: or_zero_exec(w.remodel_to_steel),
                    blueprint: flag_exec(w.remodel_to_blueprint),
                    catapult: flag_exec(w.remodel_to_catapult),
                    report: flag_exec(w.remodel_to_report),
                    devmat: opt_int_exec(w.remodel_to_development_material),
                    torch: or_zero_exec(w.remodel_to_construction_material),
                    aviation: 0,
                    artillery: 0,
                    armament: 0,
                    boiler: 0,
                    overseas: 0,
                },
            ),
        )
    } else {
        (None, None)
    };
    let kaih = [or_zero_exec(w.evasion), or_zero_exec(w.evasion_max)];
    let tais = [or_zero_exec(w.asw), opt_int_exec(w.asw_max)];
    let saku = [or_zero_exec(w.los), or_zero_exec(w.los_max)];
    let luck = [w.luck, w.luck_max];
    assert(kaih@ =~= seq![or_zero(w.evasion), or_zero(w.evasion_max)]);
    assert(tais@ =~= seq![or_zero(w.asw), opt_int_of(w.asw_max)]);
    assert(saku@ =~= seq![or_zero(w.los), or_zero(w.los_max)]);
    assert(luck@ =~= seq![w.luck, w.luck_max]);
    Kc3rdShip {
        api_id: w.api_id,
        kaih,
        tais,
        saku,
        luck,
        armor_bonus: int_exec(w.armor_mod),
        cnum: w.class_number,
        buildable: w.buildable == Some(true),
        buildable_lsc: w.buildable_lsc == Some(true),
        slots: starting_slots(context, &w.equipment),
        remodel,
        remodel_back_to,
        remodel_back_requirement,
    }
}

/// The ship cards of the kcwiki ship records, keyed by ship id.
pub fn parse(context: &ParseContext, raw: &Vec<(String, KcwikiShip)>) -> (r: BTreeMap<i64, Kc3rdShip>)
    requires
        context.wf(),
    ensures
        cards_view(r@) == ship_cards_of(*context, raw@),
{
    let mut out: BTreeMap<i64, Kc3rdShip> = BTreeMap::new();
    assert(cards_view(out@) =~= Map::<i64, ShipCardView>::empty());
    let mut i: usize = 0;
    while i < raw.len()
        invariant
            context.wf(),
            i <= raw@.len(),
            cards_view(out@) == ship_cards_of(*context, raw@.take(i as int)),
        decreases raw@.len() - i,
    {
        assert(raw@.take(i as int + 1).drop_last() =~= raw@.take(i as int));
        assert(raw@.take(i as int + 1).last() == raw@[i as int]);
        let card = ship_card(context, &raw[i].1);
        let ghost before = cards_view(out@);
        let ghost cv = card@;
        let id = raw[i].1.api_id;
        out.insert(id, card);
        assert(cards_view(out@) =~= before.insert(id, cv));
        i += 1;
    }
    assert(raw@.take(raw@.len() as int) =~= raw@);
    out
}

proof fn lemma_card_of_last_record(ctx: ParseContext, raw: Seq<(String, KcwikiShip)>, k: int)
    requires
        0 <= k < raw.len(),
        forall|j: int| k < j < raw.len() ==> (#[trigger] raw[j]).1.api_id != raw[k].1.api_id,
    ensures
        ship_cards_of(ctx, raw).contains_key(raw[k].1.api_id),
        ship_cards_of(ctx, raw)[raw[k].1.api_id] == ship_card_of(ctx, raw[k].1),
    decreases raw.len(),
{
    if k < raw.len() - 1 {
        let init = raw.drop_last();
        assert forall|j: int| k < j < init.len() implies (#[trigger] init[j]).1.api_id != init[k].1.api_id by {
            assert(init[j] == raw[j]);
        }
        assert(init[k] == raw[k]);
        lemma_card_of_last_record(ctx, init, k);
        assert(raw[raw.len() - 1] == raw.last());
    }
}

/// The remodel on a card comes from the record of that ship (the last
/// record with its id): it exists exactly when the record names the ship it
/// is remodelled from at a level other than 0, and each cost is read from
/// the record's own field for it: development material from
/// `_remodel_development_material`, construction material (torch) from
/// `_remodel_construction_material`, and so on, a missing field or a flag
/// counting 0.
pub proof fn law_remodel_costs_come_from_their_own_fields(ctx: ParseContext, raw: Seq<(String, KcwikiShip)>, k: int)
    requires
        0 <= k < raw.len(),
        forall|j: int| k < j < raw.len() ==> (#[trigger] raw[j]).1.api_id != raw[k].1.api_id,
    ensures
        ({
            let w = raw[k].1;
            let card = ship_cards_of(ctx, raw)[w.api_id];
            let level = match w.remodel_level {
                BoolOrInt::Int(n) => n,
                BoolOrInt::Bool(_) => 0,
            };
            &&& ship_cards_of(ctx, raw).contains_key(w.api_id)
            &&& card.remodel is Some <==> (w.remodel_from is Some && level != 0)
            &&& card.remodel matches Some(r) ==> {
                &&& r.level == level
                &&& r.ammo == w.remodel_ammo.unwrap_or(0)
                &&& r.steel == w.remodel_steel.unwrap_or(0)
                &&& r.devmat == match w.remodel_development_material {
                    Some(BoolOrInt::Int(n)) => n,
                    _ => 0,
                }
                &&& r.torch == match w.remodel_construction_material {
                    Some(BoolOrInt::Int(n)) => n,
                    _ => 0,
                }
                &&& r.blueprint == match w.remodel_blueprint {
                    Some(BoolOrInt::Int(n)) => n,
                    _ => 0,
                }
                &&& r.catapult == match w.remodel_catapult {
                    Some(BoolOrInt::Int(n)) => n,
                    _ => 0,
                }
                &&& r.report == match w.remodel_report {
                    Some(BoolOrInt::Int(n)) => n,
                    _ => 0,
                }
                &&& r.aviation == match w.remodel_airmat {
                    Some(BoolOrInt::Int(n)) => n,
                    _ => 0,
                }
                &&& r.artillery == match w.remodel_gunmat {
                    Some(BoolOrInt::Int(n)) => n,
                    _ => 0,
                }
                &&& r.armament == match w.remodel_armament {
                    Some(BoolOrInt::Int(n)) => n,
                    _ => 0,
                }
                &&& r.overseas == match w.remodel_overseas {
                    Some(BoolOrInt::Int(n)) => n,
                    _ => 0,
                }
                &&& r.boiler == w.remodel_boiler.unwrap_or(0)
            }
        }),
{
    lemma_card_of_last_record(ctx, raw, k);
}

/// The way back of a reversible remodel comes from the same record: it is
/// there exactly when the record is marked reversible, and each cost is read
/// from the record's own `_remodel_to_...` field (a flag counting one when
/// set); a remodel back needs no aviation, gun, armament, boiler or overseas
/// material.
pub proof fn law_remodel_back_costs_come_from_their_own_fields(ctx: ParseContext, raw: Seq<(String, KcwikiShip)>, k: int)
    requires
        0 <= k < raw.len(),
        forall|j: int| k < j < raw.len() ==> (#[trigger] raw[j]).1.api_id != raw[k].1.api_id,
    ensures
        ({
            let w = raw[k].1;
            let card = ship_cards_of(ctx, raw)[w.api_id];
            &&& card.remodel_back_requirement is Some <==> w.reversible == Some(true)
            &&& card.remodel_back_to is Some <==> w.reversible == Some(true)
            &&& card.remodel_back_requirement matches Some(r) ==> {
                &&& r.level == w.remodel_to_level.unwrap_or(0)
                &&& r.ammo == w.remodel_to_ammo.unwrap_or(0)
                &&& r.steel == w.remodel_to_steel.unwrap_or(0)
                &&& r.blueprint == (if w.remodel_to_blueprint == Some(true) { 1i64 } else { 0i64 })
                &&& r.catapult == (if w.remodel_to_catapult == Some(true) { 1i64 } else { 0i64 })
                &&& r.report == (if w.remodel_to_report == Some(true) { 1i64 } else { 0i64 })
                &&& r.devmat == match w.remodel_to_development_material {
                    Some(BoolOrInt::Int(n)) => n,
                    _ => 0,
                }
                &&& r.torch == w.remodel_to_construction_material.unwrap_or(0)
                &&& r.aviation == 0 && r.artillery == 0 && r.armament == 0 && r.boiler == 0 && r.overseas == 0
            }
        }),
{
    lemma_card_of_last_record(ctx, raw, k);
}

} // verus!
