//! The kcwiki enemy data: abyssal equipment that the master data lacks, the
//! names it is known by, and the stats and loadouts of abyssal ships.
use std::collections::BTreeMap;

use vstd::prelude::*;

use crate::error::{ParseError, ParseErrorView};
use crate::kcwiki::{lemma_lookup_found, lookup, lookup_name, name_entries, slotitem_id_of, ParseContext};
use crate::kcwiki_types::{BoolOrInt, BoolOrString};
use crate::text::{chars_of, dec_i64, extend_chars, push_dec_i64, string_of};

verus! {

/// An abyssal equipment record of the kcwiki data.
#[derive(Debug, Clone, PartialEq)]
pub struct KcwikiEnemyEquipment {
    pub id: i64,
    pub japanese_name: String,
    pub name: String,
    pub item_type: i64,
    pub firepower: Option<BoolOrInt>,
    pub torpedo: Option<BoolOrInt>,
    pub aa: Option<BoolOrInt>,
    pub armor: Option<BoolOrInt>,
    pub los: Option<BoolOrInt>,
    pub asw: Option<BoolOrInt>,
    pub range: Option<BoolOrInt>,
    pub evasion: Option<BoolOrInt>,
    pub bombing: Option<BoolOrInt>,
    pub speed: Option<BoolOrInt>,
}

/// One equipment slot of an abyssal ship: the equipment's name, or `false`
/// for an empty slot, and the slot's plane capacity.
#[derive(Debug, Clone, PartialEq)]
pub struct KcwikiEnemyEquipmentSlot {
    pub equipment: BoolOrString,
    pub size: i64,
}

/// An abyssal ship record of the kcwiki data.
#[derive(Debug, Clone, PartialEq)]
pub struct KcwikiEnemyShip {
    pub api_id: i64,
    pub japanese_name: String,
    pub reading: String,
    pub ship_type: i64,
    pub hp: Option<BoolOrInt>,
    pub firepower: Option<BoolOrInt>,
    pub torpedo: Option<BoolOrInt>,
    pub aa: Option<BoolOrInt>,
    pub armor: Option<BoolOrInt>,
    pub evasion: Option<BoolOrInt>,
    pub asw: Option<BoolOrInt>,
    pub los: Option<BoolOrInt>,
    pub luck: Option<BoolOrInt>,
    pub speed: Option<BoolOrInt>,
    pub range: Option<BoolOrInt>,
    pub rarity: Option<BoolOrInt>,
    pub back: Option<BoolOrInt>,
    pub equipment: Vec<KcwikiEnemyEquipmentSlot>,
}

/// What the enemy reading takes of a slot item of the master data.
#[derive(Debug, Clone)]
pub struct ManifestSlotitemName {
    pub api_id: i64,
    pub api_name: String,
}

/// What the enemy reading takes of a ship of the master data.
#[derive(Debug, Clone)]
pub struct ManifestShipExtra {
    pub api_id: i64,
    pub api_yomi: String,
    pub api_ctype: i64,
    pub api_backs: Option<i64>,
}

/// A slot item to add to the master data for equipment it lacks; the fields
/// not listed here keep their defaults.
#[derive(Debug, Clone, PartialEq)]
pub struct EnemyManifestSlotitem {
    pub api_id: i64,
    pub api_name: String,
    pub api_type: [i64; 5],
    pub api_houg: i64,
    pub api_raig: i64,
    pub api_tyku: i64,
    pub api_souk: i64,
    pub api_saku: i64,
    pub api_tais: i64,
    pub api_houk: i64,
    pub api_baku: i64,
    pub api_soku: i64,
    pub api_leng: i64,
    pub api_sortno: i64,
    pub api_broken: [i64; 4],
    pub api_usebull: String,
}

#[derive(Debug, Clone, Copy, PartialEq, Eq, Structural)]
pub struct Kc3rdEnemyShipSlotInfo {
    pub item_id: i64,
    pub onslot: i64,
}

/// An abyssal ship's stats and loadout.
#[derive(Debug, Clone, PartialEq)]
pub struct Kc3rdEnemyShip {
    pub api_id: i64,
    pub name: String,
    pub yomi: String,
    pub stype: i64,
    pub ctype: i64,
    pub hp: i64,
    pub firepower: i64,
    pub torpedo: i64,
    pub aa: i64,
    pub armor: i64,
    pub evasion: i64,
    pub asw: i64,
    pub los: i64,
    pub luck: i64,
    pub speed: i64,
    pub range: i64,
    pub rarity: i64,
    pub backs: i64,
    pub slot_num: i64,
    pub maxeq: [i64; 5],
    pub slots: Vec<Kc3rdEnemyShipSlotInfo>,
}

/// An abyssal ship as plain values.
pub struct EnemyShipView {
    pub api_id: i64,
    pub name: Seq<char>,
    pub yomi: Seq<char>,
    pub stype: i64,
    pub ctype: i64,
    pub hp: i64,
    pub firepower: i64,
    pub torpedo: i64,
    pub aa: i64,
    pub armor: i64,
    pub evasion: i64,
    pub asw: i64,
    pub los: i64,
    pub luck: i64,
    pub speed: i64,
    pub range: i64,
    pub rarity: i64,
    pub backs: i64,
    pub slot_num: i64,
    pub maxeq: Seq<i64>,
    pub slots: Seq<Kc3rdEnemyShipSlotInfo>,
}

impl View for Kc3rdEnemyShip {
    type V = EnemyShipView;

    open spec fn view(&self) -> EnemyShipView {
        EnemyShipView {
            api_id: self.api_id,
            name: self.name@,
            yomi: self.yomi@,
            stype: self.stype,
            ctype: self.ctype,
            hp: self.hp,
            firepower: self.firepower,
            torpedo: self.torpedo,
            aa: self.aa,
            armor: self.armor,
            evasion: self.evasion,
            asw: self.asw,
            los: self.los,
            luck: self.luck,
            speed: self.speed,
            range: self.range,
            rarity: self.rarity,
            backs: self.backs,
            slot_num: self.slot_num,
            maxeq: self.maxeq@,
            slots: self.slots@,
        }
    }
}

// ---------------------------------------------------------------------------
// Values and names
// ---------------------------------------------------------------------------

/// A stat written as a number, a flag or not at all: the number, else 0.
pub open spec fn opt_value(v: Option<BoolOrInt>) -> i64 {
    match v {
        Some(BoolOrInt::Int(i)) => i,
        _ => 0,
    }
}

pub fn normalize_opt_i64(value: Option<BoolOrInt>) -> (r: i64)
    ensures
        r == opt_value(value),
{
    match value {
        Some(b) => i64::from(b),
        None => 0,
    }
}

pub open spec fn max0(x: i64) -> i64 {
    if x < 0 {
        0
    } else {
        x
    }
}

/// The table with `alias` naming `id`, unless the alias is empty or
/// already names an item.
pub open spec fn with_alias(m: Seq<(Seq<char>, i64)>, alias: Seq<char>, id: i64) -> Seq<(Seq<char>, i64)> {
    if alias.len() == 0 || lookup(m, alias) is Some {
        m
    } else {
        m.push((alias, id))
    }
}

/// Adds `alias` for slot item `id` to the name table, keeping any id the
/// alias already names.
pub fn insert_slotitem_alias(context: &mut ParseContext, alias: &str, id: i64)
    requires
        old(context).wf(),
    ensures
        final(context).wf(),
        name_entries(final(context).slotitem_name_map@) == with_alias(
            name_entries(old(context).slotitem_name_map@),
            alias@,
            id,
        ),
        final(context).useitem_name_map@ == old(context).useitem_name_map@,
        final(context).ship_name_map@ == old(context).ship_name_map@,
{
    let a = chars_of(alias);
    if a.len() == 0 {
        return;
    }
    if lookup_name(&context.slotitem_name_map, a.as_slice()).is_some() {
        return;
    }
    let ghost before = context.slotitem_name_map@;
    context.slotitem_name_map.push((string_of(a.as_slice()), id));
    assert(name_entries(context.slotitem_name_map@) =~= name_entries(before).push((alias@, id)));
    proof {
        lemma_lookup_found(name_entries(before), alias@);
        let nm = name_entries(context.slotitem_name_map@);
        assert forall|x: int, y: int| 0 <= x < y < nm.len() implies (#[trigger] nm[x]).0 != (#[trigger] nm[y]).0 by {
            if y < nm.len() - 1 {
                assert(name_entries(before)[x].0 != name_entries(before)[y].0);
            } else {
                assert(nm[x] == name_entries(before)[x]);
            }
        }
    }
}

// ---------------------------------------------------------------------------
// Equipment
// ---------------------------------------------------------------------------

/// The master data has a slot item with this id.
pub open spec fn has_slotitem(items: Seq<ManifestSlotitemName>, id: i64) -> bool {
    exists|k: int| 0 <= k < items.len() && items[k].api_id == id
}

/// The id of the first slot item of the master data, from `i` on, with this name.
pub open spec fn slotitem_named(items: Seq<ManifestSlotitemName>, name: Seq<char>, i: int) -> Option<i64>
    decreases items.len() - i,
{
    if i < 0 || i >= items.len() {
        None
    } else if items[i].api_name@ == name {
        Some(items[i].api_id)
    } else {
        slotitem_named(items, name, i + 1)
    }
}

/// The id the equipment's names stand for: its own id when the master data
/// has it, else that of the master item with its Japanese name, else its own.
pub open spec fn alias_id_of(items: Seq<ManifestSlotitemName>, eq: KcwikiEnemyEquipment) -> i64 {
    if has_slotitem(items, eq.id) {
        eq.id
    } else {
        match slotitem_named(items, eq.japanese_name@, 0) {
            Some(id) => id,
            None => eq.id,
        }
    }
}

/// Reading the equipment records in order: the name table with each
/// record's key, English name and Japanese name added, and the records
/// whose item the master data lacks under any name.
pub open spec fn equipment_scan(
    items: Seq<ManifestSlotitemName>,
    raw: Seq<(String, KcwikiEnemyEquipment)>,
    m: Seq<(Seq<char>, i64)>,
) -> (Seq<(Seq<char>, i64)>, Seq<KcwikiEnemyEquipment>)
    decreases raw.len(),
{
    if raw.len() == 0 {
        (m, Seq::empty())
    } else {
        let (m1, missing) = equipment_scan(items, raw.drop_last(), m);
        let key = raw.last().0;
        let eq = raw.last().1;
        let a = alias_id_of(items, eq);
        let m2 = with_alias(with_alias(with_alias(m1, key@, a), eq.name@, a), eq.japanese_name@, a);
        if has_slotitem(items, eq.id) || a != eq.id {
            (m2, missing)
        } else {
            (m2, missing.push(eq))
        }
    }
}

/// `s` is the master-data slot item made from the equipment record `eq`.
pub open spec fn is_slotitem_of(s: EnemyManifestSlotitem, eq: KcwikiEnemyEquipment) -> bool {
    &&& s.api_id == eq.id
    &&& s.api_name@ == eq.japanese_name@
    &&& s.api_type@ == seq![0i64, 0, eq.item_type, 0, 0]
    &&& s.api_houg == opt_value(eq.firepower)
    &&& s.api_raig == opt_value(eq.torpedo)
    &&& s.api_tyku == opt_value(eq.aa)
    &&& s.api_souk == opt_value(eq.armor)
    &&& s.api_saku == opt_value(eq.los)
    &&& s.api_tais == opt_value(eq.asw)
    &&& s.api_houk == opt_value(eq.evasion)
    &&& s.api_baku == opt_value(eq.bombing)
    &&& s.api_soku == opt_value(eq.speed)
    &&& s.api_leng == opt_value(eq.range)
    &&& s.api_sortno == eq.id
    &&& s.api_broken@ == seq![0i64, 0, 0, 0]
    &&& s.api_usebull@ == "0"@
}

fn has_slotitem_exec(items: &Vec<ManifestSlotitemName>, id: i64) -> (b: bool)
    ensures
        b == has_slotitem(items@, id),
{
    let mut i: usize = 0;
    while i < items.len()
        invariant
            i <= items@.len(),
            forall|k: int| 0 <= k < i ==> items@[k].api_id != id,
        decreases items@.len() - i,
    {
        if items[i].api_id == id {
            return true;
        }
        i += 1;
    }
    false
}

fn slotitem_named_exec(items: &Vec<ManifestSlotitemName>, name: &String) -> (r: Option<i64>)
    ensures
        r == slotitem_named(items@, name@, 0),
{
    let n = chars_of(name.as_str());
    let mut i: usize = 0;
    while i < items.len()
        invariant
            i <= items@.len(),
            n@ == name@,
            slotitem_named(items@, name@, 0) == slotitem_named(items@, name@, i as int),
        decreases items@.len() - i,
    {
        let item_name = chars_of(items[i].api_name.as_str());
        if crate::text::chars_eq(item_name.as_slice(), n.as_slice()) {
            return Some(items[i].api_id);
        }
        i += 1;
    }
    None
}

fn slotitem_of(eq: &KcwikiEnemyEquipment) -> (s: EnemyManifestSlotitem)
    ensures
        is_slotitem_of(s, *eq),
{
    let s = EnemyManifestSlotitem {
        api_id: eq.id,
        api_name: eq.japanese_name.clone(),
        api_type: [0, 0, eq.item_type, 0, 0],
        api_houg: normalize_opt_i64(eq.firepower),
        api_raig: normalize_opt_i64(eq.torpedo),
        api_tyku: normalize_opt_i64(eq.aa),
        api_souk: normalize_opt_i64(eq.armor),
        api_saku: normalize_opt_i64(eq.los),
        api_tais: normalize_opt_i64(eq.asw),
        api_houk: normalize_opt_i64(eq.evasion),
        api_baku: normalize_opt_i64(eq.bombing),
        api_soku: normalize_opt_i64(eq.speed),
        api_leng: normalize_opt_i64(eq.range),
        api_sortno: eq.id,
        api_broken: [0, 0, 0, 0],
        api_usebull: "0".to_owned(),
    };
    assert(s.api_type@ =~= seq![0i64, 0, eq.item_type, 0, 0]);
    assert(s.api_broken@ =~= seq![0i64, 0, 0, 0]);
    s
}

/// Adds the names of the abyssal equipment to the name table and returns
/// the items the master data lacks, to be added to it.
pub fn parse_enemy_equipment(
    context: &mut ParseContext,
    slotitems: &Vec<ManifestSlotitemName>,
    raw: &Vec<(String, KcwikiEnemyEquipment)>,
) -> (r: Vec<EnemyManifestSlotitem>)
    requires
        old(context).wf(),
    ensures
        name_entries(final(context).slotitem_name_map@) == equipment_scan(
            slotitems@,
            raw@,
            name_entries(old(context).slotitem_name_map@),
        ).0,
        r@.len() == equipment_scan(slotitems@, raw@, name_entries(old(context).slotitem_name_map@)).1.len(),
        forall|k: int|
            0 <= k < r@.len() ==> is_slotitem_of(
                #[trigger] r@[k],
                equipment_scan(slotitems@, raw@, name_entries(old(context).slotitem_name_map@)).1[k],
            ),
        final(context).useitem_name_map@ == old(context).useitem_name_map@,
        final(context).ship_name_map@ == old(context).ship_name_map@,
{
    let ghost m0 = name_entries(context.slotitem_name_map@);
    let mut missing: Vec<EnemyManifestSlotitem> = Vec::new();
    let ghost mut eqs: Seq<KcwikiEnemyEquipment> = Seq::empty();
    let mut i: usize = 0;
    while i < raw.len()
        invariant
            context.wf(),
            i <= raw@.len(),
            m0 == name_entries(old(context).slotitem_name_map@),
            equipment_scan(slotitems@, raw@.take(i as int), m0) == (
                name_entries(context.slotitem_name_map@),
                eqs,
            ),
            missing@.len() == eqs.len(),
            forall|k: int| 0 <= k < missing@.len() ==> is_slotitem_of(#[trigger] missing@[k], eqs[k]),
            context.useitem_name_map@ == old(context).useitem_name_map@,
            context.ship_name_map@ == old(context).ship_name_map@,
        decreases raw@.len() - i,
    {
        assert(raw@.take(i as int + 1).drop_last() =~= raw@.take(i as int));
        assert(raw@.take(i as int + 1).last() == raw@[i as int]);
        let key = &raw[i].0;
        let eq = &raw[i].1;
        let known = has_slotitem_exec(slotitems, eq.id);
        let alias_id = if known {
            eq.id
        } else {
            match slotitem_named_exec(slotitems, &eq.japanese_name) {
                Some(id) => id,
                None => eq.id,
            }
        };
        insert_slotitem_alias(context, key.as_str(), alias_id);
        insert_slotitem_alias(context, eq.name.as_str(), alias_id);
        insert_slotitem_alias(context, eq.japanese_name.as_str(), alias_id);
        if !known && alias_id == eq.id {
            let s = slotitem_of(eq);
            missing.push(s);
            proof {
                eqs = eqs.push(*eq);
            }
        }
        i += 1;
    }
    assert(raw@.take(raw@.len() as int) =~= raw@);
    missing
}

// ---------------------------------------------------------------------------
// Ships
// ---------------------------------------------------------------------------

pub open spec fn boolean_flag_message(ship: KcwikiEnemyShip) -> Seq<char> {
    "unexpected boolean enemy equipment flag for ship "@ + dec_i64(ship.api_id) + " ("@ + ship.japanese_name@
        + ")"@
}

pub open spec fn missing_equipment_message(name: Seq<char>, ship: KcwikiEnemyShip) -> Seq<char> {
    "enemy equipment `"@ + name + "` for ship "@ + dec_i64(ship.api_id) + " ("@ + ship.japanese_name@ + ")"@
}

/// The slot item a slot holds: -1 for an empty slot, the id its name
/// resolves to, or the error for a `true` flag or an unknown name.
pub open spec fn slot_item_of(m: Seq<(Seq<char>, i64)>, ship: KcwikiEnemyShip, slot: KcwikiEnemyEquipmentSlot) -> Result<
    i64,
    ParseErrorView,
> {
    match slot.equipment {
        BoolOrString::Bool(false) => Ok(-1i64),
        BoolOrString::Bool(true) => Err(ParseErrorView::Generic(boolean_flag_message(ship))),
        BoolOrString::String(name) => match slotitem_id_of(m, name@) {
            Some(id) => Ok(id),
            None => Err(ParseErrorView::KeyMissing(missing_equipment_message(name@, ship))),
        },
    }
}

fn ship_text(out: &mut Vec<char>, ship: &KcwikiEnemyShip)
    ensures
        final(out)@ == old(out)@ + dec_i64(ship.api_id) + " ("@ + ship.japanese_name@ + ")"@,
{
    let ghost start = out@;
    push_dec_i64(out, ship.api_id);
    extend_chars(out, chars_of(" (").as_slice());
    extend_chars(out, chars_of(ship.japanese_name.as_str()).as_slice());
    extend_chars(out, chars_of(")").as_slice());
    assert(out@ =~= start + dec_i64(ship.api_id) + " ("@ + ship.japanese_name@ + ")"@);
}

pub fn enemy_slot_item_id(context: &ParseContext, ship: &KcwikiEnemyShip, slot: &KcwikiEnemyEquipmentSlot) -> (r: Result<
    i64,
    ParseError,
>)
    requires
        context.wf(),
    ensures
        match r {
            Ok(id) => slot_item_of(name_entries(context.slotitem_name_map@), *ship, *slot) == Ok::<
                i64,
                ParseErrorView,
            >(id),
            Err(e) => slot_item_of(name_entries(context.slotitem_name_map@), *ship, *slot) == Err::<
                i64,
                ParseErrorView,
            >(e@),
        },
{
    match &slot.equipment {
        BoolOrString::Bool(false) => Ok(-1),
        BoolOrString::Bool(true) => {
            let mut m = chars_of("unexpected boolean enemy equipment flag for ship ");
            let ghost head = m@;
            ship_text(&mut m, ship);
            assert(m@ =~= boolean_flag_message(*ship));
            Err(ParseError::Generic(string_of(m.as_slice())))
        },
        BoolOrString::String(name) => match context.find_slotitem_id(name.as_str()) {
            Some(id) => Ok(id),
            None => {
                let mut m = chars_of("enemy equipment `");
                extend_chars(&mut m, chars_of(name.as_str()).as_slice());
                extend_chars(&mut m, chars_of("` for ship ").as_slice());
                ship_text(&mut m, ship);
                assert(m@ =~= missing_equipment_message(name@, *ship));
                Err(ParseError::KeyMissing(string_of(m.as_slice())))
            },
        },
    }
}

/// The first five slots; a ship has no more.
pub open spec fn first_five(s: Seq<KcwikiEnemyEquipmentSlot>) -> Seq<KcwikiEnemyEquipmentSlot> {
    if s.len() <= 5 {
        s
    } else {
        s.take(5)
    }
}

/// The loaded slots of the listed ones, in order, or the first slot's error.
pub open spec fn slots_of(m: Seq<(Seq<char>, i64)>, ship: KcwikiEnemyShip, slots: Seq<KcwikiEnemyEquipmentSlot>) -> Result<
    Seq<Kc3rdEnemyShipSlotInfo>,
    ParseErrorView,
>
    decreases slots.len(),
{
    if slots.len() == 0 {
        Ok(Seq::empty())
    } else {
        match slots_of(m, ship, slots.drop_last()) {
            Err(e) => Err(e),
            Ok(acc) => match slot_item_of(m, ship, slots.last()) {
                Err(e) => Err(e),
                Ok(id) => Ok(
                    if id > 0 {
                        acc.push(Kc3rdEnemyShipSlotInfo { item_id: id, onslot: max0(slots.last().size) })
                    } else {
                        acc
                    },
                ),
            },
        }
    }
}

/// The plane capacity of slot `k`; 0 past the listed slots.
pub open spec fn slot_size(s: Seq<KcwikiEnemyEquipmentSlot>, k: int) -> i64 {
    if k < s.len() {
        max0(s[k].size)
    } else {
        0
    }
}

/// Where the first master-data ship with this id stands, from `i` on.
pub open spec fn ship_index(ships: Seq<ManifestShipExtra>, id: i64, i: int) -> Option<int>
    decreases ships.len() - i,
{
    if i < 0 || i >= ships.len() {
        None
    } else if ships[i].api_id == id {
        Some(i)
    } else {
        ship_index(ships, id, i + 1)
    }
}

/// The ship's card: its stats from the kcwiki record, its reading, class and
/// silhouette from the master data where the record has none.
pub open spec fn enemy_ship_of(m: Seq<(Seq<char>, i64)>, mst: Seq<ManifestShipExtra>, ship: KcwikiEnemyShip) -> Result<
    EnemyShipView,
    ParseErrorView,
> {
    match slots_of(m, ship, first_five(ship.equipment@)) {
        Err(e) => Err(e),
        Ok(slots) => {
            let found = ship_index(mst, ship.api_id, 0);
            let rarity = opt_value(ship.rarity);
            let back = opt_value(ship.back);
            let backs = if back >= 0 {
                back
            } else {
                match found {
                    Some(k) => match mst[k].api_backs {
                        Some(b) => b,
                        None => max0(rarity),
                    },
                    None => max0(rarity),
                }
            };
            Ok(
                EnemyShipView {
                    api_id: ship.api_id,
                    name: ship.japanese_name@,
                    yomi: if ship.reading@.len() == 0 {
                        match found {
                            Some(k) => mst[k].api_yomi@,
                            None => Seq::empty(),
                        }
                    } else {
                        ship.reading@
                    },
                    stype: ship.ship_type,
                    ctype: match found {
                        Some(k) => mst[k].api_ctype,
                        None => 0,
                    },
                    hp: opt_value(ship.hp),
                    firepower: opt_value(ship.firepower),
                    torpedo: opt_value(ship.torpedo),
                    aa: opt_value(ship.aa),
                    armor: opt_value(ship.armor),
                    evasion: opt_value(ship.evasion),
                    asw: opt_value(ship.asw),
                    los: opt_value(ship.los),
                    luck: opt_value(ship.luck),
                    speed: opt_value(ship.speed),
                    range: opt_value(ship.range),
                    rarity,
                    backs,
                    slot_num: first_five(ship.equipment@).len() as i64,
                    maxeq: Seq::new(5, |k: int| slot_size(ship.equipment@, k)),
                    slots,
                },
            )
        },
    }
}

/// The ships keyed by id, a later record of an id replacing an earlier one;
/// or the error of the first slot that cannot be read.
pub open spec fn enemy_ships_of(
    m: Seq<(Seq<char>, i64)>,
    mst: Seq<ManifestShipExtra>,
    raw: Seq<(String, KcwikiEnemyShip)>,
) -> Result<Map<i64, EnemyShipView>, ParseErrorView>
    decreases raw.len(),
{
    if raw.len() == 0 {
        Ok(Map::empty())
    } else {
        match enemy_ships_of(m, mst, raw.drop_last()) {
            Err(e) => Err(e),
            Ok(acc) => match enemy_ship_of(m, mst, raw.last().1) {
                Err(e) => Err(e),
                Ok(v) => Ok(acc.insert(v.api_id, v)),
            },
        }
    }
}

pub open spec fn ships_view(m: Map<i64, Kc3rdEnemyShip>) -> Map<i64, EnemyShipView> {
    m.map_values(|s: Kc3rdEnemyShip| s@)
}

fn ship_index_exec(ships: &Vec<ManifestShipExtra>, id: i64) -> (r: Option<usize>)
    ensures
        match r {
            Some(k) => ship_index(ships@, id, 0) == Some(k as int) && k < ships@.len(),
            None => ship_index(ships@, id, 0) is None,
        },
{
    let mut i: usize = 0;
    while i < ships.len()
        invariant
            i <= ships@.len(),
            ship_index(ships@, id, 0) == ship_index(ships@, id, i as int),
        decreases ships@.len() - i,
    {
        if ships[i].api_id == id {
            return Some(i);
        }
        i += 1;
    }
    None
}

proof fn lemma_slots_stay_failed(
    m: Seq<(Seq<char>, i64)>,
    ship: KcwikiEnemyShip,
    slots: Seq<KcwikiEnemyEquipmentSlot>,
    k: int,
)
    requires
        0 <= k <= slots.len(),
        slots_of(m, ship, slots.take(k)) is Err,
    ensures
        slots_of(m, ship, slots) == slots_of(m, ship, slots.take(k)),
    decreases slots.len() - k,
{
    if k < slots.len() {
        assert(slots.take(k + 1).drop_last() =~= slots.take(k));
        lemma_slots_stay_failed(m, ship, slots, k + 1);
    } else {
        assert(slots.take(k) =~= slots);
    }
}

fn slot_size_exec(s: &Vec<KcwikiEnemyEquipmentSlot>, k: usize) -> (r: i64)
    ensures
        r == slot_size(s@, k as int),
{
    if k < s.len() {
        if s[k].size < 0 {
            0
        } else {
            s[k].size
        }
    } else {
        0
    }
}

fn enemy_ship(context: &ParseContext, ships: &Vec<ManifestShipExtra>, ship: &KcwikiEnemyShip) -> (r: Result<
    Kc3rdEnemyShip,
    ParseError,
>)
    requires
        context.wf(),
    ensures
        match r {
            Ok(s) => enemy_ship_of(name_entries(context.slotitem_name_map@), ships@, *ship) == Ok::<
                EnemyShipView,
                ParseErrorView,
            >(s@),
            Err(e) => enemy_ship_of(name_entries(context.slotitem_name_map@), ships@, *ship) == Err::<
                EnemyShipView,
                ParseErrorView,
            >(e@),
        },
{
    let ghost m = name_entries(context.slotitem_name_map@);
    let ghost listed = first_five(ship.equipment@);
    let n: usize = if ship.equipment.len() <= 5 {
        ship.equipment.len()
    } else {
        5
    };
    assert(listed.len() == n);
    let mut slots: Vec<Kc3rdEnemyShipSlotInfo> = Vec::new();
    let mut idx: usize = 0;
    while idx < n
        invariant
            context.wf(),
            idx <= n,
            n == listed.len(),
            n <= ship.equipment@.len(),
            listed == first_five(ship.equipment@),
            m == name_entries(context.slotitem_name_map@),
            slots_of(m, *ship, listed.take(idx as int)) == Ok::<Seq<Kc3rdEnemyShipSlotInfo>, ParseErrorView>(
                slots@,
            ),
        decreases n - idx,
    {
        assert(listed.take(idx as int + 1).drop_last() =~= listed.take(idx as int));
        assert(listed.take(idx as int + 1).last() == ship.equipment@[idx as int]);
        let slot = &ship.equipment[idx];
        match enemy_slot_item_id(context, ship, slot) {
            Ok(item_id) => {
                if item_id > 0 {
                    slots.push(
                        Kc3rdEnemyShipSlotInfo {
                            item_id,
                            onslot: if slot.size < 0 {
                                0
                            } else {
                                slot.size
                            },
                        },
                    );
                }
            },
            Err(e) => {
                proof {
                    lemma_slots_stay_failed(m, *ship, listed, idx as int + 1);
                }
                return Err(e);
            },
        }
        idx += 1;
    }
    assert(listed.take(n as int) =~= listed);
    let found = ship_index_exec(ships, ship.api_id);
    let rarity = normalize_opt_i64(ship.rarity);
    let back = normalize_opt_i64(ship.back);
    let backs = if back >= 0 {
        back
    } else {
        match found {
            Some(k) => match ships[k].api_backs {
                Some(b) => b,
                None => if rarity < 0 {
                    0
                } else {
                    rarity
                },
            },
            None => if rarity < 0 {
                0
            } else {
                rarity
            },
        }
    };
    let reading = chars_of(ship.reading.as_str());
    let yomi = if reading.len() == 0 {
        match found {
            Some(k) => ships[k].api_yomi.clone(),
            None => String::new(),
        }
    } else {
        ship.reading.clone()
    };
    let ctype = match found {
        Some(k) => ships[k].api_ctype,
        None => 0,
    };
    let maxeq = [
        slot_size_exec(&ship.equipment, 0),
        slot_size_exec(&ship.equipment, 1),
        slot_size_exec(&ship.equipment, 2),
        slot_size_exec(&ship.equipment, 3),
        slot_size_exec(&ship.equipment, 4),
    ];
    assert(maxeq@ =~= Seq::new(5, |k: int| slot_size(ship.equipment@, k)));
    let s = Kc3rdEnemyShip {
        api_id: ship.api_id,
        name: ship.japanese_name.clone(),
        yomi,
        stype: ship.ship_type,
        ctype,
        hp: normalize_opt_i64(ship.hp),
        firepower: normalize_opt_i64(ship.firepower),
        torpedo: normalize_opt_i64(ship.torpedo),
        aa: normalize_opt_i64(ship.aa),
        armor: normalize_opt_i64(ship.armor),
        evasion: normalize_opt_i64(ship.evasion),
        asw: normalize_opt_i64(ship.asw),
        los: normalize_opt_i64(ship.los),
        luck: normalize_opt_i64(ship.luck),
        speed: normalize_opt_i64(ship.speed),
        range: normalize_opt_i64(ship.range),
        rarity,
        backs,
        slot_num: n as i64,
        maxeq,
        slots,
    };
    Ok(s)
}

proof fn lemma_ships_stay_failed(
    m: Seq<(Seq<char>, i64)>,
    mst: Seq<ManifestShipExtra>,
    raw: Seq<(String, KcwikiEnemyShip)>,
    k: int,
)
    requires
        0 <= k <= raw.len(),
        enemy_ships_of(m, mst, raw.take(k)) is Err,
    ensures
        enemy_ships_of(m, mst, raw) == enemy_ships_of(m, mst, raw.take(k)),
    decreases raw.len() - k,
{
    if k < raw.len() {
        assert(raw.take(k + 1).drop_last() =~= raw.take(k));
        lemma_ships_stay_failed(m, mst, raw, k + 1);
    } else {
        assert(raw.take(k) =~= raw);
    }
}

/// The abyssal ships keyed by id; the error of the first slot whose
/// equipment cannot be resolved.
pub fn parse_enemy_ships(
    context: &ParseContext,
    ships: &Vec<ManifestShipExtra>,
    raw: &Vec<(String, KcwikiEnemyShip)>,
) -> (r: Result<BTreeMap<i64, Kc3rdEnemyShip>, ParseError>)
    requires
        context.wf(),
    ensures
        match r {
            Ok(map) => enemy_ships_of(name_entries(context.slotitem_name_map@), ships@, raw@) == Ok::<
                Map<i64, EnemyShipView>,
                ParseErrorView,
            >(ships_view(map@)),
            Err(e) => enemy_ships_of(name_entries(context.slotitem_name_map@), ships@, raw@) == Err::<
                Map<i64, EnemyShipView>,
                ParseErrorView,
            >(e@),
        },
{
    let ghost m = name_entries(context.slotitem_name_map@);
    let mut out: BTreeMap<i64, Kc3rdEnemyShip> = BTreeMap::new();
    assert(ships_view(out@) =~= Map::<i64, EnemyShipView>::empty());
    let mut i: usize = 0;
    while i < raw.len()
        invariant
            context.wf(),
            i <= raw@.len(),
            m == name_entries(context.slotitem_name_map@),
            enemy_ships_of(m, ships@, raw@.take(i as int)) == Ok::<Map<i64, EnemyShipView>, ParseErrorView>(
                ships_view(out@),
            ),
        decreases raw@.len() - i,
    {
        assert(raw@.take(i as int + 1).drop_last() =~= raw@.take(i as int));
        assert(raw@.take(i as int + 1).last() == raw@[i as int]);
        match enemy_ship(context, ships, &raw[i].1) {
            Ok(s) => {
                let ghost before = ships_view(out@);
                let ghost sv = s@;
                let id = s.api_id;
                out.insert(id, s);
                assert(ships_view(out@) =~= before.insert(sv.api_id, sv));
            },
            Err(e) => {
                proof {
                    lemma_ships_stay_failed(m, ships@, raw@, i as int + 1);
                }
                return Err(e);
            },
        }
        i += 1;
    }
    assert(raw@.take(raw@.len() as int) =~= raw@);
    Ok(out)
}


// ---------------------------------------------------------------------------
// What the name table keeps
// ---------------------------------------------------------------------------

proof fn lemma_with_alias_keeps(m: Seq<(Seq<char>, i64)>, alias: Seq<char>, id: i64, name: Seq<char>)
    ensures
        lookup(m, name) is Some ==> lookup(with_alias(m, alias, id), name) == lookup(m, name),
{
    if lookup(m, name) is Some && !(alias.len() == 0 || lookup(m, alias) is Some) {
        let m2 = m.push((alias, id));
        assert(m2.drop_last() =~= m);
        assert(m2.last() == (alias, id));
    }
}

/// Reading the abyssal equipment only adds names: every name the table
/// already had keeps the id it had.
pub proof fn law_known_names_keep_their_ids(
    items: Seq<ManifestSlotitemName>,
    raw: Seq<(String, KcwikiEnemyEquipment)>,
    m: Seq<(Seq<char>, i64)>,
    name: Seq<char>,
)
    ensures
        lookup(m, name) is Some ==> lookup(equipment_scan(items, raw, m).0, name) == lookup(m, name),
    decreases raw.len(),
{
    if raw.len() > 0 {
        law_known_names_keep_their_ids(items, raw.drop_last(), m, name);
        let m1 = equipment_scan(items, raw.drop_last(), m).0;
        let key = raw.last().0;
        let eq = raw.last().1;
        let a = alias_id_of(items, eq);
        let ma = with_alias(m1, key@, a);
        let mb = with_alias(ma, eq.name@, a);
        lemma_with_alias_keeps(m1, key@, a, name);
        lemma_with_alias_keeps(ma, eq.name@, a, name);
        lemma_with_alias_keeps(mb, eq.japanese_name@, a, name);
    }
}

} // verus!
