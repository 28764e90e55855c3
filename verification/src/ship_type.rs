//! The ship-type names a wiki map page writes in its route conditions, and
//! the ship-type ids of the master data they stand for.
use vstd::prelude::*;

use crate::node_label::{normalize_text, normalized};
use crate::text::{chars_of, string_of};

verus! {

/// What the lookup takes of a ship type of the master data.
#[derive(Debug, Clone)]
pub struct ManifestShipType {
    pub api_id: i64,
    pub api_name: String,
}

/// Ship-type names and the id each stands for. The table reads like a map
/// whose later entries replace earlier ones with the same name.
#[derive(Debug, Clone)]
pub struct ShipTypeResolver {
    pub aliases: Vec<(String, i64)>,
}

pub type AliasEntries = Seq<(Seq<char>, i64)>;

impl View for ShipTypeResolver {
    type V = AliasEntries;

    open spec fn view(&self) -> AliasEntries {
        self.aliases@.map_values(|e: (String, i64)| (e.0@, e.1))
    }
}

/// The id the last entry named `key` gives, if any.
pub open spec fn alias_lookup(es: AliasEntries, key: Seq<char>) -> Option<i64>
    decreases es.len(),
{
    if es.len() == 0 {
        None
    } else if es.last().0 == key {
        Some(es.last().1)
    } else {
        alias_lookup(es.drop_last(), key)
    }
}

/// The master data's own names, normalised; a name that normalises to
/// nothing gives no entry.
pub open spec fn base_aliases(stypes: Seq<(Seq<char>, i64)>) -> AliasEntries
    decreases stypes.len(),
{
    if stypes.len() == 0 {
        Seq::empty()
    } else {
        let prev = base_aliases(stypes.drop_last());
        let name = normalized(stypes.last().0);
        if name.len() > 0 {
            prev.push((name, stypes.last().1))
        } else {
            prev
        }
    }
}

/// The short names the wiki writes, each with the master-data name it
/// abbreviates.
pub open spec fn short_names() -> Seq<(Seq<char>, Seq<char>)> {
    seq![
        ("海防"@, "海防艦"@),
        ("駆逐"@, "駆逐艦"@),
        ("軽巡"@, "軽巡洋艦"@),
        ("練巡"@, "練習巡洋艦"@),
        ("雷巡"@, "重雷装巡洋艦"@),
        ("重巡"@, "重巡洋艦"@),
        ("航巡"@, "航空巡洋艦"@),
        ("軽空母"@, "軽空母"@),
        ("正規空母"@, "正規空母"@),
        ("戦艦"@, "戦艦"@),
        ("高速戦艦"@, "高速戦艦"@),
        ("航空戦艦"@, "航空戦艦"@),
        ("潜水艦"@, "潜水艦"@),
        ("潜水空母"@, "潜水空母"@),
        ("補給"@, "補給艦"@),
        ("補給艦"@, "補給艦"@),
        ("水母"@, "水上機母艦"@),
        ("揚陸艦"@, "揚陸艦"@),
        ("工作艦"@, "工作艦"@),
    ]
}

/// The table after the short names, in order: each short name whose
/// abbreviated name is known by then gets that name's id.
pub open spec fn with_short_names(es: AliasEntries, table: Seq<(Seq<char>, Seq<char>)>) -> AliasEntries
    decreases table.len(),
{
    if table.len() == 0 {
        es
    } else {
        let prev = with_short_names(es, table.drop_last());
        match alias_lookup(prev, table.last().1) {
            Some(id) => prev.push((table.last().0, id)),
            None => prev,
        }
    }
}

pub open spec fn stype_views(stypes: Seq<ManifestShipType>) -> Seq<(Seq<char>, i64)> {
    stypes.map_values(|s: ManifestShipType| (s.api_name@, s.api_id))
}

/// The full table for the master data's ship types.
pub open spec fn ship_type_aliases(stypes: Seq<ManifestShipType>) -> AliasEntries {
    with_short_names(base_aliases(stype_views(stypes)), short_names())
}

/// The id a written ship-type name stands for: its normalised form, or that
/// form without a trailing `艦`.
pub open spec fn ship_type_of(es: AliasEntries, raw: Seq<char>) -> Option<i64> {
    let token = normalized(raw);
    match alias_lookup(es, token) {
        Some(id) => Some(id),
        None => if token.len() > 0 && token.last() == '艦' {
            alias_lookup(es, token.drop_last())
        } else {
            None
        },
    }
}

fn lookup_exec(aliases: &Vec<(String, i64)>, key: &String) -> (r: Option<i64>)
    ensures
        r == alias_lookup(aliases@.map_values(|e: (String, i64)| (e.0@, e.1)), key@),
{
    let ghost es = aliases@.map_values(|e: (String, i64)| (e.0@, e.1));
    let mut j: usize = aliases.len();
    assert(es.take(j as int) =~= es);
    while j > 0
        invariant
            j <= aliases@.len(),
            es == aliases@.map_values(|e: (String, i64)| (e.0@, e.1)),
            alias_lookup(es, key@) == alias_lookup(es.take(j as int), key@),
        decreases j,
    {
        let ghost t = es.take(j as int);
        assert(t.drop_last() =~= es.take(j as int - 1));
        assert(t.last() == es[j as int - 1]);
        if aliases[j - 1].0 == *key {
            return Some(aliases[j - 1].1);
        }
        j -= 1;
    }
    assert(es.take(0) =~= Seq::<(Seq<char>, i64)>::empty());
    None
}

impl ShipTypeResolver {
    /// The table for the master data's ship types: their own names, then the
    /// short names the wiki writes for them.
    pub fn new(stypes: &[ManifestShipType]) -> (r: ShipTypeResolver)
        ensures
            r@ == ship_type_aliases(stypes@),
    {
        let mut aliases: Vec<(String, i64)> = Vec::new();
        let ghost sv = stype_views(stypes@);
        let mut i: usize = 0;
        while i < stypes.len()
            invariant
                i <= stypes@.len(),
                sv == stype_views(stypes@),
                aliases@.map_values(|e: (String, i64)| (e.0@, e.1)) == base_aliases(sv.take(i as int)),
            decreases stypes@.len() - i,
        {
            assert(sv.take(i as int + 1).drop_last() =~= sv.take(i as int));
            assert(sv.take(i as int + 1).last() == sv[i as int]);
            let name = normalize_text(stypes[i].api_name.as_str());
            if name.as_str().unicode_len() > 0 {
                let ghost before = aliases@;
                aliases.push((name, stypes[i].api_id));
                assert(aliases@.map_values(|e: (String, i64)| (e.0@, e.1)) =~= before.map_values(
                    |e: (String, i64)| (e.0@, e.1),
                ).push((name@, stypes@[i as int].api_id)));
            } else {
                assert(name@.len() == 0);
            }
            i += 1;
        }
        assert(sv.take(sv.len() as int) =~= sv);
        let table: Vec<(&str, &str)> = vec![
            ("海防", "海防艦"),
            ("駆逐", "駆逐艦"),
            ("軽巡", "軽巡洋艦"),
            ("練巡", "練習巡洋艦"),
            ("雷巡", "重雷装巡洋艦"),
            ("重巡", "重巡洋艦"),
            ("航巡", "航空巡洋艦"),
            ("軽空母", "軽空母"),
            ("正規空母", "正規空母"),
            ("戦艦", "戦艦"),
            ("高速戦艦", "高速戦艦"),
            ("航空戦艦", "航空戦艦"),
            ("潜水艦", "潜水艦"),
            ("潜水空母", "潜水空母"),
            ("補給", "補給艦"),
            ("補給艦", "補給艦"),
            ("水母", "水上機母艦"),
            ("揚陸艦", "揚陸艦"),
            ("工作艦", "工作艦"),
        ];
        let ghost tv = table@.map_values(|p: (&str, &str)| (p.0@, p.1@));
        assert(tv =~= short_names());
        let ghost base = aliases@.map_values(|e: (String, i64)| (e.0@, e.1));
        let mut k: usize = 0;
        while k < table.len()
            invariant
                k <= table@.len(),
                tv == table@.map_values(|p: (&str, &str)| (p.0@, p.1@)),
                aliases@.map_values(|e: (String, i64)| (e.0@, e.1)) == with_short_names(
                    base,
                    tv.take(k as int),
                ),
            decreases table@.len() - k,
        {
            assert(tv.take(k as int + 1).drop_last() =~= tv.take(k as int));
            assert(tv.take(k as int + 1).last() == tv[k as int]);
            let canonical = string_of(chars_of(table[k].1).as_slice());
            match lookup_exec(&aliases, &canonical) {
                Some(id) => {
                    let ghost before = aliases@;
                    let alias = string_of(chars_of(table[k].0).as_slice());
                    aliases.push((alias, id));
                    assert(aliases@.map_values(|e: (String, i64)| (e.0@, e.1)) =~= before.map_values(
                        |e: (String, i64)| (e.0@, e.1),
                    ).push((tv[k as int].0, id)));
                },
                None => {},
            }
            k += 1;
        }
        assert(tv.take(tv.len() as int) =~= tv);
        ShipTypeResolver { aliases }
    }

    /// The ship-type id a written name stands for.
    pub fn resolve(&self, raw: &str) -> (r: Option<i64>)
        ensures
            r == ship_type_of(self@, raw@),
    {
        let token = normalize_text(raw);
        match lookup_exec(&self.aliases, &token) {
            Some(id) => Some(id),
            None => {
                let chars = chars_of(token.as_str());
                let n = chars.len();
                if n > 0 && chars[n - 1] == '艦' {
                    let mut trimmed: Vec<char> = Vec::new();
                    let mut i: usize = 0;
                    while i < n - 1
                        invariant
                            n == chars@.len(),
                            n > 0,
                            i <= n - 1,
                            trimmed@ == chars@.take(i as int),
                        decreases n - 1 - i,
                    {
                        trimmed.push(chars[i]);
                        assert(trimmed@ =~= chars@.take(i as int + 1));
                        i += 1;
                    }
                    assert(trimmed@ =~= token@.drop_last());
                    let key = string_of(trimmed.as_slice());
                    lookup_exec(&self.aliases, &key)
                } else {
                    None
                }
            },
        }
    }
}

} // verus!
