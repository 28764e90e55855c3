//! Rebuilds a map's cell graph from the tsunkit navigator's map data: the
//! nodes it draws, the routes between them, the battles it has seen and the
//! enemy fleets it has recorded per node.
//!
//! The navigator's files are read elsewhere; here they arrive decoded, the
//! records of each keyed table in key order.
use vstd::prelude::*;

use crate::map_route_rules::{insert_sorted_exec, lemma_sorted_set_contains, sorted_set_exec, sorted_set_of};
use crate::route_model::{EnemyComposition, EnemyFleetDefinition, MapCellDefinition, MapVariantDefinition};
use crate::text::{
    chars_eq, chars_of, copy_range, parse_i64_chars, dec_digits, dec_i64, extend_chars, parse_i64, parse_i64_str, push_dec_i64,
    push_dec_u64, string_of,
};

verus! {

/// A node of the navigator's map: its key, its position, and its label.
#[derive(Debug, Clone)]
pub struct TsunkitSpot {
    pub key: String,
    pub x: i64,
    pub y: i64,
    pub label: Option<String>,
}

/// A route between two node keys; no origin means the sortie point.
#[derive(Debug, Clone)]
pub struct TsunkitRoute {
    pub from: Option<String>,
    pub to: String,
}

/// A spot as the map is drawn: its position, and its cell number and colour when it has them.
#[derive(Debug, Clone)]
pub struct TsunkitRenderedSpot {
    pub x: i64,
    pub y: i64,
    pub no: Option<i64>,
    pub color: Option<i64>,
}

/// The navigator's record of one map.
#[derive(Debug, Clone)]
pub struct TsunkitMapResult {
    /// Routes in key order.
    pub route: Vec<TsunkitRoute>,
    /// Nodes in key order, each key once.
    pub spots: Vec<TsunkitSpot>,
    pub rendered: Vec<TsunkitRenderedSpot>,
    /// Cell numbers of the drawn enemy markers.
    pub enemies: Vec<i64>,
    /// Cell numbers of the drawn air raid markers.
    pub airraids: Vec<i64>,
}

/// One recorded enemy composition of a node.
#[derive(Debug, Clone)]
pub struct TsunkitEnemyCompEntry {
    pub node: String,
    pub main_fleet: Vec<i64>,
    pub escort_fleet: Vec<i64>,
    pub formation: i64,
    pub count: i64,
    pub master_id: i64,
}

/// The battles the navigator has seen at one cell (keyed by its number as text).
#[derive(Debug, Clone)]
pub struct TsunkitNodeSummaryEntry {
    pub key: String,
    pub battles: i64,
}

pub open spec fn is_start_label(label: Option<String>) -> bool {
    match label {
        Some(l) => l@ == "Start"@,
        None => false,
    }
}

/// The cell number drawn at a position: the last numbered spot there.
pub open spec fn coord_cell(rendered: Seq<TsunkitRenderedSpot>, x: i64, y: i64) -> Option<i64>
    decreases rendered.len(),
{
    if rendered.len() == 0 {
        None
    } else {
        let r = rendered.last();
        if r.no is Some && r.x == x && r.y == y {
            r.no
        } else {
            coord_cell(rendered.drop_last(), x, y)
        }
    }
}

/// The colour drawn for a cell number: that of the last spot with the number.
pub open spec fn rendered_color(rendered: Seq<TsunkitRenderedSpot>, no: i64) -> Option<Option<i64>>
    decreases rendered.len(),
{
    if rendered.len() == 0 {
        None
    } else if rendered.last().no == Some(no) {
        Some(rendered.last().color)
    } else {
        rendered_color(rendered.drop_last(), no)
    }
}

/// The nodes that are not the sortie point and sit on a numbered spot, with
/// their cell numbers, in key order.
pub open spec fn node_cells(spots: Seq<TsunkitSpot>, rendered: Seq<TsunkitRenderedSpot>) -> Seq<(Seq<char>, i64)>
    decreases spots.len(),
{
    if spots.len() == 0 {
        Seq::empty()
    } else {
        let acc = node_cells(spots.drop_last(), rendered);
        let s = spots.last();
        if is_start_label(s.label) {
            acc
        } else {
            match coord_cell(rendered, s.x, s.y) {
                Some(c) => acc.push((s.key@, c)),
                None => acc,
            }
        }
    }
}

/// A key of the sortie point.
pub open spec fn is_start_key(spots: Seq<TsunkitSpot>, key: Seq<char>) -> bool {
    exists|i: int| 0 <= i < spots.len() && (#[trigger] spots[i]).key@ == key && is_start_label(spots[i].label)
}

/// The cell of a node key.
pub open spec fn node_cell(nodes: Seq<(Seq<char>, i64)>, key: Seq<char>) -> Option<i64>
    decreases nodes.len(),
{
    if nodes.len() == 0 {
        None
    } else if nodes.last().0 == key {
        Some(nodes.last().1)
    } else {
        node_cell(nodes.drop_last(), key)
    }
}

pub open spec fn node_views(v: Seq<(String, i64)>) -> Seq<(Seq<char>, i64)> {
    v.map_values(|e: (String, i64)| (e.0@, e.1))
}

fn is_start(label: &Option<String>) -> (b: bool)
    ensures
        b == is_start_label(*label),
{
    match label {
        Some(l) => chars_eq(chars_of(l.as_str()).as_slice(), chars_of("Start").as_slice()),
        None => false,
    }
}

fn coord_cell_of(rendered: &Vec<TsunkitRenderedSpot>, x: i64, y: i64) -> (r: Option<i64>)
    ensures
        r == coord_cell(rendered@, x, y),
{
    let mut i = rendered.len();
    assert(rendered@.take(i as int) =~= rendered@);
    while i > 0
        invariant
            i <= rendered@.len(),
            coord_cell(rendered@, x, y) == coord_cell(rendered@.take(i as int), x, y),
        decreases i,
    {
        assert(rendered@.take(i as int).drop_last() =~= rendered@.take(i as int - 1));
        assert(rendered@.take(i as int).last() == rendered@[i - 1]);
        let r = &rendered[i - 1];
        if r.no.is_some() && r.x == x && r.y == y {
            return r.no;
        }
        i -= 1;
    }
    None
}

fn rendered_color_of(rendered: &Vec<TsunkitRenderedSpot>, no: i64) -> (r: Option<Option<i64>>)
    ensures
        r == rendered_color(rendered@, no),
{
    let mut i = rendered.len();
    assert(rendered@.take(i as int) =~= rendered@);
    while i > 0
        invariant
            i <= rendered@.len(),
            rendered_color(rendered@, no) == rendered_color(rendered@.take(i as int), no),
        decreases i,
    {
        assert(rendered@.take(i as int).drop_last() =~= rendered@.take(i as int - 1));
        assert(rendered@.take(i as int).last() == rendered@[i - 1]);
        let r = &rendered[i - 1];
        if r.no == Some(no) {
            return Some(r.color);
        }
        i -= 1;
    }
    None
}

fn node_cells_of(spots: &Vec<TsunkitSpot>, rendered: &Vec<TsunkitRenderedSpot>) -> (r: Vec<(String, i64)>)
    ensures
        node_views(r@) == node_cells(spots@, rendered@),
{
    let mut out: Vec<(String, i64)> = Vec::new();
    let mut i: usize = 0;
    while i < spots.len()
        invariant
            i <= spots@.len(),
            node_views(out@) == node_cells(spots@.take(i as int), rendered@),
        decreases spots@.len() - i,
    {
        assert(spots@.take(i as int + 1).drop_last() =~= spots@.take(i as int));
        assert(spots@.take(i as int + 1).last() == spots@[i as int]);
        let s = &spots[i];
        if !is_start(&s.label) {
            match coord_cell_of(rendered, s.x, s.y) {
                Some(c) => {
                    let ghost before = node_views(out@);
                    out.push((s.key.clone(), c));
                    assert(node_views(out@) =~= before.push((s.key@, c)));
                },
                None => {},
            }
        }
        i += 1;
    }
    assert(spots@.take(spots@.len() as int) =~= spots@);
    out
}

fn is_start_key_of(spots: &Vec<TsunkitSpot>, key: &String) -> (b: bool)
    ensures
        b == is_start_key(spots@, key@),
{
    let mut i: usize = 0;
    while i < spots.len()
        invariant
            i <= spots@.len(),
            forall|k: int| 0 <= k < i ==> !((#[trigger] spots@[k]).key@ == key@ && is_start_label(spots@[k].label)),
        decreases spots@.len() - i,
    {
        if spots[i].key == *key && is_start(&spots[i].label) {
            return true;
        }
        i += 1;
    }
    false
}

fn node_cell_of(nodes: &Vec<(String, i64)>, key: &String) -> (r: Option<i64>)
    ensures
        r == node_cell(node_views(nodes@), key@),
{
    let ghost nv = node_views(nodes@);
    let mut i = nodes.len();
    assert(nv.take(i as int) =~= nv);
    while i > 0
        invariant
            i <= nodes@.len(),
            nv == node_views(nodes@),
            node_cell(nv, key@) == node_cell(nv.take(i as int), key@),
        decreases i,
    {
        assert(nv.take(i as int).drop_last() =~= nv.take(i as int - 1));
        assert(nv.take(i as int).last() == nv[i - 1]);
        if nodes[i - 1].0 == *key {
            return Some(nodes[i - 1].1);
        }
        i -= 1;
    }
    None
}

// ---------------------------------------------------------------------------
// Routes
// ---------------------------------------------------------------------------

/// The cells reached straight from the sortie point, in route order.
pub open spec fn start_target_list(routes: Seq<TsunkitRoute>, nodes: Seq<(Seq<char>, i64)>, spots: Seq<TsunkitSpot>) -> Seq<i64>
    decreases routes.len(),
{
    if routes.len() == 0 {
        Seq::empty()
    } else {
        let acc = start_target_list(routes.drop_last(), nodes, spots);
        let r = routes.last();
        match node_cell(nodes, r.to@) {
            None => acc,
            Some(c) => match r.from {
                None => acc.push(c),
                Some(f) => if is_start_key(spots, f@) {
                    acc.push(c)
                } else {
                    acc
                },
            },
        }
    }
}

/// The cells reached from node `key`, in route order.
pub open spec fn next_list(routes: Seq<TsunkitRoute>, nodes: Seq<(Seq<char>, i64)>, spots: Seq<TsunkitSpot>, key: Seq<char>) -> Seq<i64>
    decreases routes.len(),
{
    if routes.len() == 0 {
        Seq::empty()
    } else {
        let acc = next_list(routes.drop_last(), nodes, spots, key);
        let r = routes.last();
        match (node_cell(nodes, r.to@), r.from) {
            (Some(c), Some(f)) => if f@ == key && !is_start_key(spots, f@) {
                acc.push(c)
            } else {
                acc
            },
            _ => acc,
        }
    }
}

fn start_targets_of(routes: &Vec<TsunkitRoute>, nodes: &Vec<(String, i64)>, spots: &Vec<TsunkitSpot>) -> (r: Vec<i64>)
    ensures
        r@ == sorted_set_of(start_target_list(routes@, node_views(nodes@), spots@)),
{
    let mut list: Vec<i64> = Vec::new();
    let mut i: usize = 0;
    while i < routes.len()
        invariant
            i <= routes@.len(),
            list@ == start_target_list(routes@.take(i as int), node_views(nodes@), spots@),
        decreases routes@.len() - i,
    {
        assert(routes@.take(i as int + 1).drop_last() =~= routes@.take(i as int));
        assert(routes@.take(i as int + 1).last() == routes@[i as int]);
        let r = &routes[i];
        match node_cell_of(nodes, &r.to) {
            None => {},
            Some(c) => match &r.from {
                None => list.push(c),
                Some(f) => {
                    if is_start_key_of(spots, f) {
                        list.push(c);
                    }
                },
            },
        }
        i += 1;
    }
    assert(routes@.take(routes@.len() as int) =~= routes@);
    sorted_set_exec(&list)
}

fn next_cells_for(routes: &Vec<TsunkitRoute>, nodes: &Vec<(String, i64)>, spots: &Vec<TsunkitSpot>, key: &String) -> (r: Vec<i64>)
    ensures
        r@ == sorted_set_of(next_list(routes@, node_views(nodes@), spots@, key@)),
{
    let key_is_start = is_start_key_of(spots, key);
    let mut list: Vec<i64> = Vec::new();
    let mut i: usize = 0;
    while i < routes.len()
        invariant
            i <= routes@.len(),
            key_is_start == is_start_key(spots@, key@),
            list@ == next_list(routes@.take(i as int), node_views(nodes@), spots@, key@),
        decreases routes@.len() - i,
    {
        assert(routes@.take(i as int + 1).drop_last() =~= routes@.take(i as int));
        assert(routes@.take(i as int + 1).last() == routes@[i as int]);
        let r = &routes[i];
        match (node_cell_of(nodes, &r.to), &r.from) {
            (Some(c), Some(f)) => {
                if *f == *key && !key_is_start {
                    list.push(c);
                }
            },
            _ => {},
        }
        i += 1;
    }
    assert(routes@.take(routes@.len() as int) =~= routes@);
    sorted_set_exec(&list)
}

// ---------------------------------------------------------------------------
// Enemy compositions
// ---------------------------------------------------------------------------

/// The ship ids that are real ships (above zero), in order.
pub open spec fn positive_ids(s: Seq<i64>) -> Seq<i64>
    decreases s.len(),
{
    if s.len() == 0 {
        s
    } else if s.last() > 0 {
        positive_ids(s.drop_last()).push(s.last())
    } else {
        positive_ids(s.drop_last())
    }
}

/// The ships of a recorded composition: main fleet, then escort.
pub open spec fn entry_ships(e: TsunkitEnemyCompEntry) -> Seq<i64> {
    positive_ids(e.main_fleet@ + e.escort_fleet@)
}

/// What tells compositions of one node apart: the master id, else the
/// entry's node and position, else the position.
pub open spec fn comp_suffix(e: TsunkitEnemyCompEntry, idx: nat) -> Seq<char> {
    if e.master_id > 0 {
        dec_i64(e.master_id)
    } else if e.node@.len() > 0 {
        e.node@ + ":"@ + dec_digits(idx)
    } else {
        dec_digits(idx)
    }
}

/// A composition as plain values: its id, weight and ships.
pub type CompView = (Seq<char>, i64, Seq<i64>);

pub open spec fn comp_views(v: Seq<EnemyComposition>) -> Seq<CompView> {
    v.map_values(|c: EnemyComposition| (c.comp_id@, c.weight, c.ship_ids@))
}

/// The compositions of a node's entries: one per entry with a ship, its id
/// `map:node:suffix`, its weight the entry's count but at least one.
pub open spec fn comps_of(map_name: Seq<char>, key: Seq<char>, entries: Seq<TsunkitEnemyCompEntry>) -> Seq<CompView>
    decreases entries.len(),
{
    if entries.len() == 0 {
        Seq::empty()
    } else {
        let acc = comps_of(map_name, key, entries.drop_last());
        let e = entries.last();
        if entry_ships(e).len() == 0 {
            acc
        } else {
            acc.push(
                (
                    map_name + ":"@ + key + ":"@ + comp_suffix(e, (entries.len() - 1) as nat),
                    if e.count > 1 { e.count } else { 1 },
                    entry_ships(e),
                ),
            )
        }
    }
}

/// The formations of the entries that have a ship, when set.
pub open spec fn formation_list(entries: Seq<TsunkitEnemyCompEntry>) -> Seq<i64>
    decreases entries.len(),
{
    if entries.len() == 0 {
        Seq::empty()
    } else {
        let acc = formation_list(entries.drop_last());
        let e = entries.last();
        if entry_ships(e).len() > 0 && e.formation > 0 {
            acc.push(e.formation)
        } else {
            acc
        }
    }
}

/// The formations of a fleet: those recorded, ascending and each once, or
/// line ahead when none is.
pub open spec fn fleet_formations(entries: Seq<TsunkitEnemyCompEntry>) -> Seq<i64> {
    if formation_list(entries).len() == 0 {
        seq![1]
    } else {
        sorted_set_of(formation_list(entries))
    }
}

fn positive_ships(e: &TsunkitEnemyCompEntry) -> (r: Vec<i64>)
    ensures
        r@ == entry_ships(*e),
{
    let ghost all = e.main_fleet@ + e.escort_fleet@;
    let mut out: Vec<i64> = Vec::new();
    let m = e.main_fleet.len();
    let mut i: usize = 0;
    while i < m
        invariant
            m == e.main_fleet@.len(),
            all == e.main_fleet@ + e.escort_fleet@,
            i <= m,
            out@ == positive_ids(all.take(i as int)),
        decreases m - i,
    {
        assert(all.take(i as int + 1).drop_last() =~= all.take(i as int));
        assert(all[i as int] == e.main_fleet@[i as int]);
        if e.main_fleet[i] > 0 {
            out.push(e.main_fleet[i]);
        }
        i += 1;
    }
    let mut j: usize = 0;
    while j < e.escort_fleet.len()
        invariant
            m == e.main_fleet@.len(),
            all == e.main_fleet@ + e.escort_fleet@,
            j <= e.escort_fleet@.len(),
            out@ == positive_ids(all.take(m + j)),
        decreases e.escort_fleet@.len() - j,
    {
        assert(all.take(m + j + 1).drop_last() =~= all.take(m + j));
        assert(all[m + j] == e.escort_fleet@[j as int]);
        if e.escort_fleet[j] > 0 {
            out.push(e.escort_fleet[j]);
        }
        j += 1;
    }
    assert(all.take(m + e.escort_fleet@.len()) =~= all);
    out
}

fn suffix_of(e: &TsunkitEnemyCompEntry, idx: usize) -> (r: Vec<char>)
    ensures
        r@ == comp_suffix(*e, idx as nat),
{
    let mut out: Vec<char> = Vec::new();
    if e.master_id > 0 {
        push_dec_i64(&mut out, e.master_id);
    } else if e.node.as_str().is_empty() == false {
        extend_chars(&mut out, chars_of(e.node.as_str()).as_slice());
        extend_chars(&mut out, chars_of(":").as_slice());
        push_dec_u64(&mut out, idx as u64);
    } else {
        push_dec_u64(&mut out, idx as u64);
    }
    out
}

/// The compositions and formations of one node's recorded entries.
fn node_compositions(map_name: &str, key: &String, entries: &Vec<TsunkitEnemyCompEntry>) -> (r: (Vec<EnemyComposition>, Vec<i64>))
    ensures
        comp_views(r.0@) == comps_of(map_name@, key@, entries@),
        r.1@ == sorted_set_of(formation_list(entries@)),
{
    let mut comps: Vec<EnemyComposition> = Vec::new();
    let mut formations: Vec<i64> = Vec::new();
    let mut i: usize = 0;
    while i < entries.len()
        invariant
            i <= entries@.len(),
            comp_views(comps@) == comps_of(map_name@, key@, entries@.take(i as int)),
            formations@ == sorted_set_of(formation_list(entries@.take(i as int))),
        decreases entries@.len() - i,
    {
        let ghost pre = entries@.take(i as int);
        assert(entries@.take(i as int + 1).drop_last() =~= pre);
        assert(entries@.take(i as int + 1).last() == entries@[i as int]);
        let e = &entries[i];
        let ships = positive_ships(e);
        if ships.len() > 0 {
            if e.formation > 0 {
                insert_sorted_exec(&mut formations, e.formation);
                assert(formation_list(pre).push(e.formation).drop_last() =~= formation_list(pre));
            }
            let mut id = chars_of(map_name);
            extend_chars(&mut id, chars_of(":").as_slice());
            extend_chars(&mut id, chars_of(key.as_str()).as_slice());
            extend_chars(&mut id, chars_of(":").as_slice());
            extend_chars(&mut id, suffix_of(e, i).as_slice());
            let weight = if e.count > 1 {
                e.count
            } else {
                1
            };
            let ghost before = comp_views(comps@);
            let ghost sv = ships@;
            comps.push(EnemyComposition { comp_id: string_of(id.as_slice()), weight, ship_ids: ships });
            assert(comp_views(comps@) =~= before.push(
                (map_name@ + ":"@ + key@ + ":"@ + comp_suffix(entries@[i as int], i as nat), weight, sv),
            ));
        }
        i += 1;
    }
    assert(entries@.take(entries@.len() as int) =~= entries@);
    (comps, formations)
}

// ---------------------------------------------------------------------------
// Enemy fleets
// ---------------------------------------------------------------------------

/// The recorded entries of a node, if its file was there.
pub open spec fn comp_entries(table: Seq<(String, Vec<TsunkitEnemyCompEntry>)>, key: Seq<char>) -> Option<Seq<TsunkitEnemyCompEntry>>
    decreases table.len(),
{
    if table.len() == 0 {
        None
    } else if table[0].0@ == key {
        Some(table[0].1@)
    } else {
        comp_entries(table.drop_first(), key)
    }
}

/// A fleet as plain values: cell, battle kind, formations, compositions.
pub type FleetView = (i64, i64, Seq<i64>, Seq<CompView>);

pub open spec fn fleet_views(v: Seq<EnemyFleetDefinition>) -> Seq<FleetView> {
    v.map_values(|f: EnemyFleetDefinition| (f.cell_no, f.battle_kind, f.formations@, comp_views(f.compositions@)))
}

/// Where cell `c` goes among fleets kept ascending by cell.
pub open spec fn cell_slot(s: Seq<FleetView>, c: i64) -> int
    decreases s.len(),
{
    if s.len() == 0 {
        0
    } else if s[0].0 >= c {
        0
    } else {
        1 + cell_slot(s.drop_first(), c)
    }
}

/// The fleets by cell, ascending: each node whose entries give a
/// composition fields a normal-battle fleet on its cell; a later node on
/// the same cell replaces an earlier one.
pub open spec fn fleets_of(map_name: Seq<char>, nodes: Seq<(Seq<char>, i64)>, table: Seq<(String, Vec<TsunkitEnemyCompEntry>)>) -> Seq<FleetView>
    decreases nodes.len(),
{
    if nodes.len() == 0 {
        Seq::empty()
    } else {
        let acc = fleets_of(map_name, nodes.drop_last(), table);
        let (key, cell) = nodes.last();
        match comp_entries(table, key) {
            None => acc,
            Some(entries) => {
                let comps = comps_of(map_name, key, entries);
                if comps.len() == 0 {
                    acc
                } else {
                    let f = (cell, 1i64, fleet_formations(entries), comps);
                    let i = cell_slot(acc, cell);
                    if i < acc.len() && acc[i].0 == cell {
                        acc.update(i, f)
                    } else {
                        acc.insert(i, f)
                    }
                }
            },
        }
    }
}

fn comp_entries_of<'a>(table: &'a Vec<(String, Vec<TsunkitEnemyCompEntry>)>, key: &String) -> (r: Option<&'a Vec<TsunkitEnemyCompEntry>>)
    ensures
        match r {
            Some(v) => comp_entries(table@, key@) == Some(v@),
            None => comp_entries(table@, key@) is None,
        },
{
    let mut i: usize = 0;
    assert(table@.subrange(0, table@.len() as int) =~= table@);
    while i < table.len()
        invariant
            i <= table@.len(),
            comp_entries(table@, key@) == comp_entries(table@.subrange(i as int, table@.len() as int), key@),
        decreases table@.len() - i,
    {
        let ghost rest = table@.subrange(i as int, table@.len() as int);
        assert(rest[0] == table@[i as int]);
        assert(rest.drop_first() =~= table@.subrange(i as int + 1, table@.len() as int));
        if table[i].0 == *key {
            return Some(&table[i].1);
        }
        i += 1;
    }
    None
}

fn fleets_by_node(map_name: &str, nodes: &Vec<(String, i64)>, table: &Vec<(String, Vec<TsunkitEnemyCompEntry>)>) -> (r: Vec<EnemyFleetDefinition>)
    ensures
        fleet_views(r@) == fleets_of(map_name@, node_views(nodes@), table@),
{
    let ghost nv = node_views(nodes@);
    let mut out: Vec<EnemyFleetDefinition> = Vec::new();
    let mut k: usize = 0;
    while k < nodes.len()
        invariant
            k <= nodes@.len(),
            nv == node_views(nodes@),
            fleet_views(out@) == fleets_of(map_name@, nv.take(k as int), table@),
        decreases nodes@.len() - k,
    {
        assert(nv.take(k as int + 1).drop_last() =~= nv.take(k as int));
        assert(nv.take(k as int + 1).last() == nv[k as int]);
        let key = &nodes[k].0;
        let cell = nodes[k].1;
        match comp_entries_of(table, key) {
            None => {},
            Some(entries) => {
                let (comps, formations) = node_compositions(map_name, key, entries);
                if comps.len() > 0 {
                    let formations = if formations.len() == 0 {
                        let one = vec![1i64];
                        assert(one@ =~= seq![1i64]);
                        one
                    } else {
                        formations
                    };
                    let ghost s0 = fleet_views(out@);
                    let ghost fv = (cell, 1i64, formations@, comp_views(comps@));
                    let mut i: usize = 0;
                    assert(s0.subrange(0, s0.len() as int) =~= s0);
                    while i < out.len() && out[i].cell_no < cell
                        invariant
                            i <= out@.len(),
                            s0 == fleet_views(out@),
                            cell_slot(s0, cell) == i + cell_slot(s0.subrange(i as int, s0.len() as int), cell),
                        decreases out@.len() - i,
                    {
                        assert(s0.subrange(i as int, s0.len() as int).drop_first() =~= s0.subrange(i + 1, s0.len() as int));
                        assert(s0[i as int].0 == out@[i as int].cell_no);
                        i += 1;
                    }
                    proof {
                        if i < s0.len() {
                            assert(s0.subrange(i as int, s0.len() as int)[0] == s0[i as int]);
                            assert(s0[i as int].0 == out@[i as int].cell_no);
                        }
                    }
                    let f = EnemyFleetDefinition { cell_no: cell, battle_kind: 1, formations, compositions: comps };
                    if i < out.len() && out[i].cell_no == cell {
                        out.set(i, f);
                        assert(fleet_views(out@) =~= s0.update(i as int, fv));
                    } else {
                        out.insert(i, f);
                        assert(fleet_views(out@) =~= s0.insert(i as int, fv));
                    }
                }
            },
        }
        k += 1;
    }
    assert(nv.take(nodes@.len() as int) =~= nv);
    out
}

// ---------------------------------------------------------------------------
// Battles, the boss, and the cells
// ---------------------------------------------------------------------------

/// The cells the navigator counted a battle at.
pub open spec fn summary_cells(summary: Seq<TsunkitNodeSummaryEntry>) -> Seq<i64>
    decreases summary.len(),
{
    if summary.len() == 0 {
        Seq::empty()
    } else {
        let acc = summary_cells(summary.drop_last());
        let e = summary.last();
        match parse_i64(e.key@) {
            Some(c) => if e.battles > 0 {
                acc.push(c)
            } else {
                acc
            },
            None => acc,
        }
    }
}

pub open spec fn fleet_cells(fleets: Seq<FleetView>) -> Seq<i64> {
    fleets.map_values(|f: FleetView| f.0)
}

/// Every cell with a battle: those counted, those with an enemy marker, and
/// those with a recorded fleet.
pub open spec fn battle_list(summary: Option<Seq<TsunkitNodeSummaryEntry>>, enemies: Seq<i64>, fleets: Seq<FleetView>) -> Seq<i64> {
    (match summary {
        Some(s) => summary_cells(s),
        None => Seq::empty(),
    }) + enemies + fleet_cells(fleets)
}

/// The cells drawn in the boss colour.
pub open spec fn boss_list(rendered: Seq<TsunkitRenderedSpot>) -> Seq<i64>
    decreases rendered.len(),
{
    if rendered.len() == 0 {
        Seq::empty()
    } else {
        let acc = boss_list(rendered.drop_last());
        let r = rendered.last();
        match r.no {
            Some(n) => if r.color == Some(-2i64) {
                acc.push(n)
            } else {
                acc
            },
            None => acc,
        }
    }
}

/// The cells with an air raid marker.
pub open spec fn airraid_list(airraids: Seq<i64>) -> Seq<i64>
    decreases airraids.len(),
{
    if airraids.len() == 0 {
        Seq::empty()
    } else if airraids.last() > 0 {
        airraid_list(airraids.drop_last()).push(airraids.last())
    } else {
        airraid_list(airraids.drop_last())
    }
}

pub open spec fn max_of(s: Seq<i64>) -> Option<i64>
    decreases s.len(),
{
    if s.len() == 0 {
        None
    } else {
        match max_of(s.drop_last()) {
            Some(m) => Some(if s.last() > m { s.last() } else { m }),
            None => Some(s.last()),
        }
    }
}

/// The boss cell: the highest drawn in the boss colour, else the highest
/// battle, else the highest node, else cell 1.
pub open spec fn boss_cell(bosses: Seq<i64>, battles: Seq<i64>, node_nos: Seq<i64>) -> i64 {
    match max_of(bosses) {
        Some(b) => b,
        None => match max_of(battles) {
            Some(b) => b,
            None => match max_of(node_nos) {
                Some(b) => b,
                None => 1,
            },
        },
    }
}

/// The colour the client uses for the navigator's colour code.
pub open spec fn color_no_of(color: Option<i64>) -> i64 {
    match color {
        Some(v) => if v == -2 {
            5
        } else if v == -3 {
            0
        } else if v > 0 {
            v
        } else {
            6
        },
        None => 6,
    }
}

pub fn tsunkit_color_no(color: Option<i64>) -> (r: i64)
    ensures
        r == color_no_of(color),
{
    match color {
        Some(v) => if v == -2 {
            5
        } else if v == -3 {
            0
        } else if v > 0 {
            v
        } else {
            6
        },
        None => 6,
    }
}

/// Where a node goes in a stable order by cell number.
pub open spec fn node_slot(s: Seq<(Seq<char>, i64)>, x: (Seq<char>, i64)) -> int
    decreases s.len(),
{
    if s.len() == 0 {
        0
    } else if x.1 < s.last().1 {
        node_slot(s.drop_last(), x)
    } else {
        s.len() as int
    }
}

/// The nodes in a stable order by cell number.
pub open spec fn nodes_by_cell(s: Seq<(Seq<char>, i64)>) -> Seq<(Seq<char>, i64)>
    decreases s.len(),
{
    if s.len() == 0 {
        s
    } else {
        let r = nodes_by_cell(s.drop_last());
        r.insert(node_slot(r, s.last()), s.last())
    }
}

/// A cell as plain values: number, colour, event id, event kind, next cells.
pub type CellView = (i64, i64, i64, i64, Seq<i64>);

pub open spec fn cell_views(v: Seq<MapCellDefinition>) -> Seq<CellView> {
    v.map_values(|c: MapCellDefinition| (c.cell_no, c.color_no, c.event_id, c.event_kind, c.next_cells@))
}

/// The cell a node becomes: the boss (5, 5, 1), a battle (4, 4, 1), an air
/// raid (6, 1, 0), or else drawn in its own colour (.., 1, 0).
pub open spec fn cell_of(
    data: TsunkitMapResult,
    nodes: Seq<(Seq<char>, i64)>,
    battles: Seq<i64>,
    fleets: Seq<FleetView>,
    boss: i64,
    node: (Seq<char>, i64),
) -> CellView {
    let c = node.1;
    let next = sorted_set_of(next_list(data.route@, nodes, data.spots@, node.0));
    let is_battle = battles.contains(c) || fleet_cells(fleets).contains(c);
    let is_boss = boss_list(data.rendered@).contains(c) || (is_battle && c == boss);
    if is_boss {
        (c, 5, 5, 1, next)
    } else if is_battle {
        (c, 4, 4, 1, next)
    } else if airraid_list(data.airraids@).contains(c) {
        (c, 6, 1, 0, next)
    } else {
        let color = match rendered_color(data.rendered@, c) {
            Some(col) => col,
            None => None,
        };
        (c, color_no_of(color), 1, 0, next)
    }
}

/// `v` is the variant the navigator's record of `map_name` describes.
pub open spec fn variant_of(
    map_name: Seq<char>,
    data: TsunkitMapResult,
    summary: Option<Seq<TsunkitNodeSummaryEntry>>,
    table: Seq<(String, Vec<TsunkitEnemyCompEntry>)>,
    v: MapVariantDefinition,
) -> bool {
    let nodes = node_cells(data.spots@, data.rendered@);
    let fleets = fleets_of(map_name, nodes, table);
    let battles = battle_list(summary, data.enemies@, fleets);
    let boss = boss_cell(boss_list(data.rendered@), battles, nodes.map_values(|n: (Seq<char>, i64)| n.1));
    let start = sorted_set_of(start_target_list(data.route@, nodes, data.spots@));
    &&& v.variant_key@ == Seq::<char>::empty()
    &&& v.boss_cell_no == boss
    &&& fleet_views(v.enemy_fleets@) == fleets
    &&& cell_views(v.cells@) == seq![(0i64, 0i64, 0i64, 0i64, start)] + nodes_by_cell(nodes).map_values(
        |n: (Seq<char>, i64)| cell_of(data, nodes, battles, fleets, boss, n),
    )
}

fn contains_i64(v: &Vec<i64>, x: i64) -> (b: bool)
    ensures
        b == v@.contains(x),
{
    let mut i: usize = 0;
    while i < v.len()
        invariant
            i <= v@.len(),
            forall|k: int| 0 <= k < i ==> v@[k] != x,
        decreases v@.len() - i,
    {
        if v[i] == x {
            assert(v@[i as int] == x);
            return true;
        }
        i += 1;
    }
    false
}

fn max_in(v: &Vec<i64>) -> (r: Option<i64>)
    ensures
        r == max_of(v@),
{
    let mut m: Option<i64> = None;
    let mut i: usize = 0;
    while i < v.len()
        invariant
            i <= v@.len(),
            m == max_of(v@.take(i as int)),
        decreases v@.len() - i,
    {
        assert(v@.take(i as int + 1).drop_last() =~= v@.take(i as int));
        m = match m {
            Some(x) => Some(if v[i] > x { v[i] } else { x }),
            None => Some(v[i]),
        };
        i += 1;
    }
    assert(v@.take(v@.len() as int) =~= v@);
    m
}

fn battle_cells(summary: Option<&Vec<TsunkitNodeSummaryEntry>>, enemies: &Vec<i64>, fleets: &Vec<EnemyFleetDefinition>) -> (r: Vec<i64>)
    ensures
        r@ == battle_list(
            match summary {
                Some(s) => Some(s@),
                None => None,
            },
            enemies@,
            fleet_views(fleets@),
        ),
{
    let mut out: Vec<i64> = Vec::new();
    match summary {
        Some(sm) => {
            let mut i: usize = 0;
            while i < sm.len()
                invariant
                    i <= sm@.len(),
                    out@ == summary_cells(sm@.take(i as int)),
                decreases sm@.len() - i,
            {
                assert(sm@.take(i as int + 1).drop_last() =~= sm@.take(i as int));
                assert(sm@.take(i as int + 1).last() == sm@[i as int]);
                match parse_i64_str(sm[i].key.as_str()) {
                    Some(c) => {
                        if sm[i].battles > 0 {
                            out.push(c);
                        }
                    },
                    None => {},
                }
                i += 1;
            }
            assert(sm@.take(sm@.len() as int) =~= sm@);
        },
        None => {},
    }
    let ghost head = out@;
    let mut j: usize = 0;
    while j < enemies.len()
        invariant
            j <= enemies@.len(),
            out@ == head + enemies@.take(j as int),
        decreases enemies@.len() - j,
    {
        out.push(enemies[j]);
        assert(enemies@.take(j as int + 1) =~= enemies@.take(j as int).push(enemies@[j as int]));
        j += 1;
    }
    assert(enemies@.take(enemies@.len() as int) =~= enemies@);
    let ghost mid = out@;
    let ghost fc = fleet_cells(fleet_views(fleets@));
    let mut k: usize = 0;
    while k < fleets.len()
        invariant
            k <= fleets@.len(),
            fc == fleet_cells(fleet_views(fleets@)),
            out@ == mid + fc.take(k as int),
        decreases fleets@.len() - k,
    {
        out.push(fleets[k].cell_no);
        assert(fc.take(k as int + 1) =~= fc.take(k as int).push(fc[k as int]));
        k += 1;
    }
    assert(fc.take(fleets@.len() as int) =~= fc);
    out
}

fn boss_cells(rendered: &Vec<TsunkitRenderedSpot>) -> (r: Vec<i64>)
    ensures
        r@ == boss_list(rendered@),
{
    let mut out: Vec<i64> = Vec::new();
    let mut i: usize = 0;
    while i < rendered.len()
        invariant
            i <= rendered@.len(),
            out@ == boss_list(rendered@.take(i as int)),
        decreases rendered@.len() - i,
    {
        assert(rendered@.take(i as int + 1).drop_last() =~= rendered@.take(i as int));
        assert(rendered@.take(i as int + 1).last() == rendered@[i as int]);
        match rendered[i].no {
            Some(n) => {
                if rendered[i].color == Some(-2i64) {
                    out.push(n);
                }
            },
            None => {},
        }
        i += 1;
    }
    assert(rendered@.take(rendered@.len() as int) =~= rendered@);
    out
}

fn airraid_cells(airraids: &Vec<i64>) -> (r: Vec<i64>)
    ensures
        r@ == airraid_list(airraids@),
{
    let mut out: Vec<i64> = Vec::new();
    let mut i: usize = 0;
    while i < airraids.len()
        invariant
            i <= airraids@.len(),
            out@ == airraid_list(airraids@.take(i as int)),
        decreases airraids@.len() - i,
    {
        assert(airraids@.take(i as int + 1).drop_last() =~= airraids@.take(i as int));
        if airraids[i] > 0 {
            out.push(airraids[i]);
        }
        i += 1;
    }
    assert(airraids@.take(airraids@.len() as int) =~= airraids@);
    out
}

fn sort_nodes(nodes: &Vec<(String, i64)>) -> (r: Vec<(String, i64)>)
    ensures
        node_views(r@) == nodes_by_cell(node_views(nodes@)),
{
    let ghost nv = node_views(nodes@);
    let mut out: Vec<(String, i64)> = Vec::new();
    let mut k: usize = 0;
    while k < nodes.len()
        invariant
            k <= nodes@.len(),
            nv == node_views(nodes@),
            node_views(out@) == nodes_by_cell(nv.take(k as int)),
        decreases nodes@.len() - k,
    {
        assert(nv.take(k as int + 1).drop_last() =~= nv.take(k as int));
        assert(nv.take(k as int + 1).last() == nv[k as int]);
        let x = (nodes[k].0.clone(), nodes[k].1);
        assert(x.0@ == nv[k as int].0 && x.1 == nv[k as int].1);
        let ghost ov = node_views(out@);
        let mut j = out.len();
        assert(ov.take(j as int) =~= ov);
        while j > 0 && x.1 < out[j - 1].1
            invariant
                j <= out@.len(),
                k < nv.len(),
                x.1 == nv[k as int].1,
                ov == node_views(out@),
                node_slot(ov, nv[k as int]) == node_slot(ov.take(j as int), nv[k as int]),
            decreases j,
        {
            assert(ov.take(j as int).drop_last() =~= ov.take(j as int - 1));
            assert(ov.take(j as int).last() == ov[j - 1]);
            j -= 1;
        }
        proof {
            if j > 0 {
                assert(ov.take(j as int).last() == ov[j - 1]);
            }
        }
        out.insert(j, x);
        assert(node_views(out@) =~= ov.insert(j as int, nv[k as int]));
        k += 1;
    }
    assert(nv.take(nodes@.len() as int) =~= nv);
    out
}

/// Rebuilds the single variant of a map from the navigator's record of it,
/// its battle counts, and the recorded enemy entries of its nodes.
pub fn build_variant(
    map_name: &str,
    data: &TsunkitMapResult,
    node_summary: Option<&Vec<TsunkitNodeSummaryEntry>>,
    enemy_comps: &Vec<(String, Vec<TsunkitEnemyCompEntry>)>,
) -> (v: MapVariantDefinition)
    ensures
        variant_of(
            map_name@,
            *data,
            match node_summary {
                Some(s) => Some(s@),
                None => None,
            },
            enemy_comps@,
            v,
        ),
{
    let ghost summary = match node_summary {
        Some(s) => Some(s@),
        None => None::<Seq<TsunkitNodeSummaryEntry>>,
    };
    let nodes = node_cells_of(&data.spots, &data.rendered);
    let ghost nv = node_views(nodes@);
    let start = start_targets_of(&data.route, &nodes, &data.spots);
    let fleets = fleets_by_node(map_name, &nodes, enemy_comps);
    let ghost fv = fleet_views(fleets@);
    let battles = battle_cells(node_summary, &data.enemies, &fleets);
    let bosses = boss_cells(&data.rendered);
    let airraids = airraid_cells(&data.airraids);
    let mut node_nos: Vec<i64> = Vec::new();
    let mut t: usize = 0;
    while t < nodes.len()
        invariant
            t <= nodes@.len(),
            nv == node_views(nodes@),
            node_nos@ == nv.take(t as int).map_values(|n: (Seq<char>, i64)| n.1),
        decreases nodes@.len() - t,
    {
        node_nos.push(nodes[t].1);
        assert(nv.take(t as int + 1).map_values(|n: (Seq<char>, i64)| n.1) =~= nv.take(t as int).map_values(
            |n: (Seq<char>, i64)| n.1,
        ).push(nv[t as int].1));
        t += 1;
    }
    assert(nv.take(nodes@.len() as int) =~= nv);
    let boss = match max_in(&bosses) {
        Some(b) => b,
        None => match max_in(&battles) {
            Some(b) => b,
            None => match max_in(&node_nos) {
                Some(b) => b,
                None => 1,
            },
        },
    };
    let ghost fcells = fleet_cells(fv);
    let mut fleet_nos: Vec<i64> = Vec::new();
    let mut u: usize = 0;
    while u < fleets.len()
        invariant
            u <= fleets@.len(),
            fcells == fleet_cells(fleet_views(fleets@)),
            fleet_nos@ == fcells.take(u as int),
        decreases fleets@.len() - u,
    {
        fleet_nos.push(fleets[u].cell_no);
        assert(fcells.take(u as int + 1) =~= fcells.take(u as int).push(fcells[u as int]));
        u += 1;
    }
    assert(fcells.take(fleets@.len() as int) =~= fcells);
    let ordered = sort_nodes(&nodes);
    let ghost ov = node_views(ordered@);
    let mut cells: Vec<MapCellDefinition> = Vec::new();
    cells.push(MapCellDefinition { cell_no: 0, color_no: 0, event_id: 0, event_kind: 0, next_cells: start });
    let ghost first = (0i64, 0i64, 0i64, 0i64, sorted_set_of(start_target_list(data.route@, nv, data.spots@)));
    let ghost battles_v = battles@;
    let mut k: usize = 0;
    while k < ordered.len()
        invariant
            k <= ordered@.len(),
            ov == node_views(ordered@),
            ov == nodes_by_cell(nv),
            nv == node_views(nodes@),
            nv == node_cells(data.spots@, data.rendered@),
            fv == fleets_of(map_name@, nv, enemy_comps@),
            battles@ == battle_list(summary, data.enemies@, fv),
            bosses@ == boss_list(data.rendered@),
            airraids@ == airraid_list(data.airraids@),
            fleet_nos@ == fleet_cells(fv),
            boss == boss_cell(boss_list(data.rendered@), battles@, nv.map_values(|n: (Seq<char>, i64)| n.1)),
            cell_views(cells@) == seq![first] + ov.take(k as int).map_values(
                |n: (Seq<char>, i64)| cell_of(*data, nv, battles@, fv, boss, n),
            ),
        decreases ordered@.len() - k,
    {
        let key = &ordered[k].0;
        let c = ordered[k].1;
        assert(ov[k as int] == (key@, c));
        let next = next_cells_for(&data.route, &nodes, &data.spots, key);
        let is_battle = contains_i64(&battles, c) || contains_i64(&fleet_nos, c);
        let is_boss = contains_i64(&bosses, c) || (is_battle && c == boss);
        let cell = if is_boss {
            MapCellDefinition { cell_no: c, color_no: 5, event_id: 5, event_kind: 1, next_cells: next }
        } else if is_battle {
            MapCellDefinition { cell_no: c, color_no: 4, event_id: 4, event_kind: 1, next_cells: next }
        } else if contains_i64(&airraids, c) {
            MapCellDefinition { cell_no: c, color_no: 6, event_id: 1, event_kind: 0, next_cells: next }
        } else {
            let color = match rendered_color_of(&data.rendered, c) {
                Some(col) => col,
                None => None,
            };
            MapCellDefinition { cell_no: c, color_no: tsunkit_color_no(color), event_id: 1, event_kind: 0, next_cells: next }
        };
        let ghost before = cell_views(cells@);
        let ghost cv = (cell.cell_no, cell.color_no, cell.event_id, cell.event_kind, cell.next_cells@);
        assert(cv == cell_of(*data, nv, battles@, fv, boss, ov[k as int]));
        cells.push(cell);
        assert(cell_views(cells@) =~= before.push(cv));
        assert(ov.take(k as int + 1).map_values(|n: (Seq<char>, i64)| cell_of(*data, nv, battles@, fv, boss, n))
            =~= ov.take(k as int).map_values(|n: (Seq<char>, i64)| cell_of(*data, nv, battles@, fv, boss, n)).push(cv));
        k += 1;
    }
    assert(ov.take(ordered@.len() as int) =~= ov);
    MapVariantDefinition { variant_key: String::new(), boss_cell_no: boss, cells, enemy_fleets: fleets }
}

/// The area and map number of a map file named `area-map`, both numbers:
/// split at the first `-`.
pub open spec fn map_name_numbers(name: Seq<char>) -> Option<(i64, i64)> {
    if exists|i: int| 0 <= i < name.len() && name[i] == '-' {
        let i = choose|i: int| 0 <= i < name.len() && name[i] == '-' && forall|j: int| 0 <= j < i ==> name[j] != '-';
        match (parse_i64(name.subrange(0, i)), parse_i64(name.subrange(i + 1, name.len() as int))) {
            (Some(a), Some(m)) => Some((a, m)),
            _ => None,
        }
    } else {
        None
    }
}

pub fn parse_map_name(map_name: &str) -> (r: Option<(i64, i64)>)
    ensures
        r == map_name_numbers(map_name@),
{
    let s = chars_of(map_name);
    let mut i: usize = 0;
    while i < s.len() && s[i] != '-'
        invariant
            i <= s@.len(),
            s@ == map_name@,
            forall|j: int| 0 <= j < i ==> s@[j] != '-',
        decreases s@.len() - i,
    {
        i += 1;
    }
    if i == s.len() {
        return None;
    }
    proof {
        let c = choose|c: int| 0 <= c < s@.len() && s@[c] == '-' && forall|j: int| 0 <= j < c ==> s@[j] != '-';
        if c < i {
            assert(s@[c] != '-');
        } else if c > i {
            assert(s@[i as int] != '-');
        }
    }
    let area = parse_i64_chars(copy_range(s.as_slice(), 0, i).as_slice());
    let map = parse_i64_chars(copy_range(s.as_slice(), i + 1, s.len()).as_slice());
    match (area, map) {
        (Some(a), Some(m)) => Some((a, m)),
        _ => None,
    }
}

proof fn lemma_boss_list_members(rendered: Seq<TsunkitRenderedSpot>, n: i64)
    ensures
        boss_list(rendered).contains(n) <==> exists|i: int|
            0 <= i < rendered.len() && (#[trigger] rendered[i]).no == Some(n) && rendered[i].color == Some(-2i64),
    decreases rendered.len(),
{
    if rendered.len() > 0 {
        let init = rendered.drop_last();
        lemma_boss_list_members(init, n);
        let acc = boss_list(init);
        let r = rendered.last();
        if exists|i: int| 0 <= i < init.len() && (#[trigger] init[i]).no == Some(n) && init[i].color == Some(-2i64) {
            let i = choose|i: int| 0 <= i < init.len() && (#[trigger] init[i]).no == Some(n) && init[i].color == Some(-2i64);
            assert(rendered[i] == init[i]);
        }
        if exists|i: int| 0 <= i < rendered.len() && (#[trigger] rendered[i]).no == Some(n) && rendered[i].color == Some(-2i64) {
            let i = choose|i: int| 0 <= i < rendered.len() && (#[trigger] rendered[i]).no == Some(n) && rendered[i].color == Some(-2i64);
            if i < rendered.len() - 1 {
                assert(init[i] == rendered[i]);
            }
        }
        if r.no == Some(n) && r.color == Some(-2i64) {
            assert(rendered[rendered.len() - 1] == r);
            assert(boss_list(rendered) == acc.push(n));
            assert(boss_list(rendered)[acc.len() as int] == n);
        }
        if boss_list(rendered).contains(n) {
            let k = choose|k: int| 0 <= k < boss_list(rendered).len() && boss_list(rendered)[k] == n;
            if k < acc.len() {
                assert(acc[k] == n);
                assert(acc.contains(n));
            }
        }
        if acc.contains(n) {
            let k = choose|k: int| 0 <= k < acc.len() && acc[k] == n;
            match r.no {
                Some(m) => if r.color == Some(-2i64) {
                    assert(boss_list(rendered)[k] == n);
                },
                None => {},
            }
        }
    }
}

proof fn lemma_max_of(s: Seq<i64>)
    ensures
        s.len() > 0 ==> (max_of(s) matches Some(m) && s.contains(m) && forall|x: i64| s.contains(x) ==> x <= m),
        s.len() == 0 ==> max_of(s) is None,
    decreases s.len(),
{
    if s.len() > 0 {
        let init = s.drop_last();
        lemma_max_of(init);
        assert(s[s.len() - 1] == s.last());
        assert forall|x: i64| s.contains(x) implies x <= max_of(s).unwrap() by {
            let k = choose|k: int| 0 <= k < s.len() && s[k] == x;
            if k < s.len() - 1 {
                assert(init[k] == x);
                assert(init.contains(x));
            }
        }
        if init.len() > 0 {
            let m = max_of(init).unwrap();
            let k = choose|k: int| 0 <= k < init.len() && init[k] == m;
            assert(s[k] == m);
        }
    }
}

/// A cell drawn in the boss colour decides the boss: whenever some drawn
/// spot with a cell number has colour `-2`, the variant's boss cell is the
/// highest such cell number, whatever battles the navigator has seen.
pub proof fn law_boss_colour_decides_the_boss(
    map_name: Seq<char>,
    data: TsunkitMapResult,
    summary: Option<Seq<TsunkitNodeSummaryEntry>>,
    table: Seq<(String, Vec<TsunkitEnemyCompEntry>)>,
    v: MapVariantDefinition,
)
    requires
        variant_of(map_name, data, summary, table, v),
        exists|i: int|
            0 <= i < data.rendered@.len() && (#[trigger] data.rendered@[i]).no is Some
                && data.rendered@[i].color == Some(-2i64),
    ensures
        exists|i: int|
            0 <= i < data.rendered@.len() && (#[trigger] data.rendered@[i]).no == Some(v.boss_cell_no)
                && data.rendered@[i].color == Some(-2i64),
        forall|i: int|
            0 <= i < data.rendered@.len() && (#[trigger] data.rendered@[i]).no is Some
                && data.rendered@[i].color == Some(-2i64) ==> data.rendered@[i].no.unwrap() <= v.boss_cell_no,
{
    let rendered = data.rendered@;
    let bosses = boss_list(rendered);
    let i0 = choose|i: int| 0 <= i < rendered.len() && (#[trigger] rendered[i]).no is Some && rendered[i].color == Some(-2i64);
    lemma_boss_list_members(rendered, rendered[i0].no.unwrap());
    assert(bosses.contains(rendered[i0].no.unwrap()));
    lemma_max_of(bosses);
    let m = max_of(bosses).unwrap();
    assert(v.boss_cell_no == m);
    lemma_boss_list_members(rendered, m);
    assert forall|i: int|
        0 <= i < rendered.len() && (#[trigger] rendered[i]).no is Some && rendered[i].color == Some(-2i64)
        implies rendered[i].no.unwrap() <= m by {
        lemma_boss_list_members(rendered, rendered[i].no.unwrap());
    }
}

/// A cell is marked as a boss (colour 5, event 5, kind 1) when it is drawn
/// in the boss colour, and only a boss-coloured cell or the variant's boss
/// cell ever is.
pub proof fn law_boss_marks_follow_the_boss_colour(
    map_name: Seq<char>,
    data: TsunkitMapResult,
    summary: Option<Seq<TsunkitNodeSummaryEntry>>,
    table: Seq<(String, Vec<TsunkitEnemyCompEntry>)>,
    v: MapVariantDefinition,
    k: int,
)
    requires
        variant_of(map_name, data, summary, table, v),
        1 <= k < cell_views(v.cells@).len(),
    ensures
        ({
            let cv = cell_views(v.cells@)[k];
            let coloured = exists|i: int|
                0 <= i < data.rendered@.len() && (#[trigger] data.rendered@[i]).no == Some(cv.0)
                    && data.rendered@[i].color == Some(-2i64);
            &&& coloured ==> cv.1 == 5 && cv.2 == 5 && cv.3 == 1
            &&& cv.2 == 5 ==> (coloured || cv.0 == v.boss_cell_no)
        }),
{
    let nodes = node_cells(data.spots@, data.rendered@);
    let ordered = nodes_by_cell(nodes);
    let f = |n: (Seq<char>, i64)|
        cell_of(
            data,
            nodes,
            battle_list(summary, data.enemies@, fleets_of(map_name, nodes, table)),
            fleets_of(map_name, nodes, table),
            boss_cell(
                boss_list(data.rendered@),
                battle_list(summary, data.enemies@, fleets_of(map_name, nodes, table)),
                nodes.map_values(|n: (Seq<char>, i64)| n.1),
            ),
            n,
        );
    let start = sorted_set_of(start_target_list(data.route@, nodes, data.spots@));
    assert(cell_views(v.cells@) == seq![(0i64, 0i64, 0i64, 0i64, start)] + ordered.map_values(f));
    assert(cell_views(v.cells@)[k] == ordered.map_values(f)[k - 1]);
    let cv = cell_views(v.cells@)[k];
    assert(cv == f(ordered[k - 1]));
    assert(cv.0 == ordered[k - 1].1);
    lemma_boss_list_members(data.rendered@, cv.0);
}

} // verus!
