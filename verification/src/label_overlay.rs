//! The map extractor numbers cells by its own walk of the map, and those
//! numbers mean nothing outside one run. Ingestion lifts every reference to a
//! cell (rule endpoints, enemy rows, drops, and the cells a route-history
//! predicate names) to the node label, once.
//!
//! The payloads the lifting only carries along are left generic: `P` is what
//! a rule says of its probability, `C` an enemy composition, `D` a drop.
use vstd::prelude::*;

use crate::route_model::RoutePredicate;
use crate::text::{chars_eq, chars_of, dec_i64, extend_chars, push_dec_i64, string_of};

verus! {

/// One node of a variant's topology, with the extractor's cell number.
#[derive(Debug, Clone)]
pub struct WikiwikiNodeDefinition {
    pub label: String,
    pub cell_no: i64,
    pub is_boss: bool,
    pub is_battle: bool,
}

/// The label a cell number stands for: the last node placed on the cell
/// with a label of its own; the entry cell 0 is `Start` otherwise.
pub open spec fn cell_label(nodes: Seq<WikiwikiNodeDefinition>, cell: i64) -> Option<Seq<char>>
    decreases nodes.len(),
{
    if nodes.len() == 0 {
        if cell == 0 {
            Some("Start"@)
        } else {
            None
        }
    } else if nodes.last().cell_no == cell && nodes.last().label@.len() > 0 {
        Some(nodes.last().label@)
    } else {
        cell_label(nodes.drop_last(), cell)
    }
}

/// The cell a label stands for: `Start` is cell 0; any other label the
/// cell of the last node that carries it.
pub open spec fn label_cell(nodes: Seq<WikiwikiNodeDefinition>, label: Seq<char>) -> Option<i64> {
    if label == "Start"@ {
        Some(0)
    } else {
        last_cell_with_label(nodes, label)
    }
}

pub open spec fn last_cell_with_label(nodes: Seq<WikiwikiNodeDefinition>, label: Seq<char>) -> Option<i64>
    decreases nodes.len(),
{
    if nodes.len() == 0 {
        None
    } else if nodes.last().label@ == label {
        Some(nodes.last().cell_no)
    } else {
        last_cell_with_label(nodes.drop_last(), label)
    }
}

/// The labels of the given cells, in order, each once; cells without a
/// label are dropped.
pub open spec fn labels_of_cells(nodes: Seq<WikiwikiNodeDefinition>, cells: Seq<i64>) -> Seq<Seq<char>>
    decreases cells.len(),
{
    if cells.len() == 0 {
        Seq::<Seq<char>>::empty()
    } else {
        let acc = labels_of_cells(nodes, cells.drop_last());
        match cell_label(nodes, cells.last()) {
            Some(l) => if acc.contains(l) {
                acc
            } else {
                acc.push(l)
            },
            None => acc,
        }
    }
}

/// The cells of the given labels, in order; labels without a cell are dropped.
pub open spec fn cells_of_labels(nodes: Seq<WikiwikiNodeDefinition>, labels: Seq<Seq<char>>) -> Seq<i64>
    decreases labels.len(),
{
    if labels.len() == 0 {
        Seq::<i64>::empty()
    } else {
        let acc = cells_of_labels(nodes, labels.drop_last());
        match label_cell(nodes, labels.last()) {
            Some(c) => acc.push(c),
            None => acc,
        }
    }
}

/// `q` is `p` with every route-history condition naming labels instead of
/// cells, through the labels the cells have; the rest is unchanged.
pub open spec fn lifted(p: RoutePredicate, q: RoutePredicate, nodes: Seq<WikiwikiNodeDefinition>) -> bool
    decreases p,
{
    match p {
        RoutePredicate::VisitedNode { cell_nos, visited } => match q {
            RoutePredicate::VisitedNodeLabel { node_labels, visited: v } => v == visited
                && node_labels.deep_view() == labels_of_cells(nodes, cell_nos@),
            _ => false,
        },
        RoutePredicate::VisitedNodeLabel { node_labels, visited } => match q {
            RoutePredicate::VisitedNodeLabel { node_labels: out, visited: v } => v == visited
                && out.deep_view() == labels_of_cells(
                nodes,
                cells_of_labels(nodes, node_labels.deep_view()),
            ),
            _ => false,
        },
        RoutePredicate::And(ps) => match q {
            RoutePredicate::And(qs) => qs@.len() == ps@.len() && forall|i: int|
                0 <= i < ps@.len() ==> lifted(#[trigger] ps@[i], qs@[i], nodes),
            _ => false,
        },
        RoutePredicate::Or(ps) => match q {
            RoutePredicate::Or(qs) => qs@.len() == ps@.len() && forall|i: int|
                0 <= i < ps@.len() ==> lifted(#[trigger] ps@[i], qs@[i], nodes),
            _ => false,
        },
        RoutePredicate::Not(inner) => match q {
            RoutePredicate::Not(out) => lifted(*inner, *out, nodes),
            _ => false,
        },
        _ => q == p,
    }
}

fn cell_label_of(nodes: &[WikiwikiNodeDefinition], cell: i64) -> (r: Option<String>)
    ensures
        r.deep_view() == cell_label(nodes@, cell),
{
    let mut i = nodes.len();
    assert(nodes@.take(i as int) =~= nodes@);
    while i > 0
        invariant
            i <= nodes@.len(),
            cell_label(nodes@, cell) == cell_label(nodes@.take(i as int), cell),
        decreases i,
    {
        assert(nodes@.take(i as int).drop_last() =~= nodes@.take(i as int - 1));
        let n = &nodes[i - 1];
        assert(nodes@.take(i as int).last() == nodes@[i - 1]);
        if n.cell_no == cell && !n.label.as_str().is_empty() {
            return Some(n.label.clone());
        }
        i -= 1;
    }
    if cell == 0 {
        let s = "Start".to_string();
        proof {
            reveal_strlit("Start");
        }
        Some(s)
    } else {
        None
    }
}

fn label_cell_of(nodes: &[WikiwikiNodeDefinition], label: &String) -> (r: Option<i64>)
    ensures
        r == label_cell(nodes@, label@),
{
    if chars_eq(chars_of(label.as_str()).as_slice(), chars_of("Start").as_slice()) {
        return Some(0);
    }
    let mut i = nodes.len();
    assert(nodes@.take(i as int) =~= nodes@);
    while i > 0
        invariant
            i <= nodes@.len(),
            label@ != "Start"@,
            last_cell_with_label(nodes@, label@) == last_cell_with_label(nodes@.take(i as int), label@),
        decreases i,
    {
        assert(nodes@.take(i as int).drop_last() =~= nodes@.take(i as int - 1));
        let n = &nodes[i - 1];
        assert(nodes@.take(i as int).last() == nodes@[i - 1]);
        if n.label == *label {
            return Some(n.cell_no);
        }
        i -= 1;
    }
    None
}

fn contains_label(labels: &Vec<String>, l: &String) -> (b: bool)
    ensures
        b == labels.deep_view().contains(l@),
{
    let ghost lv = labels.deep_view();
    let mut i: usize = 0;
    while i < labels.len()
        invariant
            i <= labels@.len(),
            lv == labels.deep_view(),
            forall|k: int| 0 <= k < i ==> lv[k] != l@,
        decreases labels@.len() - i,
    {
        if labels[i] == *l {
            assert(lv[i as int] == l@);
            return true;
        }
        i += 1;
    }
    false
}

fn labels_for_cells(nodes: &[WikiwikiNodeDefinition], cells: &Vec<i64>) -> (r: Vec<String>)
    ensures
        r.deep_view() == labels_of_cells(nodes@, cells@),
{
    let mut out: Vec<String> = Vec::new();
    let mut i: usize = 0;
    while i < cells.len()
        invariant
            i <= cells@.len(),
            out.deep_view() == labels_of_cells(nodes@, cells@.take(i as int)),
        decreases cells@.len() - i,
    {
        assert(cells@.take(i as int + 1).drop_last() =~= cells@.take(i as int));
        match cell_label_of(nodes, cells[i]) {
            Some(l) => {
                if !contains_label(&out, &l) {
                    let ghost before = out.deep_view();
                    let ghost lv = l@;
                    out.push(l);
                    assert(out.deep_view() =~= before.push(lv));
                }
            },
            None => {},
        }
        i += 1;
    }
    assert(cells@.take(cells@.len() as int) =~= cells@);
    out
}

fn cells_for_labels(nodes: &[WikiwikiNodeDefinition], labels: &Vec<String>) -> (r: Vec<i64>)
    ensures
        r@ == cells_of_labels(nodes@, labels.deep_view()),
{
    let ghost lv = labels.deep_view();
    let mut out: Vec<i64> = Vec::new();
    let mut i: usize = 0;
    while i < labels.len()
        invariant
            i <= labels@.len(),
            lv == labels.deep_view(),
            out@ == cells_of_labels(nodes@, lv.take(i as int)),
        decreases labels@.len() - i,
    {
        assert(lv.take(i as int + 1).drop_last() =~= lv.take(i as int));
        assert(lv.take(i as int + 1).last() == labels@[i as int]@);
        match label_cell_of(nodes, &labels[i]) {
            Some(c) => out.push(c),
            None => {},
        }
        i += 1;
    }
    assert(lv.take(labels@.len() as int) =~= lv);
    out
}

/// Lifts the cells a route-history predicate names into labels. A cell
/// number, or a label no node carries, means nothing outside the extractor
/// and is dropped; a label named twice is kept once.
pub fn lift_predicate_to_labels(predicate: RoutePredicate, nodes: &[WikiwikiNodeDefinition]) -> (q: RoutePredicate)
    ensures
        lifted(predicate, q, nodes@),
    decreases predicate, 1nat,
{
    let ghost p0 = predicate;
    match predicate {
        RoutePredicate::VisitedNode { cell_nos, visited } => {
            let node_labels = labels_for_cells(nodes, &cell_nos);
            RoutePredicate::VisitedNodeLabel { node_labels, visited }
        },
        RoutePredicate::VisitedNodeLabel { node_labels, visited } => {
            let cells = cells_for_labels(nodes, &node_labels);
            let out = labels_for_cells(nodes, &cells);
            RoutePredicate::VisitedNodeLabel { node_labels: out, visited }
        },
        RoutePredicate::And(ps) => {
            let qs = lift_all(ps, nodes, Ghost(p0));
            RoutePredicate::And(qs)
        },
        RoutePredicate::Or(ps) => {
            let qs = lift_all(ps, nodes, Ghost(p0));
            RoutePredicate::Or(qs)
        },
        RoutePredicate::Not(inner) => {
            let out = lift_predicate_to_labels(*inner, nodes);
            RoutePredicate::Not(Box::new(out))
        },
        other => other,
    }
}

fn lift_all(ps: Vec<RoutePredicate>, nodes: &[WikiwikiNodeDefinition], Ghost(parent): Ghost<RoutePredicate>) -> (qs: Vec<RoutePredicate>)
    requires
        parent == RoutePredicate::And(ps) || parent == RoutePredicate::Or(ps),
    ensures
        qs@.len() == ps@.len(),
        forall|i: int| 0 <= i < ps@.len() ==> lifted(#[trigger] ps@[i], qs@[i], nodes@),
    decreases parent, 0nat,
{
    let ghost orig = ps@;
    let mut rest = ps;
    let mut qs: Vec<RoutePredicate> = Vec::new();
    let n = rest.len();
    let mut k: usize = 0;
    while k < n
        invariant
            n == orig.len(),
            k <= n,
            parent == RoutePredicate::And(ps) || parent == RoutePredicate::Or(ps),
            orig == ps@,
            rest@ == orig.subrange(k as int, n as int),
            qs@.len() == k,
            forall|i: int| 0 <= i < k ==> lifted(#[trigger] orig[i], qs@[i], nodes@),
        decreases n - k,
    {
        let p = rest.remove(0);
        assert(p == orig[k as int]);
        assert(rest@ =~= orig.subrange(k as int + 1, n as int));
        proof {
            assert(decreases_to!(ps => ps@));
            assert(decreases_to!(ps@ => ps@[k as int]));
            if parent is And {
                assert(decreases_to!(parent => parent->And_0));
            } else {
                assert(decreases_to!(parent => parent->Or_0));
            }
        }
        let q = lift_predicate_to_labels(p, nodes);
        qs.push(q);
        k += 1;
    }
    qs
}

// ---------------------------------------------------------------------------
// Routing rules
// ---------------------------------------------------------------------------

/// A routing rule between two cells of the extractor's numbering.
#[derive(Debug)]
pub struct WikiwikiRouteRule<P> {
    pub from_cell_no: i64,
    pub to_cell_no: i64,
    pub priority: i64,
    /// What the rule says of its probability, carried along unread.
    pub probability: P,
    pub predicate: RoutePredicate,
    pub raw_text: String,
}

/// A routing rule between two node labels.
#[derive(Debug)]
pub struct RouteRuleDraft<P> {
    pub from_label: String,
    pub to_label: String,
    pub probability: P,
    pub predicate: RoutePredicate,
    /// The Japanese condition text as the page wrote it.
    pub raw_text: String,
    /// Whether the rule stands for a probability not yet resolved.
    pub random_placeholder: bool,
}

/// `a` sorts strictly before `b`: by departing cell, then by priority.
pub open spec fn rule_before<P>(a: WikiwikiRouteRule<P>, b: WikiwikiRouteRule<P>) -> bool {
    a.from_cell_no < b.from_cell_no || (a.from_cell_no == b.from_cell_no && a.priority < b.priority)
}

/// Where a stable insertion puts `x`: after the last rule that does not sort after it.
pub open spec fn rule_slot<P>(s: Seq<WikiwikiRouteRule<P>>, x: WikiwikiRouteRule<P>) -> int
    decreases s.len(),
{
    if s.len() == 0 {
        0
    } else if rule_before(x, s.last()) {
        rule_slot(s.drop_last(), x)
    } else {
        s.len() as int
    }
}

/// The rules in a stable order by departing cell and priority (what
/// `sort_by_key` gives).
pub open spec fn sorted_rules<P>(s: Seq<WikiwikiRouteRule<P>>) -> Seq<WikiwikiRouteRule<P>>
    decreases s.len(),
{
    if s.len() == 0 {
        s
    } else {
        let r = sorted_rules(s.drop_last());
        r.insert(rule_slot(r, s.last()), s.last())
    }
}

pub proof fn lemma_sorted_rules_len<P>(s: Seq<WikiwikiRouteRule<P>>)
    ensures
        sorted_rules(s).len() == s.len(),
    decreases s.len(),
{
    if s.len() > 0 {
        lemma_sorted_rules_len(s.drop_last());
        lemma_rule_slot_range(sorted_rules(s.drop_last()), s.last());
    }
}

pub proof fn lemma_rule_slot_range<P>(s: Seq<WikiwikiRouteRule<P>>, x: WikiwikiRouteRule<P>)
    ensures
        0 <= rule_slot(s, x) <= s.len(),
    decreases s.len(),
{
    if s.len() > 0 {
        lemma_rule_slot_range(s.drop_last(), x);
    }
}

/// Both ends of the rule name a cell that has a label.
pub open spec fn placeable<P>(r: WikiwikiRouteRule<P>, nodes: Seq<WikiwikiNodeDefinition>) -> bool {
    cell_label(nodes, r.from_cell_no) is Some && cell_label(nodes, r.to_cell_no) is Some
}

/// The rules that can be placed, in order.
pub open spec fn placeable_rules<P>(s: Seq<WikiwikiRouteRule<P>>, nodes: Seq<WikiwikiNodeDefinition>) -> Seq<
    WikiwikiRouteRule<P>,
>
    decreases s.len(),
{
    if s.len() == 0 {
        s
    } else if placeable(s.last(), nodes) {
        placeable_rules(s.drop_last(), nodes).push(s.last())
    } else {
        placeable_rules(s.drop_last(), nodes)
    }
}

/// `d` is rule `r` with its cells named by their labels.
pub open spec fn draft_of<P>(r: WikiwikiRouteRule<P>, d: RouteRuleDraft<P>, nodes: Seq<WikiwikiNodeDefinition>) -> bool {
    &&& cell_label(nodes, r.from_cell_no) == Some(d.from_label@)
    &&& cell_label(nodes, r.to_cell_no) == Some(d.to_label@)
    &&& d.probability == r.probability
    &&& lifted(r.predicate, d.predicate, nodes)
    &&& d.raw_text@ == r.raw_text@
    &&& !d.random_placeholder
}

/// The drafts of the given rules: one per placeable rule, in order.
pub open spec fn drafts_of<P>(
    rules: Seq<WikiwikiRouteRule<P>>,
    drafts: Seq<RouteRuleDraft<P>>,
    nodes: Seq<WikiwikiNodeDefinition>,
) -> bool {
    let kept = placeable_rules(sorted_rules(rules), nodes);
    drafts.len() == kept.len() && forall|i: int| 0 <= i < kept.len() ==> draft_of(#[trigger] kept[i], drafts[i], nodes)
}

fn sort_rules<P>(rules: Vec<WikiwikiRouteRule<P>>) -> (r: Vec<WikiwikiRouteRule<P>>)
    ensures
        r@ == sorted_rules(rules@),
{
    let ghost orig = rules@;
    let mut rest = rules;
    let mut out: Vec<WikiwikiRouteRule<P>> = Vec::new();
    let n = rest.len();
    let mut k: usize = 0;
    while k < n
        invariant
            n == orig.len(),
            k <= n,
            rest@ == orig.subrange(k as int, n as int),
            out@ == sorted_rules(orig.take(k as int)),
        decreases n - k,
    {
        let x = rest.remove(0);
        assert(x == orig[k as int]);
        assert(rest@ =~= orig.subrange(k as int + 1, n as int));
        assert(orig.take(k as int + 1).drop_last() =~= orig.take(k as int));
        let mut j = out.len();
        assert(out@.take(j as int) =~= out@);
        while j > 0 && (x.from_cell_no < out[j - 1].from_cell_no || (x.from_cell_no
            == out[j - 1].from_cell_no && x.priority < out[j - 1].priority))
            invariant
                j <= out@.len(),
                rule_slot(out@, x) == rule_slot(out@.take(j as int), x),
            decreases j,
        {
            assert(out@.take(j as int).drop_last() =~= out@.take(j as int - 1));
            j -= 1;
        }
        proof {
            if j > 0 {
                assert(out@.take(j as int).last() == out@[j - 1]);
            }
        }
        out.insert(j, x);
        k += 1;
    }
    assert(orig.take(n as int) =~= orig);
    out
}

/// Names the ends of every rule by label, in order of departing cell and
/// priority; a rule with an end that has no label is dropped.
pub fn rules_to_drafts<P>(rules: Vec<WikiwikiRouteRule<P>>, nodes: &[WikiwikiNodeDefinition]) -> (r: Vec<RouteRuleDraft<P>>)
    ensures
        drafts_of(rules@, r@, nodes@),
{
    let sorted = sort_rules(rules);
    let ghost srt = sorted@;
    let mut rest = sorted;
    let mut out: Vec<RouteRuleDraft<P>> = Vec::new();
    let n = rest.len();
    let mut k: usize = 0;
    while k < n
        invariant
            n == srt.len(),
            k <= n,
            rest@ == srt.subrange(k as int, n as int),
            out@.len() == placeable_rules(srt.take(k as int), nodes@).len(),
            forall|i: int|
                0 <= i < out@.len() ==> draft_of(
                    #[trigger] placeable_rules(srt.take(k as int), nodes@)[i],
                    out@[i],
                    nodes@,
                ),
        decreases n - k,
    {
        let rule = rest.remove(0);
        assert(rule == srt[k as int]);
        assert(rest@ =~= srt.subrange(k as int + 1, n as int));
        assert(srt.take(k as int + 1).drop_last() =~= srt.take(k as int));
        let ghost before = placeable_rules(srt.take(k as int), nodes@);
        let from = cell_label_of(nodes, rule.from_cell_no);
        let to = cell_label_of(nodes, rule.to_cell_no);
        match (from, to) {
            (Some(from_label), Some(to_label)) => {
                let ghost r0 = rule;
                let WikiwikiRouteRule { from_cell_no, to_cell_no, priority, probability, predicate, raw_text } = rule;
                let predicate = lift_predicate_to_labels(predicate, nodes);
                let d = RouteRuleDraft {
                    from_label,
                    to_label,
                    probability,
                    predicate,
                    raw_text,
                    random_placeholder: false,
                };
                assert(draft_of(r0, d, nodes@));
                out.push(d);
                assert(placeable_rules(srt.take(k as int + 1), nodes@) == before.push(r0));
            },
            _ => {
                assert(placeable_rules(srt.take(k as int + 1), nodes@) == before);
            },
        }
        k += 1;
    }
    assert(srt.take(n as int) =~= srt);
    out
}

// ---------------------------------------------------------------------------
// Enemy rows and drops
// ---------------------------------------------------------------------------

/// The enemy fleet of one battle cell.
#[derive(Debug, Clone)]
pub struct WikiwikiEnemyFleetDefinition<C> {
    pub node_label: String,
    pub cell_no: i64,
    /// 0 no battle, 1 a normal battle, 5 the boss.
    pub battle_kind: i64,
    pub formations: Vec<i64>,
    pub compositions: Vec<C>,
}

/// The enemy rows of one node label.
#[derive(Debug, Clone)]
pub struct EnemyNodeRows<C> {
    pub is_boss: bool,
    pub compositions: Vec<C>,
}

/// A drop at a node label.
#[derive(Debug, Clone)]
pub struct ShipDropDraft<D> {
    pub node_label: String,
    pub drop: D,
}

/// Where cell `c` goes in `s`, kept ascending: the first entry whose cell is
/// not below `c`.
pub open spec fn fleet_slot<C>(s: Seq<WikiwikiEnemyFleetDefinition<C>>, c: i64) -> int
    decreases s.len(),
{
    if s.len() == 0 {
        0
    } else if s[0].cell_no >= c {
        0
    } else {
        1 + fleet_slot(s.drop_first(), c)
    }
}

pub proof fn lemma_fleet_slot_range<C>(s: Seq<WikiwikiEnemyFleetDefinition<C>>, c: i64)
    ensures
        0 <= fleet_slot(s, c) <= s.len(),
        forall|i: int| 0 <= i < fleet_slot(s, c) ==> s[i].cell_no < c,
        fleet_slot(s, c) < s.len() ==> s[fleet_slot(s, c)].cell_no >= c,
    decreases s.len(),
{
    if s.len() > 0 && s[0].cell_no < c {
        lemma_fleet_slot_range(s.drop_first(), c);
        assert forall|i: int| 0 <= i < fleet_slot(s, c) implies s[i].cell_no < c by {
            if i > 0 {
                assert(s[i] == s.drop_first()[i - 1]);
            }
        }
    }
}

/// The fleets kept by cell, as a map from cell number keeps them: ascending
/// by cell, a later fleet for a cell replacing the earlier one.
pub open spec fn fleets_by_cell<C>(fleets: Seq<WikiwikiEnemyFleetDefinition<C>>) -> Seq<WikiwikiEnemyFleetDefinition<C>>
    decreases fleets.len(),
{
    if fleets.len() == 0 {
        fleets
    } else {
        let s = fleets_by_cell(fleets.drop_last());
        let f = fleets.last();
        let i = fleet_slot(s, f.cell_no);
        if i < s.len() && s[i].cell_no == f.cell_no {
            s.update(i, f)
        } else {
            s.insert(i, f)
        }
    }
}

/// One label's rows as plain values: the label, whether it is the boss, its compositions.
pub type RowsView<C> = (Seq<char>, bool, Seq<C>);

/// Where `label` already has rows.
pub open spec fn rows_index<C>(g: Seq<RowsView<C>>, label: Seq<char>) -> Option<int>
    decreases g.len(),
{
    if g.len() == 0 {
        None
    } else if g.last().0 == label {
        Some(g.len() - 1)
    } else {
        rows_index(g.drop_last(), label)
    }
}

/// The rows of each label, labels in the order their first cell comes: a
/// fleet on a labelled cell adds its compositions to the label's rows and
/// makes it the boss when it is the boss battle; fleets on unlabelled cells are dropped.
pub open spec fn group_rows<C>(
    fleets: Seq<WikiwikiEnemyFleetDefinition<C>>,
    nodes: Seq<WikiwikiNodeDefinition>,
) -> Seq<RowsView<C>>
    decreases fleets.len(),
{
    if fleets.len() == 0 {
        Seq::empty()
    } else {
        let g = group_rows(fleets.drop_last(), nodes);
        let f = fleets.last();
        match cell_label(nodes, f.cell_no) {
            None => g,
            Some(l) => match rows_index(g, l) {
                Some(j) => g.update(
                    j,
                    (l, g[j].1 || f.battle_kind == 5, g[j].2 + f.compositions@),
                ),
                None => g.push((l, f.battle_kind == 5, f.compositions@)),
            },
        }
    }
}

pub open spec fn rows_view<C>(g: Seq<(String, EnemyNodeRows<C>)>) -> Seq<RowsView<C>> {
    g.map_values(|e: (String, EnemyNodeRows<C>)| (e.0@, e.1.is_boss, e.1.compositions@))
}

/// The drops of every labelled cell, cells ascending, each drop with its label.
pub open spec fn drops_of<D>(cells: Seq<(i64, Vec<D>)>, nodes: Seq<WikiwikiNodeDefinition>) -> Seq<(Seq<char>, D)>
    decreases cells.len(),
{
    if cells.len() == 0 {
        Seq::empty()
    } else {
        let acc = drops_of(cells.drop_last(), nodes);
        match cell_label(nodes, cells.last().0) {
            Some(l) => acc + cells.last().1@.map_values(|d: D| (l, d)),
            None => acc,
        }
    }
}

pub open spec fn drop_views<D>(s: Seq<ShipDropDraft<D>>) -> Seq<(Seq<char>, D)> {
    s.map_values(|d: ShipDropDraft<D>| (d.node_label@, d.drop))
}

fn keep_by_cell<C>(fleets: Vec<WikiwikiEnemyFleetDefinition<C>>) -> (r: Vec<WikiwikiEnemyFleetDefinition<C>>)
    ensures
        r@ == fleets_by_cell(fleets@),
{
    let ghost orig = fleets@;
    let mut rest = fleets;
    let mut out: Vec<WikiwikiEnemyFleetDefinition<C>> = Vec::new();
    let n = rest.len();
    let mut k: usize = 0;
    while k < n
        invariant
            n == orig.len(),
            k <= n,
            rest@ == orig.subrange(k as int, n as int),
            out@ == fleets_by_cell(orig.take(k as int)),
        decreases n - k,
    {
        let f = rest.remove(0);
        assert(f == orig[k as int]);
        assert(rest@ =~= orig.subrange(k as int + 1, n as int));
        assert(orig.take(k as int + 1).drop_last() =~= orig.take(k as int));
        let ghost s0 = out@;
        let mut i: usize = 0;
        assert(s0.subrange(0, s0.len() as int) =~= s0);
        while i < out.len() && out[i].cell_no < f.cell_no
            invariant
                i <= out@.len(),
                out@ == s0,
                fleet_slot(s0, f.cell_no) == i + fleet_slot(s0.subrange(i as int, s0.len() as int), f.cell_no),
            decreases out@.len() - i,
        {
            assert(s0.subrange(i as int, s0.len() as int).drop_first() =~= s0.subrange(i + 1, s0.len() as int));
            i += 1;
        }
        proof {
            if i < s0.len() {
                assert(s0.subrange(i as int, s0.len() as int)[0] == s0[i as int]);
            }
            assert(fleet_slot(s0, f.cell_no) == i);
        }
        if i < out.len() && out[i].cell_no == f.cell_no {
            out.set(i, f);
        } else {
            out.insert(i, f);
        }
        k += 1;
    }
    assert(orig.take(n as int) =~= orig);
    out
}

fn find_rows<C>(g: &Vec<(String, EnemyNodeRows<C>)>, label: &String) -> (r: Option<usize>)
    ensures
        match r {
            Some(j) => rows_index(rows_view(g@), label@) == Some(j as int),
            None => rows_index(rows_view(g@), label@) is None,
        },
{
    let ghost gv = rows_view(g@);
    let mut i = g.len();
    assert(gv.take(i as int) =~= gv);
    while i > 0
        invariant
            i <= g@.len(),
            gv == rows_view(g@),
            rows_index(gv, label@) == rows_index(gv.take(i as int), label@),
        decreases i,
    {
        assert(gv.take(i as int).drop_last() =~= gv.take(i as int - 1));
        assert(gv.take(i as int).last() == gv[i - 1]);
        if g[i - 1].0 == *label {
            return Some(i - 1);
        }
        i -= 1;
    }
    None
}

pub proof fn lemma_rows_index<C>(g: Seq<RowsView<C>>, label: Seq<char>)
    ensures
        match rows_index(g, label) {
            Some(j) => 0 <= j < g.len() && g[j].0 == label,
            None => forall|i: int| 0 <= i < g.len() ==> g[i].0 != label,
        },
    decreases g.len(),
{
    if g.len() > 0 {
        lemma_rows_index(g.drop_last(), label);
        assert forall|i: int| 0 <= i < g.len() - 1 implies g.drop_last()[i] == g[i] by {}
    }
}

/// Collects the enemy rows of each node label.
pub fn enemy_rows_by_label<C>(
    fleets: Vec<WikiwikiEnemyFleetDefinition<C>>,
    nodes: &[WikiwikiNodeDefinition],
) -> (r: Vec<(String, EnemyNodeRows<C>)>)
    ensures
        rows_view(r@) == group_rows(fleets_by_cell(fleets@), nodes@),
{
    let by_cell = keep_by_cell(fleets);
    let ghost sel = by_cell@;
    let mut rest = by_cell;
    let mut g: Vec<(String, EnemyNodeRows<C>)> = Vec::new();
    let n = rest.len();
    let mut k: usize = 0;
    while k < n
        invariant
            n == sel.len(),
            k <= n,
            rest@ == sel.subrange(k as int, n as int),
            rows_view(g@) == group_rows(sel.take(k as int), nodes@),
        decreases n - k,
    {
        let f = rest.remove(0);
        assert(f == sel[k as int]);
        assert(rest@ =~= sel.subrange(k as int + 1, n as int));
        assert(sel.take(k as int + 1).drop_last() =~= sel.take(k as int));
        let ghost g0 = rows_view(g@);
        match cell_label_of(nodes, f.cell_no) {
            None => {},
            Some(label) => {
                let boss = f.battle_kind == 5;
                let mut comps = f.compositions;
                proof {
                    lemma_rows_index(g0, label@);
                }
                match find_rows(&g, &label) {
                    Some(j) => {
                        let (l, mut rows) = g.remove(j);
                        let ghost c0 = rows.compositions@;
                        let ghost cv = comps@;
                        rows.is_boss = rows.is_boss || boss;
                        rows.compositions.append(&mut comps);
                        assert(rows.compositions@ =~= c0 + cv);
                        g.insert(j, (l, rows));
                        assert(rows_view(g@) =~= g0.update(j as int, (label@, g0[j as int].1 || boss, g0[j as int].2 + cv)));
                    },
                    None => {
                        let ghost lv = label@;
                        let ghost cv = comps@;
                        g.push((label, EnemyNodeRows { is_boss: boss, compositions: comps }));
                        assert(rows_view(g@) =~= g0.push((lv, boss, cv)));
                    },
                }
            },
        }
        k += 1;
    }
    assert(sel.take(n as int) =~= sel);
    g
}

/// Puts each drop under the label of its cell; drops of unlabelled cells go.
pub fn drops_by_label<D>(cells: Vec<(i64, Vec<D>)>, nodes: &[WikiwikiNodeDefinition]) -> (r: Vec<ShipDropDraft<D>>)
    ensures
        drop_views(r@) == drops_of(cells@, nodes@),
{
    let ghost orig = cells@;
    let mut rest = cells;
    let mut out: Vec<ShipDropDraft<D>> = Vec::new();
    let n = rest.len();
    let mut k: usize = 0;
    while k < n
        invariant
            n == orig.len(),
            k <= n,
            rest@ == orig.subrange(k as int, n as int),
            drop_views(out@) == drops_of(orig.take(k as int), nodes@),
        decreases n - k,
    {
        let (cell, drops) = rest.remove(0);
        assert((cell, drops) == orig[k as int]);
        assert(rest@ =~= orig.subrange(k as int + 1, n as int));
        assert(orig.take(k as int + 1).drop_last() =~= orig.take(k as int));
        match cell_label_of(nodes, cell) {
            None => {},
            Some(label) => {
                let ghost base = drop_views(out@);
                let ghost dv = drops@;
                let mut ds = drops;
                let m = ds.len();
                let mut t: usize = 0;
                while t < m
                    invariant
                        m == dv.len(),
                        t <= m,
                        ds@ == dv.subrange(t as int, m as int),
                        drop_views(out@) == base + dv.take(t as int).map_values(|d: D| (label@, d)),
                    decreases m - t,
                {
                    let d = ds.remove(0);
                    assert(d == dv[t as int]);
                    assert(ds@ =~= dv.subrange(t as int + 1, m as int));
                    let ghost before = drop_views(out@);
                    out.push(ShipDropDraft { node_label: label.clone(), drop: d });
                    assert(drop_views(out@) =~= before.push((label@, d)));
                    assert(dv.take(t as int + 1).map_values(|d: D| (label@, d)) =~= dv.take(t as int).map_values(
                        |d: D| (label@, d),
                    ).push((label@, dv[t as int])));
                    t += 1;
                }
                assert(dv.take(m as int) =~= dv);
            },
        }
        k += 1;
    }
    assert(orig.take(n as int) =~= orig);
    out
}

// ---------------------------------------------------------------------------
// Variants and catalogs
// ---------------------------------------------------------------------------

/// One variant of a map as the extractor writes it.
#[derive(Debug)]
pub struct WikiwikiMapVariantDefinition<P, C, D> {
    pub variant_key: String,
    pub nodes: Vec<WikiwikiNodeDefinition>,
    pub routing_rules: Vec<WikiwikiRouteRule<P>>,
    pub enemy_fleets: Vec<WikiwikiEnemyFleetDefinition<C>>,
    /// Drops by cell number, cells ascending.
    pub ship_drops: Vec<(i64, Vec<D>)>,
    pub required_defeat_count: Option<i64>,
    pub clear_to_variant_key: Option<String>,
    pub parse_warnings: Vec<String>,
}

/// One variant of a map with every cell named by its label.
#[derive(Debug)]
pub struct WikiwikiLabelOverlay<P, C, D> {
    pub variant_key: String,
    pub routing_rules: Vec<RouteRuleDraft<P>>,
    /// Enemy rows by label, labels in the order their first cell comes.
    pub enemy_nodes: Vec<(String, EnemyNodeRows<C>)>,
    pub ship_drops: Vec<ShipDropDraft<D>>,
    pub required_defeat_count: Option<i64>,
    pub parse_warnings: Vec<String>,
}

/// `o` is variant `v` with its cells named by their labels.
pub open spec fn overlay_of<P, C, D>(
    v: WikiwikiMapVariantDefinition<P, C, D>,
    o: WikiwikiLabelOverlay<P, C, D>,
) -> bool {
    &&& o.variant_key@ == v.variant_key@
    &&& drafts_of(v.routing_rules@, o.routing_rules@, v.nodes@)
    &&& rows_view(o.enemy_nodes@) == group_rows(fleets_by_cell(v.enemy_fleets@), v.nodes@)
    &&& drop_views(o.ship_drops@) == drops_of(v.ship_drops@, v.nodes@)
    &&& o.required_defeat_count == v.required_defeat_count
    &&& o.parse_warnings.deep_view() == v.parse_warnings.deep_view()
}

impl<P, C, D> WikiwikiMapVariantDefinition<P, C, D> {
    /// Turns the extractor's variant into the label-keyed overlay the map
    /// build consumes.
    pub fn into_label_overlay(self) -> (o: WikiwikiLabelOverlay<P, C, D>)
        ensures
            overlay_of(self, o),
    {
        let ghost v = self;
        let WikiwikiMapVariantDefinition {
            variant_key,
            nodes,
            routing_rules,
            enemy_fleets,
            ship_drops,
            required_defeat_count,
            clear_to_variant_key,
            parse_warnings,
        } = self;
        let drafts = rules_to_drafts(routing_rules, nodes.as_slice());
        let enemy_nodes = enemy_rows_by_label(enemy_fleets, nodes.as_slice());
        let drops = drops_by_label(ship_drops, nodes.as_slice());
        WikiwikiLabelOverlay {
            variant_key,
            routing_rules: drafts,
            enemy_nodes,
            ship_drops: drops,
            required_defeat_count,
            parse_warnings,
        }
    }
}

/// One map as the extractor writes it.
#[derive(Debug)]
pub struct WikiwikiMapDefinition<P, C, D> {
    /// `maparea_id * 10 + mapinfo_no`.
    pub map_id: i64,
    pub maparea_id: i64,
    pub mapinfo_no: i64,
    pub name: String,
    pub source_url: String,
    pub default_variant: String,
    /// Variants by key, keys ascending.
    pub variants: Vec<(String, WikiwikiMapVariantDefinition<P, C, D>)>,
    pub overlays: Vec<(String, WikiwikiLabelOverlay<P, C, D>)>,
}

/// The extractor's output: maps by id, ids ascending.
#[derive(Debug)]
pub struct WikiwikiMapCatalog<P, C, D> {
    pub maps: Vec<(i64, WikiwikiMapDefinition<P, C, D>)>,
}

/// One map's overlays by variant key.
#[derive(Debug)]
pub struct WikiwikiMapOverlayDefinition<P, C, D> {
    pub map_id: i64,
    pub variants: Vec<(String, WikiwikiLabelOverlay<P, C, D>)>,
}

/// The label-keyed overlays of every map that has a variant.
#[derive(Debug)]
pub struct WikiwikiMapOverlayCatalog<P, C, D> {
    pub maps: Vec<(i64, WikiwikiMapOverlayDefinition<P, C, D>)>,
}

/// `out` holds the overlay of each variant of `vs`, same keys, same order.
pub open spec fn variants_lifted<P, C, D>(
    vs: Seq<(String, WikiwikiMapVariantDefinition<P, C, D>)>,
    out: Seq<(String, WikiwikiLabelOverlay<P, C, D>)>,
) -> bool {
    out.len() == vs.len() && forall|i: int|
        0 <= i < vs.len() ==> (#[trigger] out[i]).0@ == vs[i].0@ && overlay_of(vs[i].1, out[i].1)
}

/// The maps that have a variant, in order.
pub open spec fn maps_with_variants<P, C, D>(maps: Seq<(i64, WikiwikiMapDefinition<P, C, D>)>) -> Seq<
    (i64, WikiwikiMapDefinition<P, C, D>),
>
    decreases maps.len(),
{
    if maps.len() == 0 {
        maps
    } else if maps.last().1.variants@.len() > 0 {
        maps_with_variants(maps.drop_last()).push(maps.last())
    } else {
        maps_with_variants(maps.drop_last())
    }
}

/// `out` is the overlay catalog of `maps`.
pub open spec fn catalog_lifted<P, C, D>(
    maps: Seq<(i64, WikiwikiMapDefinition<P, C, D>)>,
    out: Seq<(i64, WikiwikiMapOverlayDefinition<P, C, D>)>,
) -> bool {
    let kept = maps_with_variants(maps);
    out.len() == kept.len() && forall|i: int|
        0 <= i < kept.len() ==> {
            &&& (#[trigger] out[i]).0 == kept[i].0
            &&& out[i].1.map_id == kept[i].0
            &&& variants_lifted(kept[i].1.variants@, out[i].1.variants@)
        }
}

fn lift_variants<P, C, D>(vs: Vec<(String, WikiwikiMapVariantDefinition<P, C, D>)>) -> (out: Vec<
    (String, WikiwikiLabelOverlay<P, C, D>),
>)
    ensures
        variants_lifted(vs@, out@),
{
    let ghost orig = vs@;
    let mut rest = vs;
    let mut out: Vec<(String, WikiwikiLabelOverlay<P, C, D>)> = Vec::new();
    let n = rest.len();
    let mut k: usize = 0;
    while k < n
        invariant
            n == orig.len(),
            k <= n,
            rest@ == orig.subrange(k as int, n as int),
            out@.len() == k,
            forall|i: int|
                0 <= i < k ==> (#[trigger] out@[i]).0@ == orig[i].0@ && overlay_of(orig[i].1, out@[i].1),
        decreases n - k,
    {
        let (key, variant) = rest.remove(0);
        assert((key, variant) == orig[k as int]);
        assert(rest@ =~= orig.subrange(k as int + 1, n as int));
        let o = variant.into_label_overlay();
        out.push((key, o));
        k += 1;
    }
    out
}

impl<P, C, D> WikiwikiMapCatalog<P, C, D> {
    /// Converts the extractor output into the label-keyed overlays; a map
    /// with no variant is left out.
    pub fn into_label_overlay_catalog(self) -> (r: WikiwikiMapOverlayCatalog<P, C, D>)
        ensures
            catalog_lifted(self.maps@, r.maps@),
    {
        let ghost orig = self.maps@;
        let mut rest = self.maps;
        let mut out: Vec<(i64, WikiwikiMapOverlayDefinition<P, C, D>)> = Vec::new();
        let n = rest.len();
        let mut k: usize = 0;
        while k < n
            invariant
                n == orig.len(),
                k <= n,
                rest@ == orig.subrange(k as int, n as int),
                out@.len() == maps_with_variants(orig.take(k as int)).len(),
                forall|i: int|
                    0 <= i < out@.len() ==> {
                        let kept = maps_with_variants(orig.take(k as int));
                        &&& (#[trigger] out@[i]).0 == kept[i].0
                        &&& out@[i].1.map_id == kept[i].0
                        &&& variants_lifted(kept[i].1.variants@, out@[i].1.variants@)
                    },
            decreases n - k,
        {
            let (map_id, def) = rest.remove(0);
            assert((map_id, def) == orig[k as int]);
            assert(rest@ =~= orig.subrange(k as int + 1, n as int));
            assert(orig.take(k as int + 1).drop_last() =~= orig.take(k as int));
            let ghost before = maps_with_variants(orig.take(k as int));
            let ghost d0 = def;
            if def.variants.len() > 0 {
                let variants = lift_variants(def.variants);
                out.push((map_id, WikiwikiMapOverlayDefinition { map_id, variants }));
                assert(maps_with_variants(orig.take(k as int + 1)) == before.push((map_id, d0)));
            } else {
                assert(maps_with_variants(orig.take(k as int + 1)) == before);
            }
            k += 1;
        }
        assert(orig.take(n as int) =~= orig);
        WikiwikiMapOverlayCatalog { maps: out }
    }
}

/// The first variant, in order, that has enemy fleets but no nodes.
pub open spec fn variant_error<P, C, D>(map_id: i64, vs: Seq<(String, WikiwikiMapVariantDefinition<P, C, D>)>) -> Option<
    Seq<char>,
>
    decreases vs.len(),
{
    if vs.len() == 0 {
        None
    } else {
        match variant_error(map_id, vs.drop_last()) {
            Some(e) => Some(e),
            None => {
                let (key, v) = vs.last();
                if v.nodes@.len() == 0 && v.enemy_fleets@.len() > 0 {
                    Some(
                        "map "@ + dec_i64(map_id) + " variant '"@ + key@
                            + "' has enemy fleets but no nodes"@,
                    )
                } else {
                    None
                }
            },
        }
    }
}

/// What is wrong with one map: no variant, or a variant with fleets and no nodes.
pub open spec fn map_error<P, C, D>(map_id: i64, def: WikiwikiMapDefinition<P, C, D>) -> Option<Seq<char>> {
    if def.variants@.len() == 0 {
        Some("map "@ + dec_i64(map_id) + " has no variants"@)
    } else {
        variant_error(map_id, def.variants@)
    }
}

pub open spec fn maps_error<P, C, D>(maps: Seq<(i64, WikiwikiMapDefinition<P, C, D>)>) -> Option<Seq<char>>
    decreases maps.len(),
{
    if maps.len() == 0 {
        None
    } else {
        match maps_error(maps.drop_last()) {
            Some(e) => Some(e),
            None => map_error(maps.last().0, maps.last().1),
        }
    }
}

/// Why a catalog is refused: it has no map, or the first fault in map order.
pub open spec fn catalog_error<P, C, D>(maps: Seq<(i64, WikiwikiMapDefinition<P, C, D>)>) -> Option<Seq<char>> {
    if maps.len() == 0 {
        Some("catalog has no maps"@)
    } else {
        maps_error(maps)
    }
}

/// A variant that the catalog accepts: it has nodes, or no enemy fleets.
pub open spec fn variant_sound<P, C, D>(v: WikiwikiMapVariantDefinition<P, C, D>) -> bool {
    v.nodes@.len() > 0 || v.enemy_fleets@.len() == 0
}

/// A map that the catalog accepts: it has a variant, and each is sound.
pub open spec fn map_sound<P, C, D>(def: WikiwikiMapDefinition<P, C, D>) -> bool {
    def.variants@.len() > 0 && forall|k: int|
        0 <= k < def.variants@.len() ==> variant_sound((#[trigger] def.variants@[k]).1)
}

proof fn lemma_variant_error_none<P, C, D>(map_id: i64, vs: Seq<(String, WikiwikiMapVariantDefinition<P, C, D>)>)
    ensures
        variant_error(map_id, vs) is None <==> forall|k: int| 0 <= k < vs.len() ==> variant_sound((#[trigger] vs[k]).1),
    decreases vs.len(),
{
    if vs.len() > 0 {
        let init = vs.drop_last();
        lemma_variant_error_none(map_id, init);
        if forall|k: int| 0 <= k < init.len() ==> variant_sound((#[trigger] init[k]).1) {
            assert forall|k: int| 0 <= k < vs.len() - 1 implies variant_sound((#[trigger] vs[k]).1) by {
                assert(vs[k] == init[k]);
            }
        } else {
            let k = choose|k: int| !(0 <= k < init.len() ==> variant_sound((#[trigger] init[k]).1));
            assert(vs[k] == init[k]);
        }
    }
}

proof fn lemma_maps_error_none<P, C, D>(maps: Seq<(i64, WikiwikiMapDefinition<P, C, D>)>)
    ensures
        maps_error(maps) is None <==> forall|i: int| 0 <= i < maps.len() ==> map_sound((#[trigger] maps[i]).1),
    decreases maps.len(),
{
    if maps.len() > 0 {
        let init = maps.drop_last();
        lemma_maps_error_none(init);
        lemma_variant_error_none(maps.last().0, maps.last().1.variants@);
        if forall|i: int| 0 <= i < init.len() ==> map_sound((#[trigger] init[i]).1) {
            assert forall|i: int| 0 <= i < maps.len() - 1 implies map_sound((#[trigger] maps[i]).1) by {
                assert(maps[i] == init[i]);
            }
        } else {
            let i = choose|i: int| !(0 <= i < init.len() ==> map_sound((#[trigger] init[i]).1));
            assert(maps[i] == init[i]);
        }
    }
}

/// A catalog passes validation exactly when it has a map, every map has a
/// variant, and every variant has nodes or no enemy fleets.
pub proof fn law_catalog_accepted_exactly_when_sound<P, C, D>(maps: Seq<(i64, WikiwikiMapDefinition<P, C, D>)>)
    ensures
        catalog_error(maps) is None <==> (maps.len() > 0 && forall|i: int|
            0 <= i < maps.len() ==> map_sound((#[trigger] maps[i]).1)),
{
    lemma_maps_error_none(maps);
}

impl<P, C, D> WikiwikiMapCatalog<P, C, D> {
    /// Checks that the catalog has a map, every map a variant, and no variant
    /// enemy fleets without nodes.
    pub fn validate(&self) -> (r: Result<(), String>)
        ensures
            match r {
                Ok(()) => catalog_error(self.maps@) is None,
                Err(e) => catalog_error(self.maps@) == Some(e@),
            },
    {
        if self.maps.len() == 0 {
            let e = "catalog has no maps".to_string();
            proof {
                reveal_strlit("catalog has no maps");
            }
            return Err(e);
        }
        let mut i: usize = 0;
        while i < self.maps.len()
            invariant
                i <= self.maps@.len(),
                maps_error(self.maps@.take(i as int)) is None,
            decreases self.maps@.len() - i,
        {
            assert(self.maps@.take(i as int + 1).drop_last() =~= self.maps@.take(i as int));
            let map_id = self.maps[i].0;
            let def = &self.maps[i].1;
            if def.variants.len() == 0 {
                let mut m = chars_of("map ");
                push_dec_i64(&mut m, map_id);
                extend_chars(&mut m, chars_of(" has no variants").as_slice());
                proof {
                    lemma_maps_error_prefix(self.maps@, i as int + 1);
                }
                return Err(string_of(m.as_slice()));
            }
            let mut j: usize = 0;
            while j < def.variants.len()
                invariant
                    i < self.maps@.len(),
                    def == self.maps@[i as int].1,
                    map_id == self.maps@[i as int].0,
                    j <= def.variants@.len(),
                    maps_error(self.maps@.take(i as int)) is None,
                    variant_error(map_id, def.variants@.take(j as int)) is None,
                decreases def.variants@.len() - j,
            {
                assert(def.variants@.take(j as int + 1).drop_last() =~= def.variants@.take(j as int));
                let v = &def.variants[j].1;
                if v.nodes.len() == 0 && v.enemy_fleets.len() > 0 {
                    let mut m = chars_of("map ");
                    push_dec_i64(&mut m, map_id);
                    extend_chars(&mut m, chars_of(" variant '").as_slice());
                    extend_chars(&mut m, chars_of(def.variants[j].0.as_str()).as_slice());
                    extend_chars(&mut m, chars_of("' has enemy fleets but no nodes").as_slice());
                    proof {
                        assert(def.variants@.take(j as int + 1).last() == def.variants@[j as int]);
                        assert(variant_error(map_id, def.variants@.take(j as int + 1)) == Some(m@));
                        lemma_variant_error_prefix(map_id, def.variants@, j as int + 1);
                        assert(map_error(map_id, *def) == Some(m@));
                        assert(self.maps@.take(i as int + 1).last() == self.maps@[i as int]);
                        assert(self.maps@.take(i as int + 1).drop_last() =~= self.maps@.take(i as int));
                        assert(maps_error(self.maps@.take(i as int + 1)) == Some(m@));
                        lemma_maps_error_prefix(self.maps@, i as int + 1);
                    }
                    return Err(string_of(m.as_slice()));
                }
                j += 1;
            }
            assert(def.variants@.take(def.variants@.len() as int) =~= def.variants@);
            i += 1;
        }
        assert(self.maps@.take(self.maps@.len() as int) =~= self.maps@);
        Ok(())
    }
}

proof fn lemma_maps_error_prefix<P, C, D>(maps: Seq<(i64, WikiwikiMapDefinition<P, C, D>)>, k: int)
    requires
        0 <= k <= maps.len(),
        maps_error(maps.take(k)) is Some,
    ensures
        maps_error(maps) == maps_error(maps.take(k)),
    decreases maps.len() - k,
{
    if k < maps.len() {
        assert(maps.take(k + 1).drop_last() =~= maps.take(k));
        lemma_maps_error_prefix(maps, k + 1);
    } else {
        assert(maps.take(k) =~= maps);
    }
}

proof fn lemma_variant_error_prefix<P, C, D>(
    map_id: i64,
    vs: Seq<(String, WikiwikiMapVariantDefinition<P, C, D>)>,
    k: int,
)
    requires
        0 <= k <= vs.len(),
        variant_error(map_id, vs.take(k)) is Some,
    ensures
        variant_error(map_id, vs) == variant_error(map_id, vs.take(k)),
    decreases vs.len() - k,
{
    if k < vs.len() {
        assert(vs.take(k + 1).drop_last() =~= vs.take(k));
        lemma_variant_error_prefix(map_id, vs, k + 1);
    } else {
        assert(vs.take(k) =~= vs);
    }
}

// ---------------------------------------------------------------------------
// Laws
// ---------------------------------------------------------------------------

/// The predicate names no cell number: no `VisitedNode` anywhere in it.
pub open spec fn names_no_cell(p: RoutePredicate) -> bool
    decreases p,
{
    match p {
        RoutePredicate::VisitedNode { .. } => false,
        RoutePredicate::And(ps) => forall|i: int| 0 <= i < ps@.len() ==> names_no_cell(#[trigger] ps@[i]),
        RoutePredicate::Or(ps) => forall|i: int| 0 <= i < ps@.len() ==> names_no_cell(#[trigger] ps@[i]),
        RoutePredicate::Not(inner) => names_no_cell(*inner),
        _ => true,
    }
}

/// After lifting, no route-history condition names a cell number.
pub proof fn law_lifting_leaves_no_cell_numbers(
    p: RoutePredicate,
    q: RoutePredicate,
    nodes: Seq<WikiwikiNodeDefinition>,
)
    requires
        lifted(p, q, nodes),
    ensures
        names_no_cell(q),
    decreases p,
{
    match p {
        RoutePredicate::And(ps) => {
            if let RoutePredicate::And(qs) = q {
                assert forall|i: int| 0 <= i < qs@.len() implies names_no_cell(#[trigger] qs@[i]) by {
                    assert(decreases_to!(p => ps));
                    assert(decreases_to!(ps => ps@));
                    assert(decreases_to!(ps@ => ps@[i]));
                    law_lifting_leaves_no_cell_numbers(ps@[i], qs@[i], nodes);
                }
            }
        },
        RoutePredicate::Or(ps) => {
            if let RoutePredicate::Or(qs) = q {
                assert forall|i: int| 0 <= i < qs@.len() implies names_no_cell(#[trigger] qs@[i]) by {
                    assert(decreases_to!(p => ps));
                    assert(decreases_to!(ps => ps@));
                    assert(decreases_to!(ps@ => ps@[i]));
                    law_lifting_leaves_no_cell_numbers(ps@[i], qs@[i], nodes);
                }
            }
        },
        RoutePredicate::Not(inner) => {
            if let RoutePredicate::Not(out) = q {
                law_lifting_leaves_no_cell_numbers(*inner, *out, nodes);
            }
        },
        _ => {},
    }
}

pub proof fn lemma_group_rows_labels<C>(fleets: Seq<WikiwikiEnemyFleetDefinition<C>>, nodes: Seq<WikiwikiNodeDefinition>)
    ensures
        forall|i: int, j: int|
            0 <= i < j < group_rows(fleets, nodes).len() ==> (#[trigger] group_rows(fleets, nodes)[i]).0
                != (#[trigger] group_rows(fleets, nodes)[j]).0,
    decreases fleets.len(),
{
    if fleets.len() > 0 {
        let g = group_rows(fleets.drop_last(), nodes);
        lemma_group_rows_labels(fleets.drop_last(), nodes);
        let f = fleets.last();
        match cell_label(nodes, f.cell_no) {
            None => {},
            Some(l) => {
                lemma_rows_index(g, l);
                let r = group_rows(fleets, nodes);
                match rows_index(g, l) {
                    Some(k) => {
                        assert forall|i: int, j: int| 0 <= i < j < r.len() implies (#[trigger] r[i]).0
                            != (#[trigger] r[j]).0 by {
                            assert(r[i].0 == g[i].0);
                            assert(r[j].0 == g[j].0);
                        }
                    },
                    None => {
                        assert forall|i: int, j: int| 0 <= i < j < r.len() implies (#[trigger] r[i]).0
                            != (#[trigger] r[j]).0 by {
                            assert(r[i] == g[i]);
                            if j < g.len() {
                                assert(r[j] == g[j]);
                            }
                        }
                    },
                }
            },
        }
    }
}

/// A label has one set of enemy rows, however many cells the extractor
/// placed it on.
pub proof fn law_each_label_has_one_row_set<C>(
    fleets: Seq<WikiwikiEnemyFleetDefinition<C>>,
    nodes: Seq<WikiwikiNodeDefinition>,
)
    ensures
        forall|i: int, j: int|
            0 <= i < j < group_rows(fleets_by_cell(fleets), nodes).len() ==> (#[trigger] group_rows(
                fleets_by_cell(fleets),
                nodes,
            )[i]).0 != (#[trigger] group_rows(fleets_by_cell(fleets), nodes)[j]).0,
{
    lemma_group_rows_labels(fleets_by_cell(fleets), nodes);
}

/// The rules are in order: no rule sorts before one ahead of it.
pub open spec fn rules_in_order<P>(s: Seq<WikiwikiRouteRule<P>>) -> bool {
    forall|i: int, j: int| 0 <= i < j < s.len() ==> !rule_before(#[trigger] s[j], #[trigger] s[i])
}

proof fn lemma_rule_slot_bounds<P>(r: Seq<WikiwikiRouteRule<P>>, x: WikiwikiRouteRule<P>)
    ensures
        0 <= rule_slot(r, x) <= r.len(),
        forall|m: int| rule_slot(r, x) <= m < r.len() ==> rule_before(x, #[trigger] r[m]),
        rule_slot(r, x) > 0 ==> !rule_before(x, r[rule_slot(r, x) - 1]),
    decreases r.len(),
{
    if r.len() > 0 && rule_before(x, r.last()) {
        lemma_rule_slot_bounds(r.drop_last(), x);
        assert forall|m: int| rule_slot(r, x) <= m < r.len() implies rule_before(x, #[trigger] r[m]) by {
            if m < r.len() - 1 {
                assert(r[m] == r.drop_last()[m]);
            }
        }
        if rule_slot(r, x) > 0 {
            assert(r[rule_slot(r, x) - 1] == r.drop_last()[rule_slot(r, x) - 1]);
        }
    }
}

/// The rules come out ordered by departing cell, then priority, and none is
/// lost or added on the way.
pub proof fn law_sorted_rules_are_ordered<P>(s: Seq<WikiwikiRouteRule<P>>)
    ensures
        rules_in_order(sorted_rules(s)),
        sorted_rules(s).to_multiset() == s.to_multiset(),
    decreases s.len(),
{
    broadcast use vstd::seq_lib::to_multiset_insert, vstd::seq_lib::to_multiset_build;
    if s.len() > 0 {
        let r = sorted_rules(s.drop_last());
        let x = s.last();
        law_sorted_rules_are_ordered(s.drop_last());
        lemma_rule_slot_bounds(r, x);
        let k = rule_slot(r, x);
        let t = r.insert(k, x);
        assert forall|i: int, j: int| 0 <= i < j < t.len() implies !rule_before(#[trigger] t[j], #[trigger] t[i]) by {
            if j < k {
                assert(t[i] == r[i] && t[j] == r[j]);
            } else if j == k {
                assert(t[i] == r[i]);
                assert(!rule_before(x, r[k - 1]));
                if i < k - 1 {
                    assert(!rule_before(r[k - 1], r[i]));
                }
            } else if i < k {
                assert(t[i] == r[i] && t[j] == r[j - 1]);
            } else if i == k {
                assert(t[j] == r[j - 1]);
                assert(rule_before(x, r[j - 1]));
            } else {
                assert(t[i] == r[i - 1] && t[j] == r[j - 1]);
            }
        }
        assert(s =~= s.drop_last().push(x));
    }
}

} // verus!
