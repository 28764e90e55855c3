//! Structural validator for decoded map route definitions.
//!
//! It checks the declared topology of one stage (every edge a routing rule
//! takes is an edge of the stage, every cell it names exists) and reports the
//! rules whose predicates the parser could not read. It does not evaluate
//! predicates and does not judge thresholds: those come from the same source
//! being validated, so checking them against it would be circular.
use vstd::prelude::*;

use crate::route_model::{MapCellDefinition, MapStageDefinition, RoutePredicate, RouteRule};
use crate::text::{chars_of, dec_i64, extend_chars, join_with, push_dec_i64, string_of};

verus! {

#[derive(Debug, Clone, Copy, PartialEq, Eq, Structural)]
pub enum MapRouteValidationSeverity {
    Error,
    Warning,
}

#[derive(Debug, Clone, Copy, PartialEq, Eq, Structural)]
pub enum MapRouteValidationFindingKind {
    /// A routing rule targets a cell absent from the departing cell's `next_cells`.
    RuleTargetNotInNextCells,
    /// A `next_cells` entry names a cell number that is not a cell of the stage.
    NextCellNotInStage,
    /// A routing-rule group is keyed by a cell that is not a cell of the stage.
    RuleFromCellNotInStage,
    /// A rule carries an `Unknown` or `SourceUnknown` predicate.
    UnsupportedPredicate,
}

#[derive(Debug, Clone)]
pub struct MapRouteValidationFinding {
    pub severity: MapRouteValidationSeverity,
    pub kind: MapRouteValidationFindingKind,
    /// The cell the finding originates from.
    pub from_cell_no: i64,
    /// The cell the finding points at, where there is one.
    pub to_cell_no: Option<i64>,
    pub message: String,
}

/// A finding as plain values.
pub type FindingView = (
    MapRouteValidationSeverity,
    MapRouteValidationFindingKind,
    i64,
    Option<i64>,
    Seq<char>,
);

impl View for MapRouteValidationFinding {
    type V = FindingView;

    open spec fn view(&self) -> FindingView {
        (self.severity, self.kind, self.from_cell_no, self.to_cell_no, self.message@)
    }
}

#[derive(Debug, Clone)]
pub struct MapRouteValidationReport {
    pub findings: Vec<MapRouteValidationFinding>,
}

impl View for MapRouteValidationReport {
    type V = Seq<FindingView>;

    open spec fn view(&self) -> Seq<FindingView> {
        self.findings@.map_values(|f: MapRouteValidationFinding| f@)
    }
}

pub open spec fn has_error_in(findings: Seq<FindingView>) -> bool {
    exists|i: int| 0 <= i < findings.len() && findings[i].0 == MapRouteValidationSeverity::Error
}

impl Default for MapRouteValidationReport {
    fn default() -> (r: Self)
        ensures
            r@ == Seq::<FindingView>::empty(),
    {
        let r = MapRouteValidationReport { findings: Vec::new() };
        assert(r@ =~= Seq::<FindingView>::empty());
        r
    }
}

impl MapRouteValidationReport {
    /// Whether any finding is an error.
    pub fn has_errors(&self) -> (b: bool)
        ensures
            b == has_error_in(self@),
    {
        let mut i: usize = 0;
        while i < self.findings.len()
            invariant
                i <= self.findings@.len(),
                forall|k: int|
                    0 <= k < i ==> self.findings@[k].severity != MapRouteValidationSeverity::Error,
            decreases self.findings@.len() - i,
        {
            if self.findings[i].severity == MapRouteValidationSeverity::Error {
                assert(self@[i as int].0 == MapRouteValidationSeverity::Error);
                return true;
            }
            i += 1;
        }
        false
    }

    fn push_finding(
        &mut self,
        severity: MapRouteValidationSeverity,
        kind: MapRouteValidationFindingKind,
        from_cell_no: i64,
        to_cell_no: Option<i64>,
        message: String,
    )
        ensures
            final(self)@ == old(self)@.push((severity, kind, from_cell_no, to_cell_no, message@)),
    {
        let f = MapRouteValidationFinding { severity, kind, from_cell_no, to_cell_no, message };
        self.findings.push(f);
        assert(self@ =~= old(self)@.push(f@));
    }

    fn push_error(
        &mut self,
        kind: MapRouteValidationFindingKind,
        from_cell_no: i64,
        to_cell_no: Option<i64>,
        message: String,
    )
        ensures
            final(self)@ == old(self)@.push(
                (MapRouteValidationSeverity::Error, kind, from_cell_no, to_cell_no, message@),
            ),
    {
        self.push_finding(MapRouteValidationSeverity::Error, kind, from_cell_no, to_cell_no, message);
    }

    fn push_warning(
        &mut self,
        kind: MapRouteValidationFindingKind,
        from_cell_no: i64,
        to_cell_no: Option<i64>,
        message: String,
    )
        ensures
            final(self)@ == old(self)@.push(
                (MapRouteValidationSeverity::Warning, kind, from_cell_no, to_cell_no, message@),
            ),
    {
        self.push_finding(MapRouteValidationSeverity::Warning, kind, from_cell_no, to_cell_no, message);
    }
}

// ---------------------------------------------------------------------------
// Messages
// ---------------------------------------------------------------------------

/// The text `format!("{:?}", s)` gives for a string: quoted, with escapes.
pub uninterp spec fn debug_text(s: Seq<char>) -> Seq<char>;

/// `<str as Debug>::fmt`, through `format!("{:?}")`. The contract names the
/// result `debug_text`; the escaping rules themselves are not restated.
#[verifier::external_body]
fn debug_str(s: &str) -> (r: String)
    ensures
        r@ == debug_text(s@),
{
    format!("{:?}", s)
}

pub open spec fn next_cell_message(cell_no: i64, next: i64) -> Seq<char> {
    "cell "@ + dec_i64(cell_no) + " lists next_cell "@ + dec_i64(next)
        + " that is not a real cell of the stage"@
}

pub open spec fn from_cell_message(from: i64) -> Seq<char> {
    "routing_rules reference from-cell "@ + dec_i64(from) + " that is not a real cell of the stage"@
}

/// A set of cell numbers as `BTreeSet`'s `Debug` shows it: `{1, 2}`.
pub open spec fn set_text(sorted: Seq<i64>) -> Seq<char> {
    "{"@ + join_with(sorted.map_values(|n: i64| dec_i64(n)), ", "@) + "}"@
}

pub open spec fn target_message(from: i64, to: i64, sorted_next: Seq<i64>) -> Seq<char> {
    "cell "@ + dec_i64(from) + " routing rule targets "@ + dec_i64(to) + " outside its next_cells "@
        + set_text(sorted_next)
}

pub open spec fn unsupported_message(from: i64, to: i64, what: Seq<char>, raw: Seq<char>) -> Seq<
    char,
> {
    "rule "@ + dec_i64(from) + "->"@ + dec_i64(to) + " uses "@ + what + " predicate (raw: "@
        + debug_text(raw) + "); a live decision over it falls through"@
}

// ---------------------------------------------------------------------------
// Sorted sets of cell numbers
// ---------------------------------------------------------------------------

/// Inserting `x` into an ascending sequence, keeping each value once.
pub open spec fn insert_sorted(r: Seq<i64>, x: i64) -> Seq<i64>
    decreases r.len(),
{
    if r.len() == 0 {
        seq![x]
    } else if x < r[0] {
        seq![x] + r
    } else if x == r[0] {
        r
    } else {
        seq![r[0]] + insert_sorted(r.drop_first(), x)
    }
}

/// The distinct values of `v` in ascending order (what collecting into a `BTreeSet` gives).
pub open spec fn sorted_set_of(v: Seq<i64>) -> Seq<i64>
    decreases v.len(),
{
    if v.len() == 0 {
        Seq::<i64>::empty()
    } else {
        insert_sorted(sorted_set_of(v.drop_last()), v.last())
    }
}

proof fn lemma_insert_sorted_at(r: Seq<i64>, x: i64, i: int)
    requires
        0 <= i <= r.len(),
        forall|k: int| 0 <= k < i ==> r[k] < x,
        i == r.len() || r[i] >= x,
    ensures
        insert_sorted(r, x) == if i < r.len() && r[i] == x {
            r
        } else {
            r.take(i) + seq![x] + r.skip(i)
        },
    decreases i,
{
    if i == 0 {
        if r.len() == 0 {
            assert(r.take(0) + seq![x] + r.skip(0) =~= seq![x]);
        } else if r[0] != x {
            assert(r.take(0) + seq![x] + r.skip(0) =~= seq![x] + r);
        }
    } else {
        let t = r.drop_first();
        assert forall|k: int| 0 <= k < i - 1 implies t[k] < x by {
            assert(t[k] == r[k + 1]);
        }
        if i - 1 < t.len() {
            assert(t[i - 1] == r[i]);
        }
        lemma_insert_sorted_at(t, x, i - 1);
        if i < r.len() && r[i] == x {
            assert(seq![r[0]] + t =~= r);
        } else {
            assert(seq![r[0]] + (t.take(i - 1) + seq![x] + t.skip(i - 1)) =~= r.take(i) + seq![x]
                + r.skip(i));
        }
    }
}

pub(crate) fn insert_sorted_exec(r: &mut Vec<i64>, x: i64)
    ensures
        final(r)@ == insert_sorted(old(r)@, x),
{
    let mut i: usize = 0;
    while i < r.len() && r[i] < x
        invariant
            i <= r@.len(),
            r@ == old(r)@,
            forall|k: int| 0 <= k < i ==> r@[k] < x,
        decreases r@.len() - i,
    {
        i += 1;
    }
    proof {
        lemma_insert_sorted_at(r@, x, i as int);
    }
    if i < r.len() && r[i] == x {
        return;
    }
    r.insert(i, x);
    assert(r@ =~= old(r)@.take(i as int) + seq![x] + old(r)@.skip(i as int));
}

pub(crate) fn sorted_set_exec(v: &Vec<i64>) -> (r: Vec<i64>)
    ensures
        r@ == sorted_set_of(v@),
{
    let mut r: Vec<i64> = Vec::new();
    let mut i: usize = 0;
    while i < v.len()
        invariant
            i <= v@.len(),
            r@ == sorted_set_of(v@.take(i as int)),
        decreases v@.len() - i,
    {
        assert(v@.take(i as int + 1).drop_last() =~= v@.take(i as int));
        insert_sorted_exec(&mut r, v[i]);
        i += 1;
    }
    assert(v@.take(v@.len() as int) =~= v@);
    r
}

fn set_text_exec(sorted: &Vec<i64>) -> (r: Vec<char>)
    ensures
        r@ == set_text(sorted@),
{
    let ghost parts = sorted@.map_values(|n: i64| dec_i64(n));
    let mut body: Vec<char> = Vec::new();
    let mut i: usize = 0;
    while i < sorted.len()
        invariant
            i <= sorted@.len(),
            parts == sorted@.map_values(|n: i64| dec_i64(n)),
            body@ == join_with(parts.take(i as int), ", "@),
        decreases sorted@.len() - i,
    {
        assert(parts.take(i as int + 1).drop_last() =~= parts.take(i as int));
        if i > 0 {
            let sep = chars_of(", ");
            extend_chars(&mut body, sep.as_slice());
        }
        push_dec_i64(&mut body, sorted[i]);
        proof {
            if i == 0 {
                assert(body@ =~= parts.take(1)[0]);
            }
        }
        i += 1;
    }
    assert(parts.take(sorted@.len() as int) =~= parts);
    let mut r = chars_of("{");
    extend_chars(&mut r, body.as_slice());
    let close = chars_of("}");
    extend_chars(&mut r, close.as_slice());
    r
}

// ---------------------------------------------------------------------------
// What the validator reports
// ---------------------------------------------------------------------------

/// Warnings for the unsupported leaves of a predicate tree, left to right.
pub open spec fn unsupported_of(p: RoutePredicate, from: i64, to: i64) -> Seq<FindingView>
    decreases p, 1nat,
{
    match p {
        RoutePredicate::Unknown { raw_text } => seq![
            (
                MapRouteValidationSeverity::Warning,
                MapRouteValidationFindingKind::UnsupportedPredicate,
                from,
                Some(to),
                unsupported_message(from, to, "an Unknown"@, raw_text@),
            ),
        ],
        RoutePredicate::SourceUnknown { raw_text } => seq![
            (
                MapRouteValidationSeverity::Warning,
                MapRouteValidationFindingKind::UnsupportedPredicate,
                from,
                Some(to),
                unsupported_message(from, to, "a SourceUnknown"@, raw_text@),
            ),
        ],
        RoutePredicate::And(v) => unsupported_seq(v@, from, to),
        RoutePredicate::Or(v) => unsupported_seq(v@, from, to),
        RoutePredicate::Not(inner) => unsupported_of(*inner, from, to),
        _ => Seq::<FindingView>::empty(),
    }
}

pub open spec fn unsupported_seq(ps: Seq<RoutePredicate>, from: i64, to: i64) -> Seq<FindingView>
    decreases ps, 0nat,
{
    if ps.len() == 0 {
        Seq::<FindingView>::empty()
    } else {
        unsupported_seq(ps.drop_last(), from, to) + unsupported_of(ps.last(), from, to)
    }
}

/// Errors for the `next_cells` entries of one cell that name no cell of the stage.
pub open spec fn next_cell_errors(cell_nos: Set<i64>, cell_no: i64, nexts: Seq<i64>) -> Seq<
    FindingView,
>
    decreases nexts.len(),
{
    if nexts.len() == 0 {
        Seq::<FindingView>::empty()
    } else {
        next_cell_errors(cell_nos, cell_no, nexts.drop_last()) + if cell_nos.contains(nexts.last()) {
            Seq::<FindingView>::empty()
        } else {
            seq![
                (
                    MapRouteValidationSeverity::Error,
                    MapRouteValidationFindingKind::NextCellNotInStage,
                    cell_no,
                    Some(nexts.last()),
                    next_cell_message(cell_no, nexts.last()),
                ),
            ]
        }
    }
}

pub open spec fn topology_errors(cell_nos: Set<i64>, cells: Seq<MapCellDefinition>) -> Seq<
    FindingView,
>
    decreases cells.len(),
{
    if cells.len() == 0 {
        Seq::<FindingView>::empty()
    } else {
        topology_errors(cell_nos, cells.drop_last()) + next_cell_errors(
            cell_nos,
            cells.last().cell_no,
            cells.last().next_cells@,
        )
    }
}

/// The findings for the rules of one departing cell whose `next_cells` are `nexts`.
pub open spec fn rule_findings(from: i64, nexts: Seq<i64>, rules: Seq<RouteRule>) -> Seq<
    FindingView,
>
    decreases rules.len(),
{
    if rules.len() == 0 {
        Seq::<FindingView>::empty()
    } else {
        let rule = rules.last();
        rule_findings(from, nexts, rules.drop_last()) + (if nexts.contains(rule.to_cell_no) {
            Seq::<FindingView>::empty()
        } else {
            seq![
                (
                    MapRouteValidationSeverity::Error,
                    MapRouteValidationFindingKind::RuleTargetNotInNextCells,
                    from,
                    Some(rule.to_cell_no),
                    target_message(from, rule.to_cell_no, sorted_set_of(nexts)),
                ),
            ]
        }) + unsupported_of(rule.predicate, from, rule.to_cell_no)
    }
}

/// The `next_cells` of the first cell numbered `n`, or nothing when there is none.
pub open spec fn next_cells_of(stage: MapStageDefinition, n: i64) -> Seq<i64> {
    match stage.cell_index(n) {
        Some(i) => stage.cells@[i].next_cells@,
        None => Seq::<i64>::empty(),
    }
}

pub open spec fn group_findings(stage: MapStageDefinition, from: i64, rules: Seq<RouteRule>) -> Seq<
    FindingView,
> {
    (if stage.cell_index(from) is Some {
        Seq::<FindingView>::empty()
    } else {
        seq![
            (
                MapRouteValidationSeverity::Error,
                MapRouteValidationFindingKind::RuleFromCellNotInStage,
                from,
                None,
                from_cell_message(from),
            ),
        ]
    }) + rule_findings(from, next_cells_of(stage, from), rules)
}

pub open spec fn routing_findings(
    stage: MapStageDefinition,
    groups: Seq<(i64, Vec<RouteRule>)>,
) -> Seq<FindingView>
    decreases groups.len(),
{
    if groups.len() == 0 {
        Seq::<FindingView>::empty()
    } else {
        routing_findings(stage, groups.drop_last()) + group_findings(
            stage,
            groups.last().0,
            groups.last().1@,
        )
    }
}

/// Everything the validator reports for a stage, in the order it reports it:
/// first the dangling `next_cells` cell by cell, then rule group by rule group.
pub open spec fn stage_findings(stage: MapStageDefinition) -> Seq<FindingView> {
    topology_errors(stage.cell_nos(), stage.cells@) + routing_findings(stage, stage.routing_rules@)
}

// ---------------------------------------------------------------------------
// The walk
// ---------------------------------------------------------------------------

fn unsupported_text(from: i64, to: i64, what: &str, raw: &str) -> (r: String)
    ensures
        r@ == unsupported_message(from, to, what@, raw@),
{
    let mut m = chars_of("rule ");
    push_dec_i64(&mut m, from);
    extend_chars(&mut m, chars_of("->").as_slice());
    push_dec_i64(&mut m, to);
    extend_chars(&mut m, chars_of(" uses ").as_slice());
    extend_chars(&mut m, chars_of(what).as_slice());
    extend_chars(&mut m, chars_of(" predicate (raw: ").as_slice());
    let d = debug_str(raw);
    extend_chars(&mut m, chars_of(d.as_str()).as_slice());
    extend_chars(&mut m, chars_of("); a live decision over it falls through").as_slice());
    string_of(m.as_slice())
}

/// Walks a predicate tree and warns about each unsupported leaf.
fn flag_unsupported_predicates(
    predicate: &RoutePredicate,
    from_cell_no: i64,
    to_cell_no: i64,
    report: &mut MapRouteValidationReport,
)
    ensures
        final(report)@ == old(report)@ + unsupported_of(*predicate, from_cell_no, to_cell_no),
    decreases *predicate,
{
    match predicate {
        RoutePredicate::Unknown { raw_text } => {
            let m = unsupported_text(from_cell_no, to_cell_no, "an Unknown", raw_text.as_str());
            report.push_warning(
                MapRouteValidationFindingKind::UnsupportedPredicate,
                from_cell_no,
                Some(to_cell_no),
                m,
            );
        },
        RoutePredicate::SourceUnknown { raw_text } => {
            let m = unsupported_text(from_cell_no, to_cell_no, "a SourceUnknown", raw_text.as_str());
            report.push_warning(
                MapRouteValidationFindingKind::UnsupportedPredicate,
                from_cell_no,
                Some(to_cell_no),
                m,
            );
        },
        RoutePredicate::And(predicates) | RoutePredicate::Or(predicates) => {
            let mut i: usize = 0;
            while i < predicates.len()
                invariant
                    i <= predicates@.len(),
                    *predicate == RoutePredicate::And(*predicates) || *predicate
                        == RoutePredicate::Or(*predicates),
                    report@ == old(report)@ + unsupported_seq(
                        predicates@.take(i as int),
                        from_cell_no,
                        to_cell_no,
                    ),
                decreases predicates@.len() - i,
            {
                assert(predicates@.take(i as int + 1).drop_last() =~= predicates@.take(i as int));
                proof {
                    assert(decreases_to!(*predicates => predicates@));
                    assert(decreases_to!(predicates@ => predicates@[i as int]));
                    if *predicate is And {
                        assert(decreases_to!(*predicate => (*predicate)->And_0));
                    } else {
                        assert(decreases_to!(*predicate => (*predicate)->Or_0));
                    }
                    assert(decreases_to!(*predicate => predicates@[i as int]));
                }
                flag_unsupported_predicates(&predicates[i], from_cell_no, to_cell_no, report);
                i += 1;
            }
            assert(predicates@.take(predicates@.len() as int) =~= predicates@);
        },
        RoutePredicate::Not(inner) => {
            flag_unsupported_predicates(inner, from_cell_no, to_cell_no, report);
        },
        _ => {
            assert(old(report)@ + Seq::<FindingView>::empty() =~= old(report)@);
        },
    }
}

fn contains_i64(v: &Vec<i64>, x: i64) -> (b: bool)
    ensures
        b == v@.contains(x),
{
    let mut i: usize = 0;
    while i < v.len()
        invariant
            i <= v@.len(),
            forall|k: int| 0 <= k < i ==> v@[k] != x,
        decreases v@.len() - i,
    {
        if v[i] == x {
            assert(v@[i as int] == x);
            return true;
        }
        i += 1;
    }
    false
}

fn next_cell_text(cell_no: i64, next: i64) -> (r: String)
    ensures
        r@ == next_cell_message(cell_no, next),
{
    let mut m = chars_of("cell ");
    push_dec_i64(&mut m, cell_no);
    extend_chars(&mut m, chars_of(" lists next_cell ").as_slice());
    push_dec_i64(&mut m, next);
    extend_chars(&mut m, chars_of(" that is not a real cell of the stage").as_slice());
    string_of(m.as_slice())
}

fn from_cell_text(from: i64) -> (r: String)
    ensures
        r@ == from_cell_message(from),
{
    let mut m = chars_of("routing_rules reference from-cell ");
    push_dec_i64(&mut m, from);
    extend_chars(&mut m, chars_of(" that is not a real cell of the stage").as_slice());
    string_of(m.as_slice())
}

fn target_text(from: i64, to: i64, nexts: &Vec<i64>) -> (r: String)
    ensures
        r@ == target_message(from, to, sorted_set_of(nexts@)),
{
    let mut m = chars_of("cell ");
    push_dec_i64(&mut m, from);
    extend_chars(&mut m, chars_of(" routing rule targets ").as_slice());
    push_dec_i64(&mut m, to);
    extend_chars(&mut m, chars_of(" outside its next_cells ").as_slice());
    let sorted = sorted_set_exec(nexts);
    let t = set_text_exec(&sorted);
    extend_chars(&mut m, t.as_slice());
    string_of(m.as_slice())
}

/// Validates one stage's topology and predicate support.
///
/// Errors: a `next_cells` entry that is not a cell of the stage; a rule group
/// keyed by a cell that is not a cell of the stage; a rule whose target is not
/// among its departing cell's `next_cells`. Warnings: every `Unknown` or
/// `SourceUnknown` leaf of a rule's predicate.
pub fn validate_map_route_stage(stage: &MapStageDefinition) -> (report: MapRouteValidationReport)
    requires
        stage.rules_keyed(),
    ensures
        report@ == stage_findings(*stage),
{
    let mut report = MapRouteValidationReport::default();

    let mut cell_nos: Vec<i64> = Vec::new();
    let mut c: usize = 0;
    while c < stage.cells.len()
        invariant
            c <= stage.cells@.len(),
            forall|n: i64|
                cell_nos@.contains(n) <==> exists|i: int|
                    0 <= i < c && stage.cells@[i].cell_no == n,
        decreases stage.cells@.len() - c,
    {
        let ghost before = cell_nos@;
        cell_nos.push(stage.cells[c].cell_no);
        assert forall|n: i64|
            cell_nos@.contains(n) <==> exists|i: int|
                0 <= i < c + 1 && stage.cells@[i].cell_no == n by {
            if cell_nos@.contains(n) {
                let k = choose|k: int| 0 <= k < cell_nos@.len() && cell_nos@[k] == n;
                if k < before.len() {
                    assert(before[k] == n);
                    assert(before.contains(n));
                }
            }
            if exists|i: int| 0 <= i < c + 1 && stage.cells@[i].cell_no == n {
                let i = choose|i: int| 0 <= i < c + 1 && stage.cells@[i].cell_no == n;
                if i < c {
                    assert(before.contains(n));
                    let k = choose|k: int| 0 <= k < before.len() && before[k] == n;
                    assert(cell_nos@[k] == n);
                } else {
                    assert(cell_nos@[before.len() as int] == n);
                }
            }
        }
        c += 1;
    }
    assert(forall|n: i64| cell_nos@.contains(n) == stage.cell_nos().contains(n));

    let mut i: usize = 0;
    while i < stage.cells.len()
        invariant
            i <= stage.cells@.len(),
            forall|n: i64| cell_nos@.contains(n) == stage.cell_nos().contains(n),
            report@ == topology_errors(stage.cell_nos(), stage.cells@.take(i as int)),
        decreases stage.cells@.len() - i,
    {
        let cell = &stage.cells[i];
        let ghost before_cell = report@;
        let mut j: usize = 0;
        while j < cell.next_cells.len()
            invariant
                i < stage.cells@.len(),
                cell == stage.cells@[i as int],
                j <= cell.next_cells@.len(),
                forall|n: i64| cell_nos@.contains(n) == stage.cell_nos().contains(n),
                report@ == before_cell + next_cell_errors(
                    stage.cell_nos(),
                    cell.cell_no,
                    cell.next_cells@.take(j as int),
                ),
            decreases cell.next_cells@.len() - j,
        {
            let next = cell.next_cells[j];
            assert(cell.next_cells@.take(j as int + 1).drop_last() =~= cell.next_cells@.take(
                j as int,
            ));
            if !contains_i64(&cell_nos, next) {
                let m = next_cell_text(cell.cell_no, next);
                report.push_error(
                    crate::map_route_rules::MapRouteValidationFindingKind::NextCellNotInStage,
                    cell.cell_no,
                    Some(next),
                    m,
                );
            }
            proof {
                let s = next_cell_errors(stage.cell_nos(), cell.cell_no, cell.next_cells@.take(j as int + 1));
                assert(report@ =~= before_cell + s);
            }
            j += 1;
        }
        assert(cell.next_cells@.take(cell.next_cells@.len() as int) =~= cell.next_cells@);
        assert(stage.cells@.take(i as int + 1).drop_last() =~= stage.cells@.take(i as int));
        i += 1;
    }
    assert(stage.cells@.take(stage.cells@.len() as int) =~= stage.cells@);
    let ghost topo = report@;

    let mut g: usize = 0;
    while g < stage.routing_rules.len()
        invariant
            g <= stage.routing_rules@.len(),
            report@ == topo + routing_findings(*stage, stage.routing_rules@.take(g as int)),
        decreases stage.routing_rules@.len() - g,
    {
        let from_cell_no = stage.routing_rules[g].0;
        let rules = &stage.routing_rules[g].1;
        let ghost before_group = report@;
        let empty: Vec<i64> = Vec::new();
        let next_cells: &Vec<i64> = match stage.cell(from_cell_no) {
            Some(cell) => &cell.next_cells,
            None => {
                let m = from_cell_text(from_cell_no);
                report.push_error(
                    MapRouteValidationFindingKind::RuleFromCellNotInStage,
                    from_cell_no,
                    None,
                    m,
                );
                &empty
            },
        };
        assert(next_cells@ == next_cells_of(*stage, from_cell_no));
        let ghost head = report@;
        let mut k: usize = 0;
        while k < rules.len()
            invariant
                k <= rules@.len(),
                report@ == head + rule_findings(from_cell_no, next_cells@, rules@.take(k as int)),
            decreases rules@.len() - k,
        {
            let rule = &rules[k];
            assert(rules@.take(k as int + 1).drop_last() =~= rules@.take(k as int));
            let ghost r0 = report@;
            if !contains_i64(next_cells, rule.to_cell_no) {
                let m = target_text(from_cell_no, rule.to_cell_no, next_cells);
                report.push_error(
                    MapRouteValidationFindingKind::RuleTargetNotInNextCells,
                    from_cell_no,
                    Some(rule.to_cell_no),
                    m,
                );
            }
            let ghost r1 = report@;
            flag_unsupported_predicates(&rule.predicate, from_cell_no, rule.to_cell_no, &mut report);
            proof {
                let f = rule_findings(from_cell_no, next_cells@, rules@.take(k as int + 1));
                assert(report@ =~= head + f);
            }
            k += 1;
        }
        assert(rules@.take(rules@.len() as int) =~= rules@);
        proof {
            assert(report@ =~= before_group + group_findings(*stage, from_cell_no, rules@));
            assert(stage.routing_rules@.take(g as int + 1).drop_last() =~= stage.routing_rules@.take(
                g as int,
            ));
        }
        g += 1;
    }
    assert(stage.routing_rules@.take(stage.routing_rules@.len() as int) =~= stage.routing_rules@);
    report
}

// ---------------------------------------------------------------------------
// Laws
// ---------------------------------------------------------------------------

/// Every `next_cells` entry of every cell is a cell of the stage.
pub open spec fn next_cells_in_stage(stage: MapStageDefinition) -> bool {
    forall|i: int, j: int|
        0 <= i < stage.cells@.len() && 0 <= j < stage.cells@[i].next_cells@.len()
            ==> stage.cell_nos().contains(#[trigger] stage.cells@[i].next_cells@[j])
}

/// Every rule group departs from a cell of the stage, and every rule's
/// target is among that cell's `next_cells`.
pub open spec fn rules_on_topology(stage: MapStageDefinition) -> bool {
    &&& forall|g: int|
        0 <= g < stage.routing_rules@.len() ==> stage.cell_index((#[trigger] stage.routing_rules@[g]).0) is Some
    &&& forall|g: int, k: int|
        0 <= g < stage.routing_rules@.len() && 0 <= k < stage.routing_rules@[g].1@.len()
            ==> next_cells_of(stage, stage.routing_rules@[g].0).contains(
            (#[trigger] stage.routing_rules@[g].1@[k]).to_cell_no,
        )
}

proof fn lemma_has_error_concat(a: Seq<FindingView>, b: Seq<FindingView>)
    ensures
        has_error_in(a + b) == (has_error_in(a) || has_error_in(b)),
{
    if has_error_in(a + b) {
        let i = choose|i: int|
            0 <= i < (a + b).len() && (a + b)[i].0 == MapRouteValidationSeverity::Error;
        if i < a.len() {
            assert(a[i] == (a + b)[i]);
        } else {
            assert(b[i - a.len()] == (a + b)[i]);
        }
    }
    if has_error_in(a) {
        let i = choose|i: int| 0 <= i < a.len() && a[i].0 == MapRouteValidationSeverity::Error;
        assert((a + b)[i] == a[i]);
    }
    if has_error_in(b) {
        let i = choose|i: int| 0 <= i < b.len() && b[i].0 == MapRouteValidationSeverity::Error;
        assert((a + b)[i + a.len()] == b[i]);
    }
}

proof fn lemma_unsupported_no_error(p: RoutePredicate, from: i64, to: i64)
    ensures
        !has_error_in(unsupported_of(p, from, to)),
    decreases p, 1nat,
{
    match p {
        RoutePredicate::And(v) => {
            lemma_unsupported_seq_no_error(v@, from, to);
        },
        RoutePredicate::Or(v) => {
            lemma_unsupported_seq_no_error(v@, from, to);
        },
        RoutePredicate::Not(inner) => {
            lemma_unsupported_no_error(*inner, from, to);
        },
        _ => {},
    }
}

proof fn lemma_unsupported_seq_no_error(ps: Seq<RoutePredicate>, from: i64, to: i64)
    ensures
        !has_error_in(unsupported_seq(ps, from, to)),
    decreases ps, 0nat,
{
    if ps.len() > 0 {
        assert(decreases_to!(ps => ps.subrange(0, ps.len() - 1)));
        assert(ps.drop_last() == ps.subrange(0, ps.len() - 1));
        lemma_unsupported_seq_no_error(ps.drop_last(), from, to);
        lemma_unsupported_no_error(ps.last(), from, to);
        lemma_has_error_concat(
            unsupported_seq(ps.drop_last(), from, to),
            unsupported_of(ps.last(), from, to),
        );
    }
}

proof fn lemma_next_cell_errors(cs: Set<i64>, n: i64, nexts: Seq<i64>)
    ensures
        has_error_in(next_cell_errors(cs, n, nexts)) <==> exists|j: int|
            0 <= j < nexts.len() && !cs.contains(nexts[j]),
    decreases nexts.len(),
{
    if nexts.len() > 0 {
        let init = nexts.drop_last();
        lemma_next_cell_errors(cs, n, init);
        let tail = if cs.contains(nexts.last()) {
            Seq::<FindingView>::empty()
        } else {
            seq![
                (
                    MapRouteValidationSeverity::Error,
                    MapRouteValidationFindingKind::NextCellNotInStage,
                    n,
                    Some(nexts.last()),
                    next_cell_message(n, nexts.last()),
                ),
            ]
        };
        lemma_has_error_concat(next_cell_errors(cs, n, init), tail);
        if !cs.contains(nexts.last()) {
            assert(tail[0].0 == MapRouteValidationSeverity::Error);
        }
        if exists|j: int| 0 <= j < nexts.len() && !cs.contains(nexts[j]) {
            let j = choose|j: int| 0 <= j < nexts.len() && !cs.contains(nexts[j]);
            if j < init.len() {
                assert(init[j] == nexts[j]);
            }
        }
        if exists|j: int| 0 <= j < init.len() && !cs.contains(init[j]) {
            let j = choose|j: int| 0 <= j < init.len() && !cs.contains(init[j]);
            assert(nexts[j] == init[j]);
        }
    }
}

#[verifier::spinoff_prover]
proof fn lemma_topology_errors(cs: Set<i64>, cells: Seq<MapCellDefinition>)
    ensures
        has_error_in(topology_errors(cs, cells)) <==> exists|i: int, j: int|
            0 <= i < cells.len() && 0 <= j < cells[i].next_cells@.len() && !cs.contains(
                cells[i].next_cells@[j],
            ),
    decreases cells.len(),
{
    if cells.len() > 0 {
        let init = cells.drop_last();
        let last = cells.last();
        lemma_topology_errors(cs, init);
        lemma_next_cell_errors(cs, last.cell_no, last.next_cells@);
        lemma_has_error_concat(
            topology_errors(cs, init),
            next_cell_errors(cs, last.cell_no, last.next_cells@),
        );
        if exists|i: int, j: int|
            0 <= i < cells.len() && 0 <= j < cells[i].next_cells@.len() && !cs.contains(
                cells[i].next_cells@[j],
            ) {
            let (i, j) = choose|i: int, j: int|
                0 <= i < cells.len() && 0 <= j < cells[i].next_cells@.len() && !cs.contains(
                    cells[i].next_cells@[j],
                );
            if i < init.len() {
                assert(init[i] == cells[i]);
            }
        }
        if exists|i: int, j: int|
            0 <= i < init.len() && 0 <= j < init[i].next_cells@.len() && !cs.contains(
                init[i].next_cells@[j],
            ) {
            let (i, j) = choose|i: int, j: int|
                0 <= i < init.len() && 0 <= j < init[i].next_cells@.len() && !cs.contains(
                    init[i].next_cells@[j],
                );
            assert(cells[i] == init[i]);
        }
        if exists|j: int| 0 <= j < last.next_cells@.len() && !cs.contains(last.next_cells@[j]) {
            let j = choose|j: int|
                0 <= j < last.next_cells@.len() && !cs.contains(last.next_cells@[j]);
            assert(cells[cells.len() - 1] == last);
        }
    }
}

#[verifier::spinoff_prover]
proof fn lemma_rule_findings(from: i64, nexts: Seq<i64>, rules: Seq<RouteRule>)
    ensures
        has_error_in(rule_findings(from, nexts, rules)) <==> exists|k: int|
            0 <= k < rules.len() && !nexts.contains(rules[k].to_cell_no),
    decreases rules.len(),
{
    if rules.len() > 0 {
        let init = rules.drop_last();
        let rule = rules.last();
        lemma_rule_findings(from, nexts, init);
        let mid = if nexts.contains(rule.to_cell_no) {
            Seq::<FindingView>::empty()
        } else {
            seq![
                (
                    MapRouteValidationSeverity::Error,
                    MapRouteValidationFindingKind::RuleTargetNotInNextCells,
                    from,
                    Some(rule.to_cell_no),
                    target_message(from, rule.to_cell_no, sorted_set_of(nexts)),
                ),
            ]
        };
        lemma_unsupported_no_error(rule.predicate, from, rule.to_cell_no);
        lemma_has_error_concat(rule_findings(from, nexts, init), mid);
        lemma_has_error_concat(
            rule_findings(from, nexts, init) + mid,
            unsupported_of(rule.predicate, from, rule.to_cell_no),
        );
        if !nexts.contains(rule.to_cell_no) {
            assert(mid[0].0 == MapRouteValidationSeverity::Error);
        }
        if exists|k: int| 0 <= k < rules.len() && !nexts.contains(rules[k].to_cell_no) {
            let k = choose|k: int| 0 <= k < rules.len() && !nexts.contains(rules[k].to_cell_no);
            if k < init.len() {
                assert(init[k] == rules[k]);
            }
        }
        if exists|k: int| 0 <= k < init.len() && !nexts.contains(init[k].to_cell_no) {
            let k = choose|k: int| 0 <= k < init.len() && !nexts.contains(init[k].to_cell_no);
            assert(rules[k] == init[k]);
        }
    }
}

/// A rule group that departs from a non-cell or has a rule leaving the
/// departing cell's `next_cells`.
spec fn group_broken(stage: MapStageDefinition, group: (i64, Vec<RouteRule>)) -> bool {
    stage.cell_index(group.0) is None || exists|k: int|
        0 <= k < group.1@.len() && !next_cells_of(stage, group.0).contains(
            #[trigger] group.1@[k].to_cell_no,
        )
}

#[verifier::spinoff_prover]
#[verifier::rlimit(40)]
proof fn lemma_routing_findings(stage: MapStageDefinition, groups: Seq<(i64, Vec<RouteRule>)>)
    ensures
        has_error_in(routing_findings(stage, groups)) <==> exists|g: int|
            0 <= g < groups.len() && #[trigger] group_broken(stage, groups[g]),
    decreases groups.len(),
{
    if groups.len() > 0 {
        let init = groups.drop_last();
        let last = groups.last();
        lemma_routing_findings(stage, init);
        lemma_rule_findings(last.0, next_cells_of(stage, last.0), last.1@);
        let head = if stage.cell_index(last.0) is Some {
            Seq::<FindingView>::empty()
        } else {
            seq![
                (
                    MapRouteValidationSeverity::Error,
                    MapRouteValidationFindingKind::RuleFromCellNotInStage,
                    last.0,
                    None,
                    from_cell_message(last.0),
                ),
            ]
        };
        if stage.cell_index(last.0) is None {
            assert(head[0].0 == MapRouteValidationSeverity::Error);
        }
        lemma_has_error_concat(head, rule_findings(last.0, next_cells_of(stage, last.0), last.1@));
        lemma_has_error_concat(
            routing_findings(stage, init),
            group_findings(stage, last.0, last.1@),
        );
        assert(has_error_in(group_findings(stage, last.0, last.1@)) == group_broken(stage, last));
        if exists|g: int| 0 <= g < groups.len() && #[trigger] group_broken(stage, groups[g]) {
            let g = choose|g: int| 0 <= g < groups.len() && #[trigger] group_broken(stage, groups[g]);
            if g < init.len() {
                assert(init[g] == groups[g]);
            }
        }
        if exists|g: int| 0 <= g < init.len() && #[trigger] group_broken(stage, init[g]) {
            let g = choose|g: int| 0 <= g < init.len() && #[trigger] group_broken(stage, init[g]);
            assert(groups[g] == init[g]);
        }
    }
}

/// The report of a stage has an error exactly when its topology is broken:
/// some `next_cells` entry is not a cell, some rule group departs from a
/// non-cell, or some rule leaves the departing cell's `next_cells`.
/// Unsupported predicates alone never make an error.
pub proof fn law_errors_exactly_on_broken_topology(stage: MapStageDefinition)
    ensures
        has_error_in(stage_findings(stage)) <==> !(next_cells_in_stage(stage) && rules_on_topology(
            stage,
        )),
{
    lemma_topology_errors(stage.cell_nos(), stage.cells@);
    lemma_routing_findings(stage, stage.routing_rules@);
    lemma_has_error_concat(
        topology_errors(stage.cell_nos(), stage.cells@),
        routing_findings(stage, stage.routing_rules@),
    );
    if !next_cells_in_stage(stage) {
        let (i, j) = choose|i: int, j: int|
            !(0 <= i < stage.cells@.len() && 0 <= j < stage.cells@[i].next_cells@.len()
                ==> stage.cell_nos().contains(stage.cells@[i].next_cells@[j]));
    }
    if !rules_on_topology(stage) {
        if !(forall|g: int|
            0 <= g < stage.routing_rules@.len() ==> stage.cell_index((#[trigger] stage.routing_rules@[g]).0) is Some) {
            let g = choose|g: int|
                !(0 <= g < stage.routing_rules@.len() ==> stage.cell_index((#[trigger] stage.routing_rules@[g]).0) is Some);
            assert(group_broken(stage, stage.routing_rules@[g]));
        } else {
            let (g, k) = choose|g: int, k: int|
                !(0 <= g < stage.routing_rules@.len() && 0 <= k < stage.routing_rules@[g].1@.len()
                    ==> next_cells_of(stage, stage.routing_rules@[g].0).contains(
                    (#[trigger] stage.routing_rules@[g].1@[k]).to_cell_no,
                ));
            assert(group_broken(stage, stage.routing_rules@[g]));
        }
    }
    if exists|g: int|
        0 <= g < stage.routing_rules@.len() && #[trigger] group_broken(stage, stage.routing_rules@[g]) {
        let g = choose|g: int|
            0 <= g < stage.routing_rules@.len() && #[trigger] group_broken(
                stage,
                stage.routing_rules@[g],
            );
        if stage.cell_index(stage.routing_rules@[g].0) is Some {
            let k = choose|k: int|
                0 <= k < stage.routing_rules@[g].1@.len() && !next_cells_of(
                    stage,
                    stage.routing_rules@[g].0,
                ).contains(#[trigger] stage.routing_rules@[g].1@[k].to_cell_no);
            assert(!next_cells_of(stage, stage.routing_rules@[g].0).contains(
                stage.routing_rules@[g].1@[k].to_cell_no,
            ));
        }
    }
}

/// The severity a finding of each kind carries.
pub open spec fn severity_of_kind(kind: MapRouteValidationFindingKind) -> MapRouteValidationSeverity {
    if kind == MapRouteValidationFindingKind::UnsupportedPredicate {
        MapRouteValidationSeverity::Warning
    } else {
        MapRouteValidationSeverity::Error
    }
}

pub open spec fn kinds_agree(s: Seq<FindingView>) -> bool {
    forall|i: int| 0 <= i < s.len() ==> (#[trigger] s[i]).0 == severity_of_kind(s[i].1)
}

proof fn lemma_agree_concat(a: Seq<FindingView>, b: Seq<FindingView>)
    requires
        kinds_agree(a),
        kinds_agree(b),
    ensures
        kinds_agree(a + b),
{
    assert forall|i: int| 0 <= i < (a + b).len() implies (#[trigger] (a + b)[i]).0 == severity_of_kind(
        (a + b)[i].1,
    ) by {
        if i < a.len() {
            assert((a + b)[i] == a[i]);
        } else {
            assert((a + b)[i] == b[i - a.len()]);
        }
    }
}

proof fn lemma_unsupported_agree(p: RoutePredicate, from: i64, to: i64)
    ensures
        kinds_agree(unsupported_of(p, from, to)),
    decreases p, 1nat,
{
    match p {
        RoutePredicate::And(v) => {
            lemma_unsupported_seq_agree(v@, from, to);
        },
        RoutePredicate::Or(v) => {
            lemma_unsupported_seq_agree(v@, from, to);
        },
        RoutePredicate::Not(inner) => {
            lemma_unsupported_agree(*inner, from, to);
        },
        _ => {},
    }
}

proof fn lemma_unsupported_seq_agree(ps: Seq<RoutePredicate>, from: i64, to: i64)
    ensures
        kinds_agree(unsupported_seq(ps, from, to)),
    decreases ps, 0nat,
{
    if ps.len() > 0 {
        assert(decreases_to!(ps => ps.subrange(0, ps.len() - 1)));
        assert(ps.drop_last() == ps.subrange(0, ps.len() - 1));
        lemma_unsupported_seq_agree(ps.drop_last(), from, to);
        lemma_unsupported_agree(ps.last(), from, to);
        lemma_agree_concat(unsupported_seq(ps.drop_last(), from, to), unsupported_of(ps.last(), from, to));
    }
}

proof fn lemma_topology_agree(cs: Set<i64>, cells: Seq<MapCellDefinition>)
    ensures
        kinds_agree(topology_errors(cs, cells)),
    decreases cells.len(),
{
    if cells.len() > 0 {
        lemma_topology_agree(cs, cells.drop_last());
        lemma_next_cells_agree(cs, cells.last().cell_no, cells.last().next_cells@);
        lemma_agree_concat(
            topology_errors(cs, cells.drop_last()),
            next_cell_errors(cs, cells.last().cell_no, cells.last().next_cells@),
        );
    }
}

proof fn lemma_next_cells_agree(cs: Set<i64>, n: i64, nexts: Seq<i64>)
    ensures
        kinds_agree(next_cell_errors(cs, n, nexts)),
    decreases nexts.len(),
{
    if nexts.len() > 0 {
        lemma_next_cells_agree(cs, n, nexts.drop_last());
        let tail = if cs.contains(nexts.last()) {
            Seq::<FindingView>::empty()
        } else {
            seq![
                (
                    MapRouteValidationSeverity::Error,
                    MapRouteValidationFindingKind::NextCellNotInStage,
                    n,
                    Some(nexts.last()),
                    next_cell_message(n, nexts.last()),
                ),
            ]
        };
        lemma_agree_concat(next_cell_errors(cs, n, nexts.drop_last()), tail);
    }
}

proof fn lemma_rules_agree(from: i64, nexts: Seq<i64>, rules: Seq<RouteRule>)
    ensures
        kinds_agree(rule_findings(from, nexts, rules)),
    decreases rules.len(),
{
    if rules.len() > 0 {
        let rule = rules.last();
        lemma_rules_agree(from, nexts, rules.drop_last());
        let mid = if nexts.contains(rule.to_cell_no) {
            Seq::<FindingView>::empty()
        } else {
            seq![
                (
                    MapRouteValidationSeverity::Error,
                    MapRouteValidationFindingKind::RuleTargetNotInNextCells,
                    from,
                    Some(rule.to_cell_no),
                    target_message(from, rule.to_cell_no, sorted_set_of(nexts)),
                ),
            ]
        };
        lemma_agree_concat(rule_findings(from, nexts, rules.drop_last()), mid);
        lemma_unsupported_agree(rule.predicate, from, rule.to_cell_no);
        lemma_agree_concat(
            rule_findings(from, nexts, rules.drop_last()) + mid,
            unsupported_of(rule.predicate, from, rule.to_cell_no),
        );
    }
}

#[verifier::spinoff_prover]
proof fn lemma_routing_agree(stage: MapStageDefinition, groups: Seq<(i64, Vec<RouteRule>)>)
    ensures
        kinds_agree(routing_findings(stage, groups)),
    decreases groups.len(),
{
    if groups.len() > 0 {
        let last = groups.last();
        lemma_routing_agree(stage, groups.drop_last());
        let head = if stage.cell_index(last.0) is Some {
            Seq::<FindingView>::empty()
        } else {
            seq![
                (
                    MapRouteValidationSeverity::Error,
                    MapRouteValidationFindingKind::RuleFromCellNotInStage,
                    last.0,
                    None,
                    from_cell_message(last.0),
                ),
            ]
        };
        lemma_rules_agree(last.0, next_cells_of(stage, last.0), last.1@);
        lemma_agree_concat(head, rule_findings(last.0, next_cells_of(stage, last.0), last.1@));
        lemma_agree_concat(routing_findings(stage, groups.drop_last()), group_findings(stage, last.0, last.1@));
    }
}

/// A finding's severity follows from its kind: unsupported predicates are
/// warnings, every topology fault an error.
pub proof fn law_severity_follows_kind(stage: MapStageDefinition)
    ensures
        kinds_agree(stage_findings(stage)),
{
    lemma_topology_agree(stage.cell_nos(), stage.cells@);
    lemma_routing_agree(stage, stage.routing_rules@);
    lemma_agree_concat(
        topology_errors(stage.cell_nos(), stage.cells@),
        routing_findings(stage, stage.routing_rules@),
    );
}

/// How many findings of a report are warnings.
pub open spec fn warning_count(s: Seq<FindingView>) -> nat
    decreases s.len(),
{
    if s.len() == 0 {
        0
    } else {
        warning_count(s.drop_last()) + if s.last().0 == MapRouteValidationSeverity::Warning {
            1nat
        } else {
            0nat
        }
    }
}

/// How many `Unknown` and `SourceUnknown` leaves a predicate tree holds,
/// reached through `And`, `Or` and `Not`.
pub open spec fn unknown_leaves(p: RoutePredicate) -> nat
    decreases p, 1nat,
{
    match p {
        RoutePredicate::Unknown { .. } => 1,
        RoutePredicate::SourceUnknown { .. } => 1,
        RoutePredicate::And(v) => unknown_leaves_seq(v@),
        RoutePredicate::Or(v) => unknown_leaves_seq(v@),
        RoutePredicate::Not(inner) => unknown_leaves(*inner),
        _ => 0,
    }
}

pub open spec fn unknown_leaves_seq(ps: Seq<RoutePredicate>) -> nat
    decreases ps, 0nat,
{
    if ps.len() == 0 {
        0
    } else {
        unknown_leaves_seq(ps.drop_last()) + unknown_leaves(ps.last())
    }
}

/// The unknown leaves over a list of rules.
pub open spec fn rules_unknown_leaves(rules: Seq<RouteRule>) -> nat
    decreases rules.len(),
{
    if rules.len() == 0 {
        0
    } else {
        rules_unknown_leaves(rules.drop_last()) + unknown_leaves(rules.last().predicate)
    }
}

/// The unknown leaves over every rule group of a stage.
pub open spec fn groups_unknown_leaves(groups: Seq<(i64, Vec<RouteRule>)>) -> nat
    decreases groups.len(),
{
    if groups.len() == 0 {
        0
    } else {
        groups_unknown_leaves(groups.drop_last()) + rules_unknown_leaves(groups.last().1@)
    }
}

proof fn lemma_warning_count_concat(a: Seq<FindingView>, b: Seq<FindingView>)
    ensures
        warning_count(a + b) == warning_count(a) + warning_count(b),
    decreases b.len(),
{
    if b.len() == 0 {
        assert(a + b =~= a);
    } else {
        lemma_warning_count_concat(a, b.drop_last());
        assert((a + b).drop_last() =~= a + b.drop_last());
    }
}

proof fn lemma_warning_count_single(f: FindingView)
    ensures
        warning_count(seq![f]) == if f.0 == MapRouteValidationSeverity::Warning {
            1nat
        } else {
            0nat
        },
{
    assert(seq![f].drop_last() =~= Seq::<FindingView>::empty());
    assert(warning_count(Seq::<FindingView>::empty()) == 0);
}

proof fn lemma_unsupported_count(p: RoutePredicate, from: i64, to: i64)
    ensures
        warning_count(unsupported_of(p, from, to)) == unknown_leaves(p),
    decreases p, 1nat,
{
    match p {
        RoutePredicate::Unknown { raw_text } => {
            lemma_warning_count_single(unsupported_of(p, from, to)[0]);
            assert(unsupported_of(p, from, to) =~= seq![unsupported_of(p, from, to)[0]]);
        },
        RoutePredicate::SourceUnknown { raw_text } => {
            lemma_warning_count_single(unsupported_of(p, from, to)[0]);
            assert(unsupported_of(p, from, to) =~= seq![unsupported_of(p, from, to)[0]]);
        },
        RoutePredicate::And(v) => {
            lemma_unsupported_seq_count(v@, from, to);
        },
        RoutePredicate::Or(v) => {
            lemma_unsupported_seq_count(v@, from, to);
        },
        RoutePredicate::Not(inner) => {
            lemma_unsupported_count(*inner, from, to);
        },
        _ => {},
    }
}

proof fn lemma_unsupported_seq_count(ps: Seq<RoutePredicate>, from: i64, to: i64)
    ensures
        warning_count(unsupported_seq(ps, from, to)) == unknown_leaves_seq(ps),
    decreases ps, 0nat,
{
    if ps.len() > 0 {
        assert(decreases_to!(ps => ps.subrange(0, ps.len() - 1)));
        assert(ps.drop_last() == ps.subrange(0, ps.len() - 1));
        lemma_unsupported_seq_count(ps.drop_last(), from, to);
        lemma_unsupported_count(ps.last(), from, to);
        lemma_warning_count_concat(
            unsupported_seq(ps.drop_last(), from, to),
            unsupported_of(ps.last(), from, to),
        );
    }
}

proof fn lemma_next_cell_count(cs: Set<i64>, n: i64, nexts: Seq<i64>)
    ensures
        warning_count(next_cell_errors(cs, n, nexts)) == 0,
    decreases nexts.len(),
{
    if nexts.len() > 0 {
        lemma_next_cell_count(cs, n, nexts.drop_last());
        let tail: Seq<FindingView> = if cs.contains(nexts.last()) {
            Seq::<FindingView>::empty()
        } else {
            seq![
                (
                    MapRouteValidationSeverity::Error,
                    MapRouteValidationFindingKind::NextCellNotInStage,
                    n,
                    Some(nexts.last()),
                    next_cell_message(n, nexts.last()),
                ),
            ]
        };
        assert(warning_count(Seq::<FindingView>::empty()) == 0);
        if !cs.contains(nexts.last()) {
            lemma_warning_count_single(tail[0]);
            assert(tail =~= seq![tail[0]]);
        }
        lemma_warning_count_concat(next_cell_errors(cs, n, nexts.drop_last()), tail);
    }
}

proof fn lemma_topology_count(cs: Set<i64>, cells: Seq<MapCellDefinition>)
    ensures
        warning_count(topology_errors(cs, cells)) == 0,
    decreases cells.len(),
{
    if cells.len() > 0 {
        lemma_topology_count(cs, cells.drop_last());
        lemma_next_cell_count(cs, cells.last().cell_no, cells.last().next_cells@);
        lemma_warning_count_concat(
            topology_errors(cs, cells.drop_last()),
            next_cell_errors(cs, cells.last().cell_no, cells.last().next_cells@),
        );
    }
}

#[verifier::spinoff_prover]
proof fn lemma_rules_count(from: i64, nexts: Seq<i64>, rules: Seq<RouteRule>)
    ensures
        warning_count(rule_findings(from, nexts, rules)) == rules_unknown_leaves(rules),
    decreases rules.len(),
{
    if rules.len() > 0 {
        let rule = rules.last();
        lemma_rules_count(from, nexts, rules.drop_last());
        let mid: Seq<FindingView> = if nexts.contains(rule.to_cell_no) {
            Seq::<FindingView>::empty()
        } else {
            seq![
                (
                    MapRouteValidationSeverity::Error,
                    MapRouteValidationFindingKind::RuleTargetNotInNextCells,
                    from,
                    Some(rule.to_cell_no),
                    target_message(from, rule.to_cell_no, sorted_set_of(nexts)),
                ),
            ]
        };
        assert(warning_count(Seq::<FindingView>::empty()) == 0);
        if !nexts.contains(rule.to_cell_no) {
            lemma_warning_count_single(mid[0]);
            assert(mid =~= seq![mid[0]]);
        }
        lemma_unsupported_count(rule.predicate, from, rule.to_cell_no);
        lemma_warning_count_concat(rule_findings(from, nexts, rules.drop_last()), mid);
        lemma_warning_count_concat(
            rule_findings(from, nexts, rules.drop_last()) + mid,
            unsupported_of(rule.predicate, from, rule.to_cell_no),
        );
    }
}

#[verifier::spinoff_prover]
proof fn lemma_routing_count(stage: MapStageDefinition, groups: Seq<(i64, Vec<RouteRule>)>)
    ensures
        warning_count(routing_findings(stage, groups)) == groups_unknown_leaves(groups),
    decreases groups.len(),
{
    if groups.len() > 0 {
        let last = groups.last();
        lemma_routing_count(stage, groups.drop_last());
        let head: Seq<FindingView> = if stage.cell_index(last.0) is Some {
            Seq::<FindingView>::empty()
        } else {
            seq![
                (
                    MapRouteValidationSeverity::Error,
                    MapRouteValidationFindingKind::RuleFromCellNotInStage,
                    last.0,
                    None,
                    from_cell_message(last.0),
                ),
            ]
        };
        assert(warning_count(Seq::<FindingView>::empty()) == 0);
        if !(stage.cell_index(last.0) is Some) {
            lemma_warning_count_single(head[0]);
            assert(head =~= seq![head[0]]);
        }
        lemma_rules_count(last.0, next_cells_of(stage, last.0), last.1@);
        lemma_warning_count_concat(head, rule_findings(last.0, next_cells_of(stage, last.0), last.1@));
        lemma_warning_count_concat(
            routing_findings(stage, groups.drop_last()),
            group_findings(stage, last.0, last.1@),
        );
    }
}

/// The validator warns once for each `Unknown` or `SourceUnknown` leaf of
/// each rule's predicate, reached through `And`, `Or` and `Not`, and for
/// nothing else.
pub proof fn law_one_warning_per_unsupported_leaf(stage: MapStageDefinition)
    ensures
        warning_count(stage_findings(stage)) == groups_unknown_leaves(stage.routing_rules@),
{
    lemma_topology_count(stage.cell_nos(), stage.cells@);
    lemma_routing_count(stage, stage.routing_rules@);
    lemma_warning_count_concat(
        topology_errors(stage.cell_nos(), stage.cells@),
        routing_findings(stage, stage.routing_rules@),
    );
}

/// What a stage's report says, all at once: it has an error exactly when
/// the topology is broken (a `next_cells` entry, a rule group's cell, or a
/// rule's target that is not where it should be); it warns once per
/// unsupported predicate leaf; and each finding's severity follows its kind.
pub proof fn law_stage_report(stage: MapStageDefinition)
    ensures
        has_error_in(stage_findings(stage)) <==> !(next_cells_in_stage(stage) && rules_on_topology(stage)),
        warning_count(stage_findings(stage)) == groups_unknown_leaves(stage.routing_rules@),
        kinds_agree(stage_findings(stage)),
{
    law_errors_exactly_on_broken_topology(stage);
    law_one_warning_per_unsupported_leaf(stage);
    law_severity_follows_kind(stage);
}

/// No `Unknown` or `SourceUnknown` leaf anywhere in the predicate.
pub open spec fn predicate_supported(p: RoutePredicate) -> bool
    decreases p, 1nat,
{
    match p {
        RoutePredicate::Unknown { .. } => false,
        RoutePredicate::SourceUnknown { .. } => false,
        RoutePredicate::And(v) => all_supported_in(v@),
        RoutePredicate::Or(v) => all_supported_in(v@),
        RoutePredicate::Not(inner) => predicate_supported(*inner),
        _ => true,
    }
}

pub open spec fn all_supported_in(ps: Seq<RoutePredicate>) -> bool
    decreases ps, 0nat,
{
    if ps.len() == 0 {
        true
    } else {
        all_supported_in(ps.drop_last()) && predicate_supported(ps.last())
    }
}

/// Every rule of the stage has a predicate the parser could read.
pub open spec fn rules_supported(stage: MapStageDefinition) -> bool {
    forall|g: int, k: int|
        0 <= g < stage.routing_rules@.len() && 0 <= k < stage.routing_rules@[g].1@.len()
            ==> predicate_supported((#[trigger] stage.routing_rules@[g].1@[k]).predicate)
}

proof fn lemma_unsupported_empty(p: RoutePredicate, from: i64, to: i64)
    ensures
        unsupported_of(p, from, to).len() == 0 <==> predicate_supported(p),
    decreases p, 1nat,
{
    match p {
        RoutePredicate::And(v) => {
            lemma_unsupported_seq_empty(v@, from, to);
        },
        RoutePredicate::Or(v) => {
            lemma_unsupported_seq_empty(v@, from, to);
        },
        RoutePredicate::Not(inner) => {
            lemma_unsupported_empty(*inner, from, to);
        },
        _ => {},
    }
}

proof fn lemma_unsupported_seq_empty(ps: Seq<RoutePredicate>, from: i64, to: i64)
    ensures
        unsupported_seq(ps, from, to).len() == 0 <==> all_supported_in(ps),
    decreases ps, 0nat,
{
    if ps.len() > 0 {
        assert(decreases_to!(ps => ps.subrange(0, ps.len() - 1)));
        assert(ps.drop_last() == ps.subrange(0, ps.len() - 1));
        lemma_unsupported_seq_empty(ps.drop_last(), from, to);
        lemma_unsupported_empty(ps.last(), from, to);
    }
}

proof fn lemma_rules_empty(from: i64, nexts: Seq<i64>, rules: Seq<RouteRule>)
    ensures
        rule_findings(from, nexts, rules).len() == 0 <==> forall|k: int|
            0 <= k < rules.len() ==> nexts.contains((#[trigger] rules[k]).to_cell_no)
                && predicate_supported(rules[k].predicate),
    decreases rules.len(),
{
    if rules.len() > 0 {
        let init = rules.drop_last();
        lemma_rules_empty(from, nexts, init);
        lemma_unsupported_empty(rules.last().predicate, from, rules.last().to_cell_no);
        if forall|k: int|
            0 <= k < init.len() ==> nexts.contains((#[trigger] init[k]).to_cell_no)
                && predicate_supported(init[k].predicate) {
            if nexts.contains(rules.last().to_cell_no) && predicate_supported(rules.last().predicate) {
                assert forall|k: int| 0 <= k < rules.len() implies nexts.contains(
                    (#[trigger] rules[k]).to_cell_no,
                ) && predicate_supported(rules[k].predicate) by {
                    if k < init.len() {
                        assert(rules[k] == init[k]);
                    }
                }
            }
        } else {
            let k = choose|k: int|
                !(0 <= k < init.len() ==> nexts.contains((#[trigger] init[k]).to_cell_no)
                    && predicate_supported(init[k].predicate));
            assert(rules[k] == init[k]);
        }
    }
}

#[verifier::spinoff_prover]
#[verifier::rlimit(40)]
proof fn lemma_routing_empty(stage: MapStageDefinition, groups: Seq<(i64, Vec<RouteRule>)>)
    ensures
        routing_findings(stage, groups).len() == 0 <==> forall|g: int|
            0 <= g < groups.len() ==> group_clean(stage, #[trigger] groups[g]),
    decreases groups.len(),
{
    if groups.len() > 0 {
        let init = groups.drop_last();
        let last = groups.last();
        lemma_routing_empty(stage, init);
        lemma_group_empty(stage, last);
        assert(routing_findings(stage, groups) == routing_findings(stage, init) + group_findings(
            stage,
            last.0,
            last.1@,
        ));
        if forall|g: int| 0 <= g < init.len() ==> group_clean(stage, #[trigger] init[g]) {
            if group_clean(stage, last) {
                assert forall|g: int| 0 <= g < groups.len() implies group_clean(stage, #[trigger] groups[g]) by {
                    if g < init.len() {
                        assert(groups[g] == init[g]);
                    }
                }
            }
        } else {
            let g = choose|g: int| !(0 <= g < init.len() ==> group_clean(stage, #[trigger] init[g]));
            assert(groups[g] == init[g]);
        }
    }
}

proof fn lemma_group_empty(stage: MapStageDefinition, group: (i64, Vec<RouteRule>))
    ensures
        group_findings(stage, group.0, group.1@).len() == 0 <==> group_clean(stage, group),
{
    lemma_rules_empty(group.0, next_cells_of(stage, group.0), group.1@);
}

/// A rule group that departs from a cell and whose rules all stay on that
/// cell's `next_cells` with readable predicates.
pub open spec fn group_clean(stage: MapStageDefinition, group: (i64, Vec<RouteRule>)) -> bool {
    &&& stage.cell_index(group.0) is Some
    &&& forall|k: int|
        0 <= k < group.1@.len() ==> next_cells_of(stage, group.0).contains(
            (#[trigger] group.1@[k]).to_cell_no,
        ) && predicate_supported(group.1@[k].predicate)
}

proof fn lemma_topology_empty(cs: Set<i64>, cells: Seq<MapCellDefinition>)
    ensures
        topology_errors(cs, cells).len() == 0 <==> !has_error_in(topology_errors(cs, cells)),
    decreases cells.len(),
{
    lemma_topology_agree(cs, cells);
    if topology_errors(cs, cells).len() > 0 {
        let t = topology_errors(cs, cells);
        assert(t[0].0 == severity_of_kind(t[0].1));
        if t[0].1 == MapRouteValidationFindingKind::UnsupportedPredicate {
            lemma_topology_kinds(cs, cells);
        }
        assert(t[0].0 == MapRouteValidationSeverity::Error);
    }
}

proof fn lemma_topology_kinds(cs: Set<i64>, cells: Seq<MapCellDefinition>)
    ensures
        forall|i: int|
            0 <= i < topology_errors(cs, cells).len() ==> (#[trigger] topology_errors(cs, cells)[i]).1
                == MapRouteValidationFindingKind::NextCellNotInStage,
    decreases cells.len(),
{
    if cells.len() > 0 {
        lemma_topology_kinds(cs, cells.drop_last());
        lemma_next_cell_kinds(cs, cells.last().cell_no, cells.last().next_cells@);
        let a = topology_errors(cs, cells.drop_last());
        let b = next_cell_errors(cs, cells.last().cell_no, cells.last().next_cells@);
        assert forall|i: int| 0 <= i < (a + b).len() implies (#[trigger] (a + b)[i]).1
            == MapRouteValidationFindingKind::NextCellNotInStage by {
            if i < a.len() {
                assert((a + b)[i] == a[i]);
            } else {
                assert((a + b)[i] == b[i - a.len()]);
            }
        }
    }
}

proof fn lemma_next_cell_kinds(cs: Set<i64>, n: i64, nexts: Seq<i64>)
    ensures
        forall|i: int|
            0 <= i < next_cell_errors(cs, n, nexts).len() ==> (#[trigger] next_cell_errors(cs, n, nexts)[i]).1
                == MapRouteValidationFindingKind::NextCellNotInStage,
    decreases nexts.len(),
{
    if nexts.len() > 0 {
        lemma_next_cell_kinds(cs, n, nexts.drop_last());
        let a = next_cell_errors(cs, n, nexts.drop_last());
        let b = if cs.contains(nexts.last()) {
            Seq::<FindingView>::empty()
        } else {
            seq![
                (
                    MapRouteValidationSeverity::Error,
                    MapRouteValidationFindingKind::NextCellNotInStage,
                    n,
                    Some(nexts.last()),
                    next_cell_message(n, nexts.last()),
                ),
            ]
        };
        assert forall|i: int| 0 <= i < (a + b).len() implies (#[trigger] (a + b)[i]).1
            == MapRouteValidationFindingKind::NextCellNotInStage by {
            if i < a.len() {
                assert((a + b)[i] == a[i]);
            } else {
                assert((a + b)[i] == b[i - a.len()]);
            }
        }
    }
}

/// The validator reports nothing exactly for a clean stage: its topology is
/// whole and every rule's predicate was read.
pub proof fn law_silent_exactly_on_clean_stage(stage: MapStageDefinition)
    ensures
        stage_findings(stage).len() == 0 <==> next_cells_in_stage(stage) && rules_on_topology(stage)
            && rules_supported(stage),
{
    let cs = stage.cell_nos();
    let groups = stage.routing_rules@;
    lemma_topology_errors(cs, stage.cells@);
    lemma_topology_empty(cs, stage.cells@);
    lemma_routing_empty(stage, groups);
    assert(stage_findings(stage).len() == topology_errors(cs, stage.cells@).len() + routing_findings(
        stage,
        groups,
    ).len());
    law_errors_exactly_on_broken_topology(stage);
    if next_cells_in_stage(stage) && rules_on_topology(stage) && rules_supported(stage) {
        assert forall|g: int| 0 <= g < groups.len() implies group_clean(stage, #[trigger] groups[g]) by {
            assert forall|k: int| 0 <= k < groups[g].1@.len() implies next_cells_of(
                stage,
                groups[g].0,
            ).contains((#[trigger] groups[g].1@[k]).to_cell_no) && predicate_supported(
                groups[g].1@[k].predicate,
            ) by {
                assert(next_cells_of(stage, stage.routing_rules@[g].0).contains(
                    stage.routing_rules@[g].1@[k].to_cell_no,
                ));
                assert(predicate_supported(stage.routing_rules@[g].1@[k].predicate));
            }
            assert(stage.cell_index(stage.routing_rules@[g].0) is Some);
        }
        if has_error_in(topology_errors(cs, stage.cells@)) {
            let (i, j) = choose|i: int, j: int|
                0 <= i < stage.cells@.len() && 0 <= j < stage.cells@[i].next_cells@.len() && !cs.contains(
                    stage.cells@[i].next_cells@[j],
                );
            assert(cs.contains(stage.cells@[i].next_cells@[j]));
        }
    }
    if stage_findings(stage).len() == 0 {
        assert forall|g: int, k: int|
            0 <= g < stage.routing_rules@.len() && 0 <= k < stage.routing_rules@[g].1@.len()
                implies predicate_supported((#[trigger] stage.routing_rules@[g].1@[k]).predicate) by {
            assert(group_clean(stage, groups[g]));
        }
    }
}

pub proof fn lemma_insert_sorted_contains(r: Seq<i64>, x: i64, y: i64)
    ensures
        insert_sorted(r, x).contains(y) <==> (r.contains(y) || y == x),
    decreases r.len(),
{
    if r.len() == 0 {
        assert(seq![x][0] == x);
    } else if x < r[0] {
        assert((seq![x] + r)[0] == x);
        if r.contains(y) {
            let i = choose|i: int| 0 <= i < r.len() && r[i] == y;
            assert((seq![x] + r)[i + 1] == y);
        }
        if (seq![x] + r).contains(y) {
            let i = choose|i: int| 0 <= i < (seq![x] + r).len() && (seq![x] + r)[i] == y;
            if i > 0 {
                assert(r[i - 1] == y);
            }
        }
    } else if x == r[0] {
    } else {
        let t = r.drop_first();
        lemma_insert_sorted_contains(t, x, y);
        let u = insert_sorted(t, x);
        assert((seq![r[0]] + u)[0] == r[0]);
        if r.contains(y) {
            let i = choose|i: int| 0 <= i < r.len() && r[i] == y;
            if i > 0 {
                assert(t[i - 1] == y);
                assert(u.contains(y));
                let j = choose|j: int| 0 <= j < u.len() && u[j] == y;
                assert((seq![r[0]] + u)[j + 1] == y);
            }
        }
        if u.contains(y) {
            let j = choose|j: int| 0 <= j < u.len() && u[j] == y;
            assert((seq![r[0]] + u)[j + 1] == y);
        }
        if (seq![r[0]] + u).contains(y) {
            let i = choose|i: int| 0 <= i < (seq![r[0]] + u).len() && (seq![r[0]] + u)[i] == y;
            if i > 0 {
                assert(u[i - 1] == y);
            }
        }
        if t.contains(y) {
            let i = choose|i: int| 0 <= i < t.len() && t[i] == y;
            assert(r[i + 1] == y);
        }
    }
}

pub proof fn lemma_sorted_set_contains(v: Seq<i64>, y: i64)
    ensures
        sorted_set_of(v).contains(y) <==> v.contains(y),
    decreases v.len(),
{
    if v.len() > 0 {
        lemma_sorted_set_contains(v.drop_last(), y);
        lemma_insert_sorted_contains(sorted_set_of(v.drop_last()), v.last(), y);
        if v.drop_last().contains(y) {
            let i = choose|i: int| 0 <= i < v.drop_last().len() && v.drop_last()[i] == y;
            assert(v[i] == y);
        }
        if v.contains(y) {
            let i = choose|i: int| 0 <= i < v.len() && v[i] == y;
            if i < v.len() - 1 {
                assert(v.drop_last()[i] == y);
            }
        }
    }
}

} // verus!
