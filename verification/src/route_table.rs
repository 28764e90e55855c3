//! Route-table sections of a map page: which variant of the map a section
//! describes, and the boss-gauge defeat counts.
use vstd::prelude::*;

use crate::pattern::{capture_group, regex_group};
use crate::text::{
    chars_of, contains, contains_str, copy_range, dec_digits, digit_pred, extend_chars, find,
    first_at, lemma_first_at_unique,
    has_at, lead_digits, parse_i64, parse_i64_str, push_dec_u64, remove_by, remove_ws,
    string_of, take_lead, ws_pred,
};

use crate::grid::{is_route_table, is_route_table_rows};
use crate::map_route_rules::{sorted_set_exec, sorted_set_of};
use crate::node_label::{normalize_text, normalized};

verus! {

/// The gauge named in a (whitespace-free) section summary: a kanji ordinal
/// `第一ゲージ`..`第五ゲージ`, else `ゲージ1` / `ゲージ2`, else the digits that
/// follow the first `ゲージ`.
pub open spec fn gauge_key_of(compact: Seq<char>) -> Option<Seq<char>> {
    if contains(compact, "第一ゲージ"@) {
        Some("gauge_1"@)
    } else if contains(compact, "第二ゲージ"@) {
        Some("gauge_2"@)
    } else if contains(compact, "第三ゲージ"@) {
        Some("gauge_3"@)
    } else if contains(compact, "第四ゲージ"@) {
        Some("gauge_4"@)
    } else if contains(compact, "第五ゲージ"@) {
        Some("gauge_5"@)
    } else if contains(compact, "ゲージ1"@) {
        Some("gauge_1"@)
    } else if contains(compact, "ゲージ2"@) {
        Some("gauge_2"@)
    } else if contains(compact, "ゲージ"@) {
        let pos = choose|i: int| first_at(compact, "ゲージ"@, i);
        let digits = take_lead(
            compact.subrange(pos + "ゲージ"@.len(), compact.len() as int),
            digit_pred(),
        );
        if digits.len() > 0 {
            Some("gauge_"@ + digits)
        } else {
            None
        }
    } else {
        None
    }
}

/// The variant key of the `idx`-th of `total` route sections.
pub open spec fn variant_key_of(summary: Seq<char>, idx: nat, total: nat) -> Seq<char> {
    if total <= 1 {
        Seq::<char>::empty()
    } else {
        let compact = remove_by(summary, ws_pred());
        if contains(compact, "Pマス出現前"@) {
            "pre_p_unlock"@
        } else if contains(compact, "Pマス出現後"@) {
            "post_p_unlock"@
        } else {
            match gauge_key_of(compact) {
                Some(key) => key,
                None => "variant_"@ + dec_digits(idx + 1),
            }
        }
    }
}

/// Whether a section's key falls back to its position (`variant_{idx + 1}`):
/// there are several sections and the summary names neither a P-cell phase
/// nor a gauge.
pub open spec fn uses_index_fallback(summary: Seq<char>, total: nat) -> bool {
    let compact = remove_by(summary, ws_pred());
    &&& total > 1
    &&& !contains(compact, "Pマス出現前"@)
    &&& !contains(compact, "Pマス出現後"@)
    &&& gauge_key_of(compact) is None
}

/// A section's key is empty exactly when the page has a single section (or
/// none): with two or more, every section gets a non-empty key.
pub proof fn law_key_empty_exactly_for_a_single_section(summary: Seq<char>, idx: nat, total: nat)
    ensures
        variant_key_of(summary, idx, total).len() == 0 <==> total <= 1,
{
    reveal_strlit("pre_p_unlock");
    reveal_strlit("post_p_unlock");
    reveal_strlit("gauge_1");
    reveal_strlit("gauge_2");
    reveal_strlit("gauge_3");
    reveal_strlit("gauge_4");
    reveal_strlit("gauge_5");
    reveal_strlit("gauge_");
    reveal_strlit("variant_");
    if total > 1 {
        let compact = remove_by(summary, ws_pred());
        match gauge_key_of(compact) {
            Some(k) => {
                assert(k.len() > 0);
            },
            None => {
                assert(("variant_"@ + dec_digits(idx + 1)).len() > 0);
            },
        }
    }
}

pub fn extract_gauge_variant_key(compact: &[char]) -> (r: Option<String>)
    ensures
        r.deep_view() == gauge_key_of(compact@),
{
    if contains_str(compact, "第一ゲージ") {
        return Some("gauge_1".to_owned());
    }
    if contains_str(compact, "第二ゲージ") {
        return Some("gauge_2".to_owned());
    }
    if contains_str(compact, "第三ゲージ") {
        return Some("gauge_3".to_owned());
    }
    if contains_str(compact, "第四ゲージ") {
        return Some("gauge_4".to_owned());
    }
    if contains_str(compact, "第五ゲージ") {
        return Some("gauge_5".to_owned());
    }
    if contains_str(compact, "ゲージ1") {
        return Some("gauge_1".to_owned());
    }
    if contains_str(compact, "ゲージ2") {
        return Some("gauge_2".to_owned());
    }
    let gauge = chars_of("ゲージ");
    match find(compact, gauge.as_slice()) {
        Some(pos) => {
            assert(has_at(compact@, gauge@, pos as int));
            let n = compact.len();
            let gl = gauge.len();
            assert(pos + gl <= n);
            proof {
                assert(first_at(compact@, "ゲージ"@, pos as int));
                let c = choose|i: int| first_at(compact@, "ゲージ"@, i);
                assert(first_at(compact@, "ゲージ"@, pos as int));
                lemma_first_at_unique(compact@, "ゲージ"@, c, pos as int);
            }
            let after = copy_range(compact, pos + gl, n);
            let digits = lead_digits(after.as_slice());
            if digits.len() > 0 {
                let mut key = chars_of("gauge_");
                extend_chars(&mut key, digits.as_slice());
                Some(string_of(key.as_slice()))
            } else {
                None
            }
        },
        None => None,
    }
}

pub fn route_section_variant_key(summary: &str, idx: usize, total: usize) -> (r: String)
    requires
        uses_index_fallback(summary@, total as nat) ==> idx < usize::MAX,
    ensures
        r@ == variant_key_of(summary@, idx as nat, total as nat),
{
    if total <= 1 {
        return String::new();
    }
    let chars = chars_of(summary);
    let compact = remove_ws(chars.as_slice());
    if contains_str(compact.as_slice(), "Pマス出現前") {
        "pre_p_unlock".to_owned()
    } else if contains_str(compact.as_slice(), "Pマス出現後") {
        "post_p_unlock".to_owned()
    } else {
        match extract_gauge_variant_key(compact.as_slice()) {
            Some(key) => key,
            None => {
                let mut out = chars_of("variant_");
                push_dec_u64(&mut out, (idx + 1) as u64);
                string_of(out.as_slice())
            },
        }
    }
}

/// The defeat count a gauge row announces: the row's first cell names a gauge
/// (`ゲージ`), and the first cell whose `(\d+)回撃沈` match parses as an `i64` gives it.
pub open spec fn gauge_defeat_count_of(row: Seq<Seq<char>>) -> Option<i64> {
    if row.len() == 0 || !contains(row[0], "ゲージ"@) {
        None
    } else {
        first_defeat_count(row, 0)
    }
}

pub open spec fn defeat_count_pattern() -> Seq<char> {
    "(?P<count>\\d+)回撃沈"@
}

/// The first cell, from `i` on, whose defeat-count match parses.
pub open spec fn first_defeat_count(row: Seq<Seq<char>>, i: int) -> Option<i64>
    decreases row.len() - i,
{
    if i < 0 || i >= row.len() {
        None
    } else {
        match regex_group(defeat_count_pattern(), row[i], "count"@) {
            Some(t) => match parse_i64(t) {
                Some(n) => Some(n),
                None => first_defeat_count(row, i + 1),
            },
            None => first_defeat_count(row, i + 1),
        }
    }
}

pub fn parse_gauge_defeat_count_row(row: &[String]) -> (r: Option<i64>)
    ensures
        r == gauge_defeat_count_of(row.deep_view()),
{
    if row.len() == 0 {
        return None;
    }
    let header = chars_of(row[0].as_str());
    if !contains_str(header.as_slice(), "ゲージ") {
        return None;
    }
    let ghost dv = row.deep_view();
    let mut i: usize = 0;
    while i < row.len()
        invariant
            i <= row@.len(),
            dv == row.deep_view(),
            gauge_defeat_count_of(dv) == first_defeat_count(dv, i as int),
        decreases row@.len() - i,
    {
        assert(dv[i as int] == row@[i as int]@);
        match capture_group("(?P<count>\\d+)回撃沈", row[i].as_str(), "count") {
            Some(t) => match parse_i64_str(t.as_str()) {
                Some(n) => return Some(n),
                None => {},
            },
            None => {},
        }
        i += 1;
    }
    None
}

/// The defeat counts of a gauge table: each row that announces one, in order.
pub open spec fn table_defeat_counts(rows: Seq<Seq<Seq<char>>>) -> Seq<i64>
    decreases rows.len(),
{
    if rows.len() == 0 {
        Seq::empty()
    } else {
        let prev = table_defeat_counts(rows.drop_last());
        match gauge_defeat_count_of(rows.last()) {
            Some(n) => prev.push(n),
            None => prev,
        }
    }
}

/// The counts of the first table, in page order, with at least two gauge
/// rows; none when no table has two.
pub open spec fn gauge_defeat_counts_of(tables: Seq<Seq<Seq<Seq<char>>>>) -> Seq<i64>
    decreases tables.len(),
{
    if tables.len() == 0 {
        Seq::empty()
    } else if table_defeat_counts(tables[0]).len() >= 2 {
        table_defeat_counts(tables[0])
    } else {
        gauge_defeat_counts_of(tables.drop_first())
    }
}

fn table_defeat_counts_exec(rows: &Vec<Vec<String>>) -> (r: Vec<i64>)
    ensures
        r@ == table_defeat_counts(rows.deep_view()),
{
    let ghost dv = rows.deep_view();
    let mut r: Vec<i64> = Vec::new();
    let mut i: usize = 0;
    while i < rows.len()
        invariant
            i <= rows@.len(),
            dv == rows.deep_view(),
            r@ == table_defeat_counts(dv.take(i as int)),
        decreases rows@.len() - i,
    {
        assert(dv.take(i as int + 1).drop_last() =~= dv.take(i as int));
        assert(dv.take(i as int + 1).last() == dv[i as int]);
        assert(dv[i as int] == rows@[i as int].deep_view());
        match parse_gauge_defeat_count_row(rows[i].as_slice()) {
            Some(n) => r.push(n),
            None => {},
        }
        i += 1;
    }
    assert(dv.take(dv.len() as int) =~= dv);
    r
}

/// The boss-gauge defeat counts of a map page, from its tables in page order.
pub fn parse_gauge_defeat_counts(tables: &[Vec<Vec<String>>]) -> (r: Vec<i64>)
    ensures
        r@ == gauge_defeat_counts_of(tables.deep_view()),
{
    let ghost dv = tables.deep_view();
    let mut i: usize = 0;
    assert(dv.skip(0) =~= dv);
    while i < tables.len()
        invariant
            i <= tables@.len(),
            dv == tables.deep_view(),
            gauge_defeat_counts_of(dv) == gauge_defeat_counts_of(dv.skip(i as int)),
        decreases tables@.len() - i,
    {
        let ghost rest = dv.skip(i as int);
        assert(rest[0] == dv[i as int]);
        assert(rest.drop_first() =~= dv.skip(i as int + 1));
        assert(dv[i as int] == tables@[i as int].deep_view());
        let counts = table_defeat_counts_exec(&tables[i]);
        if counts.len() >= 2 {
            return counts;
        }
        i += 1;
    }
    assert(dv.skip(dv.len() as int) =~= Seq::<Seq<Seq<Seq<char>>>>::empty());
    Vec::new()
}

/// The formations the compositions of a node name.
pub open spec fn named_formations(fs: Seq<Option<i64>>) -> Seq<i64>
    decreases fs.len(),
{
    if fs.len() == 0 {
        Seq::empty()
    } else {
        let prev = named_formations(fs.drop_last());
        match fs.last() {
            Some(f) => prev.push(f),
            None => prev,
        }
    }
}

/// The distinct formations, ascending; a node whose compositions name none
/// is fought in line ahead (`1`).
pub open spec fn formations_of(fs: Seq<Option<i64>>) -> Seq<i64> {
    let set = sorted_set_of(named_formations(fs));
    if set.len() == 0 {
        seq![1i64]
    } else {
        set
    }
}

/// The formations of a node, from the formation of each of its compositions.
pub fn collect_formations(formations: &[Option<i64>]) -> (r: Vec<i64>)
    ensures
        r@ == formations_of(formations@),
{
    let mut named: Vec<i64> = Vec::new();
    let mut i: usize = 0;
    while i < formations.len()
        invariant
            i <= formations@.len(),
            named@ == named_formations(formations@.take(i as int)),
        decreases formations@.len() - i,
    {
        assert(formations@.take(i as int + 1).drop_last() =~= formations@.take(i as int));
        match formations[i] {
            Some(f) => named.push(f),
            None => {},
        }
        i += 1;
    }
    assert(formations@.take(formations@.len() as int) =~= formations@);
    let mut set = sorted_set_exec(&named);
    if set.len() == 0 {
        set.push(1);
        assert(set@ =~= seq![1i64]);
    }
    set
}

/// A fold section of a map page as the page gives it: the summary's text
/// pieces joined by spaces (if it has a summary) and the tables directly in
/// its content (if it has content).
pub struct FoldSection {
    pub summary_text: Option<String>,
    pub tables: Option<Vec<Vec<Vec<String>>>>,
}

/// One route table of a map page with the summary of the section it sits in.
#[derive(Debug, Clone)]
pub struct RouteTableSection {
    pub summary: String,
    pub rows: Vec<Vec<String>>,
}

pub type SectionView = (Seq<char>, Seq<Seq<Seq<char>>>);

pub open spec fn section_view(s: RouteTableSection) -> SectionView {
    (s.summary@, s.rows.deep_view())
}

/// The summary a section's tables are filed under: the normalised text, or
/// nothing when the section has no summary.
pub open spec fn fold_summary(text: Option<Seq<char>>) -> Seq<char> {
    match text {
        Some(t) => normalized(t),
        None => Seq::empty(),
    }
}

/// The route tables among a section's tables, in order, with its summary.
pub open spec fn route_tables_in(summary: Seq<char>, tables: Seq<Seq<Seq<Seq<char>>>>) -> Seq<SectionView>
    decreases tables.len(),
{
    if tables.len() == 0 {
        Seq::empty()
    } else {
        let prev = route_tables_in(summary, tables.drop_last());
        if is_route_table(tables.last()) {
            prev.push((summary, tables.last()))
        } else {
            prev
        }
    }
}

pub open spec fn fold_view(f: FoldSection) -> (Option<Seq<char>>, Option<Seq<Seq<Seq<Seq<char>>>>>) {
    (
        match f.summary_text {
            Some(t) => Some(t@),
            None => None,
        },
        match f.tables {
            Some(ts) => Some(ts.deep_view()),
            None => None,
        },
    )
}

/// The route-table sections of the fold sections, in page order; a section
/// without content gives none.
pub open spec fn fold_route_tables(folds: Seq<(Option<Seq<char>>, Option<Seq<Seq<Seq<Seq<char>>>>>)>) -> Seq<SectionView>
    decreases folds.len(),
{
    if folds.len() == 0 {
        Seq::empty()
    } else {
        let prev = fold_route_tables(folds.drop_last());
        match folds.last().1 {
            Some(ts) => prev + route_tables_in(fold_summary(folds.last().0), ts),
            None => prev,
        }
    }
}

/// A page's route tables: those in its fold sections, or else the page's
/// table headed by the branch point, route and movement condition, with no
/// summary.
pub open spec fn route_table_sections_of(
    folds: Seq<(Option<Seq<char>>, Option<Seq<Seq<Seq<Seq<char>>>>>)>,
    fallback: Option<Seq<Seq<Seq<char>>>>,
) -> Seq<SectionView> {
    let found = fold_route_tables(folds);
    if found.len() == 0 && fallback is Some {
        seq![(Seq::<char>::empty(), fallback.unwrap())]
    } else {
        found
    }
}

fn copy_row(row: &Vec<String>) -> (r: Vec<String>)
    ensures
        r.deep_view() == row.deep_view(),
{
    let mut r: Vec<String> = Vec::new();
    let mut i: usize = 0;
    while i < row.len()
        invariant
            i <= row@.len(),
            r@.len() == i,
            forall|j: int| 0 <= j < i ==> r@[j]@ == row@[j]@,
        decreases row@.len() - i,
    {
        r.push(row[i].clone());
        i += 1;
    }
    assert(r.deep_view() =~= row.deep_view());
    r
}

fn copy_grid(rows: &Vec<Vec<String>>) -> (r: Vec<Vec<String>>)
    ensures
        r.deep_view() == rows.deep_view(),
{
    let mut r: Vec<Vec<String>> = Vec::new();
    let mut i: usize = 0;
    while i < rows.len()
        invariant
            i <= rows@.len(),
            r@.len() == i,
            forall|j: int| 0 <= j < i ==> r@[j].deep_view() == rows@[j].deep_view(),
        decreases rows@.len() - i,
    {
        r.push(copy_row(&rows[i]));
        i += 1;
    }
    assert(r.deep_view() =~= rows.deep_view());
    r
}

/// The route tables of a map page, from its fold sections and, when those
/// hold none, the table the page heads with the route columns.
pub fn find_route_table_sections(
    folds: &[FoldSection],
    fallback: Option<Vec<Vec<String>>>,
) -> (r: Vec<RouteTableSection>)
    ensures
        r@.map_values(|s: RouteTableSection| section_view(s)) == route_table_sections_of(
            folds@.map_values(|f: FoldSection| fold_view(f)),
            match fallback {
                Some(rows) => Some(rows.deep_view()),
                None => None,
            },
        ),
{
    let ghost fv = folds@.map_values(|f: FoldSection| fold_view(f));
    let mut out: Vec<RouteTableSection> = Vec::new();
    let mut i: usize = 0;
    while i < folds.len()
        invariant
            i <= folds@.len(),
            fv == folds@.map_values(|f: FoldSection| fold_view(f)),
            out@.map_values(|s: RouteTableSection| section_view(s)) == fold_route_tables(
                fv.take(i as int),
            ),
        decreases folds@.len() - i,
    {
        assert(fv.take(i as int + 1).drop_last() =~= fv.take(i as int));
        assert(fv.take(i as int + 1).last() == fv[i as int]);
        let fold = &folds[i];
        match &fold.tables {
            Some(tables) => {
                let summary = match &fold.summary_text {
                    Some(t) => normalize_text(t.as_str()),
                    None => String::new(),
                };
                assert(summary@ == fold_summary(fv[i as int].0));
                let ghost tv = tables.deep_view();
                let ghost base = out@.map_values(|s: RouteTableSection| section_view(s));
                let mut k: usize = 0;
                while k < tables.len()
                    invariant
                        k <= tables@.len(),
                        tv == tables.deep_view(),
                        out@.map_values(|s: RouteTableSection| section_view(s)) == base
                            + route_tables_in(summary@, tv.take(k as int)),
                    decreases tables@.len() - k,
                {
                    assert(tv.take(k as int + 1).drop_last() =~= tv.take(k as int));
                    assert(tv.take(k as int + 1).last() == tv[k as int]);
                    assert(tv[k as int] == tables@[k as int].deep_view());
                    if is_route_table_rows(tables[k].as_slice()) {
                        let ghost before = out@;
                        let section = RouteTableSection {
                            summary: summary.clone(),
                            rows: copy_grid(&tables[k]),
                        };
                        out.push(section);
                        assert(out@.map_values(|s: RouteTableSection| section_view(s)) =~= before.map_values(
                            |s: RouteTableSection| section_view(s),
                        ).push((summary@, tv[k as int])));
                    }
                    k += 1;
                }
                assert(tv.take(tv.len() as int) =~= tv);
            },
            None => {},
        }
        i += 1;
    }
    assert(fv.take(fv.len() as int) =~= fv);
    if out.len() == 0 {
        match fallback {
            Some(rows) => {
                let section = RouteTableSection { summary: String::new(), rows };
                out.push(section);
                assert(out@.map_values(|s: RouteTableSection| section_view(s)) =~= seq![
                    (Seq::<char>::empty(), rows.deep_view()),
                ]);
            },
            None => {},
        }
    }
    out
}

} // verus!
