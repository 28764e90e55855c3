//! Whether a cell's routing rules use one encoding: either all carry
//! a probability or none does.
use vstd::prelude::*;

use crate::label_overlay::RouteRuleDraft;
use crate::text::{chars_eq, chars_of, extend_chars, string_of};

verus! {

// ---------------------------------------------------------------------------
// Text order
// ---------------------------------------------------------------------------

/// `a` sorts before `b` as `str` does: by the first differing character's
/// code point, a proper prefix first (UTF-8 byte order is code point order).
pub open spec fn text_lt(a: Seq<char>, b: Seq<char>) -> bool
    decreases a.len(),
{
    if a.len() == 0 {
        b.len() > 0
    } else if b.len() == 0 {
        false
    } else if a[0] != b[0] {
        (a[0] as int) < (b[0] as int)
    } else {
        text_lt(a.drop_first(), b.drop_first())
    }
}

proof fn lemma_text_lt_irreflexive(a: Seq<char>)
    ensures
        !text_lt(a, a),
    decreases a.len(),
{
    if a.len() > 0 {
        lemma_text_lt_irreflexive(a.drop_first());
    }
}

proof fn lemma_text_lt_transitive(a: Seq<char>, b: Seq<char>, c: Seq<char>)
    requires
        text_lt(a, b),
        text_lt(b, c),
    ensures
        text_lt(a, c),
    decreases a.len(),
{
    if a.len() > 0 && b.len() > 0 && c.len() > 0 && a[0] == b[0] && b[0] == c[0] {
        lemma_text_lt_transitive(a.drop_first(), b.drop_first(), c.drop_first());
    }
}

proof fn lemma_text_lt_total(a: Seq<char>, b: Seq<char>)
    requires
        a != b,
    ensures
        text_lt(a, b) || text_lt(b, a),
    decreases a.len(),
{
    if a.len() > 0 && b.len() > 0 && a[0] == b[0] {
        if a.drop_first() == b.drop_first() {
            assert(a =~= seq![a[0]] + a.drop_first());
            assert(b =~= seq![b[0]] + b.drop_first());
        }
        lemma_text_lt_total(a.drop_first(), b.drop_first());
    } else if a.len() > 0 && b.len() > 0 {
        assert((a[0] as int) != (b[0] as int));
    } else if a.len() == 0 && b.len() == 0 {
        assert(a =~= b);
    }
}

fn text_lt_exec(a: &[char], b: &[char]) -> (r: bool)
    ensures
        r == text_lt(a@, b@),
{
    let mut i: usize = 0;
    assert(a@.skip(0) =~= a@);
    assert(b@.skip(0) =~= b@);
    while i < a.len() && i < b.len() && a[i] == b[i]
        invariant
            i <= a@.len(),
            i <= b@.len(),
            text_lt(a@, b@) == text_lt(a@.skip(i as int), b@.skip(i as int)),
        decreases a@.len() - i,
    {
        assert(a@.skip(i as int).drop_first() =~= a@.skip(i as int + 1));
        assert(b@.skip(i as int).drop_first() =~= b@.skip(i as int + 1));
        i += 1;
    }
    if i == a.len() {
        i < b.len()
    } else if i == b.len() {
        false
    } else {
        assert(a@.skip(i as int)[0] == a@[i as int]);
        assert(b@.skip(i as int)[0] == b@[i as int]);
        a[i] < b[i]
    }
}

/// Strictly ascending in text order, so without repeats.
pub open spec fn strictly_sorted(s: Seq<Seq<char>>) -> bool {
    forall|i: int, j: int| 0 <= i < j < s.len() ==> text_lt(#[trigger] s[i], #[trigger] s[j])
}

/// Two strictly ascending label lists with the same labels are the same
/// list: the labels a warning run names fix the order it names them in.
pub proof fn law_sorted_labels_are_unique(a: Seq<Seq<char>>, b: Seq<Seq<char>>)
    requires
        strictly_sorted(a),
        strictly_sorted(b),
        forall|l: Seq<char>| a.contains(l) <==> b.contains(l),
    ensures
        a == b,
    decreases a.len() + b.len(),
{
    if a.len() == 0 {
        if b.len() > 0 {
            assert(b.contains(b[0]));
        }
        assert(a =~= b);
    } else if b.len() == 0 {
        assert(a.contains(a[0]));
    } else {
        assert(a.contains(a[0]));
        assert(b.contains(b[0]));
        let j = choose|j: int| 0 <= j < b.len() && b[j] == a[0];
        let i = choose|i: int| 0 <= i < a.len() && a[i] == b[0];
        if a[0] != b[0] {
            assert(i > 0 && j > 0);
            assert(text_lt(a[0], a[i]));
            assert(text_lt(b[0], b[j]));
            lemma_text_lt_transitive(a[0], b[0], a[0]);
            lemma_text_lt_irreflexive(a[0]);
        }
        let ta = a.drop_first();
        let tb = b.drop_first();
        assert forall|l: Seq<char>| ta.contains(l) <==> tb.contains(l) by {
            if ta.contains(l) {
                let k = choose|k: int| 0 <= k < ta.len() && ta[k] == l;
                assert(a[k + 1] == l);
                assert(text_lt(a[0], a[k + 1]));
                lemma_text_lt_irreflexive(l);
                assert(a.contains(l));
                let m = choose|m: int| 0 <= m < b.len() && b[m] == l;
                assert(m != 0);
                assert(tb[m - 1] == l);
            }
            if tb.contains(l) {
                let k = choose|k: int| 0 <= k < tb.len() && tb[k] == l;
                assert(b[k + 1] == l);
                assert(text_lt(b[0], b[k + 1]));
                lemma_text_lt_irreflexive(l);
                assert(b.contains(l));
                let m = choose|m: int| 0 <= m < a.len() && a[m] == l;
                assert(m != 0);
                assert(ta[m - 1] == l);
            }
        }
        assert forall|x: int, y: int| 0 <= x < y < ta.len() implies text_lt(#[trigger] ta[x], #[trigger] ta[y]) by {
            assert(ta[x] == a[x + 1] && ta[y] == a[y + 1]);
        }
        assert forall|x: int, y: int| 0 <= x < y < tb.len() implies text_lt(#[trigger] tb[x], #[trigger] tb[y]) by {
            assert(tb[x] == b[x + 1] && tb[y] == b[y + 1]);
        }
        law_sorted_labels_are_unique(ta, tb);
        assert(a =~= seq![a[0]] + ta);
        assert(b =~= seq![b[0]] + tb);
    }
}

// ---------------------------------------------------------------------------
// Mixed encodings
// ---------------------------------------------------------------------------

/// Some rule from `label` that is not a random placeholder has a
/// probability (`pct`) or has none (`!pct`).
pub open spec fn encodes<Q>(rules: Seq<RouteRuleDraft<Option<Q>>>, label: Seq<char>, pct: bool) -> bool {
    exists|i: int|
        0 <= i < rules.len() && !(#[trigger] rules[i]).random_placeholder && rules[i].from_label@ == label && (
        rules[i].probability is Some) == pct
}

/// The rules from `label` mix the two encodings.
pub open spec fn mixed<Q>(rules: Seq<RouteRuleDraft<Option<Q>>>, label: Seq<char>) -> bool {
    encodes(rules, label, true) && encodes(rules, label, false)
}

pub open spec fn mixed_warning(label: Seq<char>) -> Seq<char> {
    "mixed_routing_encoding_cell_"@ + label
}

pub open spec fn string_views(v: Seq<String>) -> Seq<Seq<char>> {
    v.map_values(|s: String| s@)
}

fn encodes_exec<Q>(rules: &[RouteRuleDraft<Option<Q>>], label: &[char], pct: bool) -> (b: bool)
    ensures
        b == encodes(rules@, label@, pct),
{
    let mut i: usize = 0;
    while i < rules.len()
        invariant
            i <= rules@.len(),
            forall|k: int|
                0 <= k < i ==> !(!(#[trigger] rules@[k]).random_placeholder && rules@[k].from_label@ == label@ && (
                rules@[k].probability is Some) == pct),
        decreases rules@.len() - i,
    {
        let r = &rules[i];
        if !r.random_placeholder && r.probability.is_some() == pct {
            let from = chars_of(r.from_label.as_str());
            if chars_eq(from.as_slice(), label) {
                assert(!rules@[i as int].random_placeholder && rules@[i as int].from_label@ == label@);
                return true;
            }
        }
        i += 1;
    }
    false
}

/// Inserts `x`, which it does not hold, into a strictly sorted list.
fn insert_sorted(out: &mut Vec<Vec<char>>, x: Vec<char>)
    requires
        strictly_sorted(views_of(old(out)@)),
        !views_of(old(out)@).contains(x@),
    ensures
        strictly_sorted(views_of(final(out)@)),
        forall|l: Seq<char>| views_of(final(out)@).contains(l) <==> (views_of(old(out)@).contains(l) || l == x@),
{
    let ghost o = views_of(out@);
    let mut k: usize = 0;
    while k < out.len() && text_lt_exec(out[k].as_slice(), x.as_slice())
        invariant
            k <= out@.len(),
            o == views_of(out@),
            forall|j: int| 0 <= j < k ==> text_lt(#[trigger] o[j], x@),
        decreases out@.len() - k,
    {
        k += 1;
    }
    proof {
        if k < o.len() {
            assert(!text_lt(o[k as int], x@));
            assert(o[k as int] != x@) by {
                assert(o.contains(o[k as int]));
            }
            lemma_text_lt_total(o[k as int], x@);
        }
    }
    out.insert(k, x);
    let ghost n = views_of(out@);
    assert(n =~= o.insert(k as int, x@));
    assert forall|i: int, j: int| 0 <= i < j < n.len() implies text_lt(#[trigger] n[i], #[trigger] n[j]) by {
        if j < k {
            assert(n[i] == o[i] && n[j] == o[j]);
        } else if j == k {
            assert(n[i] == o[i]);
        } else if i == k {
            assert(n[j] == o[j - 1]);
            if j - 1 > k {
                lemma_text_lt_transitive(x@, o[k as int], o[j - 1]);
            }
        } else if i < k {
            assert(n[i] == o[i] && n[j] == o[j - 1]);
        } else {
            assert(n[i] == o[i - 1] && n[j] == o[j - 1]);
        }
    }
    assert forall|l: Seq<char>| n.contains(l) <==> (o.contains(l) || l == x@) by {
        if n.contains(l) {
            let i = choose|i: int| 0 <= i < n.len() && n[i] == l;
            if i < k {
                assert(o[i] == l);
            } else if i > k {
                assert(o[i - 1] == l);
            }
        }
        if o.contains(l) {
            let i = choose|i: int| 0 <= i < o.len() && o[i] == l;
            if i < k {
                assert(n[i] == l);
            } else {
                assert(n[i + 1] == l);
            }
        }
        if l == x@ {
            assert(n[k as int] == l);
        }
    }
}

pub open spec fn views_of(v: Seq<Vec<char>>) -> Seq<Seq<char>> {
    v.map_values(|x: Vec<char>| x@)
}

/// Warns, once per departure cell and in text order of the cells' labels,
/// of every cell whose rules (random placeholders aside) mix rules with a
/// probability and rules without one.
pub fn check_mixed_routing_encoding<Q>(rules: &[RouteRuleDraft<Option<Q>>], warnings: &mut Vec<String>)
    ensures
        exists|labels: Seq<Seq<char>>|
            {
                &&& strictly_sorted(labels)
                &&& forall|l: Seq<char>| labels.contains(l) <==> mixed(rules@, l)
                &&& string_views(final(warnings)@) == string_views(old(warnings)@) + labels.map_values(
                    |l: Seq<char>| mixed_warning(l),
                )
            },
{
    let mut found: Vec<Vec<char>> = Vec::new();
    let mut i: usize = 0;
    while i < rules.len()
        invariant
            i <= rules@.len(),
            strictly_sorted(views_of(found@)),
            forall|l: Seq<char>|
                views_of(found@).contains(l) <==> (mixed(rules@, l) && exists|k: int|
                    0 <= k < i && !(#[trigger] rules@[k]).random_placeholder && rules@[k].from_label@ == l),
        decreases rules@.len() - i,
    {
        let r = &rules[i];
        let label = chars_of(r.from_label.as_str());
        let ghost lv = label@;
        if !r.random_placeholder && encodes_exec(rules, label.as_slice(), true) && encodes_exec(
            rules,
            label.as_slice(),
            false,
        ) {
            let mut seen = false;
            let mut k: usize = 0;
            while k < found.len()
                invariant
                    k <= found@.len(),
                    seen == exists|j: int| 0 <= j < k && views_of(found@)[j] == lv,
                    label@ == lv,
                decreases found@.len() - k,
            {
                assert(views_of(found@)[k as int] == found@[k as int]@);
                if chars_eq(found[k].as_slice(), label.as_slice()) {
                    seen = true;
                }
                k += 1;
            }
            if !seen {
                insert_sorted(&mut found, label);
            }
            assert forall|l: Seq<char>|
                views_of(found@).contains(l) <==> (mixed(rules@, l) && exists|k: int|
                    0 <= k < i + 1 && !(#[trigger] rules@[k]).random_placeholder && rules@[k].from_label@ == l) by {
                if l == lv {
                    assert(!rules@[i as int].random_placeholder && rules@[i as int].from_label@ == l);
                }
            }
        } else {
            assert forall|l: Seq<char>|
                views_of(found@).contains(l) <==> (mixed(rules@, l) && exists|k: int|
                    0 <= k < i + 1 && !(#[trigger] rules@[k]).random_placeholder && rules@[k].from_label@ == l) by {
                if exists|k: int|
                    0 <= k < i + 1 && !(#[trigger] rules@[k]).random_placeholder && rules@[k].from_label@ == l {
                    let k = choose|k: int|
                        0 <= k < i + 1 && !(#[trigger] rules@[k]).random_placeholder && rules@[k].from_label@ == l;
                    if k == i && mixed(rules@, l) {
                        assert(false);
                    }
                }
            }
        }
        i += 1;
    }
    let ghost labels = views_of(found@);
    assert forall|l: Seq<char>| labels.contains(l) <==> mixed(rules@, l) by {
        if mixed(rules@, l) {
            let k = choose|k: int|
                0 <= k < rules@.len() && !(#[trigger] rules@[k]).random_placeholder && rules@[k].from_label@ == l && (
                rules@[k].probability is Some) == true;
            assert(!rules@[k].random_placeholder && rules@[k].from_label@ == l);
        }
    }
    let ghost w0 = string_views(warnings@);
    let mut j: usize = 0;
    while j < found.len()
        invariant
            j <= found@.len(),
            labels == views_of(found@),
            string_views(warnings@) == w0 + labels.take(j as int).map_values(|l: Seq<char>| mixed_warning(l)),
        decreases found@.len() - j,
    {
        let mut text = chars_of("mixed_routing_encoding_cell_");
        extend_chars(&mut text, found[j].as_slice());
        let ghost before = string_views(warnings@);
        let s = string_of(text.as_slice());
        warnings.push(s);
        assert(string_views(warnings@) =~= before.push(mixed_warning(labels[j as int])));
        assert(labels.take(j as int + 1).map_values(|l: Seq<char>| mixed_warning(l)) =~= labels.take(
            j as int,
        ).map_values(|l: Seq<char>| mixed_warning(l)).push(mixed_warning(labels[j as int])));
        j += 1;
    }
    assert(labels.take(labels.len() as int) =~= labels);
}

} // verus!
