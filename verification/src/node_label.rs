//! Readers for the cells of wikiwiki map pages: whitespace normalisation,
//! node labels, formations and the header tests that find a table.
use vstd::prelude::*;

use crate::pattern::{capture_group, regex_group};
use crate::text::{
    char_in, chars_eq, chars_of, contains, contains_chars, in_set, is_whitespace, is_ws,
    join_chars, join_with, split_by, split_set, string_of, trim_by, trim_set, views, ws_pred,
    lemma_split_by_nonempty,
};

verus! {

// ---------------------------------------------------------------------------
// Whitespace normalisation
// ---------------------------------------------------------------------------

/// The pieces that are not empty, in order.
pub open spec fn nonempty_pieces(parts: Seq<Seq<char>>) -> Seq<Seq<char>>
    decreases parts.len(),
{
    if parts.len() == 0 {
        parts
    } else if parts.last().len() == 0 {
        nonempty_pieces(parts.drop_last())
    } else {
        nonempty_pieces(parts.drop_last()).push(parts.last())
    }
}

/// The whitespace-separated words of `s` (`str::split_whitespace`).
pub open spec fn words(s: Seq<char>) -> Seq<Seq<char>> {
    nonempty_pieces(split_by(s, ws_pred()))
}

/// `s` with every run of whitespace made one space and none at either end.
pub open spec fn normalized(s: Seq<char>) -> Seq<char> {
    join_with(words(s), seq![' '])
}

/// `str::split` on whitespace characters.
fn split_ws(s: &[char]) -> (parts: Vec<Vec<char>>)
    ensures
        views(parts@) == split_by(s@, ws_pred()),
{
    let mut parts: Vec<Vec<char>> = Vec::new();
    let mut cur: Vec<char> = Vec::new();
    let mut i: usize = 0;
    while i < s.len()
        invariant
            i <= s@.len(),
            split_by(s@.take(i as int), ws_pred()) == views(parts@).push(cur@),
        decreases s@.len() - i,
    {
        let ghost prev = s@.take(i as int);
        assert(s@.take(i as int + 1).drop_last() =~= prev);
        proof {
            lemma_split_by_nonempty(prev, ws_pred());
        }
        if is_whitespace(s[i]) {
            let ghost before = parts@;
            let done = cur;
            parts.push(done);
            cur = Vec::new();
            assert(views(parts@) =~= views(before).push(done@));
        } else {
            cur.push(s[i]);
        }
        proof {
            assert(split_by(s@.take(i as int + 1), ws_pred()) =~= views(parts@).push(cur@));
        }
        i += 1;
    }
    let ghost before = parts@;
    let done = cur;
    parts.push(done);
    assert(views(parts@) =~= views(before).push(done@));
    assert(s@.take(s@.len() as int) =~= s@);
    parts
}

fn keep_nonempty(parts: Vec<Vec<char>>) -> (r: Vec<Vec<char>>)
    ensures
        views(r@) == nonempty_pieces(views(parts@)),
{
    let ghost pv = views(parts@);
    let mut r: Vec<Vec<char>> = Vec::new();
    let rest = parts;
    let mut i: usize = 0;
    let n = rest.len();
    while i < n
        invariant
            n == pv.len(),
            i <= n,
            views(r@) == nonempty_pieces(pv.take(i as int)),
            pv == views(rest@),
        decreases n - i,
    {
        assert(pv.take(i as int + 1).drop_last() =~= pv.take(i as int));
        let piece = rest[i].clone();
        assert(piece@ == pv[i as int]);
        if piece.len() > 0 {
            let ghost before = r@;
            r.push(piece);
            assert(views(r@) =~= views(before).push(pv[i as int]));
        }
        i += 1;
    }
    assert(pv.take(n as int) =~= pv);
    r
}

/// The whitespace-separated words of a text (`str::split_whitespace`).
pub fn words_of(s: &[char]) -> (r: Vec<Vec<char>>)
    ensures
        views(r@) == words(s@),
{
    let parts = split_ws(s);
    keep_nonempty(parts)
}

/// Every run of whitespace becomes one space; leading and trailing
/// whitespace goes.
pub fn normalize_text(s: &str) -> (r: String)
    ensures
        r@ == normalized(s@),
{
    let cs = chars_of(s);
    let parts = split_ws(cs.as_slice());
    let kept = keep_nonempty(parts);
    let sep = [' '];
    assert(sep@ == seq![' ']);
    let joined = join_chars(&kept, sep.as_slice());
    string_of(joined.as_slice())
}

/// No character of `w` satisfies `f`.
pub open spec fn free_of(w: Seq<char>, f: spec_fn(char) -> bool) -> bool {
    forall|k: int| 0 <= k < w.len() ==> !f(#[trigger] w[k])
}

proof fn lemma_split_append_free(q: Seq<char>, w: Seq<char>, f: spec_fn(char) -> bool)
    requires
        free_of(w, f),
    ensures
        split_by(q + w, f) == split_by(q, f).update(split_by(q, f).len() - 1, split_by(q, f).last() + w),
    decreases w.len(),
{
    lemma_split_by_nonempty(q, f);
    let sq = split_by(q, f);
    if w.len() == 0 {
        assert(q + w =~= q);
        assert(sq.last() + w =~= sq.last());
        assert(sq.update(sq.len() - 1, sq.last() + w) =~= sq);
    } else {
        let w0 = w.drop_last();
        assert(free_of(w0, f)) by {
            assert forall|k: int| 0 <= k < w0.len() implies !f(#[trigger] w0[k]) by {
                assert(w0[k] == w[k]);
            }
        }
        lemma_split_append_free(q, w0, f);
        assert((q + w).drop_last() =~= q + w0);
        assert((q + w).last() == w.last());
        assert(!f(w[w.len() - 1]));
        let init = split_by(q + w0, f);
        assert(init.last() == sq.last() + w0);
        assert(init.last().push(w.last()) =~= sq.last() + w);
        assert(split_by(q + w, f) =~= sq.update(sq.len() - 1, sq.last() + w));
    }
}

proof fn lemma_split_join(ws: Seq<Seq<char>>)
    requires
        ws.len() >= 1,
        forall|i: int| 0 <= i < ws.len() ==> free_of(#[trigger] ws[i], ws_pred()),
    ensures
        split_by(join_with(ws, seq![' ']), ws_pred()) == ws,
    decreases ws.len(),
{
    let e = Seq::<char>::empty();
    if ws.len() == 1 {
        assert(free_of(ws[0], ws_pred()));
        lemma_split_append_free(e, ws[0], ws_pred());
        assert(e + ws[0] =~= ws[0]);
        assert(split_by(e, ws_pred()) == seq![e]);
        assert(seq![e].update(0, e + ws[0]) =~= ws);
    } else {
        let init = ws.drop_last();
        assert forall|i: int| 0 <= i < init.len() implies free_of(#[trigger] init[i], ws_pred()) by {
            assert(init[i] == ws[i]);
        }
        lemma_split_join(init);
        let p = join_with(init, seq![' ']);
        let ps = p + seq![' '];
        assert(ps.drop_last() =~= p);
        assert(ps.last() == ' ');
        assert(is_ws(' '));
        assert(split_by(ps, ws_pred()) == init.push(e));
        let w = ws.last();
        assert(free_of(w, ws_pred()));
        lemma_split_append_free(ps, w, ws_pred());
        assert(join_with(ws, seq![' ']) == ps + w);
        assert(e + w =~= w);
        assert(init.push(e).update(init.len() as int, e + w) =~= ws);
    }
}

proof fn lemma_pieces_free(s: Seq<char>, f: spec_fn(char) -> bool)
    ensures
        forall|i: int| 0 <= i < split_by(s, f).len() ==> free_of(#[trigger] split_by(s, f)[i], f),
    decreases s.len(),
{
    if s.len() > 0 {
        let init = split_by(s.drop_last(), f);
        lemma_pieces_free(s.drop_last(), f);
        lemma_split_by_nonempty(s.drop_last(), f);
        if !f(s.last()) {
            let grown = init.last().push(s.last());
            assert(free_of(init[init.len() - 1], f));
            assert forall|k: int| 0 <= k < grown.len() implies !f(#[trigger] grown[k]) by {
                if k < init.last().len() {
                    assert(grown[k] == init.last()[k]);
                }
            }
        } else {
            assert(free_of(Seq::<char>::empty(), f));
        }
        assert forall|i: int| 0 <= i < split_by(s, f).len() implies free_of(#[trigger] split_by(s, f)[i], f) by {
            if i < init.len() - 1 {
                assert(split_by(s, f)[i] == init[i]);
            } else if i == init.len() - 1 && f(s.last()) {
                assert(split_by(s, f)[i] == init[i]);
            }
        }
    }
}

proof fn lemma_nonempty_pieces_keep(ps: Seq<Seq<char>>, f: spec_fn(char) -> bool)
    requires
        forall|i: int| 0 <= i < ps.len() ==> free_of(#[trigger] ps[i], f),
    ensures
        forall|i: int|
            0 <= i < nonempty_pieces(ps).len() ==> free_of(#[trigger] nonempty_pieces(ps)[i], f)
                && nonempty_pieces(ps)[i].len() > 0,
    decreases ps.len(),
{
    if ps.len() > 0 {
        let init = ps.drop_last();
        assert forall|i: int| 0 <= i < init.len() implies free_of(#[trigger] init[i], f) by {
            assert(init[i] == ps[i]);
        }
        lemma_nonempty_pieces_keep(init, f);
        assert(free_of(ps[ps.len() - 1], f));
        let before = nonempty_pieces(init);
        if ps.last().len() > 0 {
            assert forall|i: int| 0 <= i < nonempty_pieces(ps).len() implies free_of(
                #[trigger] nonempty_pieces(ps)[i],
                f,
            ) && nonempty_pieces(ps)[i].len() > 0 by {
                if i < before.len() {
                    assert(nonempty_pieces(ps)[i] == before[i]);
                } else {
                    assert(nonempty_pieces(ps)[i] == ps.last());
                }
            }
        }
    }
}

proof fn lemma_nonempty_pieces_all(ps: Seq<Seq<char>>)
    requires
        forall|i: int| 0 <= i < ps.len() ==> (#[trigger] ps[i]).len() > 0,
    ensures
        nonempty_pieces(ps) == ps,
    decreases ps.len(),
{
    if ps.len() > 0 {
        let init = ps.drop_last();
        assert forall|i: int| 0 <= i < init.len() implies (#[trigger] init[i]).len() > 0 by {
            assert(init[i] == ps[i]);
        }
        lemma_nonempty_pieces_all(init);
        assert(ps[ps.len() - 1].len() > 0);
        assert(init.push(ps.last()) =~= ps);
    }
}

/// Normalising twice gives what normalising once gives: a normalised text
/// has single spaces between its words and none at either end.
pub proof fn law_normalizing_twice_changes_nothing(s: Seq<char>)
    ensures
        normalized(normalized(s)) == normalized(s),
{
    let ws = words(s);
    lemma_pieces_free(s, ws_pred());
    lemma_nonempty_pieces_keep(split_by(s, ws_pred()), ws_pred());
    if ws.len() == 0 {
        assert(normalized(s) == Seq::<char>::empty());
        assert(split_by(Seq::<char>::empty(), ws_pred()) == seq![Seq::<char>::empty()]);
        let one = seq![Seq::<char>::empty()];
        assert(one.last().len() == 0);
        assert(one.drop_last() =~= Seq::<Seq<char>>::empty());
        assert(nonempty_pieces(one) == nonempty_pieces(Seq::<Seq<char>>::empty()));
        assert(words(Seq::<char>::empty()) =~= Seq::<Seq<char>>::empty());
    } else {
        assert forall|i: int| 0 <= i < ws.len() implies free_of(#[trigger] ws[i], ws_pred()) by {}
        lemma_split_join(ws);
        assert forall|i: int| 0 <= i < ws.len() implies (#[trigger] ws[i]).len() > 0 by {}
        lemma_nonempty_pieces_all(ws);
    }
}

// ---------------------------------------------------------------------------
// Node labels
// ---------------------------------------------------------------------------

/// The label every topology gives its entry node, the implicit cell 0.
pub const ENTRY_NODE_LABEL: &'static str = "Start";

/// A node label: a capital letter, optionally followed by a capital or a digit.
pub const NODE_LABEL_PATTERN: &'static str = "^(?P<label>[A-Z][A-Z0-9]?)";

/// The characters trimmed from both ends of a cell before it is read as a label.
pub open spec fn label_edge_chars() -> Seq<char> {
    seq![':', '：', '→', '-', ' ']
}

pub open spec fn ascii_lower(c: char) -> char {
    if 65 <= (c as u32) && (c as u32) <= 90 {
        ((c as u32) + 32) as char
    } else {
        c
    }
}

/// `str::eq_ignore_ascii_case`.
pub open spec fn eq_ignore_ascii_case(a: Seq<char>, b: Seq<char>) -> bool {
    a.len() == b.len() && forall|i: int| 0 <= i < a.len() ==> ascii_lower(a[i]) == ascii_lower(b[i])
}

/// The words that name the sortie point.
pub open spec fn is_entry_word(s: Seq<char>) -> bool {
    s == "出撃"@ || s == "出撃ポイント"@ || s == "スタート"@ || eq_ignore_ascii_case(s, "Start"@)
}

/// The text of a cell, normalised and with separators trimmed from its ends.
pub open spec fn label_text(text: Seq<char>) -> Seq<char> {
    trim_by(normalized(text), in_set(label_edge_chars()))
}

/// The node label a cell names: the entry label for the sortie words, else
/// the label at the start of the text, if there is one.
pub open spec fn node_label_of(text: Seq<char>) -> Option<Seq<char>> {
    if is_entry_word(label_text(text)) {
        Some("Start"@)
    } else {
        regex_group(NODE_LABEL_PATTERN@, label_text(text), "label"@)
    }
}

fn ascii_lower_char(c: char) -> (r: char)
    ensures
        r == ascii_lower(c),
{
    if 'A' <= c && c <= 'Z' {
        let b: u8 = ((c as u32) + 32) as u8;
        b as char
    } else {
        c
    }
}

fn eq_ignore_case(a: &[char], b: &[char]) -> (r: bool)
    ensures
        r == eq_ignore_ascii_case(a@, b@),
{
    if a.len() != b.len() {
        return false;
    }
    let mut i: usize = 0;
    while i < a.len()
        invariant
            a@.len() == b@.len(),
            i <= a@.len(),
            forall|k: int| 0 <= k < i ==> ascii_lower(a@[k]) == ascii_lower(b@[k]),
        decreases a@.len() - i,
    {
        if ascii_lower_char(a[i]) != ascii_lower_char(b[i]) {
            return false;
        }
        i += 1;
    }
    true
}

/// Reads one node label from a cell's text.
pub fn parse_node_label(text: &str) -> (r: Option<String>)
    ensures
        r.deep_view() == node_label_of(text@),
{
    let norm = normalize_text(text);
    let cs = chars_of(norm.as_str());
    let edges = [':', '：', '→', '-', ' '];
    assert(edges@ == label_edge_chars());
    let t = trim_set(cs.as_slice(), edges.as_slice());
    let is_entry = chars_eq(t.as_slice(), chars_of("出撃").as_slice()) || chars_eq(
        t.as_slice(),
        chars_of("出撃ポイント").as_slice(),
    ) || chars_eq(t.as_slice(), chars_of("スタート").as_slice()) || eq_ignore_case(
        t.as_slice(),
        chars_of(ENTRY_NODE_LABEL).as_slice(),
    );
    if is_entry {
        let s = ENTRY_NODE_LABEL.to_string();
        proof {
            reveal_strlit("Start");
        }
        return Some(s);
    }
    let ts = string_of(t.as_slice());
    capture_group(NODE_LABEL_PATTERN, ts.as_str(), "label")
}

/// The labels of every `/`-separated piece of a cell that names one, in order.
pub open spec fn node_labels_of(text: Seq<char>) -> Seq<Seq<char>> {
    some_labels(split_by(text, in_set(seq!['/'])))
}

/// The labels of those pieces that name one, in order.
pub open spec fn some_labels(pieces: Seq<Seq<char>>) -> Seq<Seq<char>>
    decreases pieces.len(),
{
    if pieces.len() == 0 {
        Seq::<Seq<char>>::empty()
    } else {
        match node_label_of(pieces.last()) {
            Some(l) => some_labels(pieces.drop_last()).push(l),
            None => some_labels(pieces.drop_last()),
        }
    }
}

/// Reads the labels of a cell that may name several nodes, as `A/B`.
pub fn parse_node_labels(text: &str) -> (r: Vec<String>)
    ensures
        r.deep_view() == node_labels_of(text@),
{
    let cs = chars_of(text);
    let sep = ['/'];
    assert(sep@ == seq!['/']);
    let pieces = split_set(cs.as_slice(), sep.as_slice());
    let ghost pv = views(pieces@);
    let mut out: Vec<String> = Vec::new();
    let mut i: usize = 0;
    while i < pieces.len()
        invariant
            i <= pieces@.len(),
            pv == views(pieces@),
            out.deep_view() == some_labels(pv.take(i as int)),
        decreases pieces@.len() - i,
    {
        assert(pv.take(i as int + 1).drop_last() =~= pv.take(i as int));
        let piece = string_of(pieces[i].as_slice());
        match parse_node_label(piece.as_str()) {
            Some(l) => {
                let ghost before = out.deep_view();
                let ghost lv = l@;
                out.push(l);
                assert(out.deep_view() =~= before.push(lv));
            },
            None => {},
        }
        i += 1;
    }
    assert(pv.take(pieces@.len() as int) =~= pv);
    out
}

// ---------------------------------------------------------------------------
// Formations and headers
// ---------------------------------------------------------------------------

/// The formation number a cell names by its Japanese name.
pub open spec fn formation_of(text: Seq<char>) -> Option<i64> {
    if contains(text, "単縦"@) {
        Some(1)
    } else if contains(text, "複縦"@) {
        Some(2)
    } else if contains(text, "輪形"@) {
        Some(3)
    } else if contains(text, "梯形"@) {
        Some(4)
    } else if contains(text, "単横"@) {
        Some(5)
    } else if contains(text, "警戒"@) {
        Some(6)
    } else {
        None
    }
}

pub fn parse_formation(text: &str) -> (r: Option<i64>)
    ensures
        r == formation_of(text@),
{
    let t = chars_of(text);
    let t = t.as_slice();
    if contains_chars(t, chars_of("単縦").as_slice()) {
        Some(1)
    } else if contains_chars(t, chars_of("複縦").as_slice()) {
        Some(2)
    } else if contains_chars(t, chars_of("輪形").as_slice()) {
        Some(3)
    } else if contains_chars(t, chars_of("梯形").as_slice()) {
        Some(4)
    } else if contains_chars(t, chars_of("単横").as_slice()) {
        Some(5)
    } else if contains_chars(t, chars_of("警戒").as_slice()) {
        Some(6)
    } else {
        None
    }
}

/// The header contains one of the names.
pub open spec fn header_names_any(header: Seq<char>, names: Seq<Seq<char>>) -> bool {
    exists|k: int| 0 <= k < names.len() && contains(header, #[trigger] names[k])
}

pub open spec fn str_views(names: Seq<&str>) -> Seq<Seq<char>> {
    names.map_values(|n: &str| n@)
}

fn names_any(header: &[char], names: &[&str]) -> (b: bool)
    ensures
        b == header_names_any(header@, str_views(names@)),
{
    let ghost nv = str_views(names@);
    let mut k: usize = 0;
    while k < names.len()
        invariant
            k <= names@.len(),
            nv == str_views(names@),
            forall|j: int| 0 <= j < k ==> !contains(header@, #[trigger] nv[j]),
        decreases names@.len() - k,
    {
        let name = chars_of(names[k]);
        if contains_chars(header, name.as_slice()) {
            assert(contains(header@, nv[k as int]));
            return true;
        }
        k += 1;
    }
    false
}

/// The position of the first header that contains one of `names`.
pub fn find_header_index(headers: &[String], names: &[&str]) -> (r: Option<usize>)
    ensures
        match r {
            Some(i) => i < headers@.len() && header_names_any(headers@[i as int]@, str_views(names@))
                && forall|j: int| 0 <= j < i ==> !header_names_any(
                    #[trigger] headers@[j]@,
                    str_views(names@),
                ),
            None => forall|j: int| 0 <= j < headers@.len() ==> !header_names_any(
                #[trigger] headers@[j]@,
                str_views(names@),
            ),
        },
{
    let mut i: usize = 0;
    while i < headers.len()
        invariant
            i <= headers@.len(),
            forall|j: int| 0 <= j < i ==> !header_names_any(
                #[trigger] headers@[j]@,
                str_views(names@),
            ),
        decreases headers@.len() - i,
    {
        let h = chars_of(headers[i].as_str());
        if names_any(h.as_slice(), names) {
            return Some(i);
        }
        i += 1;
    }
    None
}

} // verus!
