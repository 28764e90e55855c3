//! Character-sequence primitives shared by the parsers: searching, trimming,
//! splitting, replacing, and decimal conversion, each stated over `Seq<char>`.
use vstd::prelude::*;
use vstd::string::StrSliceExecFns;

verus! {

// ---------------------------------------------------------------------------
// Character classes
// ---------------------------------------------------------------------------

/// The Unicode `White_Space` property, which is what `char::is_whitespace` tests.
pub open spec fn is_ws(c: char) -> bool {
    let u = c as u32;
    ||| (0x9 <= u && u <= 0xd)
    ||| u == 0x20
    ||| u == 0x85
    ||| u == 0xa0
    ||| u == 0x1680
    ||| (0x2000 <= u && u <= 0x200a)
    ||| u == 0x2028
    ||| u == 0x2029
    ||| u == 0x202f
    ||| u == 0x205f
    ||| u == 0x3000
}

pub fn is_whitespace(c: char) -> (b: bool)
    ensures
        b == is_ws(c),
{
    let u = c as u32;
    (0x9 <= u && u <= 0xd) || u == 0x20 || u == 0x85 || u == 0xa0 || u == 0x1680 || (0x2000
        <= u && u <= 0x200a) || u == 0x2028 || u == 0x2029 || u == 0x202f || u == 0x205f || u
        == 0x3000
}

pub open spec fn is_digit(c: char) -> bool {
    48 <= (c as u32) && (c as u32) <= 57
}

pub fn is_ascii_digit(c: char) -> (b: bool)
    ensures
        b == is_digit(c),
{
    let u = c as u32;
    48 <= u && u <= 57
}

pub open spec fn digit_value(c: char) -> int {
    (c as u32) - 48
}

pub open spec fn is_ascii_lower(c: char) -> bool {
    97 <= (c as u32) && (c as u32) <= 122
}

pub open spec fn ws_pred() -> spec_fn(char) -> bool {
    |c: char| is_ws(c)
}

pub open spec fn in_set(set: Seq<char>) -> spec_fn(char) -> bool {
    |c: char| set.contains(c)
}

/// Membership of `c` in a small character set.
pub fn char_in(set: &[char], c: char) -> (b: bool)
    ensures
        b == set@.contains(c),
{
    let mut i: usize = 0;
    while i < set.len()
        invariant
            i <= set@.len(),
            forall|k: int| 0 <= k < i ==> set@[k] != c,
        decreases set@.len() - i,
    {
        if set[i] == c {
            assert(set@[i as int] == c);
            return true;
        }
        i += 1;
    }
    false
}

// ---------------------------------------------------------------------------
// Conversions between `str` / `String` and `Vec<char>`
// ---------------------------------------------------------------------------

/// `String::push`: appends one character.
#[verifier::external_body]
pub(crate) fn push_char(s: &mut String, c: char)
    ensures
        final(s)@ == old(s)@.push(c),
{
    s.push(c);
}

/// The characters of a string slice, in order.
pub fn chars_of(s: &str) -> (v: Vec<char>)
    ensures
        v@ == s@,
{
    let n = s.unicode_len();
    let mut v: Vec<char> = Vec::new();
    let mut i: usize = 0;
    while i < n
        invariant
            n == s@.len(),
            i <= n,
            v@ == s@.take(i as int),
        decreases n - i,
    {
        let c = s.get_char(i);
        assert(s@.take(i as int + 1) == v@.push(c));
        v.push(c);
        i += 1;
    }
    assert(s@.take(n as int) == s@);
    v
}

/// A `String` holding exactly the given characters.
pub fn string_of(v: &[char]) -> (s: String)
    ensures
        s@ == v@,
{
    let mut s = String::new();
    let mut i: usize = 0;
    while i < v.len()
        invariant
            i <= v@.len(),
            s@ == v@.take(i as int),
        decreases v@.len() - i,
    {
        assert(v@.take(i as int + 1) == s@.push(v@[i as int]));
        push_char(&mut s, v[i]);
        i += 1;
    }
    assert(v@.take(v@.len() as int) == v@);
    s
}

/// Appends a character sequence to a `String`.
pub fn push_chars(s: &mut String, v: &[char])
    ensures
        final(s)@ == old(s)@ + v@,
{
    let mut i: usize = 0;
    while i < v.len()
        invariant
            i <= v@.len(),
            s@ == old(s)@ + v@.take(i as int),
        decreases v@.len() - i,
    {
        assert(old(s)@ + v@.take(i as int + 1) == (old(s)@ + v@.take(i as int)).push(v@[i as int]));
        push_char(s, v[i]);
        i += 1;
    }
    assert(v@.take(v@.len() as int) == v@);
}

/// Appends a slice to a character vector.
pub fn extend_chars(v: &mut Vec<char>, w: &[char])
    ensures
        final(v)@ == old(v)@ + w@,
{
    let mut i: usize = 0;
    while i < w.len()
        invariant
            i <= w@.len(),
            v@ == old(v)@ + w@.take(i as int),
        decreases w@.len() - i,
    {
        assert(old(v)@ + w@.take(i as int + 1) == (old(v)@ + w@.take(i as int)).push(w@[i as int]));
        v.push(w[i]);
        i += 1;
    }
    assert(w@.take(w@.len() as int) == w@);
}

/// Copies `s[from..to]`.
pub fn copy_range(s: &[char], from: usize, to: usize) -> (r: Vec<char>)
    requires
        from <= to <= s@.len(),
    ensures
        r@ == s@.subrange(from as int, to as int),
{
    let mut r: Vec<char> = Vec::new();
    let mut i = from;
    while i < to
        invariant
            from <= i <= to <= s@.len(),
            r@ == s@.subrange(from as int, i as int),
        decreases to - i,
    {
        assert(s@.subrange(from as int, i as int + 1) == r@.push(s@[i as int]));
        r.push(s[i]);
        i += 1;
    }
    r
}

/// Equality of two character sequences.
pub fn chars_eq(a: &[char], b: &[char]) -> (r: bool)
    ensures
        r == (a@ == b@),
{
    if a.len() != b.len() {
        return false;
    }
    let mut i: usize = 0;
    while i < a.len()
        invariant
            a@.len() == b@.len(),
            i <= a@.len(),
            forall|k: int| 0 <= k < i ==> a@[k] == b@[k],
        decreases a@.len() - i,
    {
        if a[i] != b[i] {
            return false;
        }
        i += 1;
    }
    assert(a@ =~= b@);
    true
}

// ---------------------------------------------------------------------------
// Searching
// ---------------------------------------------------------------------------

/// `p` occurs in `s` starting at position `i`.
pub open spec fn has_at(s: Seq<char>, p: Seq<char>, i: int) -> bool {
    0 <= i && i + p.len() <= s.len() && s.subrange(i, i + p.len()) == p
}

/// `p` occurs somewhere in `s` (the empty pattern occurs in every sequence).
pub open spec fn contains(s: Seq<char>, p: Seq<char>) -> bool {
    exists|i: int| has_at(s, p, i)
}

pub open spec fn starts_with(s: Seq<char>, p: Seq<char>) -> bool {
    has_at(s, p, 0)
}

pub open spec fn ends_with(s: Seq<char>, p: Seq<char>) -> bool {
    p.len() <= s.len() && has_at(s, p, s.len() - p.len())
}

pub fn matches_at(s: &[char], p: &[char], i: usize) -> (b: bool)
    ensures
        b == has_at(s@, p@, i as int),
{
    if i > s.len() || p.len() > s.len() - i {
        return false;
    }
    let mut k: usize = 0;
    while k < p.len()
        invariant
            i + p@.len() <= s@.len(),
            s@.len() == s.len(),
            k <= p@.len(),
            forall|j: int| 0 <= j < k ==> s@[i + j] == p@[j],
        decreases p@.len() - k,
    {
        if s[i + k] != p[k] {
            assert(s@.subrange(i as int, i + p@.len())[k as int] != p@[k as int]);
            return false;
        }
        k += 1;
    }
    assert(s@.subrange(i as int, i + p@.len()) =~= p@);
    true
}

/// First occurrence of `p` in `s` at or after `start`.
pub fn find_from(s: &[char], p: &[char], start: usize) -> (r: Option<usize>)
    ensures
        match r {
            Some(i) => start <= i && has_at(s@, p@, i as int) && forall|j: int|
                start <= j < i ==> !has_at(s@, p@, j),
            None => forall|j: int| start <= j ==> !has_at(s@, p@, j),
        },
{
    let mut i = start;
    while i < s.len()
        invariant
            start <= i,
            forall|j: int| start <= j < i ==> !has_at(s@, p@, j),
        decreases s@.len() - i,
    {
        if matches_at(s, p, i) {
            return Some(i);
        }
        i += 1;
    }
    if i == s.len() && matches_at(s, p, i) {
        return Some(i);
    }
    assert forall|j: int| start <= j implies !has_at(s@, p@, j) by {
        if j > s@.len() {
        }
    }
    None
}

pub fn find(s: &[char], p: &[char]) -> (r: Option<usize>)
    ensures
        match r {
            Some(i) => has_at(s@, p@, i as int) && forall|j: int| 0 <= j < i ==> !has_at(s@, p@, j),
            None => !contains(s@, p@),
        },
{
    find_from(s, p, 0)
}

pub fn contains_chars(s: &[char], p: &[char]) -> (b: bool)
    ensures
        b == contains(s@, p@),
{
    match find(s, p) {
        Some(_) => true,
        None => false,
    }
}

/// `p` first occurs in `s` at `i`.
pub open spec fn first_at(s: Seq<char>, p: Seq<char>, i: int) -> bool {
    has_at(s, p, i) && forall|j: int| 0 <= j < i ==> !has_at(s, p, j)
}

pub proof fn lemma_first_at_unique(s: Seq<char>, p: Seq<char>, i: int, j: int)
    requires
        first_at(s, p, i),
        first_at(s, p, j),
    ensures
        i == j,
{
    if i < j {
        assert(!has_at(s, p, i));
    } else if j < i {
        assert(!has_at(s, p, j));
    }
}

/// `contains` with the pattern given as a string slice.
pub fn contains_str(s: &[char], p: &str) -> (b: bool)
    ensures
        b == contains(s@, p@),
{
    let pv = chars_of(p);
    contains_chars(s, pv.as_slice())
}

pub fn starts_with_chars(s: &[char], p: &[char]) -> (b: bool)
    ensures
        b == starts_with(s@, p@),
{
    matches_at(s, p, 0)
}

pub fn ends_with_chars(s: &[char], p: &[char]) -> (b: bool)
    ensures
        b == ends_with(s@, p@),
{
    if p.len() > s.len() {
        return false;
    }
    matches_at(s, p, s.len() - p.len())
}

// ---------------------------------------------------------------------------
// Trimming
// ---------------------------------------------------------------------------

/// Drops the leading characters that satisfy `f`.
pub open spec fn drop_lead(s: Seq<char>, f: spec_fn(char) -> bool) -> Seq<char>
    decreases s.len(),
{
    if s.len() > 0 && f(s[0]) {
        drop_lead(s.drop_first(), f)
    } else {
        s
    }
}

/// Drops the trailing characters that satisfy `f`.
pub open spec fn drop_trail(s: Seq<char>, f: spec_fn(char) -> bool) -> Seq<char>
    decreases s.len(),
{
    if s.len() > 0 && f(s.last()) {
        drop_trail(s.drop_last(), f)
    } else {
        s
    }
}

/// Drops the characters satisfying `f` at both ends (`str::trim_matches`).
pub open spec fn trim_by(s: Seq<char>, f: spec_fn(char) -> bool) -> Seq<char> {
    drop_trail(drop_lead(s, f), f)
}

/// `str::trim`.
pub open spec fn trim(s: Seq<char>) -> Seq<char> {
    trim_by(s, ws_pred())
}

pub proof fn lemma_drop_lead_at(s: Seq<char>, f: spec_fn(char) -> bool, i: int)
    requires
        0 <= i <= s.len(),
        forall|k: int| 0 <= k < i ==> f(s[k]),
        i == s.len() || !f(s[i]),
    ensures
        drop_lead(s, f) == s.subrange(i, s.len() as int),
    decreases i,
{
    if i == 0 {
        assert(s.subrange(0, s.len() as int) =~= s);
    } else {
        let t = s.drop_first();
        assert forall|k: int| 0 <= k < i - 1 implies f(t[k]) by {
            assert(t[k] == s[k + 1]);
        }
        if i - 1 < t.len() {
            assert(t[i - 1] == s[i]);
        }
        lemma_drop_lead_at(t, f, i - 1);
        assert(t.subrange(i - 1, t.len() as int) =~= s.subrange(i, s.len() as int));
    }
}

pub proof fn lemma_drop_trail_at(s: Seq<char>, f: spec_fn(char) -> bool, e: int)
    requires
        0 <= e <= s.len(),
        forall|k: int| e <= k < s.len() ==> f(s[k]),
        e == 0 || !f(s[e - 1]),
    ensures
        drop_trail(s, f) == s.subrange(0, e),
    decreases s.len() - e,
{
    if e == s.len() {
        assert(s.subrange(0, e) =~= s);
    } else {
        let t = s.drop_last();
        assert forall|k: int| e <= k < t.len() implies f(t[k]) by {
            assert(t[k] == s[k]);
        }
        if e > 0 {
            assert(t[e - 1] == s[e - 1]);
        }
        lemma_drop_trail_at(t, f, e);
        assert(t.subrange(0, e) =~= s.subrange(0, e));
    }
}

/// `str::trim`: drops whitespace at both ends.
pub fn trim_ws(s: &[char]) -> (r: Vec<char>)
    ensures
        r@ == trim(s@),
{
    let mut b: usize = 0;
    while b < s.len() && is_whitespace(s[b])
        invariant
            b <= s@.len(),
            forall|k: int| 0 <= k < b ==> is_ws(s@[k]),
        decreases s@.len() - b,
    {
        b += 1;
    }
    let mut e: usize = s.len();
    while e > b && is_whitespace(s[e - 1])
        invariant
            b <= e <= s@.len(),
            forall|k: int| e <= k < s@.len() ==> is_ws(s@[k]),
        decreases e,
    {
        e -= 1;
    }
    proof {
        lemma_drop_lead_at(s@, ws_pred(), b as int);
        let t = s@.subrange(b as int, s@.len() as int);
        assert forall|k: int| e - b <= k < t.len() implies (ws_pred())(t[k]) by {
            assert(t[k] == s@[k + b]);
        }
        if e - b > 0 {
            assert(t[e - b - 1] == s@[e - 1]);
        }
        lemma_drop_trail_at(t, ws_pred(), e - b);
        assert(t.subrange(0, e - b) =~= s@.subrange(b as int, e as int));
    }
    copy_range(s, b, e)
}

/// `str::trim_matches` with a set of characters.
pub fn trim_set(s: &[char], set: &[char]) -> (r: Vec<char>)
    ensures
        r@ == trim_by(s@, in_set(set@)),
{
    let mut b: usize = 0;
    while b < s.len() && char_in(set, s[b])
        invariant
            b <= s@.len(),
            forall|k: int| 0 <= k < b ==> set@.contains(s@[k]),
        decreases s@.len() - b,
    {
        b += 1;
    }
    let mut e: usize = s.len();
    while e > b && char_in(set, s[e - 1])
        invariant
            b <= e <= s@.len(),
            forall|k: int| e <= k < s@.len() ==> set@.contains(s@[k]),
        decreases e,
    {
        e -= 1;
    }
    proof {
        lemma_drop_lead_at(s@, in_set(set@), b as int);
        let t = s@.subrange(b as int, s@.len() as int);
        assert forall|k: int| e - b <= k < t.len() implies (in_set(set@))(t[k]) by {
            assert(t[k] == s@[k + b]);
        }
        if e - b > 0 {
            assert(t[e - b - 1] == s@[e - 1]);
        }
        lemma_drop_trail_at(t, in_set(set@), e - b);
        assert(t.subrange(0, e - b) =~= s@.subrange(b as int, e as int));
    }
    copy_range(s, b, e)
}

/// `str::trim_start_matches` with a set of characters.
pub fn trim_start_set(s: &[char], set: &[char]) -> (r: Vec<char>)
    ensures
        r@ == drop_lead(s@, in_set(set@)),
{
    let mut b: usize = 0;
    while b < s.len() && char_in(set, s[b])
        invariant
            b <= s@.len(),
            forall|k: int| 0 <= k < b ==> set@.contains(s@[k]),
        decreases s@.len() - b,
    {
        b += 1;
    }
    proof {
        lemma_drop_lead_at(s@, in_set(set@), b as int);
    }
    copy_range(s, b, s.len())
}

/// `str::trim_end_matches` with a set of characters.
pub fn trim_end_set(s: &[char], set: &[char]) -> (r: Vec<char>)
    ensures
        r@ == drop_trail(s@, in_set(set@)),
{
    let mut e: usize = s.len();
    while e > 0 && char_in(set, s[e - 1])
        invariant
            e <= s@.len(),
            forall|k: int| e <= k < s@.len() ==> set@.contains(s@[k]),
        decreases e,
    {
        e -= 1;
    }
    proof {
        lemma_drop_trail_at(s@, in_set(set@), e as int);
    }
    copy_range(s, 0, e)
}

// ---------------------------------------------------------------------------
// Replacing, filtering, splitting
// ---------------------------------------------------------------------------

/// `str::replace` for a non-empty pattern: every non-overlapping occurrence of
/// `p`, scanning left to right, becomes `r`.
pub open spec fn replace_all(s: Seq<char>, p: Seq<char>, r: Seq<char>) -> Seq<char>
    decreases s.len(),
{
    if p.len() == 0 || s.len() == 0 {
        s
    } else if has_at(s, p, 0) {
        r + replace_all(s.subrange(p.len() as int, s.len() as int), p, r)
    } else {
        seq![s[0]] + replace_all(s.drop_first(), p, r)
    }
}

pub fn replace_chars(s: &[char], p: &[char], r: &[char]) -> (out: Vec<char>)
    requires
        p@.len() > 0,
    ensures
        out@ == replace_all(s@, p@, r@),
{
    let mut out: Vec<char> = Vec::new();
    let mut i: usize = 0;
    assert(s@.subrange(0, s@.len() as int) =~= s@);
    assert(out@ + replace_all(s@, p@, r@) =~= replace_all(s@, p@, r@));
    while i < s.len()
        invariant
            i <= s@.len(),
            p@.len() > 0,
            replace_all(s@, p@, r@) == out@ + replace_all(s@.subrange(i as int, s@.len() as int), p@, r@),
        decreases s@.len() - i,
    {
        let ghost rest = s@.subrange(i as int, s@.len() as int);
        if matches_at(s, p, i) {
            proof {
                assert(rest.subrange(0, p@.len() as int) =~= s@.subrange(i as int, i + p@.len()));
                assert(has_at(rest, p@, 0));
                assert(rest.subrange(p@.len() as int, rest.len() as int) =~= s@.subrange(
                    i + p@.len(),
                    s@.len() as int,
                ));
            }
            extend_chars(&mut out, r);
            i += p.len();
        } else {
            proof {
                if has_at(rest, p@, 0) {
                    assert(rest.subrange(0, p@.len() as int) =~= s@.subrange(i as int, i + p@.len()));
                }
                assert(rest.drop_first() =~= s@.subrange(i + 1, s@.len() as int));
                assert(seq![rest[0]] + replace_all(rest.drop_first(), p@, r@) =~= seq![s@[i as int]]
                    + replace_all(s@.subrange(i + 1, s@.len() as int), p@, r@));
            }
            out.push(s[i]);
            i += 1;
        }
        proof {
            assert(out@ + replace_all(s@.subrange(i as int, s@.len() as int), p@, r@) =~= replace_all(s@, p@, r@));
        }
    }
    assert(s@.subrange(i as int, s@.len() as int) =~= Seq::<char>::empty());
    assert(out@ + Seq::<char>::empty() =~= out@);
    out
}

/// The characters of `s` that fail `f`, in order.
pub open spec fn remove_by(s: Seq<char>, f: spec_fn(char) -> bool) -> Seq<char>
    decreases s.len(),
{
    if s.len() == 0 {
        s
    } else if f(s.last()) {
        remove_by(s.drop_last(), f)
    } else {
        remove_by(s.drop_last(), f).push(s.last())
    }
}

/// Removes every whitespace character.
pub fn remove_ws(s: &[char]) -> (r: Vec<char>)
    ensures
        r@ == remove_by(s@, ws_pred()),
{
    let mut r: Vec<char> = Vec::new();
    let mut i: usize = 0;
    while i < s.len()
        invariant
            i <= s@.len(),
            r@ == remove_by(s@.take(i as int), ws_pred()),
        decreases s@.len() - i,
    {
        assert(s@.take(i as int + 1).drop_last() =~= s@.take(i as int));
        if !is_whitespace(s[i]) {
            r.push(s[i]);
        }
        i += 1;
    }
    assert(s@.take(s@.len() as int) =~= s@);
    r
}

/// `str::split` on every character that satisfies `f`: the pieces between
/// separators, empty pieces included; there is always at least one piece.
pub open spec fn split_by(s: Seq<char>, f: spec_fn(char) -> bool) -> Seq<Seq<char>>
    decreases s.len(),
{
    if s.len() == 0 {
        seq![Seq::<char>::empty()]
    } else {
        let init = split_by(s.drop_last(), f);
        if f(s.last()) {
            init.push(Seq::<char>::empty())
        } else {
            init.update(init.len() - 1, init.last().push(s.last()))
        }
    }
}

pub proof fn lemma_split_by_nonempty(s: Seq<char>, f: spec_fn(char) -> bool)
    ensures
        split_by(s, f).len() >= 1,
    decreases s.len(),
{
    if s.len() > 0 {
        lemma_split_by_nonempty(s.drop_last(), f);
    }
}

pub open spec fn views(v: Seq<Vec<char>>) -> Seq<Seq<char>> {
    v.map_values(|x: Vec<char>| x@)
}

/// `str::split` on a set of separator characters.
pub fn split_set(s: &[char], set: &[char]) -> (parts: Vec<Vec<char>>)
    ensures
        views(parts@) == split_by(s@, in_set(set@)),
{
    let mut parts: Vec<Vec<char>> = Vec::new();
    let mut cur: Vec<char> = Vec::new();
    let mut i: usize = 0;
    while i < s.len()
        invariant
            i <= s@.len(),
            split_by(s@.take(i as int), in_set(set@)) == views(parts@).push(cur@),
        decreases s@.len() - i,
    {
        let ghost prev = s@.take(i as int);
        assert(s@.take(i as int + 1).drop_last() =~= prev);
        proof {
            lemma_split_by_nonempty(prev, in_set(set@));
        }
        if char_in(set, s[i]) {
            let ghost before = parts@;
            let done = cur;
            parts.push(done);
            cur = Vec::new();
            assert(views(parts@) =~= views(before).push(done@));
        } else {
            cur.push(s[i]);
        }
        proof {
            assert(split_by(s@.take(i as int + 1), in_set(set@)) =~= views(parts@).push(cur@));
        }
        i += 1;
    }
    let ghost before = parts@;
    let done = cur;
    parts.push(done);
    assert(views(parts@) =~= views(before).push(done@));
    assert(s@.take(s@.len() as int) =~= s@);
    assert(views(parts@) =~= split_by(s@, in_set(set@)));
    parts
}

// ---------------------------------------------------------------------------
// Decimal numbers
// ---------------------------------------------------------------------------

pub open spec fn all_digits(s: Seq<char>) -> bool {
    forall|i: int| 0 <= i < s.len() ==> is_digit(#[trigger] s[i])
}

/// The value of a run of decimal digits.
pub open spec fn digits_value(s: Seq<char>) -> nat
    decreases s.len(),
{
    if s.len() == 0 {
        0
    } else {
        (digits_value(s.drop_last()) * 10 + digit_value(s.last())) as nat
    }
}

/// `str::parse::<i64>`: an optional `+` or `-`, then one or more ASCII digits,
/// and the value must fit in an `i64`.
pub open spec fn parse_i64(s: Seq<char>) -> Option<i64> {
    let neg = s.len() > 0 && s[0] == '-';
    let body = if s.len() > 0 && (s[0] == '-' || s[0] == '+') {
        s.drop_first()
    } else {
        s
    };
    if body.len() == 0 || !all_digits(body) {
        None
    } else if neg {
        if digits_value(body) <= 0x8000_0000_0000_0000 {
            Some((-digits_value(body)) as i64)
        } else {
            None
        }
    } else if digits_value(body) <= 0x7fff_ffff_ffff_ffff {
        Some(digits_value(body) as i64)
    } else {
        None
    }
}

pub proof fn lemma_digits_value_prefix_le(s: Seq<char>, k: int)
    requires
        0 <= k <= s.len(),
        all_digits(s),
    ensures
        digits_value(s.take(k)) <= digits_value(s),
    decreases s.len() - k,
{
    if k < s.len() {
        lemma_digits_value_prefix_le(s, k + 1);
        assert(s.take(k + 1).drop_last() =~= s.take(k));
        assert(is_digit(s[k]));
    } else {
        assert(s.take(k) =~= s);
    }
}

/// Parses `s` as `str::parse::<i64>` does.
pub fn parse_i64_chars(s: &[char]) -> (r: Option<i64>)
    ensures
        r == parse_i64(s@),
{
    let mut start: usize = 0;
    let mut neg = false;
    if s.len() > 0 && (s[0] == '-' || s[0] == '+') {
        neg = s[0] == '-';
        start = 1;
    }
    let ghost body = if s@.len() > 0 && (s@[0] == '-' || s@[0] == '+') {
        s@.drop_first()
    } else {
        s@
    };
    assert(body =~= s@.subrange(start as int, s@.len() as int));
    if start == s.len() {
        return None;
    }
    let limit: u64 = if neg {
        0x8000_0000_0000_0000
    } else {
        0x7fff_ffff_ffff_ffff
    };
    let mut v: u64 = 0;
    let mut over = false;
    let mut i = start;
    while i < s.len()
        invariant
            start <= i <= s@.len(),
            start == s@.len() - body.len(),
            body == s@.subrange(start as int, s@.len() as int),
            body == (if s@.len() > 0 && (s@[0] == '-' || s@[0] == '+') {
                s@.drop_first()
            } else {
                s@
            }),
            neg == (s@.len() > 0 && s@[0] == '-'),
            limit == (if neg { 0x8000_0000_0000_0000u64 } else { 0x7fff_ffff_ffff_ffffu64 }),
            all_digits(body.take(i - start)),
            !over ==> v == digits_value(body.take(i - start)) && v <= limit,
            over ==> digits_value(body.take(i - start)) > limit,
        decreases s@.len() - i,
    {
        let c = s[i];
        let u = c as u32;
        if !(48 <= u && u <= 57) {
            assert(body[i - start] == c);
            assert(!all_digits(body));
            return None;
        }
        let d = (u - 48) as u64;
        let ghost pre = body.take(i - start);
        assert(body.take(i - start + 1).drop_last() =~= pre);
        assert(body.take(i - start + 1).last() == c);
        assert(all_digits(body.take(i - start + 1)));
        if !over {
            if v > (limit - d) / 10 {
                over = true;
                assert(v * 10 + d > limit) by (nonlinear_arith)
                    requires
                        v > (limit - d) / 10,
                        d <= 9,
                        d <= limit,
                ;
            } else {
                assert(v * 10 + d <= limit) by (nonlinear_arith)
                    requires
                        v <= (limit - d) / 10,
                        d <= limit,
                ;
                v = v * 10 + d;
            }
        } else {
            assert(digits_value(pre) * 10 + d >= digits_value(pre)) by (nonlinear_arith);
        }
        i += 1;
    }
    assert(body.take(body.len() as int) =~= body);
    if over {
        return None;
    }
    if neg {
        if v == 0x8000_0000_0000_0000 {
            Some(i64::MIN)
        } else {
            Some(-(v as i64))
        }
    } else {
        Some(v as i64)
    }
}

/// `str::parse::<u64>`: an optional `+`, then one or more ASCII digits, and
/// the value must fit in a `u64`.
pub open spec fn parse_u64(s: Seq<char>) -> Option<u64> {
    let body = if s.len() > 0 && s[0] == '+' {
        s.drop_first()
    } else {
        s
    };
    if body.len() == 0 || !all_digits(body) || digits_value(body) > 0xffff_ffff_ffff_ffff {
        None
    } else {
        Some(digits_value(body) as u64)
    }
}

/// Parses `s` as `str::parse::<u64>` does.
pub fn parse_u64_chars(s: &[char]) -> (r: Option<u64>)
    ensures
        r == parse_u64(s@),
{
    let start: usize = if s.len() > 0 && s[0] == '+' {
        1
    } else {
        0
    };
    let ghost body = if s@.len() > 0 && s@[0] == '+' {
        s@.drop_first()
    } else {
        s@
    };
    assert(body =~= s@.subrange(start as int, s@.len() as int));
    if start == s.len() {
        return None;
    }
    let limit: u64 = 0xffff_ffff_ffff_ffff;
    let mut v: u64 = 0;
    let mut over = false;
    let mut i = start;
    while i < s.len()
        invariant
            start <= i <= s@.len(),
            start == s@.len() - body.len(),
            body == s@.subrange(start as int, s@.len() as int),
            body == (if s@.len() > 0 && s@[0] == '+' {
                s@.drop_first()
            } else {
                s@
            }),
            limit == 0xffff_ffff_ffff_ffffu64,
            all_digits(body.take(i - start)),
            !over ==> v == digits_value(body.take(i - start)),
            over ==> digits_value(body.take(i - start)) > limit,
        decreases s@.len() - i,
    {
        let c = s[i];
        let u = c as u32;
        if !(48 <= u && u <= 57) {
            assert(body[i - start] == c);
            assert(!all_digits(body));
            return None;
        }
        let d = (u - 48) as u64;
        let ghost pre = body.take(i - start);
        assert(body.take(i - start + 1).drop_last() =~= pre);
        assert(body.take(i - start + 1).last() == c);
        assert(all_digits(body.take(i - start + 1)));
        if !over {
            if v > (limit - d) / 10 {
                over = true;
                assert(v * 10 + d > limit) by (nonlinear_arith)
                    requires
                        v > (limit - d) / 10,
                        d <= 9,
                        d <= limit,
                ;
            } else {
                assert(v * 10 + d <= limit) by (nonlinear_arith)
                    requires
                        v <= (limit - d) / 10,
                        d <= limit,
                ;
                v = v * 10 + d;
            }
        } else {
            assert(digits_value(pre) * 10 + d >= digits_value(pre)) by (nonlinear_arith);
        }
        i += 1;
    }
    assert(body.take(body.len() as int) =~= body);
    if over {
        return None;
    }
    Some(v)
}

pub fn parse_i64_str(s: &str) -> (r: Option<i64>)
    ensures
        r == parse_i64(s@),
{
    let v = chars_of(s);
    parse_i64_chars(v.as_slice())
}

pub open spec fn digit_char(d: nat) -> char {
    (48 + d) as char
}

/// The decimal digits of `n`, without leading zeros (`"0"` for zero).
pub open spec fn dec_digits(n: nat) -> Seq<char>
    decreases n,
{
    if n < 10 {
        seq![digit_char(n)]
    } else {
        dec_digits(n / 10).push(digit_char(n % 10))
    }
}

/// The text `i64`'s `Display` gives.
pub open spec fn dec_i64(n: i64) -> Seq<char> {
    if n < 0 {
        seq!['-'] + dec_digits((-n) as nat)
    } else {
        dec_digits(n as nat)
    }
}

pub fn push_dec_u64(out: &mut Vec<char>, n: u64)
    ensures
        final(out)@ == old(out)@ + dec_digits(n as nat),
    decreases n,
{
    if n >= 10 {
        push_dec_u64(out, n / 10);
    }
    let d = (n % 10) as u32;
    let c = char_from_digit(d);
    out.push(c);
    assert(final(out)@ =~= old(out)@ + dec_digits(n as nat)) by {
        if n >= 10 {
            assert(dec_digits(n as nat) == dec_digits((n / 10) as nat).push(digit_char((n % 10) as nat)));
        }
    }
}

fn char_from_digit(d: u32) -> (c: char)
    requires
        d < 10,
    ensures
        c == digit_char(d as nat),
{
    if d == 0 {
        '0'
    } else if d == 1 {
        '1'
    } else if d == 2 {
        '2'
    } else if d == 3 {
        '3'
    } else if d == 4 {
        '4'
    } else if d == 5 {
        '5'
    } else if d == 6 {
        '6'
    } else if d == 7 {
        '7'
    } else if d == 8 {
        '8'
    } else {
        '9'
    }
}

pub fn push_dec_i64(out: &mut Vec<char>, n: i64)
    ensures
        final(out)@ == old(out)@ + dec_i64(n),
{
    if n < 0 {
        out.push('-');
        let m: u64 = if n == i64::MIN {
            0x8000_0000_0000_0000
        } else {
            (-n) as u64
        };
        push_dec_u64(out, m);
        assert(final(out)@ =~= old(out)@ + dec_i64(n));
    } else {
        push_dec_u64(out, n as u64);
    }
}

// ---------------------------------------------------------------------------
// Prefix runs, joining
// ---------------------------------------------------------------------------

/// The longest prefix of `s` whose characters all satisfy `f` (`take_while`).
pub open spec fn take_lead(s: Seq<char>, f: spec_fn(char) -> bool) -> Seq<char>
    decreases s.len(),
{
    if s.len() > 0 && f(s[0]) {
        seq![s[0]] + take_lead(s.drop_first(), f)
    } else {
        Seq::<char>::empty()
    }
}

pub proof fn lemma_take_lead_at(s: Seq<char>, f: spec_fn(char) -> bool, i: int)
    requires
        0 <= i <= s.len(),
        forall|k: int| 0 <= k < i ==> f(s[k]),
        i == s.len() || !f(s[i]),
    ensures
        take_lead(s, f) == s.take(i),
    decreases i,
{
    if i == 0 {
        assert(s.take(0) =~= Seq::<char>::empty());
    } else {
        let t = s.drop_first();
        assert forall|k: int| 0 <= k < i - 1 implies f(t[k]) by {
            assert(t[k] == s[k + 1]);
        }
        if i - 1 < t.len() {
            assert(t[i - 1] == s[i]);
        }
        lemma_take_lead_at(t, f, i - 1);
        assert(seq![s[0]] + t.take(i - 1) =~= s.take(i));
    }
}

pub open spec fn digit_pred() -> spec_fn(char) -> bool {
    |c: char| is_digit(c)
}

/// The run of ASCII digits at the start of `s`.
pub fn lead_digits(s: &[char]) -> (r: Vec<char>)
    ensures
        r@ == take_lead(s@, digit_pred()),
{
    let mut i: usize = 0;
    while i < s.len() && is_ascii_digit(s[i])
        invariant
            i <= s@.len(),
            forall|k: int| 0 <= k < i ==> is_digit(s@[k]),
        decreases s@.len() - i,
    {
        i += 1;
    }
    proof {
        lemma_take_lead_at(s@, digit_pred(), i as int);
    }
    copy_range(s, 0, i)
}

/// The pieces joined with `sep` between neighbours (`[T]::join`).
pub open spec fn join_with(parts: Seq<Seq<char>>, sep: Seq<char>) -> Seq<char>
    decreases parts.len(),
{
    if parts.len() == 0 {
        Seq::<char>::empty()
    } else if parts.len() == 1 {
        parts[0]
    } else {
        join_with(parts.drop_last(), sep) + sep + parts.last()
    }
}

pub fn join_chars(parts: &Vec<Vec<char>>, sep: &[char]) -> (r: Vec<char>)
    ensures
        r@ == join_with(views(parts@), sep@),
{
    let mut r: Vec<char> = Vec::new();
    let mut i: usize = 0;
    while i < parts.len()
        invariant
            i <= parts@.len(),
            r@ == join_with(views(parts@).take(i as int), sep@),
        decreases parts@.len() - i,
    {
        let ghost pv = views(parts@);
        assert(pv.take(i as int + 1).drop_last() =~= pv.take(i as int));
        if i > 0 {
            extend_chars(&mut r, sep);
        }
        extend_chars(&mut r, parts[i].as_slice());
        proof {
            if i == 0 {
                assert(r@ =~= pv.take(1)[0]);
            }
        }
        i += 1;
    }
    assert(views(parts@).take(parts@.len() as int) =~= views(parts@));
    r
}


/// Where `p` first occurs in `s` at or after `i`.
pub open spec fn index_from(s: Seq<char>, p: Seq<char>, i: int) -> Option<int>
    decreases s.len() + 1 - i,
{
    if i < 0 || i > s.len() {
        None
    } else if has_at(s, p, i) {
        Some(i)
    } else {
        index_from(s, p, i + 1)
    }
}

pub proof fn lemma_index_from_bounds(s: Seq<char>, p: Seq<char>, i: int)
    ensures
        index_from(s, p, i) matches Some(j) ==> i <= j && has_at(s, p, j),
    decreases s.len() + 1 - i,
{
    if 0 <= i <= s.len() && !has_at(s, p, i) {
        lemma_index_from_bounds(s, p, i + 1);
    }
}

/// The first occurrence that `find_from` reports is the one `index_from` names.
pub proof fn lemma_index_from_first(s: Seq<char>, p: Seq<char>, i: int, r: Option<int>)
    requires
        0 <= i,
        match r {
            Some(k) => i <= k && has_at(s, p, k) && forall|j: int| i <= j < k ==> !has_at(s, p, j),
            None => forall|j: int| i <= j ==> !has_at(s, p, j),
        },
    ensures
        index_from(s, p, i) == r,
    decreases s.len() + 1 - i,
{
    if i > s.len() {
        if let Some(k) = r {
            assert(has_at(s, p, k));
        }
    } else if has_at(s, p, i) {
        if let Some(k) = r {
            if i < k {
                assert(!has_at(s, p, i));
            }
        }
    } else {
        lemma_index_from_first(s, p, i + 1, r);
    }
}

/// The pieces of `s` from `start` on between the occurrences of `sep`.
pub open spec fn split_on_from(s: Seq<char>, sep: Seq<char>, start: int) -> Seq<Seq<char>>
    decreases s.len() + 1 - start,
{
    if sep.len() == 0 || start < 0 || start > s.len() {
        seq![s.subrange(start, s.len() as int)]
    } else {
        match index_from(s, sep, start) {
            Some(j) => {
                proof {
                    lemma_index_from_bounds(s, sep, start);
                }
                seq![s.subrange(start, j)] + split_on_from(s, sep, j + sep.len())
            },
            None => seq![s.subrange(start, s.len() as int)],
        }
    }
}

/// `str::split` on a separator string: the pieces between its
/// occurrences, left to right, empty pieces included.
pub open spec fn split_on(s: Seq<char>, sep: Seq<char>) -> Seq<Seq<char>> {
    split_on_from(s, sep, 0)
}

pub fn split_chars(s: &[char], sep: &[char]) -> (parts: Vec<Vec<char>>)
    requires
        sep@.len() > 0,
    ensures
        views(parts@) == split_on(s@, sep@),
{
    let mut parts: Vec<Vec<char>> = Vec::new();
    let mut start: usize = 0;
    loop
        invariant
            start <= s@.len(),
            sep@.len() > 0,
            split_on(s@, sep@) == views(parts@) + split_on_from(s@, sep@, start as int),
        decreases s@.len() - start,
    {
        let r = find_from(s, sep, start);
        let ghost rg: Option<int> = match r {
            Some(k) => Some(k as int),
            None => None,
        };
        proof {
            lemma_index_from_first(s@, sep@, start as int, rg);
        }
        match r {
            Some(k) => {
                assert(has_at(s@, sep@, k as int));
                assert(k + sep@.len() <= s@.len());
                assert(s@.len() == s.len() && sep@.len() == sep.len());
                let piece = copy_range(s, start, k);
                let ghost before = views(parts@);
                parts.push(piece);
                assert(views(parts@) =~= before.push(piece@));
                assert(before + split_on_from(s@, sep@, start as int) =~= views(parts@) + split_on_from(
                    s@,
                    sep@,
                    k + sep@.len(),
                ));
                start = k + sep.len();
            },
            None => {
                let piece = copy_range(s, start, s.len());
                let ghost before = views(parts@);
                parts.push(piece);
                assert(views(parts@) =~= before.push(piece@));
                assert(before + split_on_from(s@, sep@, start as int) =~= views(parts@));
                return parts;
            },
        }
    }
}

} // verus!
