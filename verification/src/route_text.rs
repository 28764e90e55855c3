//! Small readers of wiki route-condition text: splitting a condition at a
//! top-level keyword, unwrapping parentheses, case suffixes and indentation.
use vstd::prelude::*;

use crate::map_route_rules::{all_supported_in, predicate_supported};
use crate::pattern::{capture_group, is_match, regex_group, regex_matches};
use crate::route_model::{RouteOperator, RoutePredicate};
use crate::text::{
    char_in, chars_of, contains, contains_str, copy_range, ends_with, ends_with_chars, has_at,
    in_set, is_ascii_digit, is_digit, lemma_take_lead_at, matches_at, starts_with,
    starts_with_chars, string_of, take_lead, trim, trim_ws, parse_i64, parse_i64_str,
};

verus! {

// ---------------------------------------------------------------------------
// Splitting at a top-level keyword
// ---------------------------------------------------------------------------

/// Parenthesis depth after one more character; closing never goes below zero.
pub open spec fn depth_step(d: int, c: char) -> int {
    if c == '(' || c == '（' {
        d + 1
    } else if c == ')' || c == '）' {
        if d - 1 > 0 {
            d - 1
        } else {
            0
        }
    } else {
        d
    }
}

/// Parenthesis depth after the first `k` characters.
pub open spec fn depth_upto(s: Seq<char>, k: int) -> int
    decreases k,
{
    if k <= 0 {
        0
    } else {
        depth_step(depth_upto(s, k - 1), s[k - 1])
    }
}

/// `s` can be split at position `i`: the keyword starts there outside any
/// parentheses (the character at `i` counted), and neither side is blank.
pub open spec fn splits_at(s: Seq<char>, p: Seq<char>, i: int) -> bool {
    &&& depth_upto(s, i + 1) == 0
    &&& has_at(s, p, i)
    &&& trim(s.subrange(0, i)).len() > 0
    &&& trim(s.subrange(i + p.len(), s.len() as int)).len() > 0
}

/// The split at the first position from `i` on where `s` splits at `p`.
pub open spec fn split_from(s: Seq<char>, p: Seq<char>, i: int) -> Option<(Seq<char>, Seq<char>)>
    decreases s.len() - i,
{
    if i < 0 || i >= s.len() {
        None
    } else if splits_at(s, p, i) {
        Some((trim(s.subrange(0, i)), trim(s.subrange(i + p.len(), s.len() as int))))
    } else {
        split_from(s, p, i + 1)
    }
}

/// Splits a condition at the first occurrence of `keyword` outside
/// parentheses, both sides trimmed and non-empty.
pub fn split_once_keyword_top_level(text: &str, keyword: &str) -> (r: Option<(String, String)>)
    ensures
        match r {
            Some((l, rt)) => split_from(text@, keyword@, 0) == Some((l@, rt@)),
            None => split_from(text@, keyword@, 0) is None,
        },
{
    let s = chars_of(text);
    let p = chars_of(keyword);
    assert(s@ == text@ && p@ == keyword@);
    let mut depth: usize = 0;
    let mut i: usize = 0;
    while i < s.len()
        invariant
            i <= s@.len(),
            s@ == text@,
            p@ == keyword@,
            depth == depth_upto(s@, i as int),
            depth <= i,
            split_from(s@, p@, 0) == split_from(s@, p@, i as int),
        decreases s@.len() - i,
    {
        let c = s[i];
        if c == '(' || c == '（' {
            depth = depth + 1;
        } else if c == ')' || c == '）' {
            if depth > 1 {
                depth = depth - 1;
            } else {
                depth = 0;
            }
        }
        assert(depth == depth_upto(s@, i as int + 1));
        if depth == 0 && matches_at(s.as_slice(), p.as_slice(), i) {
            let left = trim_ws(copy_range(s.as_slice(), 0, i).as_slice());
            if i + p.len() <= s.len() {
                let right = trim_ws(copy_range(s.as_slice(), i + p.len(), s.len()).as_slice());
                if left.len() > 0 && right.len() > 0 {
                    assert(splits_at(s@, p@, i as int));
                    assert(split_from(s@, p@, i as int) == Some((left@, right@)));
                    return Some((string_of(left.as_slice()), string_of(right.as_slice())));
                }
            }
        }
        i += 1;
    }
    None
}

// ---------------------------------------------------------------------------
// Wrapping parentheses
// ---------------------------------------------------------------------------

/// Depth in the `open`/`close` pair after the first `k` characters.
pub open spec fn wrap_depth(s: Seq<char>, open: char, close: char, k: int) -> int
    decreases k,
{
    if k <= 0 {
        0
    } else {
        let d = wrap_depth(s, open, close, k - 1);
        if s[k - 1] == open {
            d + 1
        } else if s[k - 1] == close {
            d - 1
        } else {
            d
        }
    }
}

/// The closing parenthesis at `i` closes the opening one before the end.
pub open spec fn closes_early(s: Seq<char>, open: char, close: char) -> bool {
    exists|i: int| 0 <= i < s.len() - 1 && s[i] == close && wrap_depth(s, open, close, i + 1) == 0
}

/// The pair of parentheses a text is wrapped in, half- or full-width.
pub open spec fn wrapping_pair(t: Seq<char>) -> Option<(char, char)> {
    if t.len() == 0 {
        None
    } else if t[0] == '(' && t.last() == ')' {
        Some(('(', ')'))
    } else if t[0] == '（' && t.last() == '）' {
        Some(('（', '）'))
    } else {
        None
    }
}

/// The inside of a text wrapped as a whole in one pair of parentheses,
/// trimmed; `None` when the first parenthesis closes before the end.
pub open spec fn unwrapped(text: Seq<char>) -> Option<Seq<char>> {
    let t = trim(text);
    match wrapping_pair(t) {
        None => None,
        Some((open, close)) => if closes_early(t, open, close) || wrap_depth(t, open, close, t.len() as int) != 0 {
            None
        } else {
            Some(trim(t.subrange(1, t.len() - 1)))
        },
    }
}

/// Takes off one pair of parentheses that wraps the whole text.
pub fn trim_wrapping_parentheses(text: &str) -> (r: Option<String>)
    ensures
        r.deep_view() == unwrapped(text@),
{
    let t = trim_ws(chars_of(text).as_slice());
    let n = t.len();
    if n == 0 {
        return None;
    }
    let (open, close) = if t[0] == '(' && t[n - 1] == ')' {
        ('(', ')')
    } else if t[0] == '（' && t[n - 1] == '）' {
        ('（', '）')
    } else {
        return None;
    };
    assert(wrapping_pair(t@) == Some((open, close)));
    assert(n >= 2);
    let mut depth: usize = 0;
    let mut i: usize = 0;
    while i < n
        invariant
            n == t@.len(),
            n > 0,
            t@ == trim(text@),
            wrapping_pair(t@) == Some((open, close)),
            t@[0] == open,
            open != close,
            i <= n,
            depth == wrap_depth(t@, open, close, i as int),
            depth <= i,
            i >= 1 && i < n ==> depth >= 1,
            forall|j: int| 0 <= j < i && j < n - 1 ==> !(t@[j] == close && wrap_depth(t@, open, close, j + 1) == 0),
        decreases n - i,
    {
        let c = t[i];
        if c == open {
            depth = depth + 1;
        } else if c == close {
            depth = depth - 1;
            if depth == 0 && i != n - 1 {
                assert(wrap_depth(t@, open, close, i as int + 1) == 0);
                assert(closes_early(t@, open, close));
                return None;
            }
        }
        assert(depth == wrap_depth(t@, open, close, i as int + 1));
        i += 1;
    }
    if depth != 0 {
        return None;
    }
    assert(!closes_early(t@, open, close));
    let inner = trim_ws(copy_range(t.as_slice(), 1, n - 1).as_slice());
    Some(string_of(inner.as_slice()))
}

// ---------------------------------------------------------------------------
// Case suffixes and indentation
// ---------------------------------------------------------------------------

/// The suffixes that mark a line as a case ("when ..."), tried in order.
pub open spec fn case_suffixes() -> Seq<Seq<char>> {
    seq!["の場合"@, "場合"@, "のとき"@, "とき"@, "の時"@, "時"@]
}

/// The line without the first case suffix it ends with, trimmed.
pub open spec fn case_body_from(text: Seq<char>, sufs: Seq<Seq<char>>) -> Option<Seq<char>>
    decreases sufs.len(),
{
    if sufs.len() == 0 {
        None
    } else if ends_with(text, sufs[0]) {
        Some(trim(text.subrange(0, text.len() - sufs[0].len())))
    } else {
        case_body_from(text, sufs.drop_first())
    }
}

/// The condition of a case line: the text before its case suffix.
pub fn strip_case_suffix(text: &str) -> (r: Option<String>)
    ensures
        r.deep_view() == case_body_from(text@, case_suffixes()),
{
    let t = chars_of(text);
    let sufs: [&str; 6] = ["の場合", "場合", "のとき", "とき", "の時", "時"];
    let ghost all = case_suffixes();
    let mut k: usize = 0;
    assert(all.subrange(0, 6) =~= all);
    while k < 6
        invariant
            k <= 6,
            t@ == text@,
            all == case_suffixes(),
            forall|j: int| 0 <= j < 6 ==> (#[trigger] sufs@[j])@ == all[j],
            case_body_from(text@, all) == case_body_from(text@, all.subrange(k as int, 6)),
        decreases 6 - k,
    {
        let ghost rest = all.subrange(k as int, 6);
        assert(rest[0] == all[k as int]);
        assert(rest.drop_first() =~= all.subrange(k as int + 1, 6));
        let suf = chars_of(sufs[k]);
        if ends_with_chars(t.as_slice(), suf.as_slice()) {
            let body = trim_ws(copy_range(t.as_slice(), 0, t.len() - suf.len()).as_slice());
            return Some(string_of(body.as_slice()));
        }
        k += 1;
    }
    assert(all.subrange(6, 6) =~= Seq::<Seq<char>>::empty());
    None
}

pub open spec fn indent_chars() -> Seq<char> {
    seq!['_', '＿', '　']
}

/// The number of indent marks (`_`, `＿`, full-width space) a line starts with.
pub fn count_route_line_indent(raw: &str) -> (n: usize)
    ensures
        n == take_lead(raw@, in_set(indent_chars())).len(),
{
    let s = chars_of(raw);
    let marks = ['_', '＿', '　'];
    assert(marks@ == indent_chars());
    let mut i: usize = 0;
    while i < s.len() && char_in(marks.as_slice(), s[i])
        invariant
            i <= s@.len(),
            forall|k: int| 0 <= k < i ==> marks@.contains(s@[k]),
        decreases s@.len() - i,
    {
        i += 1;
    }
    proof {
        lemma_take_lead_at(s@, in_set(indent_chars()), i as int);
    }
    i
}

// ---------------------------------------------------------------------------
// Notes and annotations
// ---------------------------------------------------------------------------

/// A line of line-of-sight text whose threshold the source leaves out.
pub open spec fn incomplete_los_text(text: Seq<char>) -> bool {
    contains(text, "索敵"@) && (contains(text, "未満"@) || contains(text, "以上"@) || contains(
        text,
        "以下"@,
    )) && !(exists|i: int| 0 <= i < text.len() && is_digit(#[trigger] text[i]))
}

pub fn is_incomplete_los_source_text(text: &str) -> (b: bool)
    ensures
        b == incomplete_los_text(text@),
{
    let t = chars_of(text);
    let ts = t.as_slice();
    if !contains_str(ts, "索敵") {
        return false;
    }
    if !(contains_str(ts, "未満") || contains_str(ts, "以上") || contains_str(ts, "以下")) {
        return false;
    }
    let mut i: usize = 0;
    while i < t.len()
        invariant
            i <= t@.len(),
            t@ == text@,
            forall|k: int| 0 <= k < i ==> !is_digit(#[trigger] t@[k]),
        decreases t@.len() - i,
    {
        if is_ascii_digit(t[i]) {
            assert(is_digit(t@[i as int]));
            return false;
        }
        i += 1;
    }
    true
}

/// A note on how a ratio can be moved, not a condition.
pub open spec fn probability_modifier_note(t: Seq<char>) -> bool {
    (contains(t, "割合"@) && contains(t, "増やせる"@)) || (contains(t, "割合"@) && contains(t, "減らせる"@))
        || contains(t, "割合が0.7倍になる"@) || (contains(t, "割合"@) && contains(t, "倍になる"@))
}

pub fn is_probability_modifier_note(text: &str) -> (b: bool)
    ensures
        b == probability_modifier_note(text@),
{
    let t = chars_of(text);
    let ts = t.as_slice();
    (contains_str(ts, "割合") && contains_str(ts, "増やせる")) || (contains_str(ts, "割合")
        && contains_str(ts, "減らせる")) || contains_str(ts, "割合が0.7倍になる") || (contains_str(ts, "割合")
        && contains_str(ts, "倍になる"))
}

/// A bracketed or parenthesised aside, or a ratio note: not a condition.
pub open spec fn ignorable_annotation(t: Seq<char>) -> bool {
    (starts_with(t, seq!['[']) && ends_with(t, seq![']'])) || (starts_with(t, seq!['(']) && ends_with(t, seq![')']))
        || (starts_with(t, seq!['（']) && ends_with(t, seq!['）'])) || probability_modifier_note(t)
}

pub fn is_ignorable_route_annotation_line(text: &str) -> (b: bool)
    ensures
        b == ignorable_annotation(text@),
{
    let t = chars_of(text);
    let ts = t.as_slice();
    let ob = ['['];
    let cb = [']'];
    let op = ['('];
    let cp = [')'];
    let ofw = ['（'];
    let cfw = ['）'];
    assert(ob@ == seq!['['] && cb@ == seq![']'] && op@ == seq!['('] && cp@ == seq![')']);
    assert(ofw@ == seq!['（'] && cfw@ == seq!['）']);
    (starts_with_chars(ts, ob.as_slice()) && ends_with_chars(ts, cb.as_slice())) || (
    starts_with_chars(ts, op.as_slice()) && ends_with_chars(ts, cp.as_slice())) || (
    starts_with_chars(ts, ofw.as_slice()) && ends_with_chars(ts, cfw.as_slice()))
        || is_probability_modifier_note(text)
}

// ---------------------------------------------------------------------------
// Predicate trees
// ---------------------------------------------------------------------------

/// An `Unknown` or `SourceUnknown` leaf somewhere in the predicate.
pub open spec fn contains_unknown(p: RoutePredicate) -> bool
    decreases p,
{
    match p {
        RoutePredicate::Unknown { .. } => true,
        RoutePredicate::SourceUnknown { .. } => true,
        RoutePredicate::And(ps) => exists|i: int| 0 <= i < ps@.len() && contains_unknown(#[trigger] ps@[i]),
        RoutePredicate::Or(ps) => exists|i: int| 0 <= i < ps@.len() && contains_unknown(#[trigger] ps@[i]),
        RoutePredicate::Not(inner) => contains_unknown(*inner),
        _ => false,
    }
}

pub fn predicate_contains_unknown(predicate: &RoutePredicate) -> (b: bool)
    ensures
        b == contains_unknown(*predicate),
    decreases *predicate,
{
    match predicate {
        RoutePredicate::Unknown { .. } => true,
        RoutePredicate::SourceUnknown { .. } => true,
        RoutePredicate::And(ps) | RoutePredicate::Or(ps) => {
            let mut i: usize = 0;
            while i < ps.len()
                invariant
                    i <= ps@.len(),
                    *predicate == RoutePredicate::And(*ps) || *predicate == RoutePredicate::Or(*ps),
                    forall|k: int| 0 <= k < i ==> !contains_unknown(#[trigger] ps@[k]),
                decreases ps@.len() - i,
            {
                proof {
                    assert(decreases_to!(*ps => ps@));
                    assert(decreases_to!(ps@ => ps@[i as int]));
                    if *predicate is And {
                        assert(decreases_to!(*predicate => (*predicate)->And_0));
                    } else {
                        assert(decreases_to!(*predicate => (*predicate)->Or_0));
                    }
                }
                if predicate_contains_unknown(&ps[i]) {
                    return true;
                }
                i += 1;
            }
            false
        },
        RoutePredicate::Not(inner) => predicate_contains_unknown(inner),
        _ => false,
    }
}

/// A predicate made of line-of-sight conditions alone, joined by and/or.
pub open spec fn los_only(p: RoutePredicate) -> bool
    decreases p,
{
    match p {
        RoutePredicate::LoS { .. } => true,
        RoutePredicate::And(ps) => ps@.len() > 0 && forall|i: int| 0 <= i < ps@.len() ==> los_only(#[trigger] ps@[i]),
        RoutePredicate::Or(ps) => ps@.len() > 0 && forall|i: int| 0 <= i < ps@.len() ==> los_only(#[trigger] ps@[i]),
        _ => false,
    }
}

pub fn predicate_is_los_only(predicate: &RoutePredicate) -> (b: bool)
    ensures
        b == los_only(*predicate),
    decreases *predicate,
{
    match predicate {
        RoutePredicate::LoS { .. } => true,
        RoutePredicate::And(ps) | RoutePredicate::Or(ps) => {
            if ps.len() == 0 {
                return false;
            }
            let mut i: usize = 0;
            while i < ps.len()
                invariant
                    i <= ps@.len(),
                    *predicate == RoutePredicate::And(*ps) || *predicate == RoutePredicate::Or(*ps),
                    forall|k: int| 0 <= k < i ==> los_only(#[trigger] ps@[k]),
                decreases ps@.len() - i,
            {
                proof {
                    assert(decreases_to!(*ps => ps@));
                    assert(decreases_to!(ps@ => ps@[i as int]));
                    if *predicate is And {
                        assert(decreases_to!(*predicate => (*predicate)->And_0));
                    } else {
                        assert(decreases_to!(*predicate => (*predicate)->Or_0));
                    }
                }
                if !predicate_is_los_only(&ps[i]) {
                    return false;
                }
                i += 1;
            }
            true
        },
        _ => false,
    }
}

/// `c` is `right` joined to `left` by "and": appended to an `And` that
/// `left` already is, else a two-part `And`; `right` alone without a `left`.
pub open spec fn combined(left: Option<RoutePredicate>, right: RoutePredicate, c: RoutePredicate) -> bool {
    match left {
        None => c == right,
        Some(RoutePredicate::And(ps)) => match c {
            RoutePredicate::And(qs) => qs@ == ps@.push(right),
            _ => false,
        },
        Some(l) => match c {
            RoutePredicate::And(qs) => qs@ == seq![l, right],
            _ => false,
        },
    }
}

pub fn combine_route_predicates(left: Option<RoutePredicate>, right: RoutePredicate) -> (c: RoutePredicate)
    ensures
        combined(left, right, c),
{
    match left {
        None => right,
        Some(RoutePredicate::And(predicates)) => {
            let mut predicates = predicates;
            predicates.push(right);
            RoutePredicate::And(predicates)
        },
        Some(l) => {
            let v = vec![l, right];
            RoutePredicate::And(v)
        },
    }
}

/// The raw text a compiled rule keeps: only what could not be read needs it.
pub fn compact_route_raw_text(predicate: &RoutePredicate, raw_text: String) -> (r: String)
    ensures
        r@ == if predicate is Unknown || predicate is SourceUnknown {
            raw_text@
        } else {
            Seq::<char>::empty()
        },
{
    match predicate {
        RoutePredicate::Unknown { .. } | RoutePredicate::SourceUnknown { .. } => raw_text,
        _ => String::new(),
    }
}

proof fn lemma_all_supported_in(ps: Seq<RoutePredicate>)
    ensures
        all_supported_in(ps) <==> forall|i: int| 0 <= i < ps.len() ==> predicate_supported(#[trigger] ps[i]),
    decreases ps.len(),
{
    if ps.len() > 0 {
        lemma_all_supported_in(ps.drop_last());
        if all_supported_in(ps) {
            assert forall|i: int| 0 <= i < ps.len() implies predicate_supported(#[trigger] ps[i]) by {
                if i < ps.len() - 1 {
                    assert(ps[i] == ps.drop_last()[i]);
                }
            }
        }
        if forall|i: int| 0 <= i < ps.len() ==> predicate_supported(#[trigger] ps[i]) {
            assert forall|i: int| 0 <= i < ps.len() - 1 implies predicate_supported(#[trigger] ps.drop_last()[i]) by {
                assert(ps[i] == ps.drop_last()[i]);
            }
        }
    }
}

/// The compiler's test for an unreadable leaf and the validator's agree:
/// a predicate holds an `Unknown` or `SourceUnknown` leaf exactly when the
/// validator would warn about it.
pub proof fn law_unknown_test_agrees_with_validator(p: RoutePredicate)
    ensures
        contains_unknown(p) <==> !predicate_supported(p),
    decreases p,
{
    match p {
        RoutePredicate::And(ps) => {
            lemma_all_supported_in(ps@);
            assert forall|i: int| 0 <= i < ps@.len() implies (contains_unknown(#[trigger] ps@[i]) <==> !predicate_supported(ps@[i])) by {
                assert(decreases_to!(p => ps));
                assert(decreases_to!(ps => ps@));
                assert(decreases_to!(ps@ => ps@[i]));
                law_unknown_test_agrees_with_validator(ps@[i]);
            }
        },
        RoutePredicate::Or(ps) => {
            lemma_all_supported_in(ps@);
            assert forall|i: int| 0 <= i < ps@.len() implies (contains_unknown(#[trigger] ps@[i]) <==> !predicate_supported(ps@[i])) by {
                assert(decreases_to!(p => ps));
                assert(decreases_to!(ps => ps@));
                assert(decreases_to!(ps@ => ps@[i]));
                law_unknown_test_agrees_with_validator(ps@[i]);
            }
        },
        RoutePredicate::Not(inner) => {
            law_unknown_test_agrees_with_validator(*inner);
        },
        _ => {},
    }
}

// ---------------------------------------------------------------------------
// Line-of-sight and route-history conditions
// ---------------------------------------------------------------------------

pub const RE_LOS_RANGE: &'static str = "索敵(?:スコア|値)(?:が)?(?P<min>\\d+)以上(?P<max>\\d+)未満";
pub const RE_LOS_RANGE_LTE: &'static str = "索敵(?:スコア|値)(?:が)?(?P<min>\\d+)以上(?P<max>\\d+)以下";
pub const RE_LOS_RANGE_BARE: &'static str = "^(?P<max>\\d+)未満(?P<min>\\d+)以上(?:のとき|の場合)?$";
pub const RE_LOS_RANGE_ALT: &'static str = "^(?P<min>\\d+)以上(?P<max>\\d+)未満(?:のとき|の場合)?$";
pub const RE_LOS_RANGE_LTE_BARE: &'static str = "^(?P<min>\\d+)以上(?P<max>\\d+)以下(?:のとき|の場合)?$";
pub const RE_LOS_GTE_SIMPLE: &'static str = "索敵(?:スコア|値)(?:が)?(?P<value>\\d+)以上";
pub const RE_LOS_LTE_SIMPLE: &'static str = "索敵(?:スコア|値)(?:が)?(?P<value>\\d+)以下";
pub const RE_LOS_LT_SIMPLE: &'static str = "索敵(?:スコア|値)(?:が)?(?P<value>\\d+)未満";
pub const RE_LOS_GTE_BARE: &'static str = "^(?P<value>\\d+)以上$";
pub const RE_LOS_LTE_BARE: &'static str = "^(?P<value>\\d+)以下$";
pub const RE_LOS_LT_BARE: &'static str = "^(?P<value>\\d+)未満$";
pub const RE_VISITED_NODE_NEGATIVE: &'static str = "^(?P<label>[A-Z][A-Z0-9]?)マス未経由$";
pub const RE_VISITED_NODE_POSITIVE: &'static str = "^(?P<label>[A-Z][A-Z0-9]?)マスを経由(?:済み)?$";

/// The patterns of a line-of-sight range, in the order they are tried.
pub open spec fn los_range_patterns() -> Seq<Seq<char>> {
    seq![RE_LOS_RANGE@, RE_LOS_RANGE_LTE@, RE_LOS_RANGE_BARE@, RE_LOS_RANGE_ALT@, RE_LOS_RANGE_LTE_BARE@]
}

/// The first of `pats` that matches `text`.
pub open spec fn first_match(pats: Seq<Seq<char>>, text: Seq<char>) -> Option<Seq<char>>
    decreases pats.len(),
{
    if pats.len() == 0 {
        None
    } else if regex_matches(pats[0], text) {
        Some(pats[0])
    } else {
        first_match(pats.drop_first(), text)
    }
}

/// The number a capture group holds, when the group took part and parses.
pub open spec fn group_number(pattern: Seq<char>, text: Seq<char>, group: Seq<char>) -> Option<i64> {
    match regex_group(pattern, text, group) {
        Some(g) => parse_i64(g),
        None => None,
    }
}

/// The bounds of a line-of-sight range: the lower and the upper end, put in
/// order; `None` when no range is stated or the range is empty.
pub open spec fn los_range_bounds(text: Seq<char>) -> Option<(i64, i64)> {
    match first_match(los_range_patterns(), text) {
        None => None,
        Some(p) => match (group_number(p, text, "min"@), group_number(p, text, "max"@)) {
            (Some(a), Some(b)) => {
                let (lo, hi) = if b < a {
                    (b, a)
                } else {
                    (a, b)
                };
                if hi <= lo {
                    None
                } else {
                    Some((lo, hi))
                }
            },
            _ => None,
        },
    }
}

fn number_in_group(pattern: &str, text: &str, group: &str) -> (r: Option<i64>)
    ensures
        r == group_number(pattern@, text@, group@),
{
    match capture_group(pattern, text, group) {
        Some(g) => parse_i64_str(g.as_str()),
        None => None,
    }
}

fn first_matching<'a>(pats: &[&'a str], text: &str) -> (r: Option<&'a str>)
    ensures
        match r {
            Some(p) => first_match(pats@.map_values(|q: &str| q@), text@) == Some(p@),
            None => first_match(pats@.map_values(|q: &str| q@), text@) is None,
        },
{
    let ghost all = pats@.map_values(|q: &str| q@);
    let mut k: usize = 0;
    assert(all.subrange(0, all.len() as int) =~= all);
    while k < pats.len()
        invariant
            k <= pats@.len(),
            all == pats@.map_values(|q: &str| q@),
            first_match(all, text@) == first_match(all.subrange(k as int, all.len() as int), text@),
        decreases pats@.len() - k,
    {
        let ghost rest = all.subrange(k as int, all.len() as int);
        assert(rest[0] == pats@[k as int]@);
        assert(rest.drop_first() =~= all.subrange(k as int + 1, all.len() as int));
        if is_match(pats[k], text) {
            return Some(pats[k]);
        }
        k += 1;
    }
    assert(all.subrange(k as int, all.len() as int) =~= Seq::<Seq<char>>::empty());
    None
}

/// Reads a line-of-sight range ("索敵値40以上50未満") as the pair of
/// bounds it sets: at least the lower end, at most one below the upper.
pub fn parse_los_range_predicate(text: &str) -> (r: Option<RoutePredicate>)
    ensures
        match los_range_bounds(text@) {
            None => r is None,
            Some((lo, hi)) => match r {
                Some(RoutePredicate::And(v)) => v@ == seq![
                    RoutePredicate::LoS { formula: None, op: RouteOperator::Gte, value: lo },
                    RoutePredicate::LoS { formula: None, op: RouteOperator::Lte, value: (hi - 1) as i64 },
                ],
                _ => false,
            },
        },
{
    let pats: [&str; 5] = [RE_LOS_RANGE, RE_LOS_RANGE_LTE, RE_LOS_RANGE_BARE, RE_LOS_RANGE_ALT, RE_LOS_RANGE_LTE_BARE];
    assert(pats@.map_values(|q: &str| q@) =~= los_range_patterns());
    let p = match first_matching(pats.as_slice(), text) {
        Some(p) => p,
        None => return None,
    };
    let a = match number_in_group(p, text, "min") {
        Some(v) => v,
        None => return None,
    };
    let b = match number_in_group(p, text, "max") {
        Some(v) => v,
        None => return None,
    };
    let (lo, hi) = if b < a {
        (b, a)
    } else {
        (a, b)
    };
    if hi <= lo {
        return None;
    }
    let v = vec![
        RoutePredicate::LoS { formula: None, op: RouteOperator::Gte, value: lo },
        RoutePredicate::LoS { formula: None, op: RouteOperator::Lte, value: hi - 1 },
    ];
    Some(RoutePredicate::And(v))
}

/// The comparison and threshold of a single line-of-sight bound: at least,
/// at most, or below (at most one less, saturating).
pub open spec fn los_bound(text: Seq<char>) -> Option<Option<(RouteOperator, i64)>> {
    match first_match(seq![RE_LOS_GTE_SIMPLE@, RE_LOS_GTE_BARE@], text) {
        Some(p) => match group_number(p, text, "value"@) {
            Some(v) => Some(Some((RouteOperator::Gte, v))),
            None => Some(None),
        },
        None => match first_match(seq![RE_LOS_LTE_SIMPLE@, RE_LOS_LTE_BARE@], text) {
            Some(p) => match group_number(p, text, "value"@) {
                Some(v) => Some(Some((RouteOperator::Lte, v))),
                None => Some(None),
            },
            None => match first_match(seq![RE_LOS_LT_SIMPLE@, RE_LOS_LT_BARE@], text) {
                Some(p) => match group_number(p, text, "value"@) {
                    Some(v) => Some(
                        Some((RouteOperator::Lte, if v == i64::MIN { v } else { (v - 1) as i64 })),
                    ),
                    None => Some(None),
                },
                None => None,
            },
        },
    }
}

/// Reads a single line-of-sight threshold. The first kind of bound whose
/// pattern matches decides, even when its number does not parse.
pub fn parse_los_simple_predicate(text: &str) -> (r: Option<RoutePredicate>)
    ensures
        match los_bound(text@) {
            Some(Some((op, value))) => r == Some(RoutePredicate::LoS { formula: None, op, value }),
            _ => r is None,
        },
{
    let gte: [&str; 2] = [RE_LOS_GTE_SIMPLE, RE_LOS_GTE_BARE];
    assert(gte@.map_values(|q: &str| q@) =~= seq![RE_LOS_GTE_SIMPLE@, RE_LOS_GTE_BARE@]);
    if let Some(p) = first_matching(gte.as_slice(), text) {
        return match number_in_group(p, text, "value") {
            Some(v) => Some(RoutePredicate::LoS { formula: None, op: RouteOperator::Gte, value: v }),
            None => None,
        };
    }
    let lte: [&str; 2] = [RE_LOS_LTE_SIMPLE, RE_LOS_LTE_BARE];
    assert(lte@.map_values(|q: &str| q@) =~= seq![RE_LOS_LTE_SIMPLE@, RE_LOS_LTE_BARE@]);
    if let Some(p) = first_matching(lte.as_slice(), text) {
        return match number_in_group(p, text, "value") {
            Some(v) => Some(RoutePredicate::LoS { formula: None, op: RouteOperator::Lte, value: v }),
            None => None,
        };
    }
    let lt: [&str; 2] = [RE_LOS_LT_SIMPLE, RE_LOS_LT_BARE];
    assert(lt@.map_values(|q: &str| q@) =~= seq![RE_LOS_LT_SIMPLE@, RE_LOS_LT_BARE@]);
    if let Some(p) = first_matching(lt.as_slice(), text) {
        return match number_in_group(p, text, "value") {
            Some(v) => {
                let below = if v == i64::MIN {
                    v
                } else {
                    v - 1
                };
                Some(RoutePredicate::LoS { formula: None, op: RouteOperator::Lte, value: below })
            },
            None => None,
        };
    }
    None
}

/// Whether a cell was passed through, as a label and a flag: "Aマス未経由"
/// is not visited, "Aマスを経由" is.
pub open spec fn visited_of(text: Seq<char>) -> Option<Option<(Seq<char>, bool)>> {
    if regex_matches(RE_VISITED_NODE_NEGATIVE@, text) {
        match regex_group(RE_VISITED_NODE_NEGATIVE@, text, "label"@) {
            Some(l) => Some(Some((l, false))),
            None => Some(None),
        }
    } else if regex_matches(RE_VISITED_NODE_POSITIVE@, text) {
        match regex_group(RE_VISITED_NODE_POSITIVE@, text, "label"@) {
            Some(l) => Some(Some((l, true))),
            None => Some(None),
        }
    } else {
        None
    }
}

pub fn parse_visited_node_predicate(text: &str) -> (r: Option<RoutePredicate>)
    ensures
        match visited_of(text@) {
            Some(Some((label, visited))) => match r {
                Some(RoutePredicate::VisitedNodeLabel { node_labels, visited: v }) => v == visited
                    && node_labels.deep_view() == seq![label],
                _ => false,
            },
            _ => r is None,
        },
{
    if is_match(RE_VISITED_NODE_NEGATIVE, text) {
        return match capture_group(RE_VISITED_NODE_NEGATIVE, text, "label") {
            Some(l) => {
                let ghost lv = l@;
                let v = vec![l];
                assert(v.deep_view() =~= seq![lv]);
                Some(RoutePredicate::VisitedNodeLabel { node_labels: v, visited: false })
            },
            None => None,
        };
    }
    if is_match(RE_VISITED_NODE_POSITIVE, text) {
        return match capture_group(RE_VISITED_NODE_POSITIVE, text, "label") {
            Some(l) => {
                let ghost lv = l@;
                let v = vec![l];
                assert(v.deep_view() =~= seq![lv]);
                Some(RoutePredicate::VisitedNodeLabel { node_labels: v, visited: true })
            },
            None => None,
        };
    }
    None
}

// ---------------------------------------------------------------------------
// Ship selectors
// ---------------------------------------------------------------------------

/// The ships a condition names: by ship type and by ship id.
#[derive(Debug, Clone, Default)]
pub struct RouteSelector {
    pub ship_types: Vec<i64>,
    pub ship_ids: Vec<i64>,
}

/// "Contains" for a selector: a type list alone is a type test, a single
/// ship a ship test, anything else a mixed set; an empty selector is none.
pub open spec fn contains_selector(types: Seq<i64>, ids: Seq<i64>, q: Option<RoutePredicate>) -> bool {
    if types.len() > 0 && ids.len() == 0 {
        match q {
            Some(RoutePredicate::ContainsShipType { ship_types }) => ship_types@ == types,
            _ => false,
        }
    } else if types.len() == 0 && ids.len() == 1 {
        match q {
            Some(RoutePredicate::ContainsShipId { ship_ids }) => ship_ids@ == ids,
            _ => false,
        }
    } else if types.len() > 0 || ids.len() > 0 {
        match q {
            Some(RoutePredicate::ContainsShipSet { ship_types, ship_ids }) => ship_types@ == types && ship_ids@ == ids,
            _ => false,
        }
    } else {
        q is None
    }
}

pub fn predicate_for_contains_selector(selector: RouteSelector) -> (q: Option<RoutePredicate>)
    ensures
        contains_selector(selector.ship_types@, selector.ship_ids@, q),
{
    let RouteSelector { ship_types, ship_ids } = selector;
    if ship_types.len() > 0 && ship_ids.len() == 0 {
        Some(RoutePredicate::ContainsShipType { ship_types })
    } else if ship_types.len() == 0 && ship_ids.len() == 1 {
        Some(RoutePredicate::ContainsShipId { ship_ids })
    } else if ship_types.len() > 0 || ship_ids.len() > 0 {
        Some(RoutePredicate::ContainsShipSet { ship_types, ship_ids })
    } else {
        None
    }
}

/// "Only" for a selector: a type list alone is a type test, anything with
/// ship ids a mixed set; an empty selector is none.
pub open spec fn only_selector(types: Seq<i64>, ids: Seq<i64>, q: Option<RoutePredicate>) -> bool {
    if types.len() > 0 && ids.len() == 0 {
        match q {
            Some(RoutePredicate::OnlyShipTypes { ship_types }) => ship_types@ == types,
            _ => false,
        }
    } else if ids.len() > 0 {
        match q {
            Some(RoutePredicate::OnlyShipSet { ship_types, ship_ids }) => ship_types@ == types && ship_ids@ == ids,
            _ => false,
        }
    } else {
        q is None
    }
}

pub fn predicate_for_only_selector(selector: RouteSelector) -> (q: Option<RoutePredicate>)
    ensures
        only_selector(selector.ship_types@, selector.ship_ids@, q),
{
    let RouteSelector { ship_types, ship_ids } = selector;
    if ship_types.len() > 0 && ship_ids.len() == 0 {
        Some(RoutePredicate::OnlyShipTypes { ship_types })
    } else if ship_ids.len() > 0 {
        Some(RoutePredicate::OnlyShipSet { ship_types, ship_ids })
    } else {
        None
    }
}

/// How several conditions are joined.
#[derive(Debug, Clone, Copy, PartialEq, Eq, Structural)]
pub enum Junction {
    And,
    Or,
}

/// The single-ship test of one ship.
pub open spec fn is_ship_test(p: RoutePredicate, id: i64) -> bool {
    match p {
        RoutePredicate::ContainsShipId { ship_ids } => ship_ids@ == seq![id],
        _ => false,
    }
}

/// One single-ship test per id, joined by the junction; one id gives its
/// test alone.
pub open spec fn ship_tests_joined(ids: Seq<i64>, junction: Junction, q: RoutePredicate) -> bool {
    if ids.len() == 1 {
        is_ship_test(q, ids[0])
    } else {
        match (junction, q) {
            (Junction::And, RoutePredicate::And(ps)) | (Junction::Or, RoutePredicate::Or(ps)) => ps@.len()
                == ids.len() && forall|i: int| 0 <= i < ids.len() ==> is_ship_test(#[trigger] ps@[i], ids[i]),
            _ => false,
        }
    }
}

pub fn combine_ship_id_predicates(ship_ids: Vec<i64>, junction: Junction) -> (q: RoutePredicate)
    ensures
        ship_tests_joined(ship_ids@, junction, q),
{
    let mut ps: Vec<RoutePredicate> = Vec::new();
    let mut i: usize = 0;
    while i < ship_ids.len()
        invariant
            i <= ship_ids@.len(),
            ps@.len() == i,
            forall|k: int| 0 <= k < i ==> is_ship_test(#[trigger] ps@[k], ship_ids@[k]),
        decreases ship_ids@.len() - i,
    {
        let one = vec![ship_ids[i]];
        assert(one@ =~= seq![ship_ids@[i as int]]);
        ps.push(RoutePredicate::ContainsShipId { ship_ids: one });
        i += 1;
    }
    if ps.len() == 1 {
        let p = ps.remove(0);
        return p;
    }
    match junction {
        Junction::And => RoutePredicate::And(ps),
        Junction::Or => RoutePredicate::Or(ps),
    }
}

} // verus!
