//! The client tab ("label type") a quest is filed under, derived from its wiki id.
use vstd::prelude::*;
use vstd::utf8::encode_utf8;

use crate::text::{
    chars_eq, chars_of, in_set, is_ascii_lower, parse_i64, parse_i64_chars, remove_by, split_by, split_set,
    views,
};

verus! {

/// The month field of a `YYYY-MM-DD` date: the second `-`-separated piece,
/// parsed as an integer, kept only when it is a real month.
pub open spec fn release_month_of(date: Option<Seq<char>>) -> Option<i64> {
    match date {
        None => None,
        Some(d) => {
            let parts = split_by(d, in_set(seq!['-']));
            if parts.len() < 2 {
                None
            } else {
                match parse_i64(parts[1]) {
                    Some(m) => if 1 <= m && m <= 12 {
                        Some(m)
                    } else {
                        None
                    },
                    None => None,
                }
            }
        }
    }
}

pub open spec fn not_ascii_lower_pred() -> spec_fn(char) -> bool {
    |c: char| !is_ascii_lower(c)
}

/// The label type of a quest. Only the lowercase "period letter" of the wiki
/// id (e.g. `y` in `By5`) decides it; a yearly quest's label is 100 plus its
/// reset month, taken from the release date.
pub open spec fn label_type_of(wiki_id: Seq<char>, date: Option<Seq<char>>) -> i64 {
    let period = remove_by(wiki_id, not_ascii_lower_pred());
    if (encode_utf8(wiki_id).len() as usize) < 2 {
        1
    } else if period == seq!['d'] {
        2
    } else if period == seq!['w'] {
        3
    } else if period == seq!['m'] {
        6
    } else if period == seq!['q'] {
        7
    } else if period == seq!['y'] {
        if wiki_id == seq!['B', 'y', '5'] {
            107
        } else {
            match release_month_of(date) {
                Some(m) => (100 + m) as i64,
                None => 101,
            }
        }
    } else {
        1
    }
}

/// Month of a `YYYY-MM-DD` date, if it parses and is a real month.
pub fn release_month(release_date: Option<&str>) -> (r: Option<i64>)
    ensures
        r == release_month_of(release_date.deep_view()),
{
    match release_date {
        None => None,
        Some(d) => {
            let chars = chars_of(d);
            let sep = ['-'];
            let parts = split_set(chars.as_slice(), sep.as_slice());
            assert(sep@ == seq!['-']);
            if parts.len() < 2 {
                return None;
            }
            assert(views(parts@)[1] == parts@[1]@);
            match parse_i64_chars(parts[1].as_slice()) {
                Some(m) => if 1 <= m && m <= 12 {
                    Some(m)
                } else {
                    None
                },
                None => None,
            }
        },
    }
}

/// The lowercase ASCII letters of `s`, in order.
fn ascii_lowercase_letters(s: &[char]) -> (r: Vec<char>)
    ensures
        r@ == remove_by(s@, not_ascii_lower_pred()),
{
    let mut r: Vec<char> = Vec::new();
    let mut i: usize = 0;
    while i < s.len()
        invariant
            i <= s@.len(),
            r@ == remove_by(s@.take(i as int), not_ascii_lower_pred()),
        decreases s@.len() - i,
    {
        assert(s@.take(i as int + 1).drop_last() =~= s@.take(i as int));
        let u = s[i] as u32;
        if 97 <= u && u <= 122 {
            r.push(s[i]);
        }
        i += 1;
    }
    assert(s@.take(s@.len() as int) =~= s@);
    r
}

fn is_single(v: &Vec<char>, c: char) -> (b: bool)
    ensures
        b == (v@ == seq![c]),
{
    if v.len() == 1 && v[0] == c {
        assert(v@ =~= seq![c]);
        true
    } else {
        false
    }
}

pub fn extract_label_type(wiki_id: &str, release_date: Option<&str>) -> (r: i64)
    ensures
        r == label_type_of(wiki_id@, release_date.deep_view()),
{
    if wiki_id.len() < 2 {
        return 1;
    }
    let id = chars_of(wiki_id);
    let period = ascii_lowercase_letters(id.as_slice());
    if is_single(&period, 'd') {
        2
    } else if is_single(&period, 'w') {
        3
    } else if is_single(&period, 'm') {
        6
    } else if is_single(&period, 'q') {
        7
    } else if is_single(&period, 'y') {
        let by5 = ['B', 'y', '5'];
        assert(by5@ == seq!['B', 'y', '5']);
        if chars_eq(id.as_slice(), by5.as_slice()) {
            return 107;
        }
        match release_month(release_date) {
            Some(month) => 100 + month,
            None => 101,
        }
    } else {
        1
    }
}

/// The tabs the client files quests under: one-shot, daily, weekly,
/// monthly, quarterly, and one yearly tab per reset month.
pub open spec fn is_client_tab(label: i64) -> bool {
    label == 1 || label == 2 || label == 3 || label == 6 || label == 7 || (101 <= label && label <= 112)
}

/// A yearly quest: an id of two or more bytes whose only lowercase letter is `y`.
pub open spec fn is_yearly_id(wiki_id: Seq<char>) -> bool {
    (encode_utf8(wiki_id).len() as usize) >= 2 && remove_by(wiki_id, not_ascii_lower_pred()) == seq!['y']
}

/// Every quest lands on a tab the client has, whatever its id and release
/// date; the yearly tabs hold exactly the yearly quests.
pub proof fn law_label_is_a_client_tab(wiki_id: Seq<char>, date: Option<Seq<char>>)
    ensures
        is_client_tab(label_type_of(wiki_id, date)),
        (101 <= label_type_of(wiki_id, date) && label_type_of(wiki_id, date) <= 112) <==> is_yearly_id(wiki_id),
{
    let y = seq!['y'];
    assert(y[0] == 'y');
    assert(seq!['d'][0] == 'd' && seq!['w'][0] == 'w' && seq!['m'][0] == 'm' && seq!['q'][0] == 'q');
    assert(y != seq!['d'] && y != seq!['w'] && y != seq!['m'] && y != seq!['q']);
}

} // verus!
