//! Quest names and descriptions of the kccp translation table.
//!
//! The table is a JSON object whose keys are Japanese strings. A
//! `_quest_id_N` key opens a record; the keys after it, up to the next id,
//! are that quest's name and description. The entries arrive here already
//! decoded, in document order.
use std::collections::BTreeMap;

use vstd::prelude::*;

use crate::text::{
    chars_eq, chars_of, copy_range, ends_with, parse_i64, parse_i64_chars, replace_all,
    replace_chars, starts_with, starts_with_chars, string_of,
};

verus! {

#[derive(Debug, Clone)]
pub struct KccpQuestInfo {
    pub id: i64,
    pub name: String,
    pub desc: String,
}

/// A quest record as plain values: id, name, description.
pub type QuestView = (i64, Seq<char>, Seq<char>);

impl View for KccpQuestInfo {
    type V = QuestView;

    open spec fn view(&self) -> QuestView {
        (self.id, self.name@, self.desc@)
    }
}

impl Default for KccpQuestInfo {
    fn default() -> (r: Self)
        ensures
            r@ == (0i64, "n/a"@, "n/a"@),
    {
        KccpQuestInfo { id: 0, name: "n/a".to_string(), desc: "n/a".to_string() }
    }
}

/// Key prefix that opens a new quest record.
pub const ID_PREFIX: &'static str = "_quest_id_";

/// A lone entry longer than this many characters reads as a description.
pub const DESC_MAX_TITLE_CHARS: usize = 30;

/// The sentinel entry some tables carry so that their last line has a comma.
pub open spec fn is_sentinel(key: Seq<char>, value: Seq<char>) -> bool {
    key == "dummy"@ && value == "forNoComma"@
}

/// The quest number a key opens a record for, if it is an id key.
pub open spec fn quest_id_of(key: Seq<char>) -> Option<i64> {
    if starts_with(key, ID_PREFIX@) {
        parse_i64(key.subrange(ID_PREFIX@.len() as int, key.len() as int))
    } else {
        None
    }
}

/// A lone entry that ends like a sentence, or is too long for a title.
pub open spec fn reads_as_desc(only: Seq<char>) -> bool {
    ends_with(only, seq!['！']) || ends_with(only, seq!['。']) || only.len() > 30
}

/// The record one quest's entries make: the first two are the name and the
/// description, and a lone entry is one or the other by its look; `n/a`
/// stands for the part that is absent. Line breaks in the description become
/// `<br>`. A quest with no entries makes no record.
pub open spec fn quest_record(id: i64, keys: Seq<Seq<char>>) -> Option<QuestView> {
    if keys.len() == 0 {
        None
    } else {
        let (name, desc) = if keys.len() >= 2 {
            (keys[0], keys[1])
        } else if reads_as_desc(keys[0]) {
            ("n/a"@, keys[0])
        } else {
            (keys[0], "n/a"@)
        };
        Some((id, name, replace_all(desc, seq!['\n'], "<br>"@)))
    }
}

/// The records so far and the quest whose entries are being gathered.
pub type QuestScan = (Map<i64, QuestView>, Option<(i64, Seq<Seq<char>>)>);

/// The table with the record of a finished quest added, when it makes one;
/// a later record for the same id replaces an earlier one.
pub open spec fn close_quest(done: Map<i64, QuestView>, id: i64, keys: Seq<Seq<char>>) -> Map<
    i64,
    QuestView,
> {
    match quest_record(id, keys) {
        Some(q) => done.insert(id, q),
        None => done,
    }
}

/// The scan after the given entries, in order. Sentinels are skipped; an id
/// key closes the open quest and opens its own; any other key joins the open
/// quest, or is dropped before the first id.
pub open spec fn scan(entries: Seq<(Seq<char>, Seq<char>)>) -> QuestScan
    decreases entries.len(),
{
    if entries.len() == 0 {
        (Map::empty(), None)
    } else {
        let (done, open) = scan(entries.drop_last());
        let (key, value) = entries.last();
        if is_sentinel(key, value) {
            (done, open)
        } else {
            match quest_id_of(key) {
                Some(id) => match open {
                    Some((prev, keys)) => (close_quest(done, prev, keys), Some((id, Seq::empty()))),
                    None => (done, Some((id, Seq::empty()))),
                },
                None => match open {
                    Some((prev, keys)) => (done, Some((prev, keys.push(key)))),
                    None => (done, None),
                },
            }
        }
    }
}

/// Every quest record of the table, by id.
pub open spec fn quest_table(entries: Seq<(Seq<char>, Seq<char>)>) -> Map<i64, QuestView> {
    let (done, open) = scan(entries);
    match open {
        Some((id, keys)) => close_quest(done, id, keys),
        None => done,
    }
}

pub open spec fn entry_views(entries: Seq<(String, String)>) -> Seq<(Seq<char>, Seq<char>)> {
    entries.map_values(|e: (String, String)| (e.0@, e.1@))
}

pub open spec fn table_view(m: Map<i64, KccpQuestInfo>) -> Map<i64, QuestView> {
    m.map_values(|q: KccpQuestInfo| q@)
}

fn is_sentinel_entry(key: &str, value: &str) -> (b: bool)
    ensures
        b == is_sentinel(key@, value@),
{
    chars_eq(chars_of(key).as_slice(), chars_of("dummy").as_slice()) && chars_eq(
        chars_of(value).as_slice(),
        chars_of("forNoComma").as_slice(),
    )
}

fn quest_id(key: &str) -> (r: Option<i64>)
    ensures
        r == quest_id_of(key@),
{
    let k = chars_of(key);
    let p = chars_of(ID_PREFIX);
    if starts_with_chars(k.as_slice(), p.as_slice()) {
        let rest = copy_range(k.as_slice(), p.len(), k.len());
        parse_i64_chars(rest.as_slice())
    } else {
        None
    }
}

fn record_of(id: i64, keys: &Vec<String>) -> (r: Option<KccpQuestInfo>)
    ensures
        match r {
            Some(q) => quest_record(id, keys.deep_view()) == Some(q@),
            None => quest_record(id, keys.deep_view()) is None,
        },
{
    let ghost kv = keys.deep_view();
    if keys.len() == 0 {
        return None;
    }
    let (name, desc) = if keys.len() >= 2 {
        assert(keys[0]@ == kv[0] && keys[1]@ == kv[1]);
        (keys[0].clone(), keys[1].clone())
    } else {
        let only = chars_of(keys[0].as_str());
        assert(only@ == kv[0]);
        let n = only.len();
        let sentence_end = n > 0 && (only[n - 1] == '！' || only[n - 1] == '。');
        proof {
            assert(ends_with(only@, seq!['！']) == (n > 0 && only@[n - 1] == '！')) by {
                if n > 0 {
                    let tail = only@.subrange(n - 1, n as int);
                    assert(tail =~= seq![only@[n - 1]]);
                    assert(tail[0] == only@[n - 1]);
                    assert(seq!['！'][0] == '！');
                    if only@[n - 1] == '！' {
                        assert(tail =~= seq!['！']);
                    }
                }
            }
            assert(ends_with(only@, seq!['。']) == (n > 0 && only@[n - 1] == '。')) by {
                if n > 0 {
                    let tail = only@.subrange(n - 1, n as int);
                    assert(tail =~= seq![only@[n - 1]]);
                    assert(tail[0] == only@[n - 1]);
                    assert(seq!['。'][0] == '。');
                    if only@[n - 1] == '。' {
                        assert(tail =~= seq!['。']);
                    }
                }
            }
        }
        let fallback = KccpQuestInfo::default();
        if sentence_end || n > DESC_MAX_TITLE_CHARS {
            (fallback.name, keys[0].clone())
        } else {
            (keys[0].clone(), fallback.desc)
        }
    };
    let nl = ['\n'];
    assert(nl@ == seq!['\n']);
    let br = chars_of("<br>");
    let d = replace_chars(chars_of(desc.as_str()).as_slice(), nl.as_slice(), br.as_slice());
    Some(KccpQuestInfo { id, name, desc: string_of(d.as_slice()) })
}

/// Builds the quest table from the table's entries in document order.
pub fn quests_from_entries(entries: &[(String, String)]) -> (r: BTreeMap<i64, KccpQuestInfo>)
    ensures
        table_view(r@) == quest_table(entry_views(entries@)),
{
    let ghost ev = entry_views(entries@);
    let mut done: BTreeMap<i64, KccpQuestInfo> = BTreeMap::new();
    let mut open: Option<(i64, Vec<String>)> = None;
    let mut i: usize = 0;
    while i < entries.len()
        invariant
            i <= entries@.len(),
            ev == entry_views(entries@),
            scan(ev.take(i as int)) == (table_view(done@), match open {
                Some((id, keys)) => Some((id, keys.deep_view())),
                None => None::<(i64, Seq<Seq<char>>)>,
            }),
        decreases entries@.len() - i,
    {
        assert(ev.take(i as int + 1).drop_last() =~= ev.take(i as int));
        assert(ev.take(i as int + 1).last() == (entries@[i as int].0@, entries@[i as int].1@));
        let key = &entries[i].0;
        let value = &entries[i].1;
        if is_sentinel_entry(key.as_str(), value.as_str()) {
        } else {
            match quest_id(key.as_str()) {
                Some(id) => {
                    let prev = open.take();
                    match prev {
                        Some((prev_id, keys)) => {
                            close_into(&mut done, prev_id, &keys);
                        },
                        None => {},
                    }
                    let fresh: Vec<String> = Vec::new();
                    assert(fresh.deep_view() =~= Seq::<Seq<char>>::empty());
                    open = Some((id, fresh));
                },
                None => {
                    match open.take() {
                        Some((prev_id, keys)) => {
                            let mut keys = keys;
                            let ghost kv = keys.deep_view();
                            keys.push(key.clone());
                            assert(keys.deep_view() =~= kv.push(key@));
                            open = Some((prev_id, keys));
                        },
                        None => {},
                    }
                },
            }
        }
        i += 1;
    }
    assert(ev.take(entries@.len() as int) =~= ev);
    match open {
        Some((id, keys)) => close_into(&mut done, id, &keys),
        None => {},
    }
    done
}

fn close_into(done: &mut BTreeMap<i64, KccpQuestInfo>, id: i64, keys: &Vec<String>)
    ensures
        table_view(final(done)@) == close_quest(table_view(old(done)@), id, keys.deep_view()),
{
    match record_of(id, keys) {
        Some(q) => {
            let ghost qv = q@;
            done.insert(id, q);
            assert(table_view(done@) =~= table_view(old(done)@).insert(id, qv));
        },
        None => {},
    }
}

/// Every record is filed under its own id, and no record is named by an id key.
pub open spec fn records_sound(t: Map<i64, QuestView>) -> bool {
    forall|id: i64| #[trigger] t.dom().contains(id) ==> t[id].0 == id && quest_id_of(t[id].1) is None
}

pub open spec fn keys_plain(keys: Seq<Seq<char>>) -> bool {
    forall|i: int| 0 <= i < keys.len() ==> quest_id_of(#[trigger] keys[i]) is None
}

proof fn lemma_close_sound(done: Map<i64, QuestView>, id: i64, keys: Seq<Seq<char>>)
    requires
        records_sound(done),
        keys_plain(keys),
    ensures
        records_sound(close_quest(done, id, keys)),
{
    if keys.len() > 0 {
        assert(quest_id_of(keys[0]) is None);
        assert(quest_id_of("n/a"@) is None) by {
            reveal_strlit("n/a");
            reveal_strlit("_quest_id_");
            assert("n/a"@.len() == 3);
            assert(ID_PREFIX@.len() == 10);
        }
    }
}

proof fn lemma_scan_sound(entries: Seq<(Seq<char>, Seq<char>)>)
    ensures
        records_sound(scan(entries).0),
        match scan(entries).1 {
            Some((_, keys)) => keys_plain(keys),
            None => true,
        },
    decreases entries.len(),
{
    if entries.len() > 0 {
        lemma_scan_sound(entries.drop_last());
        let (done, open) = scan(entries.drop_last());
        match open {
            Some((prev, keys)) => {
                lemma_close_sound(done, prev, keys);
                let key = entries.last().0;
                if quest_id_of(key) is None {
                    assert(keys_plain(keys.push(key))) by {
                        assert forall|i: int| 0 <= i < keys.len() + 1 implies quest_id_of(
                            #[trigger] keys.push(key)[i],
                        ) is None by {
                            if i < keys.len() {
                                assert(keys.push(key)[i] == keys[i]);
                            }
                        }
                    }
                }
                assert(keys_plain(Seq::<Seq<char>>::empty()));
            },
            None => {
                assert(keys_plain(Seq::<Seq<char>>::empty()));
            },
        }
    }
}

/// Each quest of the table is filed under its own id, and its name is
/// never an id key: an id key always opens a record of its own.
pub proof fn law_records_are_filed_under_their_id(entries: Seq<(Seq<char>, Seq<char>)>)
    ensures
        records_sound(quest_table(entries)),
{
    lemma_scan_sound(entries);
    let (done, open) = scan(entries);
    match open {
        Some((id, keys)) => lemma_close_sound(done, id, keys),
        None => {},
    }
}

/// Closing a quest changes the table at its own id only, leaves it alone
/// when the quest gathered no entries, and reads no entry past the second:
/// closing with the first two entries gives the same table.
pub proof fn law_closing_reads_two_entries_and_one_id(
    done: Map<i64, QuestView>,
    id: i64,
    keys: Seq<Seq<char>>,
)
    ensures
        keys.len() == 0 ==> close_quest(done, id, keys) == done,
        keys.len() > 0 ==> exists|q: QuestView| close_quest(done, id, keys) == done.insert(id, q),
        close_quest(done, id, keys) == close_quest(
            done,
            id,
            keys.take(if keys.len() < 2 { keys.len() as int } else { 2 }),
        ),
{
    let short = keys.take(if keys.len() < 2 { keys.len() as int } else { 2 });
    if keys.len() < 2 {
        assert(short =~= keys);
    } else {
        assert(short[0] == keys[0]);
        assert(short[1] == keys[1]);
    }
    if keys.len() > 0 {
        let q = quest_record(id, keys).unwrap();
        assert(close_quest(done, id, keys) == done.insert(id, q));
    }
}

} // verus!
