//! Looking up game ids by the English names the kcwiki data uses, with the
//! spelling variants that data is known to contain.
use vstd::prelude::*;

use crate::text::{
    chars_eq, chars_of, contains, contains_str, copy_range, ends_with, ends_with_chars,
    replace_all, replace_chars,
};

verus! {

/// A name-to-id table, in the order its entries were inserted; a later
/// entry for the same name replaces an earlier one, as in a sorted map.
pub type NameMap = Vec<(String, i64)>;

pub open spec fn name_entries(m: Seq<(String, i64)>) -> Seq<(Seq<char>, i64)> {
    m.map_values(|e: (String, i64)| (e.0@, e.1))
}

/// The id the table holds for `key`: that of the last entry with that name.
pub open spec fn lookup(m: Seq<(Seq<char>, i64)>, key: Seq<char>) -> Option<i64>
    decreases m.len(),
{
    if m.len() == 0 {
        None
    } else if m.last().0 == key {
        Some(m.last().1)
    } else {
        lookup(m.drop_last(), key)
    }
}

/// No name occurs twice in the table, as in a map.
pub open spec fn names_unique(m: Seq<(Seq<char>, i64)>) -> bool {
    forall|i: int, j: int| 0 <= i < j < m.len() ==> (#[trigger] m[i]).0 != (#[trigger] m[j]).0
}

pub(crate) proof fn lemma_lookup_found(m: Seq<(Seq<char>, i64)>, key: Seq<char>)
    ensures
        lookup(m, key) is Some <==> exists|i: int| 0 <= i < m.len() && m[i].0 == key,
        lookup(m, key) is Some ==> exists|i: int| 0 <= i < m.len() && m[i] == (key, lookup(m, key).unwrap()),
    decreases m.len(),
{
    if m.len() > 0 {
        let init = m.drop_last();
        lemma_lookup_found(init, key);
        if exists|i: int| 0 <= i < init.len() && init[i].0 == key {
            let i = choose|i: int| 0 <= i < init.len() && init[i].0 == key;
            assert(m[i] == init[i]);
        }
        if lookup(init, key) is Some && m.last().0 != key {
            let i = choose|i: int| 0 <= i < init.len() && init[i] == (key, lookup(init, key).unwrap());
            assert(m[i] == init[i]);
        }
        if m.last().0 == key {
            assert(m[m.len() - 1] == m.last());
        }
        if exists|i: int| 0 <= i < m.len() && m[i].0 == key {
            let i = choose|i: int| 0 <= i < m.len() && m[i].0 == key;
            if i < m.len() - 1 {
                assert(init[i] == m[i]);
            }
        }
    }
}

/// A name table built from entries in order, a later entry for a name
/// replacing the id of an earlier one: each name once, and every lookup as
/// on the entries.
pub fn name_map_from(entries: &Vec<(String, i64)>) -> (m: NameMap)
    ensures
        names_unique(name_entries(m@)),
        forall|key: Seq<char>| lookup(name_entries(m@), key) == lookup(name_entries(entries@), key),
{
    let mut m: NameMap = Vec::new();
    let ghost ev = name_entries(entries@);
    let mut i: usize = 0;
    while i < entries.len()
        invariant
            i <= entries@.len(),
            ev == name_entries(entries@),
            names_unique(name_entries(m@)),
            forall|key: Seq<char>| lookup(name_entries(m@), key) == lookup(ev.take(i as int), key),
        decreases entries@.len() - i,
    {
        assert(ev.take(i as int + 1).drop_last() =~= ev.take(i as int));
        assert(ev.take(i as int + 1).last() == (entries@[i as int].0@, entries@[i as int].1));
        let name = &entries[i].0;
        let id = entries[i].1;
        let mut j: usize = 0;
        let ghost mv = name_entries(m@);
        while j < m.len() && !(m[j].0 == *name)
            invariant
                j <= m@.len(),
                mv == name_entries(m@),
                forall|k: int| 0 <= k < j ==> mv[k].0 != name@,
            decreases m@.len() - j,
        {
            j += 1;
        }
        let ghost old_m = name_entries(m@);
        if j < m.len() {
            m.set(j, (name.clone(), id));
            proof {
                let nm = name_entries(m@);
                assert(nm =~= old_m.update(j as int, (name@, id)));
                assert forall|a: int, b: int| 0 <= a < b < nm.len() implies (#[trigger] nm[a]).0 != (#[trigger] nm[b]).0 by {
                    assert(old_m[a].0 != old_m[b].0);
                }
                assert(old_m[j as int].0 == name@);
                assert forall|key: Seq<char>| lookup(nm, key) == lookup(ev.take(i as int + 1), key) by {
                    lemma_lookup_unique(old_m, key);
                    lemma_lookup_unique(nm, key);
                    lemma_lookup_found(old_m, key);
                    lemma_lookup_found(nm, key);
                    if key == name@ {
                        assert(nm[j as int] == (key, id));
                        assert(lookup(nm, key) == Some(id));
                    } else {
                        assert(lookup(ev.take(i as int + 1), key) == lookup(old_m, key));
                        if lookup(old_m, key) is Some {
                            let k = choose|k: int| 0 <= k < old_m.len() && old_m[k] == (key, lookup(old_m, key).unwrap());
                            assert(k != j);
                            assert(nm[k] == old_m[k]);
                            assert(lookup(nm, key) == Some(nm[k].1));
                        } else {
                            if exists|k: int| 0 <= k < nm.len() && nm[k].0 == key {
                                let k = choose|k: int| 0 <= k < nm.len() && nm[k].0 == key;
                                assert(k != j);
                                assert(old_m[k] == nm[k]);
                            }
                        }
                    }
                }
            }
        } else {
            m.push((name.clone(), id));
            proof {
                let nm = name_entries(m@);
                assert(nm =~= old_m.push((name@, id)));
                assert forall|a: int, b: int| 0 <= a < b < nm.len() implies (#[trigger] nm[a]).0 != (#[trigger] nm[b]).0 by {
                    if b < old_m.len() {
                        assert(old_m[a].0 != old_m[b].0);
                    } else {
                        assert(nm[a] == old_m[a]);
                    }
                }
                assert forall|key: Seq<char>| lookup(nm, key) == lookup(ev.take(i as int + 1), key) by {
                    assert(nm.drop_last() =~= old_m);
                    assert(nm.last() == (name@, id));
                    assert(ev.take(i as int + 1).last() == (name@, id));
                    assert(ev.take(i as int + 1).drop_last() =~= ev.take(i as int));
                    assert(lookup(old_m, key) == lookup(ev.take(i as int), key));
                }
            }
        }
        i += 1;
    }
    assert(ev.take(ev.len() as int) =~= ev);
    m
}

/// On a table without repeated names, a lookup finds the one entry with that name.
proof fn lemma_lookup_unique(m: Seq<(Seq<char>, i64)>, key: Seq<char>)
    requires
        names_unique(m),
    ensures
        forall|i: int| 0 <= i < m.len() && m[i].0 == key ==> lookup(m, key) == Some(m[i].1),
    decreases m.len(),
{
    if m.len() > 0 {
        let init = m.drop_last();
        assert forall|a: int, b: int| 0 <= a < b < init.len() implies (#[trigger] init[a]).0 != (#[trigger] init[b]).0 by {
            assert(m[a].0 != m[b].0);
        }
        lemma_lookup_unique(init, key);
        assert forall|i: int| 0 <= i < m.len() && m[i].0 == key implies lookup(m, key) == Some(m[i].1) by {
            if i < m.len() - 1 {
                assert(init[i] == m[i]);
                assert(m[i].0 != m[m.len() - 1].0);
            }
        }
    }
}

pub fn lookup_name(m: &NameMap, key: &[char]) -> (r: Option<i64>)
    ensures
        r == lookup(name_entries(m@), key@),
{
    let mut i = m.len();
    assert(name_entries(m@).take(i as int) =~= name_entries(m@));
    while i > 0
        invariant
            i <= m@.len(),
            lookup(name_entries(m@), key@) == lookup(name_entries(m@).take(i as int), key@),
        decreases i,
    {
        let ghost t = name_entries(m@).take(i as int);
        assert(t.drop_last() =~= name_entries(m@).take(i - 1));
        assert(t.last() == (m@[i - 1].0@, m@[i - 1].1));
        let name = chars_of(m[i - 1].0.as_str());
        if chars_eq(name.as_slice(), key) {
            return Some(m[i - 1].1);
        }
        i -= 1;
    }
    None
}

pub open spec fn star_suffix() -> Seq<char> {
    seq!['*']
}

pub open spec fn slash_suffix() -> Seq<char> {
    seq!['/']
}

/// The slot-item id for `name`: as written; without a trailing `*`; with
/// `Ni` read as `2`; with `_` read as a space — each step keeping the
/// spelling of the one before.
pub open spec fn slotitem_id_of(m: Seq<(Seq<char>, i64)>, name: Seq<char>) -> Option<i64> {
    if lookup(m, name) is Some {
        lookup(m, name)
    } else {
        let a = if ends_with(name, star_suffix()) {
            name.drop_last()
        } else {
            name
        };
        if ends_with(name, star_suffix()) && lookup(m, a) is Some {
            lookup(m, a)
        } else {
            let b = if contains(a, "Ni"@) {
                replace_all(a, "Ni"@, "2"@)
            } else {
                a
            };
            if contains(a, "Ni"@) && lookup(m, b) is Some {
                lookup(m, b)
            } else if contains(b, "_"@) {
                lookup(m, replace_all(b, "_"@, " "@))
            } else {
                None
            }
        }
    }
}

/// The ship id for `name`: as written; without a trailing `/`; with `/`
/// read as a space; with `Carrier` read as `Kou`.
pub open spec fn ship_id_of(m: Seq<(Seq<char>, i64)>, name: Seq<char>) -> Option<i64> {
    if lookup(m, name) is Some {
        lookup(m, name)
    } else {
        let a = if ends_with(name, slash_suffix()) {
            name.drop_last()
        } else {
            name
        };
        if ends_with(name, slash_suffix()) && lookup(m, a) is Some {
            lookup(m, a)
        } else {
            let b = if contains(a, "/"@) {
                replace_all(a, "/"@, " "@)
            } else {
                a
            };
            if contains(a, "/"@) && lookup(m, b) is Some {
                lookup(m, b)
            } else if contains(b, "Carrier"@) {
                lookup(m, replace_all(b, "Carrier"@, "Kou"@))
            } else {
                None
            }
        }
    }
}

/// The name tables the kcwiki parsers resolve against.
#[derive(Debug, Clone)]
pub struct ParseContext {
    pub slotitem_name_map: NameMap,
    pub useitem_name_map: NameMap,
    pub ship_name_map: NameMap,
}

fn lookup_after_replace(m: &NameMap, s: &[char], from: &str, to: &str) -> (r: (Vec<char>, Option<i64>))
    requires
        from@.len() > 0,
    ensures
        r.0@ == replace_all(s@, from@, to@),
        r.1 == lookup(name_entries(m@), replace_all(s@, from@, to@)),
{
    let f = chars_of(from);
    let t = chars_of(to);
    let replaced = replace_chars(s, f.as_slice(), t.as_slice());
    let id = lookup_name(m, replaced.as_slice());
    (replaced, id)
}

impl ParseContext {
    /// Each of the three tables names every name once.
    pub open spec fn wf(&self) -> bool {
        &&& names_unique(name_entries(self.slotitem_name_map@))
        &&& names_unique(name_entries(self.useitem_name_map@))
        &&& names_unique(name_entries(self.ship_name_map@))
    }

    /// The tables, each built by `name_map_from`.
    pub fn new(
        slotitems: &Vec<(String, i64)>,
        useitems: &Vec<(String, i64)>,
        ships: &Vec<(String, i64)>,
    ) -> (r: ParseContext)
        ensures
            r.wf(),
            forall|key: Seq<char>| lookup(name_entries(r.slotitem_name_map@), key) == lookup(name_entries(slotitems@), key),
            forall|key: Seq<char>| lookup(name_entries(r.useitem_name_map@), key) == lookup(name_entries(useitems@), key),
            forall|key: Seq<char>| lookup(name_entries(r.ship_name_map@), key) == lookup(name_entries(ships@), key),
    {
        ParseContext {
            slotitem_name_map: name_map_from(slotitems),
            useitem_name_map: name_map_from(useitems),
            ship_name_map: name_map_from(ships),
        }
    }

    pub fn find_slotitem_id(&self, name: &str) -> (r: Option<i64>)
        requires
            self.wf(),
        ensures
            r == slotitem_id_of(name_entries(self.slotitem_name_map@), name@),
    {
        let m = &self.slotitem_name_map;
        let name = chars_of(name);
        if let Some(id) = lookup_name(m, name.as_slice()) {
            return Some(id);
        }
        let star = ['*'];
        assert(star@ == star_suffix());
        let after = if ends_with_chars(name.as_slice(), star.as_slice()) {
            let stripped = copy_range(name.as_slice(), 0, name.len() - 1);
            assert(stripped@ =~= name@.drop_last());
            if let Some(id) = lookup_name(m, stripped.as_slice()) {
                return Some(id);
            }
            stripped
        } else {
            name
        };
        let after = if contains_str(after.as_slice(), "Ni") {
            proof {
                reveal_strlit("Ni");
            }
            let (replaced, id) = lookup_after_replace(m, after.as_slice(), "Ni", "2");
            if let Some(id) = id {
                return Some(id);
            }
            replaced
        } else {
            after
        };
        if contains_str(after.as_slice(), "_") {
            proof {
                reveal_strlit("_");
            }
            let (_, id) = lookup_after_replace(m, after.as_slice(), "_", " ");
            if let Some(id) = id {
                return Some(id);
            }
        }
        None
    }

    pub fn find_ship_id(&self, name: &str) -> (r: Option<i64>)
        requires
            self.wf(),
        ensures
            r == ship_id_of(name_entries(self.ship_name_map@), name@),
    {
        let m = &self.ship_name_map;
        let name = chars_of(name);
        if let Some(id) = lookup_name(m, name.as_slice()) {
            return Some(id);
        }
        let slash = ['/'];
        assert(slash@ == slash_suffix());
        let after = if ends_with_chars(name.as_slice(), slash.as_slice()) {
            let stripped = copy_range(name.as_slice(), 0, name.len() - 1);
            assert(stripped@ =~= name@.drop_last());
            if let Some(id) = lookup_name(m, stripped.as_slice()) {
                return Some(id);
            }
            stripped
        } else {
            name
        };
        let after = if contains_str(after.as_slice(), "/") {
            proof {
                reveal_strlit("/");
            }
            let (replaced, id) = lookup_after_replace(m, after.as_slice(), "/", " ");
            if let Some(id) = id {
                return Some(id);
            }
            replaced
        } else {
            after
        };
        if contains_str(after.as_slice(), "Carrier") {
            proof {
                reveal_strlit("Carrier");
            }
            let (_, id) = lookup_after_replace(m, after.as_slice(), "Carrier", "Kou");
            if let Some(id) = id {
                return Some(id);
            }
        }
        None
    }

    pub fn find_useitem_id(&self, name: &str) -> (r: Option<i64>)
        requires
            self.wf(),
        ensures
            r == lookup(name_entries(self.useitem_name_map@), name@),
    {
        let name = chars_of(name);
        lookup_name(&self.useitem_name_map, name.as_slice())
    }
}

} // verus!
