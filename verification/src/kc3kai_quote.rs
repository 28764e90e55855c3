//! The kc3kai quote table: which voice lines exist for abyssal ships, event
//! characters and non-player characters, by the numeric keys of its sections.
use vstd::prelude::*;

use crate::error::{ParseError, ParseErrorView};
use crate::text::{chars_of, chars_eq, parse_u64, parse_u64_chars};

verus! {

/// The voice lines the cache holds for the three quote sections.
#[derive(Debug, Clone, PartialEq, Eq)]
pub struct QuoteVoices {
    pub abyssal: Vec<u64>,
    pub event: Vec<u64>,
    pub npc: Vec<u64>,
}

pub struct QuoteVoicesView {
    pub abyssal: Seq<u64>,
    pub event: Seq<u64>,
    pub npc: Seq<u64>,
}

impl View for QuoteVoices {
    type V = QuoteVoicesView;

    open spec fn view(&self) -> QuoteVoicesView {
        QuoteVoicesView { abyssal: self.abyssal@, event: self.event@, npc: self.npc@ }
    }
}

/// The keys that are numbers, as numbers, in order.
pub open spec fn voice_ids(keys: Seq<Seq<char>>) -> Seq<u64>
    decreases keys.len(),
{
    if keys.len() == 0 {
        Seq::empty()
    } else {
        match parse_u64(keys.last()) {
            Some(n) => voice_ids(keys.drop_last()).push(n),
            None => voice_ids(keys.drop_last()),
        }
    }
}

pub open spec fn key_views(keys: Seq<String>) -> Seq<Seq<char>> {
    keys.map_values(|k: String| k@)
}

/// The keys of the first section with this name.
pub open spec fn section_keys(sections: Seq<(String, Vec<String>)>, name: Seq<char>) -> Option<Seq<Seq<char>>>
    decreases sections.len(),
{
    if sections.len() == 0 {
        None
    } else if sections[0].0@ == name {
        Some(key_views(sections[0].1@))
    } else {
        section_keys(sections.drop_first(), name)
    }
}

/// The numeric keys of a section's entries.
pub fn voice_entries(keys: &Vec<String>) -> (r: Vec<u64>)
    ensures
        r@ == voice_ids(key_views(keys@)),
{
    let ghost kv = key_views(keys@);
    let mut out: Vec<u64> = Vec::new();
    let mut i: usize = 0;
    while i < keys.len()
        invariant
            i <= keys@.len(),
            kv == key_views(keys@),
            out@ == voice_ids(kv.take(i as int)),
        decreases keys@.len() - i,
    {
        assert(kv.take(i as int + 1).drop_last() =~= kv.take(i as int));
        assert(kv.take(i as int + 1).last() == keys@[i as int]@);
        let k = chars_of(keys[i].as_str());
        match parse_u64_chars(k.as_slice()) {
            Some(n) => out.push(n),
            None => {},
        }
        i += 1;
    }
    assert(kv.take(keys@.len() as int) =~= kv);
    out
}

fn find_section<'a>(sections: &'a Vec<(String, Vec<String>)>, name: &str) -> (r: Option<&'a Vec<String>>)
    ensures
        match r {
            Some(keys) => section_keys(sections@, name@) == Some(key_views(keys@)),
            None => section_keys(sections@, name@) is None,
        },
{
    let n = chars_of(name);
    let mut i: usize = 0;
    assert(sections@.skip(0) =~= sections@);
    while i < sections.len()
        invariant
            i <= sections@.len(),
            n@ == name@,
            section_keys(sections@, name@) == section_keys(sections@.skip(i as int), name@),
        decreases sections@.len() - i,
    {
        assert(sections@.skip(i as int)[0] == sections@[i as int]);
        assert(sections@.skip(i as int).drop_first() =~= sections@.skip(i as int + 1));
        let s = chars_of(sections[i].0.as_str());
        if chars_eq(s.as_slice(), n.as_slice()) {
            return Some(&sections[i].1);
        }
        i += 1;
    }
    None
}

/// Fills the voice lines from the quote table's sections, in the order
/// abyssal, event, npc; a missing section stops the reading with
/// `KeyMissing` and its name, the sections before it already filled.
pub fn parse(sections: &Vec<(String, Vec<String>)>, voices: &mut QuoteVoices) -> (r: Result<(), ParseError>)
    ensures
        match section_keys(sections@, "abyssal"@) {
            None => r matches Err(e) && e@ == ParseErrorView::KeyMissing("abyssal"@) && final(voices)@ == old(
                voices,
            )@,
            Some(a) => final(voices).abyssal@ == voice_ids(a) && match section_keys(sections@, "event"@) {
                None => r matches Err(e) && e@ == ParseErrorView::KeyMissing("event"@) && final(voices).event@ == old(
                    voices,
                ).event@ && final(voices).npc@ == old(voices).npc@,
                Some(ev) => final(voices).event@ == voice_ids(ev) && match section_keys(sections@, "npc"@) {
                    None => r matches Err(e) && e@ == ParseErrorView::KeyMissing("npc"@) && final(voices).npc@
                        == old(voices).npc@,
                    Some(np) => r is Ok && final(voices).npc@ == voice_ids(np),
                },
            },
        },
{
    match find_section(sections, "abyssal") {
        Some(keys) => voices.abyssal = voice_entries(keys),
        None => return Err(ParseError::KeyMissing("abyssal".to_owned())),
    }
    match find_section(sections, "event") {
        Some(keys) => voices.event = voice_entries(keys),
        None => return Err(ParseError::KeyMissing("event".to_owned())),
    }
    match find_section(sections, "npc") {
        Some(keys) => voices.npc = voice_entries(keys),
        None => return Err(ParseError::KeyMissing("npc".to_owned())),
    }
    Ok(())
}

} // verus!
