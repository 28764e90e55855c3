//! Expedition conditions from the KCanotify data: flagship type, fleet
//! composition expressions, drum canisters and item rewards.
use vstd::prelude::*;

use crate::data_types::{KCanotifyExpedition, KCanotifyExpeditionName};
use crate::error::{int_error_message, int_error_text, ParseError, ParseErrorView};
use crate::text::{
    chars_of, contains, copy_range, find, first_at, has_at, in_set, lemma_first_at_unique,
    parse_i64, parse_i64_chars, split_by, split_set, string_of, trim, trim_ws, views,
    chars_eq, dec_i64, extend_chars, join_with, push_dec_i64,
};

verus! {

/// At least `count` ships, each of one of `ship_types`.
#[derive(Debug, Clone, PartialEq)]
pub struct Kc3rdShipTypeRequirement {
    pub ship_types: Vec<i64>,
    pub count: i64,
}

impl View for Kc3rdShipTypeRequirement {
    type V = (Seq<i64>, i64);

    open spec fn view(&self) -> (Seq<i64>, i64) {
        (self.ship_types@, self.count)
    }
}

/// Requirements that must all hold.
#[derive(Debug, Clone, PartialEq)]
pub struct Kc3rdCompositionAlternative {
    pub conditions: Vec<Kc3rdShipTypeRequirement>,
}

pub open spec fn requirement_views(v: Seq<Kc3rdShipTypeRequirement>) -> Seq<(Seq<i64>, i64)> {
    v.map_values(|r: Kc3rdShipTypeRequirement| r@)
}

impl View for Kc3rdCompositionAlternative {
    type V = Seq<(Seq<i64>, i64)>;

    open spec fn view(&self) -> Seq<(Seq<i64>, i64)> {
        requirement_views(self.conditions@)
    }
}

pub open spec fn alternative_views(v: Seq<Kc3rdCompositionAlternative>) -> Seq<
    Seq<(Seq<i64>, i64)>,
> {
    v.map_values(|a: Kc3rdCompositionAlternative| a@)
}

/// The flagship ship type: the condition text read as an integer.
pub open spec fn flagship_type_of(cond: Option<Seq<char>>) -> Option<i64> {
    match cond {
        Some(s) => parse_i64(s),
        None => None,
    }
}

pub fn parse_flagship_type(cond: &Option<String>) -> (r: Option<i64>)
    ensures
        r == flagship_type_of(cond.deep_view()),
{
    match cond {
        Some(s) => {
            let c = chars_of(s.as_str());
            parse_i64_chars(c.as_slice())
        },
        None => None,
    }
}

/// The integers of `parts`, or the first part that is not one.
pub open spec fn parse_ints(parts: Seq<Seq<char>>) -> Result<Seq<i64>, Seq<char>>
    decreases parts.len(),
{
    if parts.len() == 0 {
        Ok(Seq::<i64>::empty())
    } else {
        match parse_ints(parts.drop_last()) {
            Err(e) => Err(e),
            Ok(v) => match parse_i64(parts.last()) {
                Some(n) => Ok(v.push(n)),
                None => Err(parts.last()),
            },
        }
    }
}

/// `types-count`, split at the first `-`; the types are `,`-separated.
pub open spec fn requirement_of(s: Seq<char>) -> Result<(Seq<i64>, i64), ParseErrorView> {
    if !contains(s, seq!['-']) {
        Err(ParseErrorView::Generic("Invalid ship type requirement format: "@ + s))
    } else {
        let k = choose|i: int| first_at(s, seq!['-'], i);
        let count = s.subrange(k + 1, s.len() as int);
        match parse_ints(split_by(s.take(k), in_set(seq![',']))) {
            Err(t) => Err(ParseErrorView::IntParse(int_error_text(t))),
            Ok(types) => match parse_i64(count) {
                None => Err(ParseErrorView::IntParse(int_error_text(count))),
                Some(c) => Ok((types, c)),
            },
        }
    }
}

/// The `|`-separated requirements of one alternative, each trimmed.
pub open spec fn requirements_of(parts: Seq<Seq<char>>) -> Result<Seq<(Seq<i64>, i64)>, ParseErrorView>
    decreases parts.len(),
{
    if parts.len() == 0 {
        Ok(Seq::<(Seq<i64>, i64)>::empty())
    } else {
        match requirements_of(parts.drop_last()) {
            Err(e) => Err(e),
            Ok(v) => match requirement_of(trim(parts.last())) {
                Err(e) => Err(e),
                Ok(r) => Ok(v.push(r)),
            },
        }
    }
}

pub open spec fn alternatives_of(alts: Seq<Seq<char>>) -> Result<
    Seq<Seq<(Seq<i64>, i64)>>,
    ParseErrorView,
>
    decreases alts.len(),
{
    if alts.len() == 0 {
        Ok(Seq::<Seq<(Seq<i64>, i64)>>::empty())
    } else {
        match alternatives_of(alts.drop_last()) {
            Err(e) => Err(e),
            Ok(v) => match requirements_of(split_by(alts.last(), in_set(seq!['|']))) {
                Err(e) => Err(e),
                Ok(a) => Ok(v.push(a)),
            },
        }
    }
}

/// A composition expression: `/` separates alternatives, `|` the
/// requirements of one alternative; no expression means no requirement.
pub open spec fn composition_of(cond: Option<Seq<char>>) -> Result<
    Seq<Seq<(Seq<i64>, i64)>>,
    ParseErrorView,
> {
    match cond {
        None => Ok(Seq::<Seq<(Seq<i64>, i64)>>::empty()),
        Some(c) => if c.len() == 0 {
            Ok(Seq::<Seq<(Seq<i64>, i64)>>::empty())
        } else {
            alternatives_of(split_by(c, in_set(seq!['/'])))
        },
    }
}

fn parse_ints_exec(parts: &Vec<Vec<char>>) -> (r: Result<Vec<i64>, usize>)
    ensures
        match r {
            Ok(v) => parse_ints(views(parts@)) == Ok::<Seq<i64>, Seq<char>>(v@),
            Err(i) => i < parts@.len() && parse_ints(views(parts@)) == Err::<Seq<i64>, Seq<char>>(
                parts@[i as int]@,
            ),
        },
{
    let ghost pv = views(parts@);
    let mut out: Vec<i64> = Vec::new();
    let mut i: usize = 0;
    while i < parts.len()
        invariant
            i <= parts@.len(),
            pv == views(parts@),
            parse_ints(pv.take(i as int)) == Ok::<Seq<i64>, Seq<char>>(out@),
        decreases parts@.len() - i,
    {
        assert(pv.take(i as int + 1).drop_last() =~= pv.take(i as int));
        assert(pv.take(i as int + 1).last() == parts@[i as int]@);
        match parse_i64_chars(parts[i].as_slice()) {
            Some(n) => out.push(n),
            None => {
                proof {
                    lemma_parse_ints_prefix_err(pv, i as int + 1);
                }
                return Err(i);
            },
        }
        i += 1;
    }
    assert(pv.take(parts@.len() as int) =~= pv);
    Ok(out)
}

/// Once a prefix of the parts fails, the whole list fails with the same part.
proof fn lemma_parse_ints_prefix_err(parts: Seq<Seq<char>>, k: int)
    requires
        0 <= k <= parts.len(),
        parse_ints(parts.take(k)) is Err,
    ensures
        parse_ints(parts) == parse_ints(parts.take(k)),
    decreases parts.len() - k,
{
    if k < parts.len() {
        assert(parts.take(k + 1).drop_last() =~= parts.take(k));
        lemma_parse_ints_prefix_err(parts, k + 1);
    } else {
        assert(parts.take(k) =~= parts);
    }
}

proof fn lemma_requirements_prefix_err(parts: Seq<Seq<char>>, k: int)
    requires
        0 <= k <= parts.len(),
        requirements_of(parts.take(k)) is Err,
    ensures
        requirements_of(parts) == requirements_of(parts.take(k)),
    decreases parts.len() - k,
{
    if k < parts.len() {
        assert(parts.take(k + 1).drop_last() =~= parts.take(k));
        lemma_requirements_prefix_err(parts, k + 1);
    } else {
        assert(parts.take(k) =~= parts);
    }
}

proof fn lemma_alternatives_prefix_err(alts: Seq<Seq<char>>, k: int)
    requires
        0 <= k <= alts.len(),
        alternatives_of(alts.take(k)) is Err,
    ensures
        alternatives_of(alts) == alternatives_of(alts.take(k)),
    decreases alts.len() - k,
{
    if k < alts.len() {
        assert(alts.take(k + 1).drop_last() =~= alts.take(k));
        lemma_alternatives_prefix_err(alts, k + 1);
    } else {
        assert(alts.take(k) =~= alts);
    }
}

fn requirement_from_chars(s: &[char]) -> (r: Result<Kc3rdShipTypeRequirement, ParseError>)
    ensures
        match r {
            Ok(req) => requirement_of(s@) == Ok::<(Seq<i64>, i64), ParseErrorView>(req@),
            Err(e) => requirement_of(s@) == Err::<(Seq<i64>, i64), ParseErrorView>(e@),
        },
{
    let dash = ['-'];
    assert(dash@ == seq!['-']);
    match find(s, dash.as_slice()) {
        None => {
            let mut msg = chars_of("Invalid ship type requirement format: ");
            crate::text::extend_chars(&mut msg, s);
            Err(ParseError::Generic(string_of(msg.as_slice())))
        },
        Some(k) => {
            proof {
                assert(first_at(s@, seq!['-'], k as int));
                let c = choose|i: int| first_at(s@, seq!['-'], i);
                lemma_first_at_unique(s@, seq!['-'], c, k as int);
            }
            let n = s.len();
            assert(has_at(s@, dash@, k as int));
            assert(k + 1 <= n);
            let types_part = copy_range(s, 0, k);
            let count_part = copy_range(s, k + 1, n);
            assert(types_part@ =~= s@.take(k as int));
            let comma = [','];
            assert(comma@ == seq![',']);
            let pieces = split_set(types_part.as_slice(), comma.as_slice());
            match parse_ints_exec(&pieces) {
                Err(i) => {
                    let bad = string_of(pieces[i].as_slice());
                    Err(ParseError::IntParse(int_error_message(bad.as_str())))
                },
                Ok(types) => match parse_i64_chars(count_part.as_slice()) {
                    None => {
                        let bad = string_of(count_part.as_slice());
                        Err(ParseError::IntParse(int_error_message(bad.as_str())))
                    },
                    Some(count) => Ok(Kc3rdShipTypeRequirement { ship_types: types, count }),
                },
            }
        },
    }
}

/// A single requirement: `types-count`, e.g. `1,2-3` is three ships of type 1 or 2.
pub fn parse_ship_type_requirement(s: &str) -> (r: Result<Kc3rdShipTypeRequirement, ParseError>)
    ensures
        match r {
            Ok(req) => requirement_of(s@) == Ok::<(Seq<i64>, i64), ParseErrorView>(req@),
            Err(e) => requirement_of(s@) == Err::<(Seq<i64>, i64), ParseErrorView>(e@),
        },
{
    let c = chars_of(s);
    requirement_from_chars(c.as_slice())
}

fn alternative_from_chars(alt: &[char]) -> (r: Result<Kc3rdCompositionAlternative, ParseError>)
    ensures
        match r {
            Ok(a) => requirements_of(split_by(alt@, in_set(seq!['|']))) == Ok::<
                Seq<(Seq<i64>, i64)>,
                ParseErrorView,
            >(a@),
            Err(e) => requirements_of(split_by(alt@, in_set(seq!['|']))) == Err::<
                Seq<(Seq<i64>, i64)>,
                ParseErrorView,
            >(e@),
        },
{
    let bar = ['|'];
    assert(bar@ == seq!['|']);
    let parts = split_set(alt, bar.as_slice());
    let ghost pv = views(parts@);
    let mut conditions: Vec<Kc3rdShipTypeRequirement> = Vec::new();
    let mut i: usize = 0;
    assert(pv.take(0) =~= Seq::<Seq<char>>::empty());
    assert(requirement_views(conditions@) =~= Seq::<(Seq<i64>, i64)>::empty());
    while i < parts.len()
        invariant
            i <= parts@.len(),
            pv == views(parts@),
            pv == split_by(alt@, in_set(seq!['|'])),
            requirements_of(pv.take(i as int)) == Ok::<Seq<(Seq<i64>, i64)>, ParseErrorView>(
                requirement_views(conditions@),
            ),
        decreases parts@.len() - i,
    {
        assert(pv.take(i as int + 1).drop_last() =~= pv.take(i as int));
        assert(pv.take(i as int + 1).last() == parts@[i as int]@);
        let piece = trim_ws(parts[i].as_slice());
        match requirement_from_chars(piece.as_slice()) {
            Ok(req) => {
                let ghost before = conditions@;
                conditions.push(req);
                assert(requirement_views(conditions@) =~= requirement_views(before).push(req@));
            },
            Err(e) => {
                proof {
                    lemma_requirements_prefix_err(pv, i as int + 1);
                }
                return Err(e);
            },
        }
        i += 1;
    }
    assert(pv.take(parts@.len() as int) =~= pv);
    Ok(Kc3rdCompositionAlternative { conditions })
}

/// Parses a composition expression such as `3-1|2-2/1,2-3`.
pub fn parse_composition(cond: &Option<String>) -> (r: Result<
    Vec<Kc3rdCompositionAlternative>,
    ParseError,
>)
    ensures
        match r {
            Ok(v) => composition_of(cond.deep_view()) == Ok::<
                Seq<Seq<(Seq<i64>, i64)>>,
                ParseErrorView,
            >(alternative_views(v@)),
            Err(e) => composition_of(cond.deep_view()) == Err::<
                Seq<Seq<(Seq<i64>, i64)>>,
                ParseErrorView,
            >(e@),
        },
{
    let cond_str = match cond {
        None => {
            assert(alternative_views(Seq::<Kc3rdCompositionAlternative>::empty()) =~= Seq::<
                Seq<(Seq<i64>, i64)>,
            >::empty());
            return Ok(Vec::new());
        },
        Some(s) => s,
    };
    let c = chars_of(cond_str.as_str());
    if c.len() == 0 {
        assert(alternative_views(Seq::<Kc3rdCompositionAlternative>::empty()) =~= Seq::<
            Seq<(Seq<i64>, i64)>,
        >::empty());
        return Ok(Vec::new());
    }
    let slash = ['/'];
    assert(slash@ == seq!['/']);
    let alts = split_set(c.as_slice(), slash.as_slice());
    let ghost av = views(alts@);
    let mut out: Vec<Kc3rdCompositionAlternative> = Vec::new();
    let mut i: usize = 0;
    assert(av.take(0) =~= Seq::<Seq<char>>::empty());
    assert(alternative_views(out@) =~= Seq::<Seq<(Seq<i64>, i64)>>::empty());
    assert(composition_of(cond.deep_view()) == alternatives_of(av));
    while i < alts.len()
        invariant
            i <= alts@.len(),
            av == views(alts@),
            av == split_by(c@, in_set(seq!['/'])),
            composition_of(cond.deep_view()) == alternatives_of(av),
            alternatives_of(av.take(i as int)) == Ok::<Seq<Seq<(Seq<i64>, i64)>>, ParseErrorView>(
                alternative_views(out@),
            ),
        decreases alts@.len() - i,
    {
        assert(av.take(i as int + 1).drop_last() =~= av.take(i as int));
        assert(av.take(i as int + 1).last() == alts@[i as int]@);
        match alternative_from_chars(alts[i].as_slice()) {
            Ok(a) => {
                let ghost before = out@;
                out.push(a);
                assert(alternative_views(out@) =~= alternative_views(before).push(a@));
            },
            Err(e) => {
                proof {
                    lemma_alternatives_prefix_err(av, i as int + 1);
                }
                return Err(e);
            },
        }
        i += 1;
    }
    assert(av.take(alts@.len() as int) =~= av);
    Ok(out)
}

// ---------------------------------------------------------------------------
// Whole expedition records
// ---------------------------------------------------------------------------

#[derive(Debug, Clone, PartialEq)]
pub struct Kc3rdExpeditionName {
    pub ja: String,
    pub ko: String,
    pub en: String,
    pub zh_cn: String,
    pub zh_tw: String,
}

#[derive(Debug, Clone, PartialEq)]
pub struct Kc3rdExpeditionItemReward {
    pub item_id: i64,
    pub count: i64,
}

#[derive(Debug, Clone, PartialEq)]
pub struct Kc3rdDrumRequirements {
    pub ship_count: i64,
    pub total_count: i64,
    pub optional: bool,
}

#[derive(Debug, Clone, PartialEq)]
pub struct Kc3rdExpeditionRequirements {
    pub ship_count: i64,
    pub flagship_level: Option<i64>,
    pub fleet_level: Option<i64>,
    pub flagship_type: Option<i64>,
    pub composition: Vec<Kc3rdCompositionAlternative>,
    pub total_firepower: Option<i64>,
    pub total_asw: Option<i64>,
    pub total_los: Option<i64>,
    pub drum_requirements: Option<Kc3rdDrumRequirements>,
}

#[derive(Debug, Clone, PartialEq)]
pub struct Kc3rdExpeditionCondition {
    pub api_id: i64,
    pub code: String,
    pub area: i64,
    pub name: Kc3rdExpeditionName,
    pub time_minutes: i64,
    pub resource_reward: [i64; 4],
    pub item_rewards: Vec<Kc3rdExpeditionItemReward>,
    pub admiral_exp: i64,
    pub fleet_exp: i64,
    pub requirements: Kc3rdExpeditionRequirements,
}

pub fn convert_name(src: &KCanotifyExpeditionName) -> (r: Kc3rdExpeditionName)
    ensures
        r.ja@ == src.jp@,
        r.ko@ == src.ko@,
        r.en@ == src.en@,
        r.zh_cn@ == src.scn@,
        r.zh_tw@ == src.tcn@,
{
    Kc3rdExpeditionName {
        ja: src.jp.clone(),
        ko: src.ko.clone(),
        en: src.en.clone(),
        zh_cn: src.scn.clone(),
        zh_tw: src.tcn.clone(),
    }
}

/// The `[item, count]` pairs whose item is not 0, in order.
pub open spec fn rewards_of(rewards: Seq<[i64; 2]>) -> Seq<(i64, i64)>
    decreases rewards.len(),
{
    if rewards.len() == 0 {
        Seq::<(i64, i64)>::empty()
    } else if rewards.last()@[0] != 0 {
        rewards_of(rewards.drop_last()).push((rewards.last()@[0], rewards.last()@[1]))
    } else {
        rewards_of(rewards.drop_last())
    }
}

pub open spec fn reward_views(v: Seq<Kc3rdExpeditionItemReward>) -> Seq<(i64, i64)> {
    v.map_values(|r: Kc3rdExpeditionItemReward| (r.item_id, r.count))
}

pub fn convert_rewards(rewards: &[[i64; 2]]) -> (r: Vec<Kc3rdExpeditionItemReward>)
    ensures
        reward_views(r@) == rewards_of(rewards@),
{
    let mut out: Vec<Kc3rdExpeditionItemReward> = Vec::new();
    let mut i: usize = 0;
    while i < rewards.len()
        invariant
            i <= rewards@.len(),
            reward_views(out@) == rewards_of(rewards@.take(i as int)),
        decreases rewards@.len() - i,
    {
        assert(rewards@.take(i as int + 1).drop_last() =~= rewards@.take(i as int));
        let pair = rewards[i];
        if pair[0] != 0 {
            let ghost before = out@;
            out.push(Kc3rdExpeditionItemReward { item_id: pair[0], count: pair[1] });
            assert(reward_views(out@) =~= reward_views(before).push((pair@[0], pair@[1])));
        }
        i += 1;
    }
    assert(rewards@.take(rewards@.len() as int) =~= rewards@);
    out
}

/// Drums: a ship count with a total makes them required; an optional count
/// alone makes them optional on one ship; anything else means no drums.
pub open spec fn drum_requirements_of(
    ship_count: Option<i64>,
    total_count: Option<i64>,
    optional_count: Option<i64>,
) -> Option<(i64, i64, bool)> {
    match (ship_count, total_count, optional_count) {
        (Some(ships), Some(total), _) => Some((ships, total, false)),
        (None, None, Some(opt)) => Some((1, opt, true)),
        _ => None,
    }
}

pub fn parse_drum_requirements(
    ship_count: Option<i64>,
    total_count: Option<i64>,
    optional_count: Option<i64>,
) -> (r: Option<Kc3rdDrumRequirements>)
    ensures
        match r {
            Some(d) => drum_requirements_of(ship_count, total_count, optional_count) == Some(
                (d.ship_count, d.total_count, d.optional),
            ),
            None => drum_requirements_of(ship_count, total_count, optional_count) is None,
        },
{
    let (ships, total, optional) = match (ship_count, total_count, optional_count) {
        (Some(ships), Some(total), _) => (ships, total, false),
        (None, None, Some(opt)) => (1, opt, true),
        _ => return None,
    };
    Some(Kc3rdDrumRequirements { ship_count: ships, total_count: total, optional })
}

/// Every field of `c` is what conversion derives from `src`, given that
/// `src`'s number and composition parse.
pub open spec fn converted_from(src: KCanotifyExpedition, c: Kc3rdExpeditionCondition) -> bool {
    &&& parse_i64(src.id@) == Some(c.api_id)
    &&& c.code@ == src.code@
    &&& c.area == src.area
    &&& c.name.ja@ == src.name.jp@ && c.name.ko@ == src.name.ko@ && c.name.en@ == src.name.en@
        && c.name.zh_cn@ == src.name.scn@ && c.name.zh_tw@ == src.name.tcn@
    &&& c.time_minutes == src.time
    &&& c.resource_reward == src.resource
    &&& reward_views(c.item_rewards@) == rewards_of(src.reward@)
    &&& c.admiral_exp == src.exp@[0]
    &&& c.fleet_exp == src.exp@[1]
    &&& c.requirements.ship_count == src.total_num
    &&& c.requirements.flagship_level == src.flagship_level
    &&& c.requirements.fleet_level == src.total_level
    &&& c.requirements.flagship_type == flagship_type_of(src.flagship_type.deep_view())
    &&& composition_of(src.total_condition.deep_view()) == Ok::<
        Seq<Seq<(Seq<i64>, i64)>>,
        ParseErrorView,
    >(alternative_views(c.requirements.composition@))
    &&& c.requirements.total_firepower == (match src.total_firepower {
        Some(v) => Some(v),
        None => src.total_fp,
    })
    &&& c.requirements.total_asw == src.total_asw
    &&& c.requirements.total_los == src.total_los
    &&& match c.requirements.drum_requirements {
        Some(d) => drum_requirements_of(src.drum_ship, src.drum_num, src.drum_num_optional) == Some(
            (d.ship_count, d.total_count, d.optional),
        ),
        None => drum_requirements_of(src.drum_ship, src.drum_num, src.drum_num_optional) is None,
    }
}

/// Why a record does not convert: its number does not parse, or else its
/// composition does not.
pub open spec fn conversion_error(src: KCanotifyExpedition) -> Option<ParseErrorView> {
    if parse_i64(src.id@) is None {
        Some(ParseErrorView::IntParse(int_error_text(src.id@)))
    } else {
        match composition_of(src.total_condition.deep_view()) {
            Err(e) => Some(e),
            Ok(_) => None,
        }
    }
}

pub fn convert_to_internal_model(src: &KCanotifyExpedition) -> (r: Result<
    Kc3rdExpeditionCondition,
    ParseError,
>)
    ensures
        match r {
            Ok(c) => conversion_error(*src) is None && converted_from(*src, c),
            Err(e) => conversion_error(*src) == Some(e@),
        },
{
    let id = chars_of(src.id.as_str());
    let api_id = match parse_i64_chars(id.as_slice()) {
        Some(v) => v,
        None => return Err(ParseError::IntParse(int_error_message(src.id.as_str()))),
    };
    let composition = match parse_composition(&src.total_condition) {
        Ok(c) => c,
        Err(e) => return Err(e),
    };
    let total_firepower = match src.total_firepower {
        Some(v) => Some(v),
        None => src.total_fp,
    };
    Ok(Kc3rdExpeditionCondition {
        api_id,
        code: src.code.clone(),
        area: src.area,
        name: convert_name(&src.name),
        time_minutes: src.time,
        resource_reward: src.resource,
        item_rewards: convert_rewards(src.reward.as_slice()),
        admiral_exp: src.exp[0],
        fleet_exp: src.exp[1],
        requirements: Kc3rdExpeditionRequirements {
            ship_count: src.total_num,
            flagship_level: src.flagship_level,
            fleet_level: src.total_level,
            flagship_type: parse_flagship_type(&src.flagship_type),
            composition,
            total_firepower,
            total_asw: src.total_asw,
            total_los: src.total_los,
            drum_requirements: parse_drum_requirements(
                src.drum_ship,
                src.drum_num,
                src.drum_num_optional,
            ),
        },
    })
}

// ---------------------------------------------------------------------------
// The whole data set
// ---------------------------------------------------------------------------

/// The first record, in order, that does not convert, and why.
pub open spec fn first_conversion_error(data: Seq<KCanotifyExpedition>) -> Option<ParseErrorView>
    decreases data.len(),
{
    if data.len() == 0 {
        None
    } else {
        match first_conversion_error(data.drop_last()) {
            Some(e) => Some(e),
            None => conversion_error(data.last()),
        }
    }
}

/// Each record's id and code.
pub open spec fn id_codes(data: Seq<KCanotifyExpedition>) -> Seq<(i64, Seq<char>)> {
    data.map_values(|e: KCanotifyExpedition| (parse_i64(e.id@).unwrap(), e.code@))
}

/// The code of the last entry of `items` with id `id`.
pub open spec fn last_code_in(items: Seq<(i64, Seq<char>)>, id: i64) -> Option<Seq<char>>
    decreases items.len(),
{
    if items.len() == 0 {
        None
    } else if items.last().0 == id {
        Some(items.last().1)
    } else {
        last_code_in(items.drop_last(), id)
    }
}

/// Each record whose id an earlier record already had: the id, the code
/// last seen for it, and the record's own code.
pub open spec fn duplicates_of(items: Seq<(i64, Seq<char>)>) -> Seq<(i64, Seq<char>, Seq<char>)>
    decreases items.len(),
{
    if items.len() == 0 {
        Seq::<(i64, Seq<char>, Seq<char>)>::empty()
    } else {
        duplicates_of(items.drop_last()) + match last_code_in(items.drop_last(), items.last().0) {
            Some(old) => seq![(items.last().0, old, items.last().1)],
            None => Seq::<(i64, Seq<char>, Seq<char>)>::empty(),
        }
    }
}

pub open spec fn duplicate_line(d: (i64, Seq<char>, Seq<char>)) -> Seq<char> {
    "  id="@ + dec_i64(d.0) + ": '"@ + d.1 + "' and '"@ + d.2 + "'"@
}

pub open spec fn duplicates_message(dups: Seq<(i64, Seq<char>, Seq<char>)>) -> Seq<char> {
    "Found duplicate expedition IDs:\n"@ + join_with(
        dups.map_values(|d: (i64, Seq<char>, Seq<char>)| duplicate_line(d)),
        "\n"@,
    )
}

/// Why the data set is refused: the first record that does not convert, or
/// else every id that occurs more than once.
pub open spec fn expeditions_error(data: Seq<KCanotifyExpedition>) -> Option<ParseErrorView> {
    match first_conversion_error(data) {
        Some(e) => Some(e),
        None => if duplicates_of(id_codes(data)).len() > 0 {
            Some(ParseErrorView::Generic(duplicates_message(duplicates_of(id_codes(data)))))
        } else {
            None
        },
    }
}

fn last_code_exec(seen: &Vec<(i64, Vec<char>)>, id: i64) -> (r: Option<Vec<char>>)
    ensures
        match r {
            Some(c) => last_code_in(seen@.map_values(|e: (i64, Vec<char>)| (e.0, e.1@)), id)
                == Some(c@),
            None => last_code_in(seen@.map_values(|e: (i64, Vec<char>)| (e.0, e.1@)), id) is None,
        },
{
    let ghost sv = seen@.map_values(|e: (i64, Vec<char>)| (e.0, e.1@));
    let mut i = seen.len();
    assert(sv.take(i as int) =~= sv);
    while i > 0
        invariant
            i <= seen@.len(),
            sv == seen@.map_values(|e: (i64, Vec<char>)| (e.0, e.1@)),
            last_code_in(sv, id) == last_code_in(sv.take(i as int), id),
        decreases i,
    {
        assert(sv.take(i as int).drop_last() =~= sv.take(i - 1));
        if seen[i - 1].0 == id {
            return Some(seen[i - 1].1.clone());
        }
        i -= 1;
    }
    None
}

fn duplicates_text(dups: &Vec<(i64, Vec<char>, Vec<char>)>) -> (r: String)
    ensures
        r@ == duplicates_message(
            dups@.map_values(|d: (i64, Vec<char>, Vec<char>)| (d.0, d.1@, d.2@)),
        ),
{
    let ghost dv = dups@.map_values(|d: (i64, Vec<char>, Vec<char>)| (d.0, d.1@, d.2@));
    let ghost lines = dv.map_values(|d: (i64, Seq<char>, Seq<char>)| duplicate_line(d));
    let mut body: Vec<char> = Vec::new();
    let mut i: usize = 0;
    while i < dups.len()
        invariant
            i <= dups@.len(),
            dv == dups@.map_values(|d: (i64, Vec<char>, Vec<char>)| (d.0, d.1@, d.2@)),
            lines == dv.map_values(|d: (i64, Seq<char>, Seq<char>)| duplicate_line(d)),
            body@ == join_with(lines.take(i as int), "\n"@),
        decreases dups@.len() - i,
    {
        assert(lines.take(i as int + 1).drop_last() =~= lines.take(i as int));
        if i > 0 {
            extend_chars(&mut body, chars_of("\n").as_slice());
        }
        let ghost at = body@;
        let d = &dups[i];
        extend_chars(&mut body, chars_of("  id=").as_slice());
        push_dec_i64(&mut body, d.0);
        extend_chars(&mut body, chars_of(": '").as_slice());
        extend_chars(&mut body, d.1.as_slice());
        extend_chars(&mut body, chars_of("' and '").as_slice());
        extend_chars(&mut body, d.2.as_slice());
        extend_chars(&mut body, chars_of("'").as_slice());
        assert(body@ =~= at + duplicate_line(dv[i as int]));
        proof {
            if i == 0 {
                assert(body@ =~= lines.take(1)[0]);
            }
        }
        i += 1;
    }
    assert(lines.take(dups@.len() as int) =~= lines);
    let mut m = chars_of("Found duplicate expedition IDs:\n");
    extend_chars(&mut m, body.as_slice());
    string_of(m.as_slice())
}

/// Converts every record; refuses the set when a record does not convert
/// or an id occurs twice. The records keep their order.
pub fn collect_expeditions(data: &[KCanotifyExpedition]) -> (r: Result<
    Vec<Kc3rdExpeditionCondition>,
    ParseError,
>)
    ensures
        match r {
            Ok(v) => expeditions_error(data@) is None && v@.len() == data@.len() && forall|i: int|
                0 <= i < data@.len() ==> converted_from(data@[i], #[trigger] v@[i]),
            Err(e) => expeditions_error(data@) == Some(e@),
        },
{
    let mut out: Vec<Kc3rdExpeditionCondition> = Vec::new();
    let mut seen: Vec<(i64, Vec<char>)> = Vec::new();
    let mut dups: Vec<(i64, Vec<char>, Vec<char>)> = Vec::new();
    let mut i: usize = 0;
    while i < data.len()
        invariant
            i <= data@.len(),
            first_conversion_error(data@.take(i as int)) is None,
            seen@.map_values(|e: (i64, Vec<char>)| (e.0, e.1@)) == id_codes(data@.take(i as int)),
            dups@.map_values(|d: (i64, Vec<char>, Vec<char>)| (d.0, d.1@, d.2@)) == duplicates_of(
                id_codes(data@.take(i as int)),
            ),
            out@.len() == i,
            forall|k: int| 0 <= k < i ==> converted_from(data@[k], #[trigger] out@[k]),
        decreases data@.len() - i,
    {
        let ghost pre = data@.take(i as int);
        let ghost next = data@.take(i as int + 1);
        assert(next.drop_last() =~= pre);
        assert(next.last() == data@[i as int]);
        match convert_to_internal_model(&data[i]) {
            Err(e) => {
                proof {
                    lemma_first_error_prefix(data@, i as int + 1);
                }
                return Err(e);
            },
            Ok(c) => {
                let code = chars_of(data[i].code.as_str());
                let ghost items = id_codes(next);
                assert(items.drop_last() =~= id_codes(pre));
                assert(items.last() == (c.api_id, code@));
                let ghost dv0 = dups@;
                match last_code_exec(&seen, c.api_id) {
                    Some(old) => {
                        dups.push((c.api_id, old, code.clone()));
                    },
                    None => {},
                }
                assert(dups@.map_values(|d: (i64, Vec<char>, Vec<char>)| (d.0, d.1@, d.2@))
                    =~= duplicates_of(items));
                let ghost sv0 = seen@;
                let ghost cv = code@;
                seen.push((c.api_id, code));
                assert(seen@.map_values(|e: (i64, Vec<char>)| (e.0, e.1@)) =~= sv0.map_values(
                    |e: (i64, Vec<char>)| (e.0, e.1@),
                ).push((c.api_id, cv)));
                assert(seen@.map_values(|e: (i64, Vec<char>)| (e.0, e.1@)) =~= items);
                out.push(c);
            },
        }
        i += 1;
    }
    assert(data@.take(data@.len() as int) =~= data@);
    if dups.len() > 0 {
        let m = duplicates_text(&dups);
        return Err(ParseError::Generic(m));
    }
    Ok(out)
}

proof fn lemma_first_error_prefix(data: Seq<KCanotifyExpedition>, k: int)
    requires
        0 <= k <= data.len(),
        first_conversion_error(data.take(k)) is Some,
    ensures
        first_conversion_error(data) == first_conversion_error(data.take(k)),
    decreases data.len() - k,
{
    if k < data.len() {
        assert(data.take(k + 1).drop_last() =~= data.take(k));
        lemma_first_error_prefix(data, k + 1);
    } else {
        assert(data.take(k) =~= data);
    }
}

proof fn lemma_last_code_none(items: Seq<(i64, Seq<char>)>, id: i64)
    ensures
        last_code_in(items, id) is None <==> forall|i: int| 0 <= i < items.len() ==> (#[trigger] items[i]).0 != id,
    decreases items.len(),
{
    if items.len() > 0 {
        lemma_last_code_none(items.drop_last(), id);
        if forall|i: int| 0 <= i < items.len() - 1 ==> (#[trigger] items.drop_last()[i]).0 != id {
            assert forall|i: int| 0 <= i < items.len() - 1 implies (#[trigger] items[i]).0 != id by {
                assert(items[i] == items.drop_last()[i]);
            }
        } else {
            let i = choose|i: int| !(0 <= i < items.len() - 1 ==> (#[trigger] items.drop_last()[i]).0 != id);
            assert(items[i] == items.drop_last()[i]);
        }
    }
}

proof fn lemma_no_duplicates_distinct(items: Seq<(i64, Seq<char>)>)
    requires
        duplicates_of(items).len() == 0,
    ensures
        forall|i: int, j: int| 0 <= i < j < items.len() ==> (#[trigger] items[i]).0 != (#[trigger] items[j]).0,
    decreases items.len(),
{
    if items.len() > 0 {
        let init = items.drop_last();
        lemma_no_duplicates_distinct(init);
        lemma_last_code_none(init, items.last().0);
        assert forall|i: int, j: int| 0 <= i < j < items.len() implies (#[trigger] items[i]).0
            != (#[trigger] items[j]).0 by {
            assert(items[i] == init[i]);
            if j < items.len() - 1 {
                assert(items[j] == init[j]);
            } else {
                assert(init[i].0 != items.last().0);
            }
        }
    }
}

/// An accepted data set names each expedition once: no two of its records
/// share an id.
pub proof fn law_accepted_ids_are_distinct(data: Seq<KCanotifyExpedition>)
    requires
        expeditions_error(data) is None,
    ensures
        forall|i: int, j: int|
            0 <= i < j < data.len() ==> parse_i64((#[trigger] data[i]).id@) != parse_i64((#[trigger] data[j]).id@),
{
    let items = id_codes(data);
    lemma_no_duplicates_distinct(items);
    lemma_all_convert(data);
    assert forall|i: int, j: int| 0 <= i < j < data.len() implies parse_i64((#[trigger] data[i]).id@)
        != parse_i64((#[trigger] data[j]).id@) by {
        assert(items[i].0 != items[j].0);
        assert(parse_i64(data[i].id@) is Some);
        assert(parse_i64(data[j].id@) is Some);
    }
}

proof fn lemma_all_convert(data: Seq<KCanotifyExpedition>)
    requires
        first_conversion_error(data) is None,
    ensures
        forall|i: int| 0 <= i < data.len() ==> conversion_error(#[trigger] data[i]) is None,
    decreases data.len(),
{
    if data.len() > 0 {
        lemma_all_convert(data.drop_last());
        assert forall|i: int| 0 <= i < data.len() implies conversion_error(#[trigger] data[i]) is None by {
            if i < data.len() - 1 {
                assert(data[i] == data.drop_last()[i]);
            }
        }
    }
}

} // verus!
