//! The improvement data of a kcwiki slot item: what each improvement step
//! consumes, which secretaries offer it on which days, and what the item
//! can be upgraded into.
use std::collections::BTreeMap;

use vstd::prelude::*;

use crate::error::{ParseError, ParseErrorView};
use crate::kcwiki::{lookup, name_entries, ship_id_of, slotitem_id_of, ParseContext};
use crate::kcwiki_slot_item::{
    AswDamageType, BoolOrInt, ImprovementsClass, ImprovementsUnion, ImprovmentEquipConsumption, KcwikiSlotitem,
    Product, StringOrInt, WeekInfo,
};
use crate::text::{chars_eq, chars_of, parse_i64, parse_i64_str};

verus! {

#[derive(Debug, Clone, Copy, PartialEq, Eq, Structural)]
pub struct Kc3rdSlotItemImproveItemConsumption {
    pub id: i64,
    pub count: i64,
}

/// What one stretch of improvement levels costs.
#[derive(Debug, Clone)]
pub struct Kc3rdSlotItemImprovePerLevelConsumption {
    pub dev_mat_min: i64,
    pub dev_mat_max: i64,
    pub screw_min: i64,
    pub screw_max: i64,
    pub slot_item_consumption: Option<Vec<Kc3rdSlotItemImproveItemConsumption>>,
    pub use_item_consumption: Option<Vec<Kc3rdSlotItemImproveItemConsumption>>,
}

/// A secretary that offers the improvement, and on which weekdays.
#[derive(Debug, Clone, Copy, PartialEq, Eq, Structural)]
pub struct Kc3rdSlotItemImproveSecretary {
    pub id: i64,
    pub monday: bool,
    pub tuesday: bool,
    pub wednesday: bool,
    pub thursday: bool,
    pub friday: bool,
    pub saturday: bool,
    pub sunday: bool,
}

#[derive(Debug, Clone)]
pub struct Kc3rdSlotItemImproveRequirements {
    pub first_half: Option<Kc3rdSlotItemImprovePerLevelConsumption>,
    pub second_half: Option<Kc3rdSlotItemImprovePerLevelConsumption>,
    pub remodel: Option<Kc3rdSlotItemImprovePerLevelConsumption>,
    pub secretary: Vec<Kc3rdSlotItemImproveSecretary>,
}

/// An item the slot item can be upgraded into.
#[derive(Debug, Clone)]
pub struct Kc3rdSlotItemRemodelVariant {
    pub slot_item_id: i64,
    pub initial_stars: i64,
    pub requirements: Kc3rdSlotItemImproveRequirements,
}

#[derive(Debug, Clone, Copy, PartialEq, Eq, Structural)]
pub struct Kc3rdSlotItemImproveBaseConsumption {
    pub fuel: i64,
    pub ammo: i64,
    pub steel: i64,
    pub bauxite: i64,
}

#[derive(Debug, Clone)]
pub struct Kc3rdSlotItemImprovment {
    pub base_consumption: Kc3rdSlotItemImproveBaseConsumption,
    pub level_consumption: Option<Kc3rdSlotItemImproveRequirements>,
    pub remodel_variants: Option<Vec<Kc3rdSlotItemRemodelVariant>>,
}

/// A stretch's cost as plain values.
pub type PerLevelView = (
    i64,
    i64,
    i64,
    i64,
    Option<Seq<Kc3rdSlotItemImproveItemConsumption>>,
    Option<Seq<Kc3rdSlotItemImproveItemConsumption>>,
);

pub open spec fn opt_seq(v: Option<Vec<Kc3rdSlotItemImproveItemConsumption>>) -> Option<Seq<Kc3rdSlotItemImproveItemConsumption>> {
    match v {
        Some(x) => Some(x@),
        None => None,
    }
}

impl View for Kc3rdSlotItemImprovePerLevelConsumption {
    type V = PerLevelView;

    open spec fn view(&self) -> PerLevelView {
        (
            self.dev_mat_min,
            self.dev_mat_max,
            self.screw_min,
            self.screw_max,
            opt_seq(self.slot_item_consumption),
            opt_seq(self.use_item_consumption),
        )
    }
}

pub open spec fn opt_level(v: Option<Kc3rdSlotItemImprovePerLevelConsumption>) -> Option<PerLevelView> {
    match v {
        Some(x) => Some(x@),
        None => None,
    }
}

/// Requirements as plain values: first half, second half, upgrade, secretaries.
pub type ReqView = (Option<PerLevelView>, Option<PerLevelView>, Option<PerLevelView>, Seq<Kc3rdSlotItemImproveSecretary>);

impl View for Kc3rdSlotItemImproveRequirements {
    type V = ReqView;

    open spec fn view(&self) -> ReqView {
        (opt_level(self.first_half), opt_level(self.second_half), opt_level(self.remodel), self.secretary@)
    }
}

/// An upgrade as plain values: target item, initial stars, requirements.
pub type VariantView = (i64, i64, ReqView);

impl View for Kc3rdSlotItemRemodelVariant {
    type V = VariantView;

    open spec fn view(&self) -> VariantView {
        (self.slot_item_id, self.initial_stars, self.requirements@)
    }
}

pub type ImprovementView = (Kc3rdSlotItemImproveBaseConsumption, Option<ReqView>, Option<Seq<VariantView>>);

impl View for Kc3rdSlotItemImprovment {
    type V = ImprovementView;

    open spec fn view(&self) -> ImprovementView {
        (
            self.base_consumption,
            match self.level_consumption {
                Some(r) => Some(r@),
                None => None,
            },
            match self.remodel_variants {
                Some(v) => Some(v@.map_values(|x: Kc3rdSlotItemRemodelVariant| x@)),
                None => None,
            },
        )
    }
}

// ---------------------------------------------------------------------------
// One improvement step
// ---------------------------------------------------------------------------

/// A number the data writes either as a number or as text; only text that
/// parses is accepted.
pub open spec fn readable_number(v: StringOrInt) -> bool {
    match v {
        StringOrInt::Int(_) => true,
        StringOrInt::String(s) => parse_i64(s@) is Some,
    }
}

pub open spec fn number_of(v: StringOrInt) -> i64 {
    match v {
        StringOrInt::Int(i) => i,
        StringOrInt::String(s) => parse_i64(s@).unwrap(),
    }
}

/// The numbers of a step are readable when the step is a consumption.
pub open spec fn step_readable(p: Product) -> bool {
    match p {
        Product::Level2Consumption(c) => readable_number(c.development_material_x)
            && readable_number(c.improvement_material_x),
        _ => true,
    }
}

fn number_value(v: &StringOrInt) -> (r: i64)
    requires
        readable_number(*v),
    ensures
        r == number_of(*v),
{
    match v {
        StringOrInt::Int(i) => *i,
        StringOrInt::String(s) => match parse_i64_str(s.as_str()) {
            Some(n) => n,
            None => 0,
        },
    }
}

/// The slot items a step consumes: `true` is the item itself, else the
/// slot item of that name.
pub open spec fn slot_costs(mst_id: i64, ctx: ParseContext, entries: Seq<(String, i64)>) -> Seq<Kc3rdSlotItemImproveItemConsumption>
    decreases entries.len(),
{
    if entries.len() == 0 {
        Seq::empty()
    } else {
        let acc = slot_costs(mst_id, ctx, entries.drop_last());
        let (k, v) = entries.last();
        if k@ == "true"@ {
            acc.push(Kc3rdSlotItemImproveItemConsumption { id: mst_id, count: v })
        } else {
            match slotitem_id_of(name_entries(ctx.slotitem_name_map@), k@) {
                Some(id) => acc.push(Kc3rdSlotItemImproveItemConsumption { id, count: v }),
                None => acc,
            }
        }
    }
}

/// The use items a step consumes: names that are no slot item but a use item.
pub open spec fn use_costs(ctx: ParseContext, entries: Seq<(String, i64)>) -> Seq<Kc3rdSlotItemImproveItemConsumption>
    decreases entries.len(),
{
    if entries.len() == 0 {
        Seq::empty()
    } else {
        let acc = use_costs(ctx, entries.drop_last());
        let (k, v) = entries.last();
        if k@ == "true"@ || slotitem_id_of(name_entries(ctx.slotitem_name_map@), k@) is Some {
            acc
        } else {
            match lookup(name_entries(ctx.useitem_name_map@), k@) {
                Some(id) => acc.push(Kc3rdSlotItemImproveItemConsumption { id, count: v }),
                None => acc,
            }
        }
    }
}

pub open spec fn nonempty_or_none(s: Seq<Kc3rdSlotItemImproveItemConsumption>) -> Option<Seq<Kc3rdSlotItemImproveItemConsumption>> {
    if s.len() == 0 {
        None
    } else {
        Some(s)
    }
}

/// The cost of one stretch of levels, when the step is a consumption.
pub open spec fn level_cost(mst_id: i64, ctx: ParseContext, p: Product) -> Option<PerLevelView> {
    match p {
        Product::Level2Consumption(c) => {
            let (slots, uses) = match c.equipment {
                ImprovmentEquipConsumption::ItemMap(m) => (slot_costs(mst_id, ctx, m@), use_costs(ctx, m@)),
                ImprovmentEquipConsumption::Bool(_) => (Seq::empty(), Seq::empty()),
            };
            Some(
                (
                    c.development_material,
                    number_of(c.development_material_x),
                    c.improvement_material,
                    number_of(c.improvement_material_x),
                    nonempty_or_none(slots),
                    nonempty_or_none(uses),
                ),
            )
        },
        _ => None,
    }
}

fn is_word(s: &String, w: &str) -> (b: bool)
    ensures
        b == (s@ == w@),
{
    chars_eq(chars_of(s.as_str()).as_slice(), chars_of(w).as_slice())
}

fn some_if_any(v: Vec<Kc3rdSlotItemImproveItemConsumption>) -> (r: Option<Vec<Kc3rdSlotItemImproveItemConsumption>>)
    ensures
        opt_seq(r) == nonempty_or_none(v@),
{
    if v.len() == 0 {
        None
    } else {
        Some(v)
    }
}

/// The cost of one stretch of improvement levels. A step that is not a
/// consumption is refused as a missing key.
pub fn parse_level_consumption(mst_id: i64, context: &ParseContext, product: &Product) -> (r: Result<
    Kc3rdSlotItemImprovePerLevelConsumption,
    ParseError,
>)
    requires
        context.wf(),
        step_readable(*product),
    ensures
        match r {
            Ok(c) => level_cost(mst_id, *context, *product) == Some(c@),
            Err(e) => level_cost(mst_id, *context, *product) is None && e is KeyMissing,
        },
{
    match product {
        Product::Level2Consumption(c) => {
            let mut slots: Vec<Kc3rdSlotItemImproveItemConsumption> = Vec::new();
            let mut uses: Vec<Kc3rdSlotItemImproveItemConsumption> = Vec::new();
            match &c.equipment {
                ImprovmentEquipConsumption::ItemMap(m) => {
                    let mut i: usize = 0;
                    while i < m.len()
                        invariant
                            context.wf(),
                            i <= m@.len(),
                            slots@ == slot_costs(mst_id, *context, m@.take(i as int)),
                            uses@ == use_costs(*context, m@.take(i as int)),
                        decreases m@.len() - i,
                    {
                        assert(m@.take(i as int + 1).drop_last() =~= m@.take(i as int));
                        assert(m@.take(i as int + 1).last() == m@[i as int]);
                        let k = &m[i].0;
                        let v = m[i].1;
                        if is_word(k, "true") {
                            slots.push(Kc3rdSlotItemImproveItemConsumption { id: mst_id, count: v });
                        } else {
                            match context.find_slotitem_id(k.as_str()) {
                                Some(id) => slots.push(Kc3rdSlotItemImproveItemConsumption { id, count: v }),
                                None => match context.find_useitem_id(k.as_str()) {
                                    Some(id) => uses.push(Kc3rdSlotItemImproveItemConsumption { id, count: v }),
                                    None => {},
                                },
                            }
                        }
                        i += 1;
                    }
                    assert(m@.take(m@.len() as int) =~= m@);
                },
                ImprovmentEquipConsumption::Bool(_) => {},
            }
            Ok(Kc3rdSlotItemImprovePerLevelConsumption {
                dev_mat_min: c.development_material,
                dev_mat_max: number_value(&c.development_material_x),
                screw_min: c.improvement_material,
                screw_max: number_value(&c.improvement_material_x),
                slot_item_consumption: some_if_any(slots),
                use_item_consumption: some_if_any(uses),
            })
        },
        _ => Err(ParseError::KeyMissing(String::new())),
    }
}

/// The secretaries of a step: `true` stands for any ship (id 0); names no
/// ship has are left out; a day not given is no day.
pub open spec fn secretaries_in(ctx: ParseContext, entries: Seq<(String, WeekInfo)>) -> Seq<Kc3rdSlotItemImproveSecretary>
    decreases entries.len(),
{
    if entries.len() == 0 {
        Seq::empty()
    } else {
        let acc = secretaries_in(ctx, entries.drop_last());
        let (k, w) = entries.last();
        let id = if k@ == "true"@ {
            Some(0i64)
        } else {
            ship_id_of(name_entries(ctx.ship_name_map@), k@)
        };
        match id {
            Some(id) => acc.push(
                Kc3rdSlotItemImproveSecretary {
                    id,
                    monday: w.monday.unwrap_or(false),
                    tuesday: w.tuesday.unwrap_or(false),
                    wednesday: w.wednesday.unwrap_or(false),
                    thursday: w.thursday.unwrap_or(false),
                    friday: w.friday.unwrap_or(false),
                    saturday: w.saturday.unwrap_or(false),
                    sunday: w.sunday.unwrap_or(false),
                },
            ),
            None => acc,
        }
    }
}

pub open spec fn secretaries_of(ctx: ParseContext, p: Product) -> Seq<Kc3rdSlotItemImproveSecretary> {
    match p {
        Product::Secretary2WeekInfo(entries) => secretaries_in(ctx, entries@),
        _ => Seq::empty(),
    }
}

/// Each secretary keeps the days of its own record: for every secretary the
/// table lists there is a record of the step, naming that secretary's ship
/// (`true` for any ship, id 0), whose Monday..Sunday flags (unset counting
/// as off) are that secretary's days, day for day.
pub proof fn law_secretaries_keep_their_own_days(ctx: ParseContext, entries: Seq<(String, WeekInfo)>, i: int)
    requires
        0 <= i < secretaries_in(ctx, entries).len(),
    ensures
        exists|j: int| 0 <= j < entries.len() && {
            let s = secretaries_in(ctx, entries)[i];
            let (k, w) = #[trigger] entries[j];
            &&& (if k@ == "true"@ { s.id == 0 } else { ship_id_of(name_entries(ctx.ship_name_map@), k@) == Some(s.id) })
            &&& s.monday == w.monday.unwrap_or(false)
            &&& s.tuesday == w.tuesday.unwrap_or(false)
            &&& s.wednesday == w.wednesday.unwrap_or(false)
            &&& s.thursday == w.thursday.unwrap_or(false)
            &&& s.friday == w.friday.unwrap_or(false)
            &&& s.saturday == w.saturday.unwrap_or(false)
            &&& s.sunday == w.sunday.unwrap_or(false)
        },
    decreases entries.len(),
{
    let init = entries.drop_last();
    let acc = secretaries_in(ctx, init);
    if i < acc.len() {
        let (k, w) = entries.last();
        let id = if k@ == "true"@ { Some(0i64) } else { ship_id_of(name_entries(ctx.ship_name_map@), k@) };
        assert(secretaries_in(ctx, entries)[i] == acc[i]) by {
            match id {
                Some(_) => {},
                None => {},
            }
        }
        law_secretaries_keep_their_own_days(ctx, init, i);
        let j = choose|j: int| 0 <= j < init.len() && {
            let s = secretaries_in(ctx, init)[i];
            let (k, w) = #[trigger] init[j];
            &&& (if k@ == "true"@ { s.id == 0 } else { ship_id_of(name_entries(ctx.ship_name_map@), k@) == Some(s.id) })
            &&& s.monday == w.monday.unwrap_or(false)
            &&& s.tuesday == w.tuesday.unwrap_or(false)
            &&& s.wednesday == w.wednesday.unwrap_or(false)
            &&& s.thursday == w.thursday.unwrap_or(false)
            &&& s.friday == w.friday.unwrap_or(false)
            &&& s.saturday == w.saturday.unwrap_or(false)
            &&& s.sunday == w.sunday.unwrap_or(false)
        };
        assert(entries[j] == init[j]);
    } else {
        let j = entries.len() - 1;
        assert(entries[j] == entries.last());
    }
}

fn flag(b: Option<bool>) -> (r: bool)
    ensures
        r == b.unwrap_or(false),
{
    match b {
        Some(x) => x,
        None => false,
    }
}

/// The secretaries that offer a step, and on which days.
pub fn parse_secretary(context: &ParseContext, product: &Product) -> (r: Result<Vec<Kc3rdSlotItemImproveSecretary>, ParseError>)
    requires
        context.wf(),
    ensures
        r matches Ok(v) && v@ == secretaries_of(*context, *product),
{
    let mut result: Vec<Kc3rdSlotItemImproveSecretary> = Vec::new();
    match product {
        Product::Secretary2WeekInfo(info) => {
            let mut i: usize = 0;
            while i < info.len()
                invariant
                    context.wf(),
                    i <= info@.len(),
                    result@ == secretaries_in(*context, info@.take(i as int)),
                decreases info@.len() - i,
            {
                assert(info@.take(i as int + 1).drop_last() =~= info@.take(i as int));
                assert(info@.take(i as int + 1).last() == info@[i as int]);
                let k = &info[i].0;
                let w = &info[i].1;
                let id = if is_word(k, "true") {
                    Some(0i64)
                } else {
                    context.find_ship_id(k.as_str())
                };
                match id {
                    Some(id) => result.push(
                        Kc3rdSlotItemImproveSecretary {
                            id,
                            monday: flag(w.monday),
                            tuesday: flag(w.tuesday),
                            wednesday: flag(w.wednesday),
                            thursday: flag(w.thursday),
                            friday: flag(w.friday),
                            saturday: flag(w.saturday),
                            sunday: flag(w.sunday),
                        },
                    ),
                    None => {},
                }
                i += 1;
            }
            assert(info@.take(info@.len() as int) =~= info@);
        },
        _ => {},
    }
    Ok(result)
}

// ---------------------------------------------------------------------------
// The steps of a product, and the products of an item
// ---------------------------------------------------------------------------

pub open spec fn steps_readable(steps: Seq<(String, Product)>) -> bool {
    forall|i: int| 0 <= i < steps.len() ==> step_readable(#[trigger] steps[i].1)
}

pub open spec fn empty_requirements() -> ReqView {
    (None, None, None, Seq::empty())
}

/// The requirements the steps of a product set, and the stars an upgrade
/// starts with; `None` when a cost step is no consumption. The first half
/// is step `0`, the second `6`; an upgrade also reads its own cost `10` and
/// its stars; `_ships` gives the secretaries; other keys are ignored.
pub open spec fn step_fold(mst_id: i64, ctx: ParseContext, upgrade: bool, steps: Seq<(String, Product)>) -> Option<(ReqView, i64)>
    decreases steps.len(),
{
    if steps.len() == 0 {
        Some((empty_requirements(), 0))
    } else {
        match step_fold(mst_id, ctx, upgrade, steps.drop_last()) {
            None => None,
            Some((r, stars)) => {
                let (k, p) = steps.last();
                if k@ == "0"@ {
                    match level_cost(mst_id, ctx, p) {
                        Some(c) => Some(((Some(c), r.1, r.2, r.3), stars)),
                        None => None,
                    }
                } else if k@ == "6"@ {
                    match level_cost(mst_id, ctx, p) {
                        Some(c) => Some(((r.0, Some(c), r.2, r.3), stars)),
                        None => None,
                    }
                } else if upgrade && k@ == "10"@ {
                    match level_cost(mst_id, ctx, p) {
                        Some(c) => Some(((r.0, r.1, Some(c), r.3), stars)),
                        None => None,
                    }
                } else if k@ == "_ships"@ {
                    Some(((r.0, r.1, r.2, secretaries_of(ctx, p)), stars))
                } else if upgrade && k@ == "_stars"@ {
                    match p {
                        Product::Stars(Some(BoolOrInt::Int(i))) => Some((r, i)),
                        Product::Stars(Some(BoolOrInt::Bool(_))) => Some((r, 0)),
                        _ => Some((r, stars)),
                    }
                } else {
                    Some((r, stars))
                }
            },
        }
    }
}

fn requirements_for(mst_id: i64, context: &ParseContext, upgrade: bool, steps: &Vec<(String, Product)>) -> (r: Result<
    (Kc3rdSlotItemImproveRequirements, i64),
    ParseError,
>)
    requires
        context.wf(),
        steps_readable(steps@),
    ensures
        match r {
            Ok((req, stars)) => step_fold(mst_id, *context, upgrade, steps@) == Some((req@, stars)),
            Err(e) => step_fold(mst_id, *context, upgrade, steps@) is None && e is KeyMissing,
        },
{
    let mut req = Kc3rdSlotItemImproveRequirements { first_half: None, second_half: None, remodel: None, secretary: Vec::new() };
    let mut stars: i64 = 0;
    assert(req@ =~= empty_requirements());
    let mut i: usize = 0;
    while i < steps.len()
        invariant
            context.wf(),
            i <= steps@.len(),
            steps_readable(steps@),
            step_fold(mst_id, *context, upgrade, steps@.take(i as int)) == Some((req@, stars)),
        decreases steps@.len() - i,
    {
        assert(steps@.take(i as int + 1).drop_last() =~= steps@.take(i as int));
        assert(steps@.take(i as int + 1).last() == steps@[i as int]);
        assert(step_readable(steps@[i as int].1));
        let k = &steps[i].0;
        let p = &steps[i].1;
        if is_word(k, "0") {
            match parse_level_consumption(mst_id, context, p) {
                Ok(c) => req.first_half = Some(c),
                Err(e) => {
                    proof {
                        lemma_fold_stays_failed(mst_id, *context, upgrade, steps@, i as int + 1);
                    }
                    return Err(e);
                },
            }
        } else if is_word(k, "6") {
            match parse_level_consumption(mst_id, context, p) {
                Ok(c) => req.second_half = Some(c),
                Err(e) => {
                    proof {
                        lemma_fold_stays_failed(mst_id, *context, upgrade, steps@, i as int + 1);
                    }
                    return Err(e);
                },
            }
        } else if upgrade && is_word(k, "10") {
            match parse_level_consumption(mst_id, context, p) {
                Ok(c) => req.remodel = Some(c),
                Err(e) => {
                    proof {
                        lemma_fold_stays_failed(mst_id, *context, upgrade, steps@, i as int + 1);
                    }
                    return Err(e);
                },
            }
        } else if is_word(k, "_ships") {
            match parse_secretary(context, p) {
                Ok(v) => req.secretary = v,
                Err(e) => return Err(e),
            }
        } else if upgrade && is_word(k, "_stars") {
            match p {
                Product::Stars(Some(BoolOrInt::Int(n))) => stars = *n,
                Product::Stars(Some(BoolOrInt::Bool(_))) => stars = 0,
                _ => {},
            }
        }
        i += 1;
    }
    assert(steps@.take(steps@.len() as int) =~= steps@);
    Ok((req, stars))
}

proof fn lemma_fold_stays_failed(mst_id: i64, ctx: ParseContext, upgrade: bool, steps: Seq<(String, Product)>, k: int)
    requires
        0 <= k <= steps.len(),
        step_fold(mst_id, ctx, upgrade, steps.take(k)) is None,
    ensures
        step_fold(mst_id, ctx, upgrade, steps) is None,
    decreases steps.len() - k,
{
    if k < steps.len() {
        assert(steps.take(k + 1).drop_last() =~= steps.take(k));
        lemma_fold_stays_failed(mst_id, ctx, upgrade, steps, k + 1);
    } else {
        assert(steps.take(k) =~= steps);
    }
}

pub open spec fn products_readable(products: Seq<(String, Vec<(String, Product)>)>) -> bool {
    forall|i: int| 0 <= i < products.len() ==> steps_readable((#[trigger] products[i]).1@)
}

/// Every step of every product of the item has readable numbers.
pub open spec fn item_readable(item: KcwikiSlotitem) -> bool {
    match item.improvements {
        ImprovementsUnion::ImprovementsClass(info) => products_readable(info.products@),
        ImprovementsUnion::Bool(_) => true,
    }
}

pub open spec fn or_zero(v: BoolOrInt) -> i64 {
    match v {
        BoolOrInt::Int(i) => i,
        BoolOrInt::Bool(_) => 0,
    }
}

/// The products read so far: the item's own level requirements and its
/// upgrades; `None` once a step fails.
pub open spec fn product_fold(mst_id: i64, ctx: ParseContext, products: Seq<(String, Vec<(String, Product)>)>) -> Option<
    (Option<ReqView>, Seq<VariantView>),
>
    decreases products.len(),
{
    if products.len() == 0 {
        Some((None, Seq::empty()))
    } else {
        match product_fold(mst_id, ctx, products.drop_last()) {
            None => None,
            Some((level, variants)) => {
                let (key, steps) = products.last();
                if key@ == "false"@ {
                    match step_fold(mst_id, ctx, false, steps@) {
                        Some((r, _)) => Some((Some(r), variants)),
                        None => None,
                    }
                } else {
                    match slotitem_id_of(name_entries(ctx.slotitem_name_map@), key@) {
                        Some(sid) => match step_fold(mst_id, ctx, true, steps@) {
                            Some((r, stars)) => Some((level, variants.push((sid, stars, r)))),
                            None => None,
                        },
                        None => Some((level, variants)),
                    }
                }
            },
        }
    }
}

/// The improvement data of an item: none without a product table, else its
/// base cost, the requirements of its own levels (the `false` product) and
/// its upgrades (products naming a known slot item); `None` when a step fails.
pub open spec fn improvement_of(item: KcwikiSlotitem, ctx: ParseContext) -> Option<Option<ImprovementView>> {
    match item.improvements {
        ImprovementsUnion::Bool(_) => Some(None),
        ImprovementsUnion::ImprovementsClass(info) => if info.products@.len() == 0 {
            Some(None)
        } else {
            let base = Kc3rdSlotItemImproveBaseConsumption {
                fuel: or_zero(info.fuel),
                ammo: or_zero(info.ammo),
                steel: or_zero(info.steel),
                bauxite: or_zero(info.bauxite),
            };
            match product_fold(item.id, ctx, info.products@) {
                None => None,
                Some((level, variants)) => Some(
                    Some((base, level, if variants.len() == 0 { None } else { Some(variants) })),
                ),
            }
        },
    }
}

fn or_zero_of(v: BoolOrInt) -> (r: i64)
    ensures
        r == or_zero(v),
{
    match v {
        BoolOrInt::Int(i) => i,
        BoolOrInt::Bool(_) => 0,
    }
}

/// Reads the improvement data of a kcwiki slot item.
pub fn slot_item_improvement(item: &KcwikiSlotitem, context: &ParseContext) -> (r: Result<
    Option<Kc3rdSlotItemImprovment>,
    ParseError,
>)
    requires
        context.wf(),
        item_readable(*item),
    ensures
        match r {
            Ok(Some(imp)) => improvement_of(*item, *context) == Some(Some(imp@)),
            Ok(None) => improvement_of(*item, *context) == Some(None::<ImprovementView>),
            Err(e) => improvement_of(*item, *context) is None && e is KeyMissing,
        },
{
    let info = match &item.improvements {
        ImprovementsUnion::Bool(_) => return Ok(None),
        ImprovementsUnion::ImprovementsClass(info) => info,
    };
    if info.products.len() == 0 {
        return Ok(None);
    }
    let base = Kc3rdSlotItemImproveBaseConsumption {
        fuel: or_zero_of(info.fuel),
        ammo: or_zero_of(info.ammo),
        steel: or_zero_of(info.steel),
        bauxite: or_zero_of(info.bauxite),
    };
    let ghost prods = info.products@;
    let mut level: Option<Kc3rdSlotItemImproveRequirements> = None;
    let mut variants: Vec<Kc3rdSlotItemRemodelVariant> = Vec::new();
    let mut i: usize = 0;
    while i < info.products.len()
        invariant
            context.wf(),
            i <= prods.len(),
            prods == info.products@,
            prods.len() > 0,
            item.improvements == ImprovementsUnion::ImprovementsClass(*info),
            products_readable(prods),
            product_fold(item.id, *context, prods.take(i as int)) == Some(
                (
                    match level {
                        Some(r) => Some(r@),
                        None => None::<ReqView>,
                    },
                    variants@.map_values(|x: Kc3rdSlotItemRemodelVariant| x@),
                ),
            ),
        decreases prods.len() - i,
    {
        assert(prods.take(i as int + 1).drop_last() =~= prods.take(i as int));
        assert(prods.take(i as int + 1).last() == prods[i as int]);
        assert(steps_readable(prods[i as int].1@));
        let key = &info.products[i].0;
        let steps = &info.products[i].1;
        if is_word(key, "false") {
            match requirements_for(item.id, context, false, steps) {
                Ok((req, _)) => level = Some(req),
                Err(e) => {
                    proof {
                        lemma_products_stay_failed(item.id, *context, prods, i as int + 1);
                    }
                    return Err(e);
                },
            }
        } else {
            match context.find_slotitem_id(key.as_str()) {
                Some(sid) => match requirements_for(item.id, context, true, steps) {
                    Ok((req, stars)) => {
                        let ghost before = variants@.map_values(|x: Kc3rdSlotItemRemodelVariant| x@);
                        let v = Kc3rdSlotItemRemodelVariant { slot_item_id: sid, initial_stars: stars, requirements: req };
                        let ghost vv = v@;
                        variants.push(v);
                        assert(variants@.map_values(|x: Kc3rdSlotItemRemodelVariant| x@) =~= before.push(vv));
                    },
                    Err(e) => {
                        proof {
                            lemma_products_stay_failed(item.id, *context, prods, i as int + 1);
                        }
                        return Err(e);
                    },
                },
                None => {},
            }
        }
        i += 1;
    }
    assert(prods.take(prods.len() as int) =~= prods);
    let remodel_variants = if variants.len() == 0 {
        None
    } else {
        Some(variants)
    };
    Ok(Some(Kc3rdSlotItemImprovment { base_consumption: base, level_consumption: level, remodel_variants }))
}

proof fn lemma_products_stay_failed(mst_id: i64, ctx: ParseContext, products: Seq<(String, Vec<(String, Product)>)>, k: int)
    requires
        0 <= k <= products.len(),
        product_fold(mst_id, ctx, products.take(k)) is None,
    ensures
        product_fold(mst_id, ctx, products) is None,
    decreases products.len() - k,
{
    if k < products.len() {
        assert(products.take(k + 1).drop_last() =~= products.take(k));
        lemma_products_stay_failed(mst_id, ctx, products, k + 1);
    } else {
        assert(products.take(k) =~= products);
    }
}

// ---------------------------------------------------------------------------
// Slot items
// ---------------------------------------------------------------------------

#[derive(Debug, Clone, Copy, PartialEq, Eq, Structural)]
pub enum Kc3rdSlotItemAswDamageType {
    DepthCargeProjector,
    DepthChargeRack,
}

impl From<AswDamageType> for Kc3rdSlotItemAswDamageType {
    fn from(value: AswDamageType) -> (r: Self) {
        match value {
            AswDamageType::Dcp => Kc3rdSlotItemAswDamageType::DepthCargeProjector,
            AswDamageType::Dcr => Kc3rdSlotItemAswDamageType::DepthChargeRack,
        }
    }
}

impl vstd::std_specs::convert::FromSpecImpl<AswDamageType> for Kc3rdSlotItemAswDamageType {
    open spec fn obeys_from_spec() -> bool {
        true
    }

    open spec fn from_spec(value: AswDamageType) -> Self {
        match value {
            AswDamageType::Dcp => Kc3rdSlotItemAswDamageType::DepthCargeProjector,
            AswDamageType::Dcr => Kc3rdSlotItemAswDamageType::DepthChargeRack,
        }
    }
}

/// A slot item as the catalogue keeps it.
#[derive(Debug, Clone)]
pub struct Kc3rdSlotItem {
    pub api_id: i64,
    pub name: String,
    pub info: String,
    pub craftable: bool,
    pub stars: Option<i64>,
    pub flight_cost: Option<i64>,
    pub flight_range: Option<i64>,
    pub can_attack_installations: bool,
    pub asw_damage_type: Option<Kc3rdSlotItemAswDamageType>,
    pub improvement: Option<Kc3rdSlotItemImprovment>,
}

/// A slot item as plain values.
pub type SlotItemView = (
    i64,
    Seq<char>,
    Seq<char>,
    bool,
    Option<i64>,
    Option<i64>,
    Option<i64>,
    bool,
    Option<Kc3rdSlotItemAswDamageType>,
    Option<ImprovementView>,
);

impl View for Kc3rdSlotItem {
    type V = SlotItemView;

    open spec fn view(&self) -> SlotItemView {
        (
            self.api_id,
            self.name@,
            self.info@,
            self.craftable,
            self.stars,
            self.flight_cost,
            self.flight_range,
            self.can_attack_installations,
            self.asw_damage_type,
            match self.improvement {
                Some(i) => Some(i@),
                None => None,
            },
        )
    }
}

/// A flag or a number read as a number; a flag is none.
pub open spec fn number_or_none(v: Option<BoolOrInt>) -> Option<i64> {
    match v {
        Some(BoolOrInt::Int(i)) => Some(i),
        _ => None,
    }
}

/// The catalogue entry of a kcwiki record, and its improvement data.
pub open spec fn slot_item_of(w: KcwikiSlotitem, imp: Option<ImprovementView>) -> SlotItemView {
    (
        w.id,
        w.japanese_name@,
        w.info@,
        w.buildable,
        w.stars,
        number_or_none(w.flight_cost),
        number_or_none(w.flight_range),
        w.can_attack_installations.unwrap_or(false),
        match w.asw_damage_type {
            Some(AswDamageType::Dcp) => Some(Kc3rdSlotItemAswDamageType::DepthCargeProjector),
            Some(AswDamageType::Dcr) => Some(Kc3rdSlotItemAswDamageType::DepthChargeRack),
            None => None,
        },
        imp,
    )
}

fn number_or_none_of(v: Option<BoolOrInt>) -> (r: Option<i64>)
    ensures
        r == number_or_none(v),
{
    match v {
        Some(b) => b.into(),
        None => None,
    }
}

pub open spec fn all_items_readable(items: Seq<(String, KcwikiSlotitem)>) -> bool {
    forall|i: int| 0 <= i < items.len() ==> item_readable((#[trigger] items[i]).1)
}

fn number_readable(v: &StringOrInt) -> (b: bool)
    ensures
        b == readable_number(*v),
{
    match v {
        StringOrInt::Int(_) => true,
        StringOrInt::String(s) => parse_i64_str(s.as_str()).is_some(),
    }
}

/// Whether every improvement step of every record has numbers that read
/// as integers, as `slot_item_catalogue` needs.
pub fn items_readable(items: &Vec<(String, KcwikiSlotitem)>) -> (b: bool)
    ensures
        b == all_items_readable(items@),
{
    let mut i: usize = 0;
    while i < items.len()
        invariant
            i <= items@.len(),
            forall|k: int| 0 <= k < i ==> item_readable((#[trigger] items@[k]).1),
        decreases items@.len() - i,
    {
        match &items[i].1.improvements {
            ImprovementsUnion::Bool(_) => {},
            ImprovementsUnion::ImprovementsClass(info) => {
                let mut p: usize = 0;
                while p < info.products.len()
                    invariant
                        i < items@.len(),
                        items@[i as int].1.improvements == ImprovementsUnion::ImprovementsClass(*info),
                        p <= info.products@.len(),
                        forall|q: int| 0 <= q < p ==> steps_readable((#[trigger] info.products@[q]).1@),
                    decreases info.products@.len() - p,
                {
                    let steps = &info.products[p].1;
                    let mut t: usize = 0;
                    while t < steps.len()
                        invariant
                            i < items@.len(),
                            items@[i as int].1.improvements == ImprovementsUnion::ImprovementsClass(*info),
                            p < info.products@.len(),
                            *steps == info.products@[p as int].1,
                            t <= steps@.len(),
                            forall|u: int| 0 <= u < t ==> step_readable(#[trigger] steps@[u].1),
                        decreases steps@.len() - t,
                    {
                        match &steps[t].1 {
                            Product::Level2Consumption(c) => {
                                if !(number_readable(&c.development_material_x) && number_readable(
                                    &c.improvement_material_x,
                                )) {
                                    assert(!step_readable(steps@[t as int].1));
                                    assert(!steps_readable(steps@));
                                    assert(!products_readable(info.products@));
                                    assert(!item_readable(items@[i as int].1));
                                    return false;
                                }
                            },
                            _ => {},
                        }
                        t += 1;
                    }
                    p += 1;
                }
            },
        }
        i += 1;
    }
    true
}

/// The catalogue of the records, by id: a later record with the same id
/// replaces an earlier one; `None` when a record's improvement data fails.
pub open spec fn catalogue_of(items: Seq<(String, KcwikiSlotitem)>, ctx: ParseContext) -> Option<Map<i64, SlotItemView>>
    decreases items.len(),
{
    if items.len() == 0 {
        Some(Map::empty())
    } else {
        match catalogue_of(items.drop_last(), ctx) {
            None => None,
            Some(m) => {
                let w = items.last().1;
                match improvement_of(w, ctx) {
                    None => None,
                    Some(imp) => Some(m.insert(w.id, slot_item_of(w, imp))),
                }
            },
        }
    }
}

pub open spec fn catalogue_view(m: Map<i64, Kc3rdSlotItem>) -> Map<i64, SlotItemView> {
    m.map_values(|x: Kc3rdSlotItem| x@)
}

/// Builds the slot item catalogue from the kcwiki records, names in order.
pub fn slot_item_catalogue(items: &Vec<(String, KcwikiSlotitem)>, context: &ParseContext) -> (r: Result<
    BTreeMap<i64, Kc3rdSlotItem>,
    ParseError,
>)
    requires
        context.wf(),
        all_items_readable(items@),
    ensures
        match r {
            Ok(m) => catalogue_of(items@, *context) == Some(catalogue_view(m@)),
            Err(e) => catalogue_of(items@, *context) is None && e is KeyMissing,
        },
{
    let mut map: BTreeMap<i64, Kc3rdSlotItem> = BTreeMap::new();
    assert(catalogue_view(map@) =~= Map::<i64, SlotItemView>::empty());
    let mut i: usize = 0;
    while i < items.len()
        invariant
            context.wf(),
            i <= items@.len(),
            all_items_readable(items@),
            catalogue_of(items@.take(i as int), *context) == Some(catalogue_view(map@)),
        decreases items@.len() - i,
    {
        assert(items@.take(i as int + 1).drop_last() =~= items@.take(i as int));
        assert(items@.take(i as int + 1).last() == items@[i as int]);
        assert(item_readable(items@[i as int].1));
        let w = &items[i].1;
        let improvement = match slot_item_improvement(w, context) {
            Ok(imp) => imp,
            Err(e) => {
                proof {
                    lemma_catalogue_stays_failed(items@, *context, i as int + 1);
                }
                return Err(e);
            },
        };
        let asw_damage_type = match w.asw_damage_type {
            Some(t) => Some(Kc3rdSlotItemAswDamageType::from(t)),
            None => None,
        };
        let item = Kc3rdSlotItem {
            api_id: w.id,
            name: w.japanese_name.clone(),
            info: w.info.clone(),
            craftable: w.buildable,
            stars: w.stars,
            flight_cost: number_or_none_of(w.flight_cost),
            flight_range: number_or_none_of(w.flight_range),
            can_attack_installations: match w.can_attack_installations {
                Some(b) => b,
                None => false,
            },
            asw_damage_type,
            improvement,
        };
        let ghost before = catalogue_view(map@);
        let ghost iv = item@;
        map.insert(w.id, item);
        assert(catalogue_view(map@) =~= before.insert(w.id, iv));
        i += 1;
    }
    assert(items@.take(items@.len() as int) =~= items@);
    Ok(map)
}

proof fn lemma_catalogue_stays_failed(items: Seq<(String, KcwikiSlotitem)>, ctx: ParseContext, k: int)
    requires
        0 <= k <= items.len(),
        catalogue_of(items.take(k), ctx) is None,
    ensures
        catalogue_of(items, ctx) is None,
    decreases items.len() - k,
{
    if k < items.len() {
        assert(items.take(k + 1).drop_last() =~= items.take(k));
        lemma_catalogue_stays_failed(items, ctx, k + 1);
    } else {
        assert(items.take(k) =~= items);
    }
}

} // verus!
