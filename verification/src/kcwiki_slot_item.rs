//! The kcwiki slot-item records read by the improvement parser.
use vstd::prelude::*;

verus! {

#[derive(Debug, Clone, PartialEq)]
pub enum BoolOrString {
    Bool(bool),
    String(String),
}

#[derive(Debug, Clone, Copy, PartialEq, Eq, Structural)]
pub enum BoolOrInt {
    Bool(bool),
    Int(i64),
}

#[derive(Debug, Clone, PartialEq)]
pub enum StringOrInt {
    String(String),
    Int(i64),
}

impl From<BoolOrInt> for Option<i64> {
    fn from(b: BoolOrInt) -> (r: Option<i64>) {
        match b {
            BoolOrInt::Bool(_) => None,
            BoolOrInt::Int(i) => Some(i),
        }
    }
}

impl vstd::std_specs::convert::FromSpecImpl<BoolOrInt> for Option<i64> {
    open spec fn obeys_from_spec() -> bool {
        true
    }

    open spec fn from_spec(b: BoolOrInt) -> Option<i64> {
        match b {
            BoolOrInt::Bool(_) => None,
            BoolOrInt::Int(i) => Some(i),
        }
    }
}

#[derive(Debug, Clone, Copy, PartialEq, Eq, Structural)]
pub enum AswDamageType {
    Dcp,
    Dcr,
}

#[derive(Debug, Clone, PartialEq)]
pub struct EquipBonus {
    pub aa: Option<i64>,
    pub evasion: Option<i64>,
    pub firepower: Option<i64>,
    pub torpedo: Option<i64>,
}

#[derive(Debug, Clone, PartialEq)]
pub enum ImprovementsUnion {
    Bool(bool),
    ImprovementsClass(ImprovementsClass),
}

/// The weekdays on which an improvement is offered.
#[derive(Debug, Clone, PartialEq)]
pub struct WeekInfo {
    pub friday: Option<bool>,
    pub monday: Option<bool>,
    pub saturday: Option<bool>,
    pub sunday: Option<bool>,
    pub thursday: Option<bool>,
    pub tuesday: Option<bool>,
    pub wednesday: Option<bool>,
}

/// The equipment an improvement step consumes: a bare flag, or counts by
/// item name (entries in name order, each name once).
#[derive(Debug, Clone, PartialEq)]
pub enum ImprovmentEquipConsumption {
    Bool(bool),
    ItemMap(Vec<(String, i64)>),
}

#[derive(Debug, Clone, PartialEq)]
pub struct ImprovmentExtraConsumption {
    pub development_material: i64,
    pub development_material_x: StringOrInt,
    pub equipment: ImprovmentEquipConsumption,
    pub improvement_material: i64,
    pub improvement_material_x: StringOrInt,
}

#[derive(Debug, Clone, PartialEq)]
pub enum Product {
    Level2Consumption(ImprovmentExtraConsumption),
    /// Weekdays by secretary ship name (entries in name order).
    Secretary2WeekInfo(Vec<(String, WeekInfo)>),
    Stars(Option<BoolOrInt>),
}

#[derive(Debug, Clone, PartialEq)]
pub struct ImprovementsClass {
    pub ammo: BoolOrInt,
    pub bauxite: BoolOrInt,
    pub fuel: BoolOrInt,
    /// The products by target item name, each with its steps by key (entries in key order).
    pub products: Vec<(String, Vec<(String, Product)>)>,
    pub steel: BoolOrInt,
}

#[derive(Debug, Clone, PartialEq)]
pub struct KcwikiSlotitem {
    pub buildable: bool,
    pub id: i64,
    pub improvements: ImprovementsUnion,
    pub info: String,
    pub japanese_name: String,
    pub name: String,
    pub special: BoolOrString,
    pub flight_cost: Option<BoolOrInt>,
    pub flight_range: Option<BoolOrInt>,
    pub stars: Option<i64>,
    pub can_attack_installations: Option<bool>,
    pub asw_damage_type: Option<AswDamageType>,
}

} // verus!
