//! The kcwiki slot-item records of the older extra-info file.
use std::collections::BTreeMap;

use vstd::prelude::*;

verus! {

#[derive(Debug, Clone, PartialEq)]
pub enum BoolOrString {
    Bool(bool),
    String(String),
}

#[derive(Debug, Clone, Copy, PartialEq, Eq, Structural)]
pub enum BoolOrInt {
    Bool(bool),
    Int(i64),
}

#[derive(Debug, Clone, PartialEq)]
pub enum StringOrInt {
    String(String),
    Int(i64),
}

#[derive(Debug, Clone, Copy, PartialEq, Eq, Structural)]
pub enum AswDamageType {
    Dcp,
    Dcr,
}

#[derive(Debug, Clone, PartialEq)]
pub struct EquipBonus {
    pub aa: Option<i64>,
    pub evasion: Option<i64>,
    pub firepower: Option<i64>,
    pub torpedo: Option<i64>,
}

#[derive(Debug, Clone, PartialEq)]
pub enum ImprovementsUnion {
    Bool(bool),
    ImprovementsClass(ImprovementsClass),
}

/// The weekdays on which an improvement is offered.
#[derive(Debug, Clone, PartialEq)]
pub struct WeekInfo {
    pub friday: Option<bool>,
    pub monday: Option<bool>,
    pub saturday: Option<bool>,
    pub sunday: Option<bool>,
    pub thursday: Option<bool>,
    pub tuesday: Option<bool>,
    pub wednesday: Option<bool>,
}

#[derive(Debug, Clone, PartialEq)]
pub enum ImprovmentEquipConsumption {
    Bool(bool),
    ItemMap(BTreeMap<String, i64>),
}

#[derive(Debug, Clone, PartialEq)]
pub struct ImprovmentExtraConsumption {
    pub development_material: i64,
    pub development_material_x: StringOrInt,
    pub equipment: ImprovmentEquipConsumption,
    pub improvement_material: i64,
    pub improvement_material_x: StringOrInt,
}

#[derive(Debug, Clone, PartialEq)]
pub enum Product {
    Level2Consumption(ImprovmentExtraConsumption),
    Secretary2WeekInfo(BTreeMap<String, WeekInfo>),
    Stars(Option<BoolOrInt>),
}

#[derive(Debug, Clone, PartialEq)]
pub struct ImprovementsClass {
    pub ammo: BoolOrInt,
    pub bauxite: BoolOrInt,
    pub fuel: BoolOrInt,
    pub products: BTreeMap<String, BTreeMap<String, Product>>,
    pub steel: BoolOrInt,
}

#[derive(Debug, Clone, PartialEq)]
pub struct KcwikiSlotitem {
    pub buildable: bool,
    pub id: i64,
    pub improvements: ImprovementsUnion,
    pub info: String,
    pub japanese_name: String,
    pub name: String,
    pub special: BoolOrString,
    pub bonus: Option<BTreeMap<String, EquipBonus>>,
    pub gun_fit_group: Option<String>,
    pub flight_cost: Option<BoolOrInt>,
    pub flight_range: Option<BoolOrInt>,
    pub stars: Option<i64>,
    pub can_attack_installations: Option<bool>,
    pub asw_damage_type: Option<AswDamageType>,
}

} // verus!
