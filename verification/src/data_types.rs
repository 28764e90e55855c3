//! Records of the third-party data sources, as the parsers hand them on.
use std::collections::HashMap;

use vstd::prelude::*;

verus! {

/// A value of the kc3kai quote table.
#[derive(Debug, Clone)]
pub enum QuoteValue {
    Integer(i64),
    String(String),
    StringMap(HashMap<String, String>),
}

/// One expedition of the KCanotify data.
#[derive(Debug, Clone, PartialEq)]
pub struct KCanotifyExpedition {
    /// Expedition number.
    pub id: String,
    /// Expedition code (e.g. "1", "A1", "B2").
    pub code: String,
    pub area: i64,
    pub name: KCanotifyExpeditionName,
    /// Duration in minutes.
    pub time: i64,
    /// Fuel, ammo, steel, bauxite.
    pub resource: [i64; 4],
    /// `[item_id, count]` pairs.
    pub reward: Vec<[i64; 2]>,
    /// Admiral and fleet experience.
    pub exp: [i64; 2],
    pub total_num: i64,
    pub flagship_level: Option<i64>,
    pub total_level: Option<i64>,
    pub flagship_type: Option<String>,
    pub total_condition: Option<String>,
    pub total_firepower: Option<i64>,
    pub total_fp: Option<i64>,
    pub total_asw: Option<i64>,
    pub total_los: Option<i64>,
    pub drum_ship: Option<i64>,
    pub drum_num: Option<i64>,
    pub drum_num_optional: Option<i64>,
}

/// An expedition's name in each language of the data.
#[derive(Debug, Clone, PartialEq)]
pub struct KCanotifyExpeditionName {
    pub jp: String,
    pub ko: String,
    pub en: String,
    pub scn: String,
    pub tcn: String,
}

/// One equipment slot of a kcwiki ship record.
#[derive(Debug, Clone, PartialEq)]
pub struct Equipment {
    pub equipment: Option<crate::kcwiki_types::BoolOrString>,
    pub size: i64,
    pub stars: Option<i64>,
}

/// A captured `api_req_map/start` response kept with the program.
#[derive(Debug, Clone, PartialEq, Eq)]
pub struct RealMapStartAsset {
    /// Display name of the asset (e.g. `"map_1-1.json"`).
    pub name: &'static str,
    raw_json: &'static str,
}

impl RealMapStartAsset {
    /// The asset's display name. The struct has a private field, so Verus
    /// keeps its fields out of public contracts; this function stands for
    /// the `name` field there.
    pub closed spec fn name_spec(&self) -> &'static str {
        self.name
    }

    /// The asset's JSON body.
    pub closed spec fn raw_json_spec(&self) -> &'static str {
        self.raw_json
    }

    pub fn new(name: &'static str, raw_json: &'static str) -> (r: Self)
        ensures
            r.name_spec() == name,
            r.raw_json_spec() == raw_json,
    {
        RealMapStartAsset { name, raw_json }
    }

    /// The raw JSON body of the captured response.
    pub fn raw_json(&self) -> (r: &'static str)
        ensures
            r == self.raw_json_spec(),
    {
        self.raw_json
    }
}

} // verus!
