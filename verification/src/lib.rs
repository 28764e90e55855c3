//! Parsers and validators that turn scraped game-data sources into
//! well-formed records: quest labels, route-table sections, map-route
//! topology checks, name lookups and the text handling they share.
use vstd::prelude::*;

pub mod text;
pub mod error;
pub mod label_type;
pub mod grid;
pub mod pattern;
pub mod route_table;
pub mod route_model;
pub mod map_route_rules;
pub mod progress;
pub mod kcwiki;
pub mod kcwiki_types;
pub mod kcwiki_slot_item;
pub mod kcwiki_slotitem;
pub mod data_types;
pub mod expedition;
pub mod node_label;
pub mod populate;
pub mod kccp_quest;
pub mod label_overlay;
pub mod route_encoding;
pub mod route_text;
pub mod quest_reward;
pub mod tsunkit_nav;
pub mod kcwiki_improvement;
pub mod kaisou;
pub mod kcwiki_enemy;
pub mod kcwiki_ship;
pub mod kc3kai_quote;
pub mod kcwikizh_kcdata;
pub mod tsunkit_quest;
pub mod ship_type;
pub mod tsunkit_requirement;

verus! {

} // verus!
