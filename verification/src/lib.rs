//! Game rules of a turn-based spirit-realm RPG: ability ids and the ability
//! tree, the five-phase element wheel, stat pools, equipment, turn order,
//! behaviour trees, world travel and the data editors' request logic.

pub mod ability_id;
pub mod gogyo;
pub mod ability;
pub mod stats;
pub mod dice;
pub mod ability_tree;
pub mod ai_decision;
pub mod text;
pub mod position;
pub mod areas;
pub mod editor;
pub mod turn_order;
pub mod equipment;
pub mod resurrection;
pub mod combat_rules;
pub mod items;
pub mod activities;
pub mod characters;
pub mod cities;
pub mod hud;
pub mod battle;
pub mod actions;
pub mod dialogue_editor;
pub mod overlay;
