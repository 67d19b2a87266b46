//! Rules engine for a two-player asymmetric card game.
//!
//! The engine tracks authoritative game state, resolves card abilities
//! through a generic event/query delegate mechanism, and drives the
//! multi-phase interactive resolution of a raid: an attack by the Champion
//! side against a room controlled by the Overlord side.

pub mod actions;
pub mod card_definition;
pub mod card_state;
pub mod delegates;
pub mod dispatch;
pub mod flags;
pub mod game;
pub mod laws;
pub mod mutations;
pub mod primitives;
pub mod queries;
pub mod raid_actions;
pub mod raid_phases;
pub mod random;
pub mod rules;
pub mod updates;

use vstd::prelude::*;

verus! {

} // verus!
