//! Actions a player can take, and the prompts through which the engine
//! requests them. Exactly one side holds an actionable prompt at a time; the
//! other side's view renders a waiting indicator.

use vstd::prelude::*;

use crate::primitives::{CardId, RoomId, Side};

verus! {

/// The defending side's choice during the raid activation phase.
#[derive(Clone, Copy, Debug, PartialEq, Eq, Structural)]
pub enum RoomActivationAction {
    /// Activate the room, paying defender reveal costs as encounters begin.
    Activate,
    /// Decline to activate the room.
    Pass,
}

/// The attacking side's choice during a raid encounter.
#[derive(Clone, Copy, Debug, PartialEq, Eq, Structural)]
pub enum EncounterAction {
    /// Use the first card (a weapon) against the second card (the defending
    /// minion).
    UseWeaponAbility(CardId, CardId),
    /// Proceed without using a weapon, allowing the minion's combat ability
    /// to fire.
    NoWeapon,
}

/// The attacking side's choice between encounters.
#[derive(Clone, Copy, Debug, PartialEq, Eq, Structural)]
pub enum ContinueAction {
    /// Proceed to the next defender's encounter.
    Advance,
    /// Abandon the raid, ending it in failure.
    Retreat,
}

/// An option presented to a player in a [`Prompt`].
#[derive(Clone, Copy, Debug, PartialEq, Eq, Structural)]
pub enum PromptAction {
    ActivateRoomAction(RoomActivationAction),
    EncounterAction(EncounterAction),
    ContinueAction(ContinueAction),
    /// Score the indicated accessed card.
    RaidScoreCard(CardId),
    /// Destroy the indicated accessed card.
    RaidDestroyCard(CardId),
    /// End the current raid in success from the access phase.
    EndRaid,
}

/// Additional context for which choice a prompt represents, used by the
/// display layer.
#[derive(Clone, Copy, Debug, PartialEq, Eq, Structural)]
pub enum PromptContext {
    ActivateRoom,
    RaidAdvance,
}

/// A choice presented to one player. The responses are the only actions the
/// engine will accept from that player while the prompt is set.
#[derive(Clone, Debug)]
pub struct Prompt {
    pub context: Option<PromptContext>,
    pub responses: Vec<PromptAction>,
}

/// Ghost projection of a [`Prompt`].
pub ghost struct PromptModel {
    pub context: Option<PromptContext>,
    pub responses: Seq<PromptAction>,
}

impl View for Prompt {
    type V = PromptModel;

    open spec fn view(&self) -> PromptModel {
        PromptModel { context: self.context, responses: self.responses@ }
    }
}

/// A top-level action requested by a player at the engine's boundary.
#[derive(Clone, Copy, Debug, PartialEq, Eq, Structural)]
pub enum GameAction {
    /// Spend an action point to gain one mana.
    GainMana,
    /// Spend an action point to initiate a raid against a room.
    InitiateRaid(RoomId),
    /// Answer the current prompt.
    PromptAction(PromptAction),
}

/// A recoverable rejection: the requested action is not currently permitted.
/// Rejected actions leave the game unchanged.
#[derive(Clone, Copy, Debug, PartialEq, Eq, Structural)]
pub enum ActionError {
    /// The acting side does not hold the current prompt, a permission flag
    /// denies the action, a cost cannot be paid, or the target is invalid.
    IllegalAction,
}

/// The side which acts during the given raid phase: the Overlord decides
/// activation; the Champion decides encounters, continuation and access.
pub open spec fn spec_prompt_side(phase: crate::game::RaidPhase) -> Side {
    match phase {
        crate::game::RaidPhase::Activation => Side::Overlord,
        _ => Side::Champion,
    }
}

} // verus!
