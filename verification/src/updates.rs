//! Records describing game-visible changes, produced by the mutation
//! primitives for the external display-sync collaborator. The log may be
//! absent entirely when update tracking is disabled (simulation mode).

use vstd::prelude::*;

use crate::delegates::RaidOutcome;
use crate::primitives::{ActionCount, CardId, ManaValue, PointsValue, RoomId, Side};

verus! {

/// One game-visible change, appended by a mutation primitive and consumed
/// once per response cycle by the display layer.
#[derive(Clone, Copy, Debug, PartialEq, Eq, Structural)]
pub enum GameUpdate {
    /// A player's turn started.
    StartTurn(Side),
    /// A card was repositioned.
    MoveCard(CardId),
    /// A card became revealed to the indicated side.
    RevealCard(CardId, Side),
    /// A player's mana total changed to the recorded value.
    ManaChange(Side, ManaValue),
    /// A player's action total changed to the recorded value.
    ActionsChange(Side, ActionCount),
    /// A player's score changed to the recorded value.
    ScoreChange(Side, PointsValue),
    /// Damage was dealt to the Champion, discarding this many cards.
    DealtDamage(u32),
    /// A raid against the recorded room began.
    InitiateRaid(RoomId),
    /// A card was scored by the indicated player.
    ScoreCard(Side, CardId),
    /// The ongoing raid ended with the recorded outcome.
    RaidEnded(RaidOutcome),
}

} // verus!
