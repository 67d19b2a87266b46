//! Fundamental identifiers and numeric kinds used throughout the engine.

use vstd::prelude::*;

verus! {

/// Value of a player's mana pool.
pub type ManaValue = u32;
/// Number of actions a player has available.
pub type ActionCount = u32;
/// Victory points scored by a player.
pub type PointsValue = u32;
/// Number of times a card has been leveled up.
pub type LevelValue = u32;
/// Number of times a card's boost ability has been activated.
pub type BoostCount = u32;
/// Attack strength of a card.
pub type AttackValue = u32;
/// Health of a card.
pub type HealthValue = u32;
/// Shield value of a card.
pub type ShieldValue = u32;
/// Turn number within a game, counted per player.
pub type TurnNumber = u32;
/// Sorting key stamped on a card at each reposition; see
/// [`crate::game::GameState::move_card`].
pub type SortingKey = u32;

/// Unique identifier for an ongoing game.
#[derive(Clone, Copy, Debug, PartialEq, Eq, Structural)]
pub struct GameId(pub u64);

/// Unique identifier for a raid within a game.
#[derive(Clone, Copy, Debug, PartialEq, Eq, Structural)]
pub struct RaidId(pub u64);

/// One of the two fixed player roles. The two sides are exactly symmetric in
/// mechanism and asymmetric only in the abilities available to them: the
/// Overlord defends rooms and the Champion raids them.
#[derive(Clone, Copy, Debug, PartialEq, Eq, Structural)]
pub enum Side {
    Overlord,
    Champion,
}

impl Side {
    /// The opposing side.
    pub fn opponent(self) -> (r: Side)
        ensures
            r == self.spec_opponent(),
    {
        match self {
            Side::Overlord => Side::Champion,
            Side::Champion => Side::Overlord,
        }
    }

    /// Specification counterpart of [`Self::opponent`].
    pub open spec fn spec_opponent(self) -> Side {
        match self {
            Side::Overlord => Side::Champion,
            Side::Champion => Side::Overlord,
        }
    }
}

/// Identifies a card within a game: the owning side plus an immutable slot
/// index within that side's card vector. Stable for a card's entire lifetime.
#[derive(Clone, Copy, Debug, PartialEq, Eq, Structural)]
pub struct CardId {
    pub side: Side,
    pub index: usize,
}

impl CardId {
    pub fn new(side: Side, index: usize) -> (r: CardId)
        ensures
            r == (CardId { side, index }),
    {
        CardId { side, index }
    }
}

/// Position of one named ability within a card's static definition.
#[derive(Clone, Copy, Debug, PartialEq, Eq, Structural)]
pub struct AbilityIndex(pub usize);

/// Identifies one ability belonging to a card's static definition.
#[derive(Clone, Copy, Debug, PartialEq, Eq, Structural)]
pub struct AbilityId {
    pub card_id: CardId,
    pub index: AbilityIndex,
}

impl AbilityId {
    pub fn new(card_id: CardId, index: AbilityIndex) -> (r: AbilityId)
        ensures
            r == (AbilityId { card_id, index }),
    {
        AbilityId { card_id, index }
    }
}

/// Name of a card, used to look up its definition in the catalogue. Names are
/// canonical ordinals: delegate dispatch order within a side follows this
/// ordering, so two distinct card designs must use two distinct ordinals.
#[derive(Clone, Copy, Debug, PartialEq, Eq, Structural)]
pub struct CardName(pub u32);

/// Identifies a room: one of the Overlord's zones that the Champion can raid.
/// `Vault`, `Sanctum` and `Crypts` are the inner rooms backed by the
/// Overlord's deck, hand and discard pile; the lettered rooms are outer rooms
/// holding occupant cards.
#[derive(Clone, Copy, Debug, PartialEq, Eq, Structural)]
pub enum RoomId {
    Vault,
    Sanctum,
    Crypts,
    RoomA,
    RoomB,
    RoomC,
    RoomD,
    RoomE,
}

impl RoomId {
    /// Returns true for the inner rooms, which can be raided even when no
    /// card occupies them.
    pub fn is_inner_room(self) -> (r: bool)
        ensures
            r == self.spec_is_inner_room(),
    {
        match self {
            RoomId::Vault | RoomId::Sanctum | RoomId::Crypts => true,
            _ => false,
        }
    }

    /// Specification counterpart of [`Self::is_inner_room`].
    pub open spec fn spec_is_inner_room(self) -> bool {
        self == RoomId::Vault || self == RoomId::Sanctum || self == RoomId::Crypts
    }
}

/// Distinguishes the two groups of cards within a room: minions defending it
/// and cards occupying it.
#[derive(Clone, Copy, Debug, PartialEq, Eq, Structural)]
pub enum RoomLocation {
    Defender,
    Occupant,
}

/// Location of a card played as an item into the Champion's play area.
#[derive(Clone, Copy, Debug, PartialEq, Eq, Structural)]
pub enum ItemLocation {
    Weapons,
    Artifacts,
}

/// General categories of cards, used to decide which raid access action a
/// card offers.
#[derive(Clone, Copy, Debug, PartialEq, Eq, Structural)]
pub enum CardType {
    Spell,
    Weapon,
    Artifact,
    Minion,
    Project,
    Scheme,
    Upgrade,
    Identity,
}

/// Payload for a weapon boost activation: the boosted card and the number of
/// activations purchased.
#[derive(Clone, Copy, Debug, PartialEq, Eq, Structural)]
pub struct BoostData {
    pub card_id: CardId,
    pub count: BoostCount,
}

} // verus!
