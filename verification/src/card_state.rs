//! State of cards during an ongoing game.

use vstd::prelude::*;

use crate::primitives::{
    BoostCount, CardId, CardName, ItemLocation, LevelValue, ManaValue, RoomId, RoomLocation, Side,
    SortingKey,
};

verus! {

/// Identifies the location of a card during an active game.
#[derive(Clone, Copy, Debug, PartialEq, Eq, Structural)]
pub enum CardPosition {
    /// An unspecified random position within a user's deck. The default
    /// position of all cards when a new game is started.
    DeckUnknown(Side),
    /// A card which is known to at least one player to be on the top of a
    /// deck.
    DeckTop(Side),
    Hand(Side),
    Room(RoomId, RoomLocation),
    ArenaItem(ItemLocation),
    DiscardPile(Side),
    Scored(Side),
    /// Marks the identity card for a side. It is an error for a game to
    /// contain more than one identity card per side.
    Identity(Side),
}

/// The kind of a [`CardPosition`], with the qualifying data removed.
#[derive(Clone, Copy, Debug, PartialEq, Eq, Structural)]
pub enum CardPositionKind {
    DeckUnknown,
    DeckTop,
    Hand,
    Room,
    ArenaItem,
    DiscardPile,
    Scored,
    Identity,
}

impl CardPosition {
    /// Returns the [`CardPositionKind`] for this position.
    pub fn kind(&self) -> (r: CardPositionKind)
        ensures
            r == self.spec_kind(),
    {
        match self {
            CardPosition::DeckUnknown(_) => CardPositionKind::DeckUnknown,
            CardPosition::DeckTop(_) => CardPositionKind::DeckTop,
            CardPosition::Hand(_) => CardPositionKind::Hand,
            CardPosition::Room(_, _) => CardPositionKind::Room,
            CardPosition::ArenaItem(_) => CardPositionKind::ArenaItem,
            CardPosition::DiscardPile(_) => CardPositionKind::DiscardPile,
            CardPosition::Scored(_) => CardPositionKind::Scored,
            CardPosition::Identity(_) => CardPositionKind::Identity,
        }
    }

    /// Specification counterpart of [`Self::kind`].
    pub open spec fn spec_kind(self) -> CardPositionKind {
        match self {
            CardPosition::DeckUnknown(_) => CardPositionKind::DeckUnknown,
            CardPosition::DeckTop(_) => CardPositionKind::DeckTop,
            CardPosition::Hand(_) => CardPositionKind::Hand,
            CardPosition::Room(_, _) => CardPositionKind::Room,
            CardPosition::ArenaItem(_) => CardPositionKind::ArenaItem,
            CardPosition::DiscardPile(_) => CardPositionKind::DiscardPile,
            CardPosition::Scored(_) => CardPositionKind::Scored,
            CardPosition::Identity(_) => CardPositionKind::Identity,
        }
    }

    /// Returns true if this card is in a room or has been played as an item.
    pub fn in_play(&self) -> (r: bool)
        ensures
            r == self.spec_in_play(),
    {
        let kind = self.kind();
        kind == CardPositionKind::Room || kind == CardPositionKind::ArenaItem
    }

    /// Specification counterpart of [`Self::in_play`].
    pub open spec fn spec_in_play(self) -> bool {
        self.spec_kind() == CardPositionKind::Room || self.spec_kind()
            == CardPositionKind::ArenaItem
    }

    /// Returns true if this card is in a user's hand.
    pub fn in_hand(&self) -> (r: bool)
        ensures
            r == self.spec_in_hand(),
    {
        self.kind() == CardPositionKind::Hand
    }

    /// Specification counterpart of [`Self::in_hand`].
    pub open spec fn spec_in_hand(self) -> bool {
        self.spec_kind() == CardPositionKind::Hand
    }

    /// Returns true if this card is in a known or unknown deck position.
    pub fn in_deck(&self) -> (r: bool)
        ensures
            r == self.spec_in_deck(),
    {
        let kind = self.kind();
        kind == CardPositionKind::DeckUnknown || kind == CardPositionKind::DeckTop
    }

    /// Specification counterpart of [`Self::in_deck`].
    pub open spec fn spec_in_deck(self) -> bool {
        self.spec_kind() == CardPositionKind::DeckUnknown || self.spec_kind()
            == CardPositionKind::DeckTop
    }

    /// Returns true if this card is in a user's discard pile.
    pub fn in_discard_pile(&self) -> (r: bool)
        ensures
            r == self.spec_in_discard_pile(),
    {
        self.kind() == CardPositionKind::DiscardPile
    }

    /// Specification counterpart of [`Self::in_discard_pile`].
    pub open spec fn spec_in_discard_pile(self) -> bool {
        self.spec_kind() == CardPositionKind::DiscardPile
    }

    /// Returns true if this card occupies the indicated room.
    pub fn is_room_occupant(&self, room_id: RoomId) -> (r: bool)
        ensures
            r == self.spec_is_room_occupant(room_id),
    {
        match self {
            CardPosition::Room(room, location) => *room == room_id && *location
                == RoomLocation::Occupant,
            _ => false,
        }
    }

    /// Specification counterpart of [`Self::is_room_occupant`].
    pub open spec fn spec_is_room_occupant(self, room_id: RoomId) -> bool {
        self == CardPosition::Room(room_id, RoomLocation::Occupant)
    }

    /// Returns true if this card defends the indicated room.
    pub fn is_room_defender(&self, room_id: RoomId) -> (r: bool)
        ensures
            r == self.spec_is_room_defender(room_id),
    {
        match self {
            CardPosition::Room(room, location) => *room == room_id && *location
                == RoomLocation::Defender,
            _ => false,
        }
    }

    /// Specification counterpart of [`Self::is_room_defender`].
    pub open spec fn spec_is_room_defender(self, room_id: RoomId) -> bool {
        self == CardPosition::Room(room_id, RoomLocation::Defender)
    }

    /// Returns true if this card is in a user's score pile.
    pub fn in_score_pile(&self) -> (r: bool)
        ensures
            r == self.spec_in_score_pile(),
    {
        self.kind() == CardPositionKind::Scored
    }

    /// Specification counterpart of [`Self::in_score_pile`].
    pub open spec fn spec_in_score_pile(self) -> bool {
        self.spec_kind() == CardPositionKind::Scored
    }
}

/// Stores the state of a specific ability of a card.
#[derive(Clone, Copy, Debug, PartialEq, Eq, Structural, Default)]
pub struct AbilityState {}

/// Optional card state: properties which are not universal.
#[derive(Clone, Copy, Debug, PartialEq, Eq, Structural)]
pub struct CardData {
    /// How many times has this card been leveled up?
    pub card_level: LevelValue,
    /// How many times the boost ability of this card has been activated --
    /// typically used to increase weapon attack power during a raid.
    pub boost_count: BoostCount,
    /// How much mana is stored in this card?
    pub stored_mana: ManaValue,
    /// Is this card revealed to the owning side?
    pub revealed_to_owner: bool,
    /// Is this card revealed to the opponent of the owning side?
    pub revealed_to_opponent: bool,
}

impl CardData {
    /// Card data for a card that nobody has seen yet.
    pub fn hidden() -> (r: CardData)
        ensures
            r == CardData::spec_hidden(),
    {
        CardData {
            card_level: 0,
            boost_count: 0,
            stored_mana: 0,
            revealed_to_owner: false,
            revealed_to_opponent: false,
        }
    }

    /// Specification counterpart of [`Self::hidden`].
    pub open spec fn spec_hidden() -> CardData {
        CardData {
            card_level: 0,
            boost_count: 0,
            stored_mana: 0,
            revealed_to_owner: false,
            revealed_to_opponent: false,
        }
    }
}

/// Stores the state of a card during an ongoing game. The game rules for a
/// card are not part of its state; see
/// [`crate::card_definition::CardDefinition`] for that.
#[derive(Clone, Copy, Debug, PartialEq, Eq, Structural)]
pub struct CardState {
    /// ID for this card.
    pub id: CardId,
    /// Card name, used to look up this card's definition.
    pub name: CardName,
    /// Player who owns this card. Always equal to `id.side`.
    pub side: Side,
    /// Optional state for this card.
    pub data: CardData,
    /// Opaque value identifying this card's sort order within its
    /// [`CardPosition`]. Higher sorting keys are closer to the 'top' or
    /// 'front' of the position.
    pub sorting_key: SortingKey,
    /// Where this card is located in the game.
    pub position: CardPosition,
}

impl CardState {
    /// Creates a new card state, placing the card into the owning player's
    /// deck. If `is_identity` is true, the card is instead marked as revealed
    /// and placed into the player's identity zone.
    pub fn new(id: CardId, name: CardName, is_identity: bool) -> (r: CardState)
        ensures
            r == CardState::spec_new(id, name, is_identity),
    {
        CardState {
            id,
            name,
            side: id.side,
            position: if is_identity {
                CardPosition::Identity(id.side)
            } else {
                CardPosition::DeckUnknown(id.side)
            },
            sorting_key: 0,
            data: CardData {
                revealed_to_owner: is_identity,
                revealed_to_opponent: is_identity,
                ..CardData::hidden()
            },
        }
    }

    /// Specification counterpart of [`Self::new`].
    pub open spec fn spec_new(id: CardId, name: CardName, is_identity: bool) -> CardState {
        CardState {
            id,
            name,
            side: id.side,
            position: if is_identity {
                CardPosition::Identity(id.side)
            } else {
                CardPosition::DeckUnknown(id.side)
            },
            sorting_key: 0,
            data: CardData {
                revealed_to_owner: is_identity,
                revealed_to_opponent: is_identity,
                ..CardData::spec_hidden()
            },
        }
    }

    /// Where this card is located in the game.
    pub fn position(&self) -> (r: CardPosition)
        ensures
            r == self.position,
    {
        self.position
    }

    /// Sets the position of this card. Please use
    /// [`crate::game::GameState::move_card`] instead of invoking this
    /// directly: that primitive keeps sorting keys globally consistent.
    pub fn set_position(&mut self, sorting_key: SortingKey, position: CardPosition)
        ensures
            *final(self) == (CardState { sorting_key, position, ..*old(self) }),
    {
        self.sorting_key = sorting_key;
        self.position = position;
    }

    /// Sets whether this card is revealed to the `side` player.
    pub fn set_revealed_to(&mut self, side: Side, revealed: bool)
        ensures
            *final(self) == old(self).spec_with_revealed_to(side, revealed),
    {
        if self.id.side == side {
            self.data.revealed_to_owner = revealed;
        } else {
            self.data.revealed_to_opponent = revealed;
        }
    }

    /// The card state produced by [`Self::set_revealed_to`].
    pub open spec fn spec_with_revealed_to(self, side: Side, revealed: bool) -> CardState {
        if self.id.side == side {
            CardState { data: CardData { revealed_to_owner: revealed, ..self.data }, ..self }
        } else {
            CardState { data: CardData { revealed_to_opponent: revealed, ..self.data }, ..self }
        }
    }

    /// Returns true if this card is currently revealed to the indicated
    /// player.
    pub fn is_revealed_to(&self, side: Side) -> (r: bool)
        ensures
            r == self.spec_is_revealed_to(side),
    {
        if self.id.side == side {
            self.data.revealed_to_owner
        } else {
            self.data.revealed_to_opponent
        }
    }

    /// Specification counterpart of [`Self::is_revealed_to`].
    pub open spec fn spec_is_revealed_to(self, side: Side) -> bool {
        if self.id.side == side {
            self.data.revealed_to_owner
        } else {
            self.data.revealed_to_opponent
        }
    }

    /// Returns true if this card is anywhere within the indicated room.
    pub fn is_in_room(&self, room_id: RoomId) -> (r: bool)
        ensures
            r == self.spec_is_in_room(room_id),
    {
        match self.position {
            CardPosition::Room(id, _) => id == room_id,
            _ => false,
        }
    }

    /// Specification counterpart of [`Self::is_in_room`].
    pub open spec fn spec_is_in_room(self, room_id: RoomId) -> bool {
        match self.position {
            CardPosition::Room(id, _) => id == room_id,
            _ => false,
        }
    }
}

} // verus!
