//! Delegates are the core abstraction of the rules engine.
//!
//! There are two types of delegates: events and queries. Event delegates
//! allow cards to respond to specific events which occur during a game, such
//! as taking an action when a raid begins. Query delegates allow cards to
//! read and intercept requests for game data: for example, the 'attack
//! value' query is used to determine the attack strength of a weapon, and a
//! delegate can transform the requested value.
//!
//! Every delegate carries a requirement which must hold for the delegate to
//! run, and either a mutation (events) or a transformation (queries). The
//! requirement, mutation and transformation are drawn from closed sets of
//! behaviours which the dispatcher matches exhaustively, so the effect of any
//! dispatch is a function of game state, cache and payload alone; see
//! [`crate::dispatch`].
//!
//! Overlord delegates are always invoked before Champion delegates, and
//! within one side they run in canonical card-name order.

use vstd::prelude::*;

use crate::card_state::CardPosition;
use crate::primitives::{
    AbilityId, AttackValue, BoostData, CardId, ManaValue, RaidId, RoomId, Side, TurnNumber,
};

verus! {

/// Identifies the context for a given request to a delegate: which player,
/// card and card ability owns the delegate.
#[derive(Clone, Copy, Debug, PartialEq, Eq, Structural)]
pub struct Scope {
    /// Ability which owns this delegate.
    pub ability_id: AbilityId,
}

impl Scope {
    pub fn new(ability_id: AbilityId) -> (r: Scope)
        ensures
            r == (Scope { ability_id }),
    {
        Scope { ability_id }
    }

    /// Player who owns this scope.
    pub fn side(&self) -> (r: Side)
        ensures
            r == self.ability_id.card_id.side,
    {
        self.ability_id.card_id.side
    }

    /// Ability which owns this scope.
    pub fn ability_id(&self) -> (r: AbilityId)
        ensures
            r == self.ability_id,
    {
        self.ability_id
    }

    /// Card which owns this scope.
    pub fn card_id(&self) -> (r: CardId)
        ensures
            r == self.ability_id.card_id,
    {
        self.ability_id.card_id
    }
}

/// Predicate deciding whether a delegate should run for a given payload.
/// One of a closed set of conditions, evaluated by the dispatcher.
#[derive(Clone, Copy, Debug, PartialEq, Eq, Structural)]
pub enum Requirement {
    /// The delegate always runs.
    Always,
    /// The delegate runs when the payload concerns the card owning the
    /// delegate's scope.
    ThisCard,
}

/// State change performed by an event delegate. One of a closed set of
/// effects, applied by the dispatcher. None of these effects re-enters
/// dispatch: an effect that must itself fire events (ending the raid) is
/// recorded on the game and honoured by the raid driver once the current
/// dispatch pass has finished.
#[derive(Clone, Copy, Debug, PartialEq, Eq, Structural)]
pub enum Mutation {
    /// The indicated player gains mana, saturating at the mana limit.
    GainMana(Side, ManaValue),
    /// Deal damage to the Champion: up to this many cards are discarded from
    /// the Champion's hand, lowest slot index first.
    DealDamage(u32),
    /// Request that the ongoing raid end with the given outcome.
    EndRaid(RaidOutcome),
}

/// Value transformation performed by a query delegate. One of a closed set.
/// A transformation that does not apply to the result type of the query
/// being dispatched leaves the value unchanged.
#[derive(Clone, Copy, Debug, PartialEq, Eq, Structural)]
pub enum Transform {
    /// Replace a numeric query result.
    SetValue(u32),
    /// Add to a numeric query result, saturating.
    AddValue(u32),
    /// Add the payload card's boost count times this bonus to a numeric
    /// query result, saturating. Used by weapons to convert purchased boosts
    /// into attack.
    AddPerBoost(AttackValue),
    /// Incorporate an override into a [`Flag`] query result.
    OverrideFlag(bool),
    /// Replace a mana cost query result.
    SetManaCost(Option<ManaValue>),
}

/// Delegate which responds to a given game event and mutates game state in
/// response.
#[derive(Clone, Copy, Debug, PartialEq, Eq, Structural)]
pub struct EventDelegate {
    /// Must hold for this delegate's `mutation` to run.
    pub requirement: Requirement,
    /// Modifies the current game in response to the associated event.
    pub mutation: Mutation,
}

impl EventDelegate {
    pub fn new(requirement: Requirement, mutation: Mutation) -> (r: EventDelegate)
        ensures
            r == (EventDelegate { requirement, mutation }),
    {
        EventDelegate { requirement, mutation }
    }
}

/// Delegate which intercepts and transforms a query for game information.
#[derive(Clone, Copy, Debug, PartialEq, Eq, Structural)]
pub struct QueryDelegate {
    /// Must hold for this delegate's `transformation` to run.
    pub requirement: Requirement,
    /// Takes the current value of some piece of game information and returns
    /// a transformed value for it.
    pub transformation: Transform,
}

impl QueryDelegate {
    pub fn new(requirement: Requirement, transformation: Transform) -> (r: QueryDelegate)
        ensures
            r == (QueryDelegate { requirement, transformation }),
    {
        QueryDelegate { requirement, transformation }
    }
}

/// A Flag is a variant of boolean which typically indicates whether some
/// game action can currently be taken. Flags have a 'default' state, which
/// is the value of the flag based on standard game rules, and an 'override'
/// state, which is a value set by specific delegates. An override of 'false'
/// takes precedence over an override of 'true': once any delegate has
/// overridden the flag to false, no later delegate can override it back to
/// true, while overriding to true is a no-op unless the flag is still in its
/// untouched default state.
#[derive(Clone, Copy, Debug, PartialEq, Eq, Structural)]
pub enum Flag {
    /// Initial value of this flag.
    Default(bool),
    /// Override for this flag set by a delegate.
    Override(bool),
}

impl Flag {
    pub fn new(value: bool) -> (r: Flag)
        ensures
            r == Flag::Default(value),
    {
        Flag::Default(value)
    }

    /// Incorporates an override into this flag, following the precedence
    /// rules described above.
    pub fn with_override(self, value: bool) -> (r: Flag)
        ensures
            r == self.spec_with_override(value),
    {
        match self {
            Flag::Default(_) => Flag::Override(value),
            Flag::Override(current) => Flag::Override(current && value),
        }
    }

    /// Specification counterpart of [`Self::with_override`].
    pub open spec fn spec_with_override(self, value: bool) -> Flag {
        match self {
            Flag::Default(_) => Flag::Override(value),
            Flag::Override(current) => Flag::Override(current && value),
        }
    }

    /// The plain boolean this flag resolves to.
    pub fn resolve(self) -> (r: bool)
        ensures
            r == self.spec_resolve(),
    {
        match self {
            Flag::Default(value) => value,
            Flag::Override(value) => value,
        }
    }

    /// Specification counterpart of [`Self::resolve`].
    pub open spec fn spec_resolve(self) -> bool {
        match self {
            Flag::Default(value) => value,
            Flag::Override(value) => value,
        }
    }
}

/// Event data for when a card is played.
#[derive(Clone, Copy, Debug, PartialEq, Eq, Structural)]
pub struct CardPlayed {
    pub card_id: CardId,
    /// Room the card targeted when played, if any.
    pub target: Option<RoomId>,
}

/// Event data for when a card is moved.
#[derive(Clone, Copy, Debug, PartialEq, Eq, Structural)]
pub struct CardMoved {
    /// Position before the move.
    pub old_position: CardPosition,
    /// New card position, where the card is now located.
    pub new_position: CardPosition,
}

/// Event data for encounters between cards.
#[derive(Clone, Copy, Debug, PartialEq, Eq, Structural)]
pub struct CardEncounter {
    /// Card initiating the interaction.
    pub source: CardId,
    /// Card being targeted.
    pub target: CardId,
}

impl CardEncounter {
    pub fn new(source: CardId, target: CardId) -> (r: CardEncounter)
        ensures
            r == (CardEncounter { source, target }),
    {
        CardEncounter { source, target }
    }
}

/// Result of a raid.
#[derive(Clone, Copy, Debug, PartialEq, Eq, Structural)]
pub enum RaidOutcome {
    Success,
    Failure,
}

/// Event data when a raid is completed.
#[derive(Clone, Copy, Debug, PartialEq, Eq, Structural)]
pub struct RaidEnded {
    pub raid_id: RaidId,
    pub outcome: RaidOutcome,
}

/// The core of the delegate pattern: identifies which event or which query a
/// delegate wishes to respond to, and wraps the behaviour that runs when it
/// fires.
#[derive(Clone, Copy, Debug, PartialEq, Eq, Structural)]
pub enum Delegate {
    /// The Champion's turn begins.
    Dawn(EventDelegate),
    /// The Overlord's turn begins.
    Dusk(EventDelegate),
    /// A card is moved from a deck position to a hand position.
    DrawCard(EventDelegate),
    /// A card has been selected to play via the play action and should have
    /// additional costs deducted.
    PayCardCosts(EventDelegate),
    /// A card has been played via the play action and has had its costs
    /// paid.
    CastCard(EventDelegate),
    /// A card ability with a cost is activated.
    ActivateAbility(EventDelegate),
    /// A card is moved to a new position.
    MoveCard(EventDelegate),
    /// A card is scored by the Overlord.
    OverlordScoreCard(EventDelegate),
    /// A card is scored by the Champion.
    ChampionScoreCard(EventDelegate),
    /// A raid is initiated.
    RaidBegin(EventDelegate),
    /// A minion is encountered during a raid.
    EncounterBegin(EventDelegate),
    /// A weapon boost is activated for a given card.
    ActivateBoost(EventDelegate),
    /// A minion is defeated during an encounter by dealing damage to it
    /// equal to its health.
    MinionDefeated(EventDelegate),
    /// A minion's combat ability is triggered during an encounter, typically
    /// because the minion was not defeated by the Champion.
    MinionCombatAbility(EventDelegate),
    /// A minion finishes being encountered during a raid, regardless of
    /// whether the encounter was successful.
    EncounterEnd(EventDelegate),
    /// A raid is completed, either successfully or unsuccessfully.
    RaidEnd(EventDelegate),
    /// Stored mana is taken from a card.
    StoredManaTaken(EventDelegate),
    /// Query whether the indicated player can currently take the basic game
    /// action to spend an action point to draw a card.
    CanTakeDrawCardAction(QueryDelegate),
    /// Query whether the indicated player can currently take the basic game
    /// action to spend an action point to gain one mana.
    CanTakeGainManaAction(QueryDelegate),
    /// Query whether a given card can currently be played.
    CanPlayCard(QueryDelegate),
    /// Query whether a given ability can currently be activated.
    CanActivateAbility(QueryDelegate),
    /// Can the indicated player currently take the basic game action to
    /// initiate a raid?
    CanInitiateRaid(QueryDelegate),
    /// Can the indicated player currently take the basic game action to
    /// level up a room?
    CanLevelUpRoom(QueryDelegate),
    /// Can the source card (typically a weapon) take an encounter action
    /// against the target card (typically a minion) during a raid?
    CanEncounterTarget(QueryDelegate),
    /// Can the source card (typically a weapon) apply an encounter action to
    /// defeat the target card (typically a minion) during a raid?
    CanDefeatTarget(QueryDelegate),
    /// Query the current mana cost of a card.
    ManaCost(QueryDelegate),
    /// Query the current mana cost of an ability.
    AbilityManaCost(QueryDelegate),
    /// Query the current action point cost of a card.
    ActionCost(QueryDelegate),
    /// Query the current attack value of a card.
    AttackValue(QueryDelegate),
    /// Query the current health value of a card.
    HealthValue(QueryDelegate),
    /// Query the current shield value of a card.
    ShieldValue(QueryDelegate),
    /// Query the current boost count of a card.
    BoostCount(QueryDelegate),
    /// Query the number of actions a player gets at the start of their turn.
    StartOfTurnActions(QueryDelegate),
    /// Query the number of cards the Champion can access from the Vault
    /// during this raid.
    VaultAccessCount(QueryDelegate),
    /// Query the number of cards the Champion can access from the Sanctum
    /// during this raid.
    SanctumAccessCount(QueryDelegate),
}

/// The kind of event or query a [`Delegate`] responds to, with the behaviour
/// removed.
#[derive(Clone, Copy, Debug, PartialEq, Eq, Structural, Hash)]
pub enum DelegateKind {
    Dawn,
    Dusk,
    DrawCard,
    PayCardCosts,
    CastCard,
    ActivateAbility,
    MoveCard,
    OverlordScoreCard,
    ChampionScoreCard,
    RaidBegin,
    EncounterBegin,
    ActivateBoost,
    MinionDefeated,
    MinionCombatAbility,
    EncounterEnd,
    RaidEnd,
    StoredManaTaken,
    CanTakeDrawCardAction,
    CanTakeGainManaAction,
    CanPlayCard,
    CanActivateAbility,
    CanInitiateRaid,
    CanLevelUpRoom,
    CanEncounterTarget,
    CanDefeatTarget,
    ManaCost,
    AbilityManaCost,
    ActionCost,
    AttackValue,
    HealthValue,
    ShieldValue,
    BoostCount,
    StartOfTurnActions,
    VaultAccessCount,
    SanctumAccessCount,
}

impl Delegate {
    /// The kind of event or query this delegate responds to.
    pub fn kind(&self) -> (r: DelegateKind)
        ensures
            r == self.spec_kind(),
    {
        match self {
            Delegate::Dawn(_) => DelegateKind::Dawn,
            Delegate::Dusk(_) => DelegateKind::Dusk,
            Delegate::DrawCard(_) => DelegateKind::DrawCard,
            Delegate::PayCardCosts(_) => DelegateKind::PayCardCosts,
            Delegate::CastCard(_) => DelegateKind::CastCard,
            Delegate::ActivateAbility(_) => DelegateKind::ActivateAbility,
            Delegate::MoveCard(_) => DelegateKind::MoveCard,
            Delegate::OverlordScoreCard(_) => DelegateKind::OverlordScoreCard,
            Delegate::ChampionScoreCard(_) => DelegateKind::ChampionScoreCard,
            Delegate::RaidBegin(_) => DelegateKind::RaidBegin,
            Delegate::EncounterBegin(_) => DelegateKind::EncounterBegin,
            Delegate::ActivateBoost(_) => DelegateKind::ActivateBoost,
            Delegate::MinionDefeated(_) => DelegateKind::MinionDefeated,
            Delegate::MinionCombatAbility(_) => DelegateKind::MinionCombatAbility,
            Delegate::EncounterEnd(_) => DelegateKind::EncounterEnd,
            Delegate::RaidEnd(_) => DelegateKind::RaidEnd,
            Delegate::StoredManaTaken(_) => DelegateKind::StoredManaTaken,
            Delegate::CanTakeDrawCardAction(_) => DelegateKind::CanTakeDrawCardAction,
            Delegate::CanTakeGainManaAction(_) => DelegateKind::CanTakeGainManaAction,
            Delegate::CanPlayCard(_) => DelegateKind::CanPlayCard,
            Delegate::CanActivateAbility(_) => DelegateKind::CanActivateAbility,
            Delegate::CanInitiateRaid(_) => DelegateKind::CanInitiateRaid,
            Delegate::CanLevelUpRoom(_) => DelegateKind::CanLevelUpRoom,
            Delegate::CanEncounterTarget(_) => DelegateKind::CanEncounterTarget,
            Delegate::CanDefeatTarget(_) => DelegateKind::CanDefeatTarget,
            Delegate::ManaCost(_) => DelegateKind::ManaCost,
            Delegate::AbilityManaCost(_) => DelegateKind::AbilityManaCost,
            Delegate::ActionCost(_) => DelegateKind::ActionCost,
            Delegate::AttackValue(_) => DelegateKind::AttackValue,
            Delegate::HealthValue(_) => DelegateKind::HealthValue,
            Delegate::ShieldValue(_) => DelegateKind::ShieldValue,
            Delegate::BoostCount(_) => DelegateKind::BoostCount,
            Delegate::StartOfTurnActions(_) => DelegateKind::StartOfTurnActions,
            Delegate::VaultAccessCount(_) => DelegateKind::VaultAccessCount,
            Delegate::SanctumAccessCount(_) => DelegateKind::SanctumAccessCount,
        }
    }

    /// Specification counterpart of [`Self::kind`].
    pub open spec fn spec_kind(self) -> DelegateKind {
        match self {
            Delegate::Dawn(_) => DelegateKind::Dawn,
            Delegate::Dusk(_) => DelegateKind::Dusk,
            Delegate::DrawCard(_) => DelegateKind::DrawCard,
            Delegate::PayCardCosts(_) => DelegateKind::PayCardCosts,
            Delegate::CastCard(_) => DelegateKind::CastCard,
            Delegate::ActivateAbility(_) => DelegateKind::ActivateAbility,
            Delegate::MoveCard(_) => DelegateKind::MoveCard,
            Delegate::OverlordScoreCard(_) => DelegateKind::OverlordScoreCard,
            Delegate::ChampionScoreCard(_) => DelegateKind::ChampionScoreCard,
            Delegate::RaidBegin(_) => DelegateKind::RaidBegin,
            Delegate::EncounterBegin(_) => DelegateKind::EncounterBegin,
            Delegate::ActivateBoost(_) => DelegateKind::ActivateBoost,
            Delegate::MinionDefeated(_) => DelegateKind::MinionDefeated,
            Delegate::MinionCombatAbility(_) => DelegateKind::MinionCombatAbility,
            Delegate::EncounterEnd(_) => DelegateKind::EncounterEnd,
            Delegate::RaidEnd(_) => DelegateKind::RaidEnd,
            Delegate::StoredManaTaken(_) => DelegateKind::StoredManaTaken,
            Delegate::CanTakeDrawCardAction(_) => DelegateKind::CanTakeDrawCardAction,
            Delegate::CanTakeGainManaAction(_) => DelegateKind::CanTakeGainManaAction,
            Delegate::CanPlayCard(_) => DelegateKind::CanPlayCard,
            Delegate::CanActivateAbility(_) => DelegateKind::CanActivateAbility,
            Delegate::CanInitiateRaid(_) => DelegateKind::CanInitiateRaid,
            Delegate::CanLevelUpRoom(_) => DelegateKind::CanLevelUpRoom,
            Delegate::CanEncounterTarget(_) => DelegateKind::CanEncounterTarget,
            Delegate::CanDefeatTarget(_) => DelegateKind::CanDefeatTarget,
            Delegate::ManaCost(_) => DelegateKind::ManaCost,
            Delegate::AbilityManaCost(_) => DelegateKind::AbilityManaCost,
            Delegate::ActionCost(_) => DelegateKind::ActionCost,
            Delegate::AttackValue(_) => DelegateKind::AttackValue,
            Delegate::HealthValue(_) => DelegateKind::HealthValue,
            Delegate::ShieldValue(_) => DelegateKind::ShieldValue,
            Delegate::BoostCount(_) => DelegateKind::BoostCount,
            Delegate::StartOfTurnActions(_) => DelegateKind::StartOfTurnActions,
            Delegate::VaultAccessCount(_) => DelegateKind::VaultAccessCount,
            Delegate::SanctumAccessCount(_) => DelegateKind::SanctumAccessCount,
        }
    }

    /// The wrapped [`EventDelegate`], if this delegate responds to an event.
    pub fn event_delegate(&self) -> (r: Option<EventDelegate>)
        ensures
            r == self.spec_event_delegate(),
    {
        match self {
            Delegate::Dawn(d) | Delegate::Dusk(d) | Delegate::DrawCard(d)
                | Delegate::PayCardCosts(d) | Delegate::CastCard(d)
                | Delegate::ActivateAbility(d) | Delegate::MoveCard(d)
                | Delegate::OverlordScoreCard(d) | Delegate::ChampionScoreCard(d)
                | Delegate::RaidBegin(d) | Delegate::EncounterBegin(d)
                | Delegate::ActivateBoost(d) | Delegate::MinionDefeated(d)
                | Delegate::MinionCombatAbility(d) | Delegate::EncounterEnd(d)
                | Delegate::RaidEnd(d) | Delegate::StoredManaTaken(d) => Some(*d),
            _ => None,
        }
    }

    /// Specification counterpart of [`Self::event_delegate`].
    pub open spec fn spec_event_delegate(self) -> Option<EventDelegate> {
        match self {
            Delegate::Dawn(d) | Delegate::Dusk(d) | Delegate::DrawCard(d)
                | Delegate::PayCardCosts(d) | Delegate::CastCard(d)
                | Delegate::ActivateAbility(d) | Delegate::MoveCard(d)
                | Delegate::OverlordScoreCard(d) | Delegate::ChampionScoreCard(d)
                | Delegate::RaidBegin(d) | Delegate::EncounterBegin(d)
                | Delegate::ActivateBoost(d) | Delegate::MinionDefeated(d)
                | Delegate::MinionCombatAbility(d) | Delegate::EncounterEnd(d)
                | Delegate::RaidEnd(d) | Delegate::StoredManaTaken(d) => Some(d),
            _ => None,
        }
    }

    /// The wrapped [`QueryDelegate`], if this delegate responds to a query.
    pub fn query_delegate(&self) -> (r: Option<QueryDelegate>)
        ensures
            r == self.spec_query_delegate(),
    {
        match self {
            Delegate::CanTakeDrawCardAction(d) | Delegate::CanTakeGainManaAction(d)
                | Delegate::CanPlayCard(d) | Delegate::CanActivateAbility(d)
                | Delegate::CanInitiateRaid(d) | Delegate::CanLevelUpRoom(d)
                | Delegate::CanEncounterTarget(d) | Delegate::CanDefeatTarget(d)
                | Delegate::ManaCost(d) | Delegate::AbilityManaCost(d)
                | Delegate::ActionCost(d) | Delegate::AttackValue(d)
                | Delegate::HealthValue(d) | Delegate::ShieldValue(d)
                | Delegate::BoostCount(d) | Delegate::StartOfTurnActions(d)
                | Delegate::VaultAccessCount(d) | Delegate::SanctumAccessCount(d) => Some(*d),
            _ => None,
        }
    }

    /// Specification counterpart of [`Self::query_delegate`].
    pub open spec fn spec_query_delegate(self) -> Option<QueryDelegate> {
        match self {
            Delegate::CanTakeDrawCardAction(d) | Delegate::CanTakeGainManaAction(d)
                | Delegate::CanPlayCard(d) | Delegate::CanActivateAbility(d)
                | Delegate::CanInitiateRaid(d) | Delegate::CanLevelUpRoom(d)
                | Delegate::CanEncounterTarget(d) | Delegate::CanDefeatTarget(d)
                | Delegate::ManaCost(d) | Delegate::AbilityManaCost(d)
                | Delegate::ActionCost(d) | Delegate::AttackValue(d)
                | Delegate::HealthValue(d) | Delegate::ShieldValue(d)
                | Delegate::BoostCount(d) | Delegate::StartOfTurnActions(d)
                | Delegate::VaultAccessCount(d) | Delegate::SanctumAccessCount(d) => Some(d),
            _ => None,
        }
    }
}

/// An event dispatched through the delegate cache, carrying its payload.
#[derive(Clone, Copy, Debug, PartialEq, Eq, Structural)]
pub enum GameEvent {
    Dawn(TurnNumber),
    Dusk(TurnNumber),
    DrawCard(CardId),
    PayCardCosts(CardId),
    CastCard(CardPlayed),
    ActivateAbility(AbilityId),
    MoveCard(CardId, CardMoved),
    OverlordScoreCard(CardId),
    ChampionScoreCard(CardId),
    RaidBegin(RaidId),
    EncounterBegin(RaidId),
    ActivateBoost(BoostData),
    MinionDefeated(CardId),
    MinionCombatAbility(CardId),
    EncounterEnd(RaidId),
    RaidEnd(RaidEnded),
    StoredManaTaken(CardId),
}

impl GameEvent {
    /// The delegate kind this event is dispatched to.
    pub fn kind(&self) -> (r: DelegateKind)
        ensures
            r == self.spec_kind(),
    {
        match self {
            GameEvent::Dawn(_) => DelegateKind::Dawn,
            GameEvent::Dusk(_) => DelegateKind::Dusk,
            GameEvent::DrawCard(_) => DelegateKind::DrawCard,
            GameEvent::PayCardCosts(_) => DelegateKind::PayCardCosts,
            GameEvent::CastCard(_) => DelegateKind::CastCard,
            GameEvent::ActivateAbility(_) => DelegateKind::ActivateAbility,
            GameEvent::MoveCard(_, _) => DelegateKind::MoveCard,
            GameEvent::OverlordScoreCard(_) => DelegateKind::OverlordScoreCard,
            GameEvent::ChampionScoreCard(_) => DelegateKind::ChampionScoreCard,
            GameEvent::RaidBegin(_) => DelegateKind::RaidBegin,
            GameEvent::EncounterBegin(_) => DelegateKind::EncounterBegin,
            GameEvent::ActivateBoost(_) => DelegateKind::ActivateBoost,
            GameEvent::MinionDefeated(_) => DelegateKind::MinionDefeated,
            GameEvent::MinionCombatAbility(_) => DelegateKind::MinionCombatAbility,
            GameEvent::EncounterEnd(_) => DelegateKind::EncounterEnd,
            GameEvent::RaidEnd(_) => DelegateKind::RaidEnd,
            GameEvent::StoredManaTaken(_) => DelegateKind::StoredManaTaken,
        }
    }

    /// Specification counterpart of [`Self::kind`].
    pub open spec fn spec_kind(self) -> DelegateKind {
        match self {
            GameEvent::Dawn(_) => DelegateKind::Dawn,
            GameEvent::Dusk(_) => DelegateKind::Dusk,
            GameEvent::DrawCard(_) => DelegateKind::DrawCard,
            GameEvent::PayCardCosts(_) => DelegateKind::PayCardCosts,
            GameEvent::CastCard(_) => DelegateKind::CastCard,
            GameEvent::ActivateAbility(_) => DelegateKind::ActivateAbility,
            GameEvent::MoveCard(_, _) => DelegateKind::MoveCard,
            GameEvent::OverlordScoreCard(_) => DelegateKind::OverlordScoreCard,
            GameEvent::ChampionScoreCard(_) => DelegateKind::ChampionScoreCard,
            GameEvent::RaidBegin(_) => DelegateKind::RaidBegin,
            GameEvent::EncounterBegin(_) => DelegateKind::EncounterBegin,
            GameEvent::ActivateBoost(_) => DelegateKind::ActivateBoost,
            GameEvent::MinionDefeated(_) => DelegateKind::MinionDefeated,
            GameEvent::MinionCombatAbility(_) => DelegateKind::MinionCombatAbility,
            GameEvent::EncounterEnd(_) => DelegateKind::EncounterEnd,
            GameEvent::RaidEnd(_) => DelegateKind::RaidEnd,
            GameEvent::StoredManaTaken(_) => DelegateKind::StoredManaTaken,
        }
    }

    /// The card this event concerns, for requirement evaluation, if the
    /// payload identifies one.
    pub fn card_id(&self) -> (r: Option<CardId>)
        ensures
            r == self.spec_card_id(),
    {
        match self {
            GameEvent::DrawCard(id) | GameEvent::PayCardCosts(id)
                | GameEvent::OverlordScoreCard(id) | GameEvent::ChampionScoreCard(id)
                | GameEvent::MinionDefeated(id) | GameEvent::MinionCombatAbility(id)
                | GameEvent::StoredManaTaken(id) | GameEvent::MoveCard(id, _) => Some(*id),
            GameEvent::CastCard(played) => Some(played.card_id),
            GameEvent::ActivateAbility(ability) => Some(ability.card_id),
            GameEvent::ActivateBoost(data) => Some(data.card_id),
            _ => None,
        }
    }

    /// Specification counterpart of [`Self::card_id`].
    pub open spec fn spec_card_id(self) -> Option<CardId> {
        match self {
            GameEvent::DrawCard(id) | GameEvent::PayCardCosts(id)
                | GameEvent::OverlordScoreCard(id) | GameEvent::ChampionScoreCard(id)
                | GameEvent::MinionDefeated(id) | GameEvent::MinionCombatAbility(id)
                | GameEvent::StoredManaTaken(id) | GameEvent::MoveCard(id, _) => Some(id),
            GameEvent::CastCard(played) => Some(played.card_id),
            GameEvent::ActivateAbility(ability) => Some(ability.card_id),
            GameEvent::ActivateBoost(data) => Some(data.card_id),
            _ => None,
        }
    }
}

/// A boolean permission query dispatched through the delegate cache.
#[derive(Clone, Copy, Debug, PartialEq, Eq, Structural)]
pub enum FlagQuery {
    CanTakeDrawCardAction(Side),
    CanTakeGainManaAction(Side),
    CanPlayCard(CardId),
    CanActivateAbility(AbilityId),
    CanInitiateRaid(Side),
    CanLevelUpRoom(Side),
    CanEncounterTarget(CardEncounter),
    CanDefeatTarget(CardEncounter),
}

impl FlagQuery {
    /// The delegate kind this query is dispatched to.
    pub fn kind(&self) -> (r: DelegateKind)
        ensures
            r == self.spec_kind(),
    {
        match self {
            FlagQuery::CanTakeDrawCardAction(_) => DelegateKind::CanTakeDrawCardAction,
            FlagQuery::CanTakeGainManaAction(_) => DelegateKind::CanTakeGainManaAction,
            FlagQuery::CanPlayCard(_) => DelegateKind::CanPlayCard,
            FlagQuery::CanActivateAbility(_) => DelegateKind::CanActivateAbility,
            FlagQuery::CanInitiateRaid(_) => DelegateKind::CanInitiateRaid,
            FlagQuery::CanLevelUpRoom(_) => DelegateKind::CanLevelUpRoom,
            FlagQuery::CanEncounterTarget(_) => DelegateKind::CanEncounterTarget,
            FlagQuery::CanDefeatTarget(_) => DelegateKind::CanDefeatTarget,
        }
    }

    /// Specification counterpart of [`Self::kind`].
    pub open spec fn spec_kind(self) -> DelegateKind {
        match self {
            FlagQuery::CanTakeDrawCardAction(_) => DelegateKind::CanTakeDrawCardAction,
            FlagQuery::CanTakeGainManaAction(_) => DelegateKind::CanTakeGainManaAction,
            FlagQuery::CanPlayCard(_) => DelegateKind::CanPlayCard,
            FlagQuery::CanActivateAbility(_) => DelegateKind::CanActivateAbility,
            FlagQuery::CanInitiateRaid(_) => DelegateKind::CanInitiateRaid,
            FlagQuery::CanLevelUpRoom(_) => DelegateKind::CanLevelUpRoom,
            FlagQuery::CanEncounterTarget(_) => DelegateKind::CanEncounterTarget,
            FlagQuery::CanDefeatTarget(_) => DelegateKind::CanDefeatTarget,
        }
    }

    /// The card this query concerns, for requirement evaluation. For an
    /// encounter query this is the card being targeted.
    pub fn card_id(&self) -> (r: Option<CardId>)
        ensures
            r == self.spec_card_id(),
    {
        match self {
            FlagQuery::CanPlayCard(id) => Some(*id),
            FlagQuery::CanActivateAbility(ability) => Some(ability.card_id),
            FlagQuery::CanEncounterTarget(enc) | FlagQuery::CanDefeatTarget(enc) => Some(
                enc.target,
            ),
            _ => None,
        }
    }

    /// Specification counterpart of [`Self::card_id`].
    pub open spec fn spec_card_id(self) -> Option<CardId> {
        match self {
            FlagQuery::CanPlayCard(id) => Some(id),
            FlagQuery::CanActivateAbility(ability) => Some(ability.card_id),
            FlagQuery::CanEncounterTarget(enc) | FlagQuery::CanDefeatTarget(enc) => Some(
                enc.target,
            ),
            _ => None,
        }
    }
}

/// A numeric query dispatched through the delegate cache.
#[derive(Clone, Copy, Debug, PartialEq, Eq, Structural)]
pub enum NumericQuery {
    ActionCost(CardId),
    AttackValue(CardId),
    HealthValue(CardId),
    ShieldValue(CardId),
    BoostCount(CardId),
    StartOfTurnActions(Side),
    VaultAccessCount(RaidId),
    SanctumAccessCount(RaidId),
}

impl NumericQuery {
    /// The delegate kind this query is dispatched to.
    pub fn kind(&self) -> (r: DelegateKind)
        ensures
            r == self.spec_kind(),
    {
        match self {
            NumericQuery::ActionCost(_) => DelegateKind::ActionCost,
            NumericQuery::AttackValue(_) => DelegateKind::AttackValue,
            NumericQuery::HealthValue(_) => DelegateKind::HealthValue,
            NumericQuery::ShieldValue(_) => DelegateKind::ShieldValue,
            NumericQuery::BoostCount(_) => DelegateKind::BoostCount,
            NumericQuery::StartOfTurnActions(_) => DelegateKind::StartOfTurnActions,
            NumericQuery::VaultAccessCount(_) => DelegateKind::VaultAccessCount,
            NumericQuery::SanctumAccessCount(_) => DelegateKind::SanctumAccessCount,
        }
    }

    /// Specification counterpart of [`Self::kind`].
    pub open spec fn spec_kind(self) -> DelegateKind {
        match self {
            NumericQuery::ActionCost(_) => DelegateKind::ActionCost,
            NumericQuery::AttackValue(_) => DelegateKind::AttackValue,
            NumericQuery::HealthValue(_) => DelegateKind::HealthValue,
            NumericQuery::ShieldValue(_) => DelegateKind::ShieldValue,
            NumericQuery::BoostCount(_) => DelegateKind::BoostCount,
            NumericQuery::StartOfTurnActions(_) => DelegateKind::StartOfTurnActions,
            NumericQuery::VaultAccessCount(_) => DelegateKind::VaultAccessCount,
            NumericQuery::SanctumAccessCount(_) => DelegateKind::SanctumAccessCount,
        }
    }

    /// The card this query concerns, for requirement evaluation and boost
    /// lookup.
    pub fn card_id(&self) -> (r: Option<CardId>)
        ensures
            r == self.spec_card_id(),
    {
        match self {
            NumericQuery::ActionCost(id) | NumericQuery::AttackValue(id)
                | NumericQuery::HealthValue(id) | NumericQuery::ShieldValue(id)
                | NumericQuery::BoostCount(id) => Some(*id),
            _ => None,
        }
    }

    /// Specification counterpart of [`Self::card_id`].
    pub open spec fn spec_card_id(self) -> Option<CardId> {
        match self {
            NumericQuery::ActionCost(id) | NumericQuery::AttackValue(id)
                | NumericQuery::HealthValue(id) | NumericQuery::ShieldValue(id)
                | NumericQuery::BoostCount(id) => Some(id),
            _ => None,
        }
    }
}

/// A mana cost query dispatched through the delegate cache.
#[derive(Clone, Copy, Debug, PartialEq, Eq, Structural)]
pub enum ManaCostQuery {
    ManaCost(CardId),
    AbilityManaCost(AbilityId),
}

impl ManaCostQuery {
    /// The delegate kind this query is dispatched to.
    pub fn kind(&self) -> (r: DelegateKind)
        ensures
            r == self.spec_kind(),
    {
        match self {
            ManaCostQuery::ManaCost(_) => DelegateKind::ManaCost,
            ManaCostQuery::AbilityManaCost(_) => DelegateKind::AbilityManaCost,
        }
    }

    /// Specification counterpart of [`Self::kind`].
    pub open spec fn spec_kind(self) -> DelegateKind {
        match self {
            ManaCostQuery::ManaCost(_) => DelegateKind::ManaCost,
            ManaCostQuery::AbilityManaCost(_) => DelegateKind::AbilityManaCost,
        }
    }

    /// The card this query concerns.
    pub fn card_id(&self) -> (r: Option<CardId>)
        ensures
            r == self.spec_card_id(),
    {
        match self {
            ManaCostQuery::ManaCost(id) => Some(*id),
            ManaCostQuery::AbilityManaCost(ability) => Some(ability.card_id),
        }
    }

    /// Specification counterpart of [`Self::card_id`].
    pub open spec fn spec_card_id(self) -> Option<CardId> {
        match self {
            ManaCostQuery::ManaCost(id) => Some(id),
            ManaCostQuery::AbilityManaCost(ability) => Some(ability.card_id),
        }
    }
}

/// One active delegate within the context of a specific game: the delegate
/// plus the ability instance that owns it.
#[derive(Clone, Copy, Debug, PartialEq, Eq, Structural)]
pub struct DelegateContext {
    pub delegate: Delegate,
    pub scope: Scope,
}

/// Caches the active delegates of a game in dispatch order: all delegates
/// belonging to the Overlord side first, then the Champion side; within a
/// side, ordered by canonical card name, with the card's position index as a
/// stable tie-break. Rebuilt, never incrementally patched, whenever the set
/// of active abilities can have changed; see
/// [`crate::dispatch::rebuild_cache`].
#[derive(Clone, Debug)]
pub struct DelegateCache {
    pub delegates: Vec<DelegateContext>,
}

impl View for DelegateCache {
    type V = Seq<DelegateContext>;

    open spec fn view(&self) -> Seq<DelegateContext> {
        self.delegates@
    }
}

/// Number of delegates of the given kind among the first `upto` entries of
/// `s`.
pub open spec fn spec_count_of_kind(s: Seq<DelegateContext>, kind: DelegateKind, upto: nat) -> nat
    decreases upto,
{
    if upto == 0 || upto > s.len() {
        0
    } else {
        spec_count_of_kind(s, kind, (upto - 1) as nat) + if s[upto - 1].delegate.spec_kind()
            == kind {
            1nat
        } else {
            0nat
        }
    }
}

impl DelegateCache {
    /// An empty cache, the state before the first rebuild.
    pub fn empty() -> (r: DelegateCache)
        ensures
            r@ == Seq::<DelegateContext>::empty(),
    {
        DelegateCache { delegates: Vec::new() }
    }

    /// Number of active delegates for a given kind.
    pub fn delegate_count(&self, kind: DelegateKind) -> (r: usize)
        ensures
            r == spec_count_of_kind(self@, kind, self@.len()),
    {
        let mut count: usize = 0;
        let mut i: usize = 0;
        while i < self.delegates.len()
            invariant
                i <= self@.len(),
                count == spec_count_of_kind(self@, kind, i as nat),
                count <= i,
            decreases self@.len() - i,
        {
            if self.delegates[i].delegate.kind() == kind {
                count = count + 1;
            }
            i = i + 1;
        }
        count
    }

    /// The `index`th delegate of the given kind, in dispatch order.
    pub fn get(&self, kind: DelegateKind, index: usize) -> (r: &DelegateContext)
        requires
            index < spec_count_of_kind(self@, kind, self@.len()),
        ensures
            r.delegate.spec_kind() == kind,
            exists|j: int|
                0 <= j < self@.len() && self@[j] == *r && spec_count_of_kind(self@, kind, j as nat)
                    == index,
    {
        let mut seen: usize = 0;
        let mut i: usize = 0;
        while i < self.delegates.len()
            invariant
                i <= self@.len(),
                seen == spec_count_of_kind(self@, kind, i as nat),
                seen <= index,
                index < spec_count_of_kind(self@, kind, self@.len()),
            decreases self@.len() - i,
        {
            if self.delegates[i].delegate.kind() == kind {
                if seen == index {
                    return &self.delegates[i];
                }
                seen = seen + 1;
            }
            i = i + 1;
        }
        // Unreachable: fewer than `index + 1` delegates of this kind would
        // contradict the precondition.
        proof {
            assert(false);
        }
        &self.delegates[0]
    }
}

} // verus!
