//! Primary state for an ongoing game.

use vstd::prelude::*;

use crate::actions::{Prompt, PromptModel};
use crate::card_state::{CardPosition, CardState};
use crate::delegates::RaidOutcome;
use crate::primitives::{
    ActionCount, CardId, CardName, GameId, ManaValue, PointsValue, RaidId, RoomId, Side,
    SortingKey, TurnNumber,
};
use crate::updates::GameUpdate;

verus! {

/// Resource counters for one player, mutated only through the mutation
/// primitives in [`crate::mutations`].
#[derive(Clone, Copy, Debug, PartialEq, Eq, Structural)]
pub struct PlayerState {
    pub mana: ManaValue,
    pub actions: ActionCount,
    pub score: PointsValue,
}

impl Default for PlayerState {
    /// A player with no resources.
    fn default() -> (r: PlayerState)
        ensures
            r == (PlayerState { mana: 0, actions: 0, score: 0 }),
    {
        PlayerState { mana: 0, actions: 0, score: 0 }
    }
}

/// Phase of an ongoing raid. `Encounter` and `Continue` carry the zero-based
/// index into the defender list of the defender being resolved; defenders
/// are resolved from the highest index (the most recently placed) down to
/// index zero.
#[derive(Clone, Copy, Debug, PartialEq, Eq, Structural)]
pub enum RaidPhase {
    /// Initial phase: the Overlord may activate the target room.
    Activation,
    /// The defender at the carried index is being encountered.
    Encounter(usize),
    /// The defender at one index above the carried one has been resolved;
    /// the Champion chooses whether to advance to the carried index or
    /// retreat.
    Continue(usize),
    /// Terminal phase: the Champion may act on each accessed card.
    Access,
}

/// State of an ongoing raid. Exists only while a raid is active: created on
/// raid initiation and destroyed when the raid ends.
#[derive(Clone, Debug)]
pub struct RaidState {
    /// Unique ID for this raid.
    pub raid_id: RaidId,
    /// Room being raided.
    pub target: RoomId,
    /// Current phase of the raid.
    pub phase: RaidPhase,
    /// Whether the Overlord has activated the target room, enabling
    /// automatic paid reveals of its defenders as encounters begin.
    pub room_active: bool,
    /// Cards accessed during the access phase, in access order.
    pub accessed: Vec<CardId>,
    /// Player who is next to act within this raid.
    pub priority: Side,
}

/// Ghost projection of a [`RaidState`].
pub ghost struct RaidModel {
    pub raid_id: RaidId,
    pub target: RoomId,
    pub phase: RaidPhase,
    pub room_active: bool,
    pub accessed: Seq<CardId>,
    pub priority: Side,
}

impl View for RaidState {
    type V = RaidModel;

    open spec fn view(&self) -> RaidModel {
        RaidModel {
            raid_id: self.raid_id,
            target: self.target,
            phase: self.phase,
            room_active: self.room_active,
            accessed: self.accessed@,
            priority: self.priority,
        }
    }
}

/// Per-game configuration chosen at creation time.
#[derive(Clone, Copy, Debug, PartialEq, Eq, Structural)]
pub struct GameConfiguration {
    /// In deterministic mode every random zone selection is replaced by a
    /// fixed, reproducible choice, so that outcomes are snapshot-comparable.
    pub deterministic: bool,
}

/// General game state: whose turn it is and the raid in progress, if any.
#[derive(Clone, Debug)]
pub struct GameData {
    /// Current player whose turn it is.
    pub turn: Side,
    /// Turn number for that player.
    pub turn_number: TurnNumber,
    /// Data about an ongoing raid, if any.
    pub raid: Option<RaidState>,
    /// Set while an event delegate has requested that the ongoing raid end.
    /// Honoured by the raid driver between dispatch passes, never within
    /// one, so that a dispatch pass never re-enters the dispatcher.
    pub raid_end_requested: Option<RaidOutcome>,
    /// Configuration for this game.
    pub config: GameConfiguration,
}

/// Ghost projection of a [`GameData`].
pub ghost struct GameDataModel {
    pub turn: Side,
    pub turn_number: TurnNumber,
    pub raid: Option<RaidModel>,
    pub raid_end_requested: Option<RaidOutcome>,
    pub config: GameConfiguration,
}

impl View for GameData {
    type V = GameDataModel;

    open spec fn view(&self) -> GameDataModel {
        GameDataModel {
            turn: self.turn,
            turn_number: self.turn_number,
            raid: match self.raid {
                Some(r) => Some(r@),
                None => None,
            },
            raid_end_requested: self.raid_end_requested,
            config: self.config,
        }
    }
}

/// Options for a new game.
#[derive(Clone, Copy, Debug, PartialEq, Eq, Structural)]
pub struct NewGameOptions {
    /// Whether an update log should be produced for this game.
    pub enable_animations: bool,
    /// Whether random zone selections are replaced by fixed ones.
    pub deterministic: bool,
}

/// Placeholder buffer for display animation state. The engine itself never
/// reads it; it exists so that the display layer has a stable slot.
#[derive(Clone, Copy, Debug, PartialEq, Eq, Structural, Default)]
pub struct AnimationBuffer {}

/// The cards one player brings to a game: an identity card plus deck cards
/// in deck order.
#[derive(Clone, Debug)]
pub struct Deck {
    pub identity: CardName,
    pub cards: Vec<CardName>,
}

/// Ghost projection of a [`Deck`].
pub ghost struct DeckModel {
    pub identity: CardName,
    pub cards: Seq<CardName>,
}

impl View for Deck {
    type V = DeckModel;

    open spec fn view(&self) -> DeckModel {
        DeckModel { identity: self.identity, cards: self.cards@ }
    }
}

/// Stores the primary state for an ongoing game. One `GameState` is mutated
/// in place by one action at a time; it owns all card state exclusively.
#[derive(Clone, Debug)]
pub struct GameState {
    /// Unique identifier for this game.
    pub id: GameId,
    /// General game state.
    pub data: GameData,
    /// Tracks game-visible changes in order to update the client. If a
    /// vector is present, code which mutates the game is also responsible
    /// for appending a [`GameUpdate`] describing the mutation. If no vector
    /// is present, update tracking is disabled (simulation mode).
    pub updates: Option<Vec<GameUpdate>>,
    /// Cards for the Overlord player.
    pub overlord_cards: Vec<CardState>,
    /// Cards for the Champion player.
    pub champion_cards: Vec<CardState>,
    /// State for the Overlord player.
    pub overlord: PlayerState,
    /// State for the Champion player.
    pub champion: PlayerState,
    /// Next sorting key to use for card moves. Automatically updated by
    /// [`Self::move_card`]; do not mutate this directly.
    pub next_sorting_key: SortingKey,
    /// Next raid identifier to assign.
    pub next_raid_id: u64,
    /// Prompt currently presented to the Overlord, if any.
    pub overlord_prompt: Option<Prompt>,
    /// Prompt currently presented to the Champion, if any.
    pub champion_prompt: Option<Prompt>,
}

/// Ghost projection of a whole [`GameState`]: the mathematical model every
/// contract in this crate is stated over.
pub ghost struct GameModel {
    pub id: GameId,
    pub data: GameDataModel,
    pub updates: Option<Seq<GameUpdate>>,
    pub overlord_cards: Seq<CardState>,
    pub champion_cards: Seq<CardState>,
    pub overlord: PlayerState,
    pub champion: PlayerState,
    pub next_sorting_key: SortingKey,
    pub next_raid_id: u64,
    pub overlord_prompt: Option<PromptModel>,
    pub champion_prompt: Option<PromptModel>,
}

impl View for GameState {
    type V = GameModel;

    open spec fn view(&self) -> GameModel {
        GameModel {
            id: self.id,
            data: self.data@,
            updates: match self.updates {
                Some(v) => Some(v@),
                None => None,
            },
            overlord_cards: self.overlord_cards@,
            champion_cards: self.champion_cards@,
            overlord: self.overlord,
            champion: self.champion,
            next_sorting_key: self.next_sorting_key,
            next_raid_id: self.next_raid_id,
            overlord_prompt: match self.overlord_prompt {
                Some(p) => Some(p@),
                None => None,
            },
            champion_prompt: match self.champion_prompt {
                Some(p) => Some(p@),
                None => None,
            },
        }
    }
}

impl GameModel {
    /// Cards for a player.
    pub open spec fn cards(self, side: Side) -> Seq<CardState> {
        match side {
            Side::Overlord => self.overlord_cards,
            Side::Champion => self.champion_cards,
        }
    }

    /// The model with one side's card sequence replaced.
    pub open spec fn with_cards(self, side: Side, cards: Seq<CardState>) -> GameModel {
        match side {
            Side::Overlord => GameModel { overlord_cards: cards, ..self },
            Side::Champion => GameModel { champion_cards: cards, ..self },
        }
    }

    /// Resource counters for a player.
    pub open spec fn player(self, side: Side) -> PlayerState {
        match side {
            Side::Overlord => self.overlord,
            Side::Champion => self.champion,
        }
    }

    /// The model with one player's counters replaced.
    pub open spec fn with_player(self, side: Side, player: PlayerState) -> GameModel {
        match side {
            Side::Overlord => GameModel { overlord: player, ..self },
            Side::Champion => GameModel { champion: player, ..self },
        }
    }

    /// Whether an id denotes a slot in this game.
    pub open spec fn valid_card(self, id: CardId) -> bool {
        id.index < self.cards(id.side).len()
    }

    /// State of a card.
    pub open spec fn card(self, id: CardId) -> CardState {
        self.cards(id.side)[id.index as int]
    }

    /// The model with one card's state replaced.
    pub open spec fn with_card(self, id: CardId, card: CardState) -> GameModel {
        self.with_cards(id.side, self.cards(id.side).update(id.index as int, card))
    }

    /// The model produced by [`GameState::move_card`]: the card takes the
    /// next value of the monotonic sorting-key counter and its new position,
    /// and the counter increments.
    pub open spec fn spec_move_card(self, id: CardId, position: CardPosition) -> GameModel {
        GameModel {
            next_sorting_key: (self.next_sorting_key + 1) as SortingKey,
            ..self.with_card(
                id,
                CardState {
                    position,
                    sorting_key: self.next_sorting_key,
                    ..self.card(id)
                },
            )
        }
    }

    /// The model with an update appended, if update tracking is enabled.
    pub open spec fn with_update(self, update: GameUpdate) -> GameModel {
        match self.updates {
            Some(log) => GameModel { updates: Some(log.push(update)), ..self },
            None => self,
        }
    }

    /// The model with a prompt set for one side and the other side's prompt
    /// cleared: exactly one side receives an actionable prompt at a time.
    pub open spec fn with_prompt(self, side: Side, prompt: PromptModel) -> GameModel {
        match side {
            Side::Overlord => GameModel {
                overlord_prompt: Some(prompt),
                champion_prompt: None,
                ..self
            },
            Side::Champion => GameModel {
                champion_prompt: Some(prompt),
                overlord_prompt: None,
                ..self
            },
        }
    }

    /// The model with both prompts cleared.
    pub open spec fn with_prompts_cleared(self) -> GameModel {
        GameModel { overlord_prompt: None, champion_prompt: None, ..self }
    }

    /// The structural half of well-formedness: the card vectors have
    /// machine-representable lengths and every card's id agrees with the
    /// slot holding it. Every mutation in the engine preserves this.
    pub open spec fn slots_wf(self) -> bool {
        &&& self.overlord_cards.len() <= usize::MAX
        &&& self.champion_cards.len() <= usize::MAX
        &&& forall|side: Side, i: int|
            0 <= i < self.cards(side).len() ==> (#[trigger] self.cards(side)[i]).id == (CardId {
                side,
                index: i as usize,
            })
    }

    /// Well-formedness: card ids agree with their slots, every card is owned
    /// by the side whose vector holds it, and every stamped sorting key is
    /// below the counter, so that the counter's next value is fresh.
    pub open spec fn wf(self) -> bool {
        &&& self.slots_wf()
        &&& forall|side: Side, i: int|
            0 <= i < self.cards(side).len() ==> (#[trigger] self.cards(side)[i]).side == side
        &&& forall|side: Side, i: int|
            0 <= i < self.cards(side).len() ==> (#[trigger] self.cards(side)[i]).sorting_key
                < self.next_sorting_key
    }

    /// Whether some card of `side` sits in the identity position.
    pub open spec fn has_identity(self, side: Side) -> bool {
        exists|i: int|
            0 <= i < self.cards(side).len() && (#[trigger] self.cards(side)[i]).position
                == CardPosition::Identity(side)
    }
}

/// A predicate over card states, used to select zone contents. A closed set
/// so that selections can be named exactly in contracts.
#[derive(Clone, Copy, Debug, PartialEq, Eq, Structural)]
pub enum CardFilter {
    /// Cards in a hand position.
    Hand,
    /// Cards in a room or played as an item.
    InPlay,
    /// Cards in a discard pile position.
    DiscardPile,
    /// Cards in a discard pile position not revealed to the given side.
    DiscardPileHiddenFrom(Side),
    /// Cards in a known or unknown deck position.
    InDeck,
    /// Cards occupying the given room.
    RoomOccupant(RoomId),
    /// Cards defending the given room.
    RoomDefender(RoomId),
    /// Cards played into the weapon item slot.
    WeaponItem,
    /// Cards at exactly the given position.
    AtPosition(CardPosition),
}

/// Whether `card` matches `filter`.
pub open spec fn spec_filter_matches(filter: CardFilter, card: CardState) -> bool {
    match filter {
        CardFilter::Hand => card.position.spec_in_hand(),
        CardFilter::InPlay => card.position.spec_in_play(),
        CardFilter::DiscardPile => card.position.spec_in_discard_pile(),
        CardFilter::DiscardPileHiddenFrom(side) => card.position.spec_in_discard_pile()
            && !card.spec_is_revealed_to(side),
        CardFilter::InDeck => card.position.spec_in_deck(),
        CardFilter::RoomOccupant(room) => card.position.spec_is_room_occupant(room),
        CardFilter::RoomDefender(room) => card.position.spec_is_room_defender(room),
        CardFilter::WeaponItem => card.position == CardPosition::ArenaItem(
            crate::primitives::ItemLocation::Weapons,
        ),
        CardFilter::AtPosition(position) => card.position == position,
    }
}

/// Executable counterpart of [`spec_filter_matches`].
pub fn filter_matches(filter: CardFilter, card: &CardState) -> (r: bool)
    ensures
        r == spec_filter_matches(filter, *card),
{
    match filter {
        CardFilter::Hand => card.position.in_hand(),
        CardFilter::InPlay => card.position.in_play(),
        CardFilter::DiscardPile => card.position.in_discard_pile(),
        CardFilter::DiscardPileHiddenFrom(side) => card.position.in_discard_pile()
            && !card.is_revealed_to(side),
        CardFilter::InDeck => card.position.in_deck(),
        CardFilter::RoomOccupant(room) => card.position.is_room_occupant(room),
        CardFilter::RoomDefender(room) => card.position.is_room_defender(room),
        CardFilter::WeaponItem => card.position == CardPosition::ArenaItem(
            crate::primitives::ItemLocation::Weapons,
        ),
        CardFilter::AtPosition(position) => card.position == position,
    }
}

/// Ids of the cards in `s`, scanning the first `upto` slots, for which
/// `pred` holds, in slot order.
pub open spec fn spec_ids_where(s: Seq<CardState>, upto: nat, filter: CardFilter) -> Seq<CardId>
    decreases upto,
{
    if upto == 0 || upto > s.len() {
        Seq::empty()
    } else {
        spec_ids_where(s, (upto - 1) as nat, filter) + if spec_filter_matches(filter, s[upto - 1]) {
            seq![s[upto - 1].id]
        } else {
            Seq::empty()
        }
    }
}

/// Number of cards in the first `upto` slots of `s` matching `filter`.
pub open spec fn spec_count_where(s: Seq<CardState>, upto: nat, filter: CardFilter) -> nat
    decreases upto,
{
    if upto == 0 || upto > s.len() {
        0
    } else {
        spec_count_where(s, (upto - 1) as nat, filter) + if spec_filter_matches(
            filter,
            s[upto - 1],
        ) {
            1nat
        } else {
            0nat
        }
    }
}

/// The number of selected ids equals the count of matching slots.
pub proof fn lemma_ids_where_len(s: Seq<CardState>, upto: nat, filter: CardFilter)
    ensures
        spec_ids_where(s, upto, filter).len() == spec_count_where(s, upto, filter),
    decreases upto,
{
    if upto != 0 && upto <= s.len() {
        lemma_ids_where_len(s, (upto - 1) as nat, filter);
    }
}

/// An id is selected exactly when some scanned slot holds a matching card
/// with that id.
pub proof fn lemma_ids_where_membership(
    s: Seq<CardState>,
    upto: nat,
    filter: CardFilter,
    id: CardId,
)
    requires
        upto <= s.len(),
    ensures
        spec_ids_where(s, upto, filter).contains(id) <==> exists|k: int|
            0 <= k < upto && (#[trigger] s[k]).id == id && spec_filter_matches(filter, s[k]),
    decreases upto,
{
    if upto != 0 {
        lemma_ids_where_membership(s, (upto - 1) as nat, filter, id);
        let prefix = spec_ids_where(s, (upto - 1) as nat, filter);
        let whole = spec_ids_where(s, upto, filter);
        if spec_filter_matches(filter, s[upto - 1]) {
            assert(whole == prefix + seq![s[upto - 1].id]);
            assert forall|j: int| 0 <= j < whole.len() implies whole[j] == if j < prefix.len() {
                prefix[j]
            } else {
                s[upto - 1].id
            } by {}
            if whole.contains(id) {
                let j = choose|j: int| 0 <= j < whole.len() && whole[j] == id;
                if j < prefix.len() {
                    assert(prefix.contains(id));
                } else {
                    assert(s[upto - 1].id == id);
                }
            }
            if prefix.contains(id) {
                let j = choose|j: int| 0 <= j < prefix.len() && prefix[j] == id;
                assert(whole[j] == id);
            }
            if s[upto - 1].id == id {
                assert(whole[whole.len() - 1] == id);
            }
        } else {
            assert(whole == prefix + Seq::<CardId>::empty());
            assert(whole =~= prefix);
        }
    }
}

/// When distinct scanned slots hold distinct ids, the selection has no
/// duplicates.
pub proof fn lemma_ids_where_distinct(s: Seq<CardState>, upto: nat, filter: CardFilter)
    requires
        upto <= s.len(),
        forall|k1: int, k2: int|
            0 <= k1 < k2 < s.len() ==> (#[trigger] s[k1]).id != (#[trigger] s[k2]).id,
    ensures
        spec_ids_where(s, upto, filter).no_duplicates(),
        forall|j: int|
            0 <= j < spec_ids_where(s, upto, filter).len() ==> exists|k: int|
                0 <= k < upto && (#[trigger] s[k]).id == #[trigger] spec_ids_where(
                    s,
                    upto,
                    filter,
                )[j] && spec_filter_matches(filter, s[k]),
    decreases upto,
{
    let whole = spec_ids_where(s, upto, filter);
    if upto != 0 {
        lemma_ids_where_distinct(s, (upto - 1) as nat, filter);
        let prefix = spec_ids_where(s, (upto - 1) as nat, filter);
        if spec_filter_matches(filter, s[upto - 1]) {
            assert(whole == prefix + seq![s[upto - 1].id]);
            assert forall|j: int| 0 <= j < whole.len() implies whole[j] == if j < prefix.len() {
                prefix[j]
            } else {
                s[upto - 1].id
            } by {}
            if prefix.contains(s[upto - 1].id) {
                lemma_ids_where_membership(s, (upto - 1) as nat, filter, s[upto - 1].id);
                let k = choose|k: int|
                    0 <= k < upto - 1 && (#[trigger] s[k]).id == s[upto - 1].id
                        && spec_filter_matches(filter, s[k]);
                assert(false);
            }
            assert(whole.no_duplicates());
        } else {
            assert(whole =~= prefix);
        }
    }
}

/// Well-formedness only concerns the card vectors and the sorting-key
/// counter: a change elsewhere preserves it.
pub proof fn lemma_wf_same_cards(g0: GameModel, g1: GameModel)
    requires
        g0.wf(),
        g1.overlord_cards == g0.overlord_cards,
        g1.champion_cards == g0.champion_cards,
        g1.next_sorting_key == g0.next_sorting_key,
    ensures
        g1.wf(),
{
    assert forall|side: Side, i: int|
        0 <= i < g1.cards(side).len() implies {
        &&& (#[trigger] g1.cards(side)[i]).id == (CardId { side, index: i as usize })
        &&& g1.cards(side)[i].side == side
        &&& g1.cards(side)[i].sorting_key < g1.next_sorting_key
    } by {
        assert(g1.cards(side) == g0.cards(side));
        assert(g0.cards(side)[i].id == (CardId { side, index: i as usize }));
        assert(g0.cards(side)[i].sorting_key < g0.next_sorting_key);
    }
}

/// What one side's zone selection yields in a well-formed game: valid,
/// distinct ids owned by that side, each matching the filter, and covering
/// every matching slot.
pub proof fn lemma_zone_selection(g: GameModel, side: Side, filter: CardFilter)
    requires
        g.wf(),
    ensures
        ({
            let ids = spec_ids_where(g.cards(side), g.cards(side).len(), filter);
            &&& forall|j: int|
                0 <= j < ids.len() ==> g.valid_card(#[trigger] ids[j]) && ids[j].side == side
                    && spec_filter_matches(filter, g.card(ids[j]))
            &&& ids.no_duplicates()
            &&& forall|id: CardId|
                ids.contains(id) <==> id.side == side && g.valid_card(id) && spec_filter_matches(
                    filter,
                    #[trigger] g.card(id),
                )
            &&& ids.len() == spec_count_where(g.cards(side), g.cards(side).len(), filter)
        }),
{
    let s = g.cards(side);
    let ids = spec_ids_where(s, s.len(), filter);
    lemma_ids_where_len(s, s.len(), filter);
    assert forall|k1: int, k2: int| 0 <= k1 < k2 < s.len() implies (#[trigger] s[k1]).id
        != (#[trigger] s[k2]).id by {
        assert(g.cards(side)[k1].id == (CardId { side, index: k1 as usize }));
        assert(g.cards(side)[k2].id == (CardId { side, index: k2 as usize }));
    }
    lemma_ids_where_distinct(s, s.len(), filter);
    assert forall|j: int| 0 <= j < ids.len() implies g.valid_card(#[trigger] ids[j])
        && ids[j].side == side && spec_filter_matches(filter, g.card(ids[j])) by {
        let k = choose|k: int|
            0 <= k < s.len() && (#[trigger] s[k]).id == ids[j] && spec_filter_matches(
                filter,
                s[k],
            );
        assert(g.cards(side)[k].id == (CardId { side, index: k as usize }));
    }
    assert forall|id: CardId|
        ids.contains(id) <==> id.side == side && g.valid_card(id) && spec_filter_matches(
            filter,
            #[trigger] g.card(id),
        ) by {
        lemma_ids_where_membership(s, s.len(), filter, id);
        if ids.contains(id) {
            let k = choose|k: int|
                0 <= k < s.len() && (#[trigger] s[k]).id == id && spec_filter_matches(
                    filter,
                    s[k],
                );
            assert(g.cards(side)[k].id == (CardId { side, index: k as usize }));
        }
        if id.side == side && g.valid_card(id) && spec_filter_matches(filter, g.card(id)) {
            let k = id.index as int;
            assert(g.cards(side)[k].id == (CardId { side, index: k as usize }));
            assert(s[k].id == id && spec_filter_matches(filter, s[k]));
        }
    }
}

/// The card states for a new deck: the identity card in slot zero, then one
/// card per deck entry, all placed in the owner's deck.
pub open spec fn spec_make_deck(deck: DeckModel, side: Side) -> Seq<CardState> {
    Seq::new(
        deck.cards.len() + 1,
        |i: int|
            if i == 0 {
                CardState::spec_new(CardId { side, index: 0 }, deck.identity, true)
            } else {
                CardState::spec_new(
                    CardId { side, index: i as usize },
                    deck.cards[i - 1],
                    false,
                )
            },
    )
}

/// The model of a newly created game.
pub open spec fn spec_new_game(
    id: GameId,
    overlord_deck: DeckModel,
    champion_deck: DeckModel,
    options: NewGameOptions,
) -> GameModel {
    GameModel {
        id,
        data: GameDataModel {
            turn: Side::Overlord,
            turn_number: 1,
            raid: None,
            raid_end_requested: None,
            config: GameConfiguration { deterministic: options.deterministic },
        },
        updates: if options.enable_animations {
            Some(Seq::empty())
        } else {
            None
        },
        overlord_cards: spec_make_deck(overlord_deck, Side::Overlord),
        champion_cards: spec_make_deck(champion_deck, Side::Champion),
        overlord: PlayerState { mana: 0, actions: 0, score: 0 },
        champion: PlayerState { mana: 0, actions: 0, score: 0 },
        next_sorting_key: 1,
        next_raid_id: 1,
        overlord_prompt: None,
        champion_prompt: None,
    }
}

impl GameState {
    /// Creates a new game with the provided `id` and decks for both players.
    pub fn new_game(
        id: GameId,
        overlord_deck: Deck,
        champion_deck: Deck,
        options: NewGameOptions,
    ) -> (r: GameState)
        ensures
            r@ == spec_new_game(id, overlord_deck@, champion_deck@, options),
            r@.wf(),
    {
        let r = GameState {
            id,
            overlord_cards: Self::make_deck(&overlord_deck, Side::Overlord),
            champion_cards: Self::make_deck(&champion_deck, Side::Champion),
            overlord: PlayerState { mana: 0, actions: 0, score: 0 },
            champion: PlayerState { mana: 0, actions: 0, score: 0 },
            data: GameData {
                turn: Side::Overlord,
                turn_number: 1,
                raid: None,
                raid_end_requested: None,
                config: GameConfiguration { deterministic: options.deterministic },
            },
            updates: if options.enable_animations {
                Some(Vec::new())
            } else {
                None
            },
            next_sorting_key: 1,
            next_raid_id: 1,
            overlord_prompt: None,
            champion_prompt: None,
        };
        proof {
            broadcast use vstd::std_specs::vec::axiom_spec_len;

            assert(vstd::std_specs::vec::spec_vec_len(&r.overlord_cards)
                == r.overlord_cards@.len());
            assert(vstd::std_specs::vec::spec_vec_len(&r.champion_cards)
                == r.champion_cards@.len());
        }
        r
    }

    /// Create card states for a deck.
    fn make_deck(deck: &Deck, side: Side) -> (r: Vec<CardState>)
        ensures
            r@ == spec_make_deck(deck@, side),
    {
        let mut result: Vec<CardState> = Vec::new();
        result.push(CardState::new(CardId::new(side, 0), deck.identity, true));
        let mut i: usize = 0;
        while i < deck.cards.len()
            invariant
                i <= deck.cards.len(),
                result@.len() == i + 1,
                forall|j: int|
                    0 <= j <= i ==> result@[j] == spec_make_deck(deck@, side)[j],
            decreases deck.cards.len() - i,
        {
            result.push(CardState::new(CardId::new(side, i + 1), deck.cards[i], false));
            i = i + 1;
        }
        proof {
            assert(result@ =~= spec_make_deck(deck@, side));
        }
        result
    }

    /// Returns the identity card for the provided side.
    ///
    /// A game with no card in the identity position is an invariant
    /// violation, excluded by precondition rather than handled at runtime.
    pub fn identity(&self, side: Side) -> (r: &CardState)
        requires
            self@.has_identity(side),
        ensures
            exists|i: int|
                0 <= i < self@.cards(side).len() && self@.cards(side)[i] == *r,
            r.position == CardPosition::Identity(side),
    {
        let cards = self.cards(side);
        let mut i: usize = 0;
        while i < cards.len()
            invariant
                i <= self@.cards(side).len(),
                cards@ == self@.cards(side),
                self@.has_identity(side),
                forall|j: int|
                    0 <= j < i ==> (#[trigger] self@.cards(side)[j]).position
                        != CardPosition::Identity(side),
            decreases self@.cards(side).len() - i,
        {
            if cards[i].position() == CardPosition::Identity(side) {
                return &cards[i];
            }
            i = i + 1;
        }
        proof {
            assert(false);
        }
        &cards[0]
    }

    /// All card ids present in this game: every Overlord slot, then every
    /// Champion slot.
    pub fn all_card_ids(&self) -> (r: Vec<CardId>)
        ensures
            r@.len() == self@.overlord_cards.len() + self@.champion_cards.len(),
            forall|j: int|
                0 <= j < self@.overlord_cards.len() ==> r@[j] == (CardId {
                    side: Side::Overlord,
                    index: j as usize,
                }),
            forall|j: int|
                self@.overlord_cards.len() <= j < r@.len() ==> r@[j] == (CardId {
                    side: Side::Champion,
                    index: (j - self@.overlord_cards.len()) as usize,
                }),
    {
        let mut result: Vec<CardId> = Vec::new();
        let mut i: usize = 0;
        while i < self.overlord_cards.len()
            invariant
                i <= self@.overlord_cards.len(),
                result@.len() == i,
                forall|j: int|
                    0 <= j < i ==> result@[j] == (CardId {
                        side: Side::Overlord,
                        index: j as usize,
                    }),
            decreases self@.overlord_cards.len() - i,
        {
            result.push(CardId::new(Side::Overlord, i));
            i = i + 1;
        }
        let offset = result.len();
        let mut k: usize = 0;
        while k < self.champion_cards.len()
            invariant
                k <= self@.champion_cards.len(),
                offset == self@.overlord_cards.len(),
                result@.len() == offset + k,
                forall|j: int|
                    0 <= j < offset ==> result@[j] == (CardId {
                        side: Side::Overlord,
                        index: j as usize,
                    }),
                forall|j: int|
                    offset <= j < result@.len() ==> result@[j] == (CardId {
                        side: Side::Champion,
                        index: (j - offset) as usize,
                    }),
            decreases self@.champion_cards.len() - k,
        {
            result.push(CardId::new(Side::Champion, k));
            k = k + 1;
        }
        result
    }

    /// Look up the state for a card.
    pub fn card(&self, card_id: CardId) -> (r: &CardState)
        requires
            self@.valid_card(card_id),
        ensures
            *r == self@.card(card_id),
    {
        match card_id.side {
            Side::Overlord => &self.overlord_cards[card_id.index],
            Side::Champion => &self.champion_cards[card_id.index],
        }
    }

    /// Mutable version of [`Self::card`].
    pub fn card_mut(&mut self, card_id: CardId) -> (r: &mut CardState)
        requires
            old(self)@.valid_card(card_id),
        ensures
            *r == old(self)@.card(card_id),
            final(self)@ == old(self)@.with_card(card_id, *final(r)),
    {
        match card_id.side {
            Side::Overlord => &mut self.overlord_cards[card_id.index],
            Side::Champion => &mut self.champion_cards[card_id.index],
        }
    }

    /// Cards for a player.
    pub fn cards(&self, side: Side) -> (r: &Vec<CardState>)
        ensures
            r@ == self@.cards(side),
    {
        match side {
            Side::Overlord => &self.overlord_cards,
            Side::Champion => &self.champion_cards,
        }
    }

    /// Mutable version of [`Self::cards`].
    pub fn cards_mut(&mut self, side: Side) -> (r: &mut Vec<CardState>)
        ensures
            r@ == old(self)@.cards(side),
            final(self)@ == old(self)@.with_cards(side, final(r)@),
    {
        match side {
            Side::Overlord => &mut self.overlord_cards,
            Side::Champion => &mut self.champion_cards,
        }
    }

    /// State for a player.
    pub fn player(&self, side: Side) -> (r: &PlayerState)
        ensures
            *r == self@.player(side),
    {
        match side {
            Side::Overlord => &self.overlord,
            Side::Champion => &self.champion,
        }
    }

    /// Mutable version of [`Self::player`].
    pub fn player_mut(&mut self, side: Side) -> (r: &mut PlayerState)
        ensures
            *r == old(self)@.player(side),
            final(self)@ == old(self)@.with_player(side, *final(r)),
    {
        match side {
            Side::Overlord => &mut self.overlord,
            Side::Champion => &mut self.champion,
        }
    }

    /// Moves a card to a new position, stamping it with the next value of
    /// the monotonic sorting-key counter and incrementing the counter.
    ///
    /// Every reposition of a card goes through this single primitive, so
    /// sorting keys are globally consistent: strictly increasing per move,
    /// never reused and never decreasing.
    pub fn move_card(&mut self, card_id: CardId, new_position: CardPosition)
        requires
            old(self)@.valid_card(card_id),
            old(self)@.next_sorting_key < SortingKey::MAX,
        ensures
            final(self)@ == old(self)@.spec_move_card(card_id, new_position),
            old(self)@.wf() ==> final(self)@.wf(),
    {
        let key = self.next_sorting_key;
        let card = self.card_mut(card_id);
        card.set_position(key, new_position);
        self.next_sorting_key = self.next_sorting_key + 1;
        proof {
            let g0 = old(self)@;
            let g1 = self@;
            if g0.wf() {
                assert forall|side: Side, i: int|
                    0 <= i < g1.cards(side).len() implies {
                    &&& (#[trigger] g1.cards(side)[i]).id == (CardId { side, index: i as usize })
                    &&& g1.cards(side)[i].side == side
                    &&& g1.cards(side)[i].sorting_key < g1.next_sorting_key
                } by {
                    assert(g0.cards(side)[i].id == (CardId { side, index: i as usize }));
                    assert(g0.cards(side)[i].sorting_key < g0.next_sorting_key);
                }
            }
        }
    }

    /// Appends an update record, when update tracking is enabled.
    pub fn push_update(&mut self, update: GameUpdate)
        ensures
            final(self)@ == old(self)@.with_update(update),
    {
        match &mut self.updates {
            Some(log) => log.push(update),
            None => {},
        }
    }

    /// Ids of this game's cards owned by `side` matching `filter`, in slot
    /// order.
    pub fn card_ids_where(&self, side: Side, filter: CardFilter) -> (r: Vec<CardId>)
        ensures
            r@ == spec_ids_where(self@.cards(side), self@.cards(side).len(), filter),
    {
        let cards = self.cards(side);
        let mut result: Vec<CardId> = Vec::new();
        let mut i: usize = 0;
        while i < cards.len()
            invariant
                i <= cards@.len(),
                cards@ == self@.cards(side),
                result@ == spec_ids_where(self@.cards(side), i as nat, filter),
            decreases cards@.len() - i,
        {
            if filter_matches(filter, &cards[i]) {
                result.push(cards[i].id);
                proof {
                    assert(result@ =~= spec_ids_where(self@.cards(side), (i + 1) as nat, filter));
                }
            } else {
                proof {
                    assert(result@ =~= spec_ids_where(self@.cards(side), (i + 1) as nat, filter));
                }
            }
            i = i + 1;
        }
        result
    }

    /// Cards in a player's hand, in slot order.
    pub fn hand(&self, side: Side) -> (r: Vec<CardId>)
        ensures
            r@ == spec_ids_where(self@.cards(side), self@.cards(side).len(), CardFilter::Hand),
    {
        self.card_ids_where(side, CardFilter::Hand)
    }

    /// Cards in a player's discard pile, in slot order.
    pub fn discard_pile(&self, side: Side) -> (r: Vec<CardId>)
        ensures
            r@ == spec_ids_where(
                self@.cards(side),
                self@.cards(side).len(),
                CardFilter::DiscardPile,
            ),
    {
        self.card_ids_where(side, CardFilter::DiscardPile)
    }

    /// Cards occupying a room, in slot order.
    pub fn occupants(&self, room_id: RoomId) -> (r: Vec<CardId>)
        ensures
            r@ == spec_ids_where(
                self@.cards(Side::Overlord),
                self@.cards(Side::Overlord).len(),
                CardFilter::RoomOccupant(room_id),
            ),
    {
        self.card_ids_where(Side::Overlord, CardFilter::RoomOccupant(room_id))
    }

    /// The Champion's weapons in play, in slot order.
    pub fn weapons(&self) -> (r: Vec<CardId>)
        ensures
            r@ == spec_ids_where(
                self@.cards(Side::Champion),
                self@.cards(Side::Champion).len(),
                CardFilter::WeaponItem,
            ),
    {
        self.card_ids_where(Side::Champion, CardFilter::WeaponItem)
    }

    /// Returns a card in the provided `position`, or `None` if there are
    /// no cards in that position. In deterministic mode the first such
    /// card in slot order is chosen; in real-random mode the choice is
    /// uniform, and only membership in the position is promised of it.
    pub fn random_card(&self, position: CardPosition) -> (r: Option<CardId>)
        requires
            self@.wf(),
        ensures
            r is None <==> spec_count_where(
                self@.cards(Side::Overlord),
                self@.cards(Side::Overlord).len(),
                CardFilter::AtPosition(position),
            ) + spec_count_where(
                self@.cards(Side::Champion),
                self@.cards(Side::Champion).len(),
                CardFilter::AtPosition(position),
            ) == 0,
            r matches Some(id) ==> self@.valid_card(id) && self@.card(id).position == position,
    {
        let filter = CardFilter::AtPosition(position);
        let mut ids = self.card_ids_where(Side::Overlord, filter);
        let champions = self.card_ids_where(Side::Champion, filter);
        proof {
            lemma_zone_selection(self@, Side::Overlord, filter);
            lemma_zone_selection(self@, Side::Champion, filter);
        }
        let ghost overlord_part = ids@;
        let mut k: usize = 0;
        while k < champions.len()
            invariant
                k <= champions@.len(),
                ids@ == overlord_part + champions@.take(k as int),
            decreases champions@.len() - k,
        {
            ids.push(champions[k]);
            proof {
                assert(ids@ =~= overlord_part + champions@.take(k + 1));
            }
            k = k + 1;
        }
        proof {
            assert(ids@ =~= overlord_part + champions@);
        }
        if ids.len() == 0 {
            return None;
        }
        let index = if self.data.config.deterministic {
            0
        } else {
            crate::random::random_index(ids.len())
        };
        let id = ids[index];
        proof {
            if (index as int) < overlord_part.len() {
                assert(id == overlord_part[index as int]);
            } else {
                assert(id == champions@[index - overlord_part.len()]);
            }
        }
        Some(id)
    }

    /// All cards in this game: every Overlord card, then every Champion
    /// card.
    pub fn all_cards(&self) -> (r: Vec<CardState>)
        ensures
            r@ == self@.overlord_cards + self@.champion_cards,
    {
        let mut result: Vec<CardState> = Vec::new();
        let mut i: usize = 0;
        while i < self.overlord_cards.len()
            invariant
                i <= self@.overlord_cards.len(),
                result@ == self@.overlord_cards.take(i as int),
            decreases self@.overlord_cards.len() - i,
        {
            result.push(self.overlord_cards[i]);
            proof {
                assert(result@ =~= self@.overlord_cards.take(i + 1));
            }
            i = i + 1;
        }
        proof {
            assert(result@ =~= self@.overlord_cards);
        }
        let mut k: usize = 0;
        while k < self.champion_cards.len()
            invariant
                k <= self@.champion_cards.len(),
                result@ == self@.overlord_cards + self@.champion_cards.take(k as int),
            decreases self@.champion_cards.len() - k,
        {
            result.push(self.champion_cards[k]);
            proof {
                assert(result@ =~= self@.overlord_cards + self@.champion_cards.take(k + 1));
            }
            k = k + 1;
        }
        proof {
            assert(result@ =~= self@.overlord_cards + self@.champion_cards);
        }
        result
    }

    /// The minions defending a room, in placement order: ascending sorting
    /// key, the innermost (least recently placed) defender first. The raid
    /// state machine encounters these from the last element down.
    pub fn defender_list(&self, room_id: RoomId) -> (r: Vec<CardId>)
        requires
            self@.wf(),
        ensures
            spec_defender_enumeration(self@, room_id, r@),
    {
        let mut ids = self.card_ids_where(Side::Overlord, CardFilter::RoomDefender(room_id));
        proof {
            lemma_zone_selection(self@, Side::Overlord, CardFilter::RoomDefender(room_id));
        }
        let ghost unsorted = ids@;
        sort_card_ids(self, &mut ids, CardOrder::Placement);
        proof {
            broadcast use vstd::seq_lib::group_to_multiset_ensures;

            unsorted.lemma_multiset_has_no_duplicates();
            ids@.lemma_multiset_has_no_duplicates_conv();
            let filter = CardFilter::RoomDefender(room_id);
            assert forall|j: int| 0 <= j < ids@.len() implies self@.valid_card(#[trigger] ids@[j])
                && ids@[j].side == Side::Overlord && self@.card(ids@[j]).position
                == CardPosition::Room(room_id, crate::primitives::RoomLocation::Defender) by {
                assert(ids@.to_multiset().contains(ids@[j]));
                assert(unsorted.contains(ids@[j]));
            }
            assert forall|id: CardId|
                id.side == Side::Overlord && self@.valid_card(id) && (#[trigger] self@.card(
                    id,
                )).position == CardPosition::Room(
                    room_id,
                    crate::primitives::RoomLocation::Defender,
                ) implies ids@.contains(id) by {
                assert(spec_filter_matches(filter, self@.card(id)));
                assert(unsorted.contains(id));
                assert(ids@.to_multiset().contains(id));
            }
        }
        ids
    }
}

/// Whether `ds` enumerates exactly the defenders of `room` in placement
/// order: every defender once, sorted by ascending sorting key, the
/// innermost first.
pub open spec fn spec_defender_enumeration(g: GameModel, room: RoomId, ds: Seq<CardId>) -> bool {
    &&& forall|j: int|
        0 <= j < ds.len() ==> g.valid_card(#[trigger] ds[j]) && ds[j].side == Side::Overlord
            && g.card(ds[j]).position == CardPosition::Room(room, crate::primitives::RoomLocation::Defender)
    &&& forall|id: CardId|
        id.side == Side::Overlord && g.valid_card(id) && (#[trigger] g.card(id)).position
            == CardPosition::Room(room, crate::primitives::RoomLocation::Defender) ==> ds.contains(
            id,
        )
    &&& ds.no_duplicates()
    &&& forall|p: int, q: int|
        0 <= p < q < ds.len() ==> spec_card_leq(g, CardOrder::Placement, #[trigger] ds[p], #[trigger] ds[q])
    &&& ds.len() == spec_count_where(
        g.cards(Side::Overlord),
        g.cards(Side::Overlord).len(),
        CardFilter::RoomDefender(room),
    )
}

/// The card orders are antisymmetric: two ids that sort at or before
/// each other are the same id.
pub proof fn lemma_card_leq_antisymmetric(g: GameModel, order: CardOrder, a: CardId, b: CardId)
    requires
        spec_card_leq(g, order, a, b),
        spec_card_leq(g, order, b, a),
    ensures
        a == b,
{
}

/// A sorted, duplicate-free sequence of card ids is determined by its
/// membership: two such sequences with the same members are equal.
pub proof fn lemma_sorted_unique(g: GameModel, order: CardOrder, s1: Seq<CardId>, s2: Seq<CardId>)
    requires
        s1.no_duplicates(),
        s2.no_duplicates(),
        forall|id: CardId| s1.contains(id) <==> s2.contains(id),
        forall|p: int, q: int|
            0 <= p < q < s1.len() ==> spec_card_leq(g, order, #[trigger] s1[p], #[trigger] s1[q]),
        forall|p: int, q: int|
            0 <= p < q < s2.len() ==> spec_card_leq(g, order, #[trigger] s2[p], #[trigger] s2[q]),
    ensures
        s1 =~= s2,
    decreases s1.len(),
{
    if s1.len() == 0 {
        if s2.len() > 0 {
            assert(s2.contains(s2[0]));
            assert(s1.contains(s2[0]));
        }
    } else {
        assert(s1.contains(s1[0]));
        assert(s2.contains(s1[0]));
        if s2.len() == 0 {
            assert(false);
        }
        let a = s1[0];
        let b = s2[0];
        let q = choose|q: int| 0 <= q < s2.len() && s2[q] == a;
        assert(s2.contains(b));
        assert(s1.contains(b));
        let p = choose|p: int| 0 <= p < s1.len() && s1[p] == b;
        if q > 0 {
            assert(spec_card_leq(g, order, s2[0], s2[q]));
        }
        if p > 0 {
            assert(spec_card_leq(g, order, s1[0], s1[p]));
        }
        lemma_card_leq_antisymmetric(g, order, a, b);
        assert(a == b);
        let t1 = s1.drop_first();
        let t2 = s2.drop_first();
        assert forall|i: int, j: int|
            0 <= i < j < t1.len() implies spec_card_leq(g, order, #[trigger] t1[i], #[trigger] t1[j]) by {
            assert(t1[i] == s1[i + 1] && t1[j] == s1[j + 1]);
        }
        assert forall|i: int, j: int|
            0 <= i < j < t2.len() implies spec_card_leq(g, order, #[trigger] t2[i], #[trigger] t2[j]) by {
            assert(t2[i] == s2[i + 1] && t2[j] == s2[j + 1]);
        }
        assert forall|i: int, j: int| 0 <= i < j < t1.len() implies #[trigger] t1[i]
            != #[trigger] t1[j] by {
            assert(t1[i] == s1[i + 1] && t1[j] == s1[j + 1]);
        }
        assert(t1.no_duplicates());
        assert forall|i: int, j: int| 0 <= i < j < t2.len() implies #[trigger] t2[i]
            != #[trigger] t2[j] by {
            assert(t2[i] == s2[i + 1] && t2[j] == s2[j + 1]);
        }
        assert(t2.no_duplicates());
        assert forall|id: CardId| t1.contains(id) <==> t2.contains(id) by {
            lemma_tail_membership(s1, id);
            lemma_tail_membership(s2, id);
        }
        lemma_sorted_unique(g, order, t1, t2);
        assert forall|i: int| 0 <= i < s1.len() implies s1[i] == s2[i] by {
            if i > 0 {
                assert(t1[i - 1] == t2[i - 1]);
                assert(s1[i] == t1[i - 1] && s2[i] == t2[i - 1]);
            }
        }
        assert(s1.len() == s2.len()) by {
            assert(t1.len() == t2.len());
        }
    }
}

/// In a duplicate-free sequence, the tail holds exactly the members other
/// than the head.
proof fn lemma_tail_membership(s: Seq<CardId>, id: CardId)
    requires
        s.len() > 0,
        s.no_duplicates(),
    ensures
        s.drop_first().contains(id) <==> s.contains(id) && id != s[0],
{
    let t = s.drop_first();
    if t.contains(id) {
        let i = choose|i: int| 0 <= i < t.len() && t[i] == id;
        assert(s[i + 1] == id);
        assert(s.contains(id));
        assert(id != s[0]);
    }
    if s.contains(id) && id != s[0] {
        let i = choose|i: int| 0 <= i < s.len() && s[i] == id;
        assert(i > 0);
        assert(t[i - 1] == id);
        assert(t.contains(id));
    }
}

/// Two defender enumerations of the same game and room are the same
/// sequence: the placement order pins each position.
pub proof fn lemma_defender_enumeration_unique(
    g: GameModel,
    room: RoomId,
    ds1: Seq<CardId>,
    ds2: Seq<CardId>,
)
    requires
        spec_defender_enumeration(g, room, ds1),
        spec_defender_enumeration(g, room, ds2),
    ensures
        ds1 =~= ds2,
{
    assert forall|id: CardId| ds1.contains(id) <==> ds2.contains(id) by {
        if ds1.contains(id) {
            let j = choose|j: int| 0 <= j < ds1.len() && ds1[j] == id;
            assert(g.valid_card(ds1[j]));
        }
        if ds2.contains(id) {
            let j = choose|j: int| 0 <= j < ds2.len() && ds2[j] == id;
            assert(g.valid_card(ds2[j]));
        }
    }
    lemma_sorted_unique(g, CardOrder::Placement, ds1, ds2);
}

/// Rank used to order the two sides: all Overlord cards precede all
/// Champion cards in dispatch order.
pub open spec fn spec_side_rank(side: Side) -> int {
    match side {
        Side::Overlord => 0,
        Side::Champion => 1,
    }
}

/// A total order on cards used when materialising a zone or the delegate
/// cache.
#[derive(Clone, Copy, Debug, PartialEq, Eq, Structural)]
pub enum CardOrder {
    /// Ascending sorting key: the order cards were placed, oldest first.
    /// Ties (cards never moved) break by side then slot index.
    Placement,
    /// Dispatch order: Overlord before Champion, then canonical card name,
    /// then slot index as a stable tie-break.
    Dispatch,
}

/// The total order relation for [`CardOrder`]: `a` sorts at or before `b`.
pub open spec fn spec_card_leq(g: GameModel, order: CardOrder, a: CardId, b: CardId) -> bool {
    match order {
        CardOrder::Placement => {
            let ka = g.card(a).sorting_key;
            let kb = g.card(b).sorting_key;
            if ka != kb {
                ka < kb
            } else if a.side != b.side {
                spec_side_rank(a.side) < spec_side_rank(b.side)
            } else {
                a.index <= b.index
            }
        },
        CardOrder::Dispatch => {
            if a.side != b.side {
                spec_side_rank(a.side) < spec_side_rank(b.side)
            } else {
                let na = g.card(a).name.0;
                let nb = g.card(b).name.0;
                if na != nb {
                    na < nb
                } else {
                    a.index <= b.index
                }
            }
        },
    }
}

/// Executable counterpart of [`spec_card_leq`].
pub fn card_leq(game: &GameState, order: CardOrder, a: CardId, b: CardId) -> (r: bool)
    requires
        game@.valid_card(a),
        game@.valid_card(b),
    ensures
        r == spec_card_leq(game@, order, a, b),
{
    match order {
        CardOrder::Placement => {
            let ka = game.card(a).sorting_key;
            let kb = game.card(b).sorting_key;
            if ka != kb {
                ka < kb
            } else if a.side != b.side {
                matches!(a.side, Side::Overlord)
            } else {
                a.index <= b.index
            }
        },
        CardOrder::Dispatch => {
            if a.side != b.side {
                matches!(a.side, Side::Overlord)
            } else {
                let na = game.card(a).name.0;
                let nb = game.card(b).name.0;
                if na != nb {
                    na < nb
                } else {
                    a.index <= b.index
                }
            }
        },
    }
}

/// Sorts card ids by the given order, via insertion sort. The result is a
/// permutation of the input.
pub fn sort_card_ids(game: &GameState, v: &mut Vec<CardId>, order: CardOrder)
    requires
        forall|k: int| 0 <= k < old(v)@.len() ==> game@.valid_card(#[trigger] old(v)@[k]),
    ensures
        final(v)@.len() == old(v)@.len(),
        final(v)@.to_multiset() == old(v)@.to_multiset(),
        forall|p: int, q: int|
            0 <= p < q < final(v)@.len() ==> spec_card_leq(
                game@,
                order,
                #[trigger] final(v)@[p],
                #[trigger] final(v)@[q],
            ),
{
    let ghost orig = v@;
    let mut i: usize = 1;
    while i < v.len()
        invariant
            1 <= i,
            v@.len() == orig.len(),
            v@.to_multiset() == orig.to_multiset(),
            forall|k: int| 0 <= k < v@.len() ==> game@.valid_card(#[trigger] v@[k]),
            forall|p: int, q: int|
                0 <= p < q < i && q < v@.len() ==> spec_card_leq(
                    game@,
                    order,
                    #[trigger] v@[p],
                    #[trigger] v@[q],
                ),
        decreases v@.len() - i,
    {
        let mut j: usize = i;
        while j > 0 && !card_leq(game, order, v[j - 1], v[j])
            invariant
                j <= i < v@.len(),
                v@.len() == orig.len(),
                v@.to_multiset() == orig.to_multiset(),
                forall|k: int| 0 <= k < v@.len() ==> game@.valid_card(#[trigger] v@[k]),
                forall|p: int, q: int|
                    0 <= p < q <= i && q != j ==> spec_card_leq(
                        game@,
                        order,
                        #[trigger] v@[p],
                        #[trigger] v@[q],
                    ),
            decreases j,
        {
            let ghost before = v@;
            let a = v[j - 1];
            let b = v[j];
            v[j - 1] = b;
            v[j] = a;
            proof {
                broadcast use vstd::seq_lib::group_to_multiset_ensures;

                assert(v@ == before.update(j - 1, before[j as int]).update(j as int, before[j
                    - 1]));
                assert(v@.to_multiset() =~= before.to_multiset());
                assert forall|p: int, q: int|
                    0 <= p < q <= i && q != j - 1 implies spec_card_leq(
                    game@,
                    order,
                    #[trigger] v@[p],
                    #[trigger] v@[q],
                ) by {
                    if q < j - 1 {
                        assert(before[p] == v@[p] && before[q] == v@[q]);
                    } else if q == j {
                        if p < j - 1 {
                            assert(spec_card_leq(game@, order, before[p], before[j - 1]));
                        } else {
                            assert(spec_card_leq(game@, order, before[j as int], before[j - 1]));
                        }
                    } else {
                        if p == j - 1 {
                            assert(spec_card_leq(game@, order, before[j as int], before[q]));
                        } else if p == j {
                            assert(spec_card_leq(game@, order, before[j - 1], before[q]));
                        } else {
                            assert(spec_card_leq(game@, order, before[p], before[q]));
                        }
                    }
                }
            }
            j = j - 1;
        }
        proof {
            assert forall|p: int, q: int|
                0 <= p < q <= i implies spec_card_leq(
                game@,
                order,
                #[trigger] v@[p],
                #[trigger] v@[q],
            ) by {
                if q == j {
                    if j > 0 {
                        assert(spec_card_leq(game@, order, v@[j - 1], v@[j as int]));
                        if p < j - 1 {
                            assert(spec_card_leq(game@, order, v@[p], v@[j - 1]));
                        }
                    }
                }
            }
        }
        i = i + 1;
    }
}

} // verus!
