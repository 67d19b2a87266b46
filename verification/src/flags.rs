//! Permission checks: read-only functions deciding whether an action can
//! currently be taken. Each computes a default from the standard game
//! rules and folds it through the matching flag delegates, so a delegate
//! override of false always wins; see [`crate::delegates::Flag`].

use vstd::prelude::*;

use crate::card_definition::CardDefinitionModel;
use crate::delegates::{CardEncounter, DelegateCache, DelegateContext, Flag, FlagQuery};
use crate::dispatch::{perform_flag_query, spec_perform_flag_query};
use crate::game::{spec_count_where, CardFilter, GameModel, GameState};
use crate::primitives::{CardId, CardType, RoomId, Side};
use crate::rules::{spec_defines, spec_definition, Catalogue};

verus! {

/// Whether a raid against `room` is possible at all: outer rooms must be
/// occupied, while the inner rooms are backed by the Overlord's deck, hand
/// and discard pile and can always be raided.
pub open spec fn spec_room_raidable(g: GameModel, room: RoomId) -> bool {
    room.spec_is_inner_room() || spec_count_where(
        g.cards(Side::Overlord),
        g.cards(Side::Overlord).len(),
        CardFilter::RoomOccupant(room),
    ) > 0
}

/// The standard-rules default for initiating a raid: it is the Champion's
/// turn, the Champion has an action point left, no raid is already
/// running, and the room is raidable.
pub open spec fn spec_can_initiate_raid_default(g: GameModel, side: Side, room: RoomId) -> bool {
    &&& side == Side::Champion
    &&& g.data.turn == Side::Champion
    &&& g.player(Side::Champion).actions > 0
    &&& g.data.raid is None
    &&& spec_room_raidable(g, room)
}

/// Whether the indicated player can initiate a raid against `room`: the
/// default above, folded through the raid permission delegates.
pub open spec fn spec_can_initiate_raid(
    g: GameModel,
    cache: Seq<DelegateContext>,
    side: Side,
    room: RoomId,
) -> bool {
    spec_perform_flag_query(
        cache,
        FlagQuery::CanInitiateRaid(side),
        Flag::Default(spec_can_initiate_raid_default(g, side, room)),
    ).spec_resolve()
}

/// Executable counterpart of [`spec_can_initiate_raid`].
pub fn can_initiate_raid(
    game: &GameState,
    cache: &DelegateCache,
    side: Side,
    room: RoomId,
) -> (r: bool)
    ensures
        r == spec_can_initiate_raid(game@, cache@, side, room),
{
    let occupied = room.is_inner_room() || game.occupants(room).len() > 0;
    proof {
        crate::game::lemma_ids_where_len(
            game@.cards(Side::Overlord),
            game@.cards(Side::Overlord).len(),
            CardFilter::RoomOccupant(room),
        );
    }
    let default = side == Side::Champion && matches!(game.data.turn, Side::Champion)
        && game.player(Side::Champion).actions > 0 && game.data.raid.is_none() && occupied;
    perform_flag_query(game, cache, FlagQuery::CanInitiateRaid(side), Flag::new(default)).resolve()
}

/// The standard-rules default for the basic gain-mana action: it is the
/// player's turn and an action point is available.
pub open spec fn spec_can_take_gain_mana_default(g: GameModel, side: Side) -> bool {
    g.data.turn == side && g.player(side).actions > 0 && g.data.raid is None
}

/// Whether the indicated player can take the basic action to gain one
/// mana.
pub open spec fn spec_can_take_gain_mana_action(
    g: GameModel,
    cache: Seq<DelegateContext>,
    side: Side,
) -> bool {
    spec_perform_flag_query(
        cache,
        FlagQuery::CanTakeGainManaAction(side),
        Flag::Default(spec_can_take_gain_mana_default(g, side)),
    ).spec_resolve()
}

/// Executable counterpart of [`spec_can_take_gain_mana_action`].
pub fn can_take_gain_mana_action(game: &GameState, cache: &DelegateCache, side: Side) -> (r: bool)
    ensures
        r == spec_can_take_gain_mana_action(game@, cache@, side),
{
    let default = game.data.turn == side && game.player(side).actions > 0
        && game.data.raid.is_none();
    perform_flag_query(
        game,
        cache,
        FlagQuery::CanTakeGainManaAction(side),
        Flag::new(default),
    ).resolve()
}

/// Whether `source` (a weapon) may interact with `target` (a minion) at
/// all: true by default, folded through the encounter permission
/// delegates.
pub open spec fn spec_can_encounter_target(
    cache: Seq<DelegateContext>,
    source: CardId,
    target: CardId,
) -> bool {
    spec_perform_flag_query(
        cache,
        FlagQuery::CanEncounterTarget(CardEncounter { source, target }),
        Flag::Default(true),
    ).spec_resolve()
}

/// Executable counterpart of [`spec_can_encounter_target`].
pub fn can_encounter_target(
    game: &GameState,
    cache: &DelegateCache,
    source: CardId,
    target: CardId,
) -> (r: bool)
    ensures
        r == spec_can_encounter_target(cache@, source, target),
{
    perform_flag_query(
        game,
        cache,
        FlagQuery::CanEncounterTarget(CardEncounter::new(source, target)),
        Flag::new(true),
    ).resolve()
}

/// The standard-rules default for defeating `target` with `source`: the
/// encounter is permitted, boosting the weapon far enough has a price,
/// and the Champion can pay it.
pub open spec fn spec_can_defeat_target_default(
    g: GameModel,
    cache: Seq<DelegateContext>,
    defs: Seq<CardDefinitionModel>,
    source: CardId,
    target: CardId,
) -> bool {
    &&& spec_can_encounter_target(cache, source, target)
    &&& match crate::queries::spec_cost_to_defeat(g, cache, defs, source, target) {
        Some(cost) => cost <= g.player(Side::Champion).mana,
        None => false,
    }
}

/// Whether `source` can defeat `target` during a raid encounter: the
/// default above, folded through the defeat permission delegates.
pub open spec fn spec_can_defeat_target(
    g: GameModel,
    cache: Seq<DelegateContext>,
    defs: Seq<CardDefinitionModel>,
    source: CardId,
    target: CardId,
) -> bool {
    spec_perform_flag_query(
        cache,
        FlagQuery::CanDefeatTarget(CardEncounter { source, target }),
        Flag::Default(spec_can_defeat_target_default(g, cache, defs, source, target)),
    ).spec_resolve()
}

/// Executable counterpart of [`spec_can_defeat_target`].
pub fn can_defeat_target(
    game: &GameState,
    cache: &DelegateCache,
    catalogue: &Catalogue,
    source: CardId,
    target: CardId,
) -> (r: bool)
    requires
        game@.valid_card(source),
        game@.valid_card(target),
        spec_defines(catalogue@, game@.card(source).name),
        spec_defines(catalogue@, game@.card(target).name),
    ensures
        r == spec_can_defeat_target(game@, cache@, catalogue@, source, target),
{
    let affordable = match crate::queries::cost_to_defeat_target(
        game,
        cache,
        catalogue,
        source,
        target,
    ) {
        Some(cost) => cost <= game.player(Side::Champion).mana,
        None => false,
    };
    let default = can_encounter_target(game, cache, source, target) && affordable;
    perform_flag_query(
        game,
        cache,
        FlagQuery::CanDefeatTarget(CardEncounter::new(source, target)),
        Flag::new(default),
    ).resolve()
}

/// Whether an accessed card can be scored by the Champion: only schemes
/// carrying scheme points can.
pub open spec fn spec_can_score_card(
    g: GameModel,
    defs: Seq<CardDefinitionModel>,
    id: CardId,
) -> bool {
    &&& spec_definition(defs, g.card(id).name).card_type == CardType::Scheme
    &&& spec_definition(defs, g.card(id).name).stats.scheme_points is Some
}

/// Executable counterpart of [`spec_can_score_card`].
pub fn can_score_card(game: &GameState, catalogue: &Catalogue, card_id: CardId) -> (r: bool)
    requires
        game@.valid_card(card_id),
        spec_defines(catalogue@, game@.card(card_id).name),
    ensures
        r == spec_can_score_card(game@, catalogue@, card_id),
{
    let def = crate::rules::card_definition(catalogue, game, card_id);
    def.card_type == CardType::Scheme && def.stats.scheme_points.is_some()
}

/// Whether an accessed card can be destroyed by the Champion: projects
/// and upgrades can, at the price of their mana cost, which the Champion
/// must be able to pay.
pub open spec fn spec_can_destroy_accessed_card(
    g: GameModel,
    cache: Seq<DelegateContext>,
    defs: Seq<CardDefinitionModel>,
    id: CardId,
) -> bool {
    &&& {
        ||| spec_definition(defs, g.card(id).name).card_type == CardType::Project
        ||| spec_definition(defs, g.card(id).name).card_type == CardType::Upgrade
    }
    &&& match crate::queries::spec_mana_cost(g, cache, defs, id) {
        Some(cost) => cost <= g.player(Side::Champion).mana,
        None => false,
    }
}

/// Executable counterpart of [`spec_can_destroy_accessed_card`].
pub fn can_destroy_accessed_card(
    game: &GameState,
    cache: &DelegateCache,
    catalogue: &Catalogue,
    card_id: CardId,
) -> (r: bool)
    requires
        game@.valid_card(card_id),
        spec_defines(catalogue@, game@.card(card_id).name),
    ensures
        r == spec_can_destroy_accessed_card(game@, cache@, catalogue@, card_id),
{
    let def = crate::rules::card_definition(catalogue, game, card_id);
    let is_kind = def.card_type == CardType::Project || def.card_type == CardType::Upgrade;
    let affordable = match crate::queries::mana_cost(game, cache, catalogue, card_id) {
        Some(cost) => cost <= game.player(Side::Champion).mana,
        None => false,
    };
    is_kind && affordable
}

} // verus!
