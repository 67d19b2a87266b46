//! Atomic, loggable state changes: the only sanctioned way to alter game
//! fields that participate in invariants. Each primitive appends an update
//! record for the display-sync collaborator where the change is
//! game-visible, and the higher-level primitives fire the corresponding
//! events.
//!
//! All primitives are total over any reachable game state: invalid ids and
//! insufficient resources are precondition violations, excluded by
//! `requires` rather than handled at runtime.

use vstd::prelude::*;

use crate::actions::Prompt;
use crate::card_state::CardPosition;
use crate::delegates::{CardMoved, DelegateCache, GameEvent, RaidEnded, RaidOutcome};
use crate::dispatch::{spec_event_moves_bound, spec_invoke_event};
use crate::game::{GameDataModel, GameModel, GameState, PlayerState};
use crate::primitives::{ActionCount, CardId, ManaValue, PointsValue, Side};
use crate::updates::GameUpdate;

verus! {

/// The model produced by [`move_card`]: the reposition itself, its update
/// record, then the move event dispatched through the cache.
pub open spec fn spec_move_card_with_events(
    g: GameModel,
    cache: Seq<crate::delegates::DelegateContext>,
    id: CardId,
    position: CardPosition,
) -> GameModel {
    spec_invoke_event(
        g.spec_move_card(id, position).with_update(GameUpdate::MoveCard(id)),
        cache,
        GameEvent::MoveCard(id, CardMoved { old_position: g.card(id).position, new_position: position }),
    )
}

/// Moves a card to a new position, logging the change and firing the move
/// event. Every reposition during play goes through here so that delegates
/// observe every move.
pub fn move_card(
    game: &mut GameState,
    cache: &DelegateCache,
    card_id: CardId,
    new_position: CardPosition,
)
    requires
        old(game)@.wf(),
        old(game)@.valid_card(card_id),
        old(game)@.next_sorting_key + 1 + spec_event_moves_bound(
            cache@,
            GameEvent::MoveCard(
                card_id,
                CardMoved {
                    old_position: old(game)@.card(card_id).position,
                    new_position,
                },
            ),
        ) <= u32::MAX,
    ensures
        final(game)@ == spec_move_card_with_events(old(game)@, cache@, card_id, new_position),
        final(game)@.wf(),
        final(game)@.next_sorting_key <= old(game)@.next_sorting_key + 1
            + crate::dispatch::spec_cache_moves_bound(cache@),
{
    proof {
        crate::dispatch::lemma_event_moves_bound(
            cache@,
            GameEvent::MoveCard(
                card_id,
                CardMoved {
                    old_position: old(game)@.card(card_id).position,
                    new_position,
                },
            ),
        );
    }
    let ghost event = GameEvent::MoveCard(
        card_id,
        CardMoved { old_position: game@.card(card_id).position, new_position },
    );
    let old_position = game.card(card_id).position;
    game.move_card(card_id, new_position);
    let ghost moved = game@;
    game.push_update(GameUpdate::MoveCard(card_id));
    proof {
        crate::game::lemma_wf_same_cards(moved, game@);
    }
    crate::dispatch::invoke_event(
        game,
        cache,
        GameEvent::MoveCard(card_id, CardMoved { old_position, new_position }),
    );
}

/// The model with one player's mana decreased.
pub open spec fn spec_spend_mana(g: GameModel, side: Side, amount: ManaValue) -> GameModel {
    let player = g.player(side);
    let mana = (player.mana - amount) as ManaValue;
    g.with_player(side, PlayerState { mana, ..player }).with_update(
        GameUpdate::ManaChange(side, mana),
    )
}

/// Spends mana. Spending more than the player has is a precondition
/// violation: resources never go negative.
pub fn spend_mana(game: &mut GameState, side: Side, amount: ManaValue)
    requires
        old(game)@.player(side).mana >= amount,
    ensures
        final(game)@ == spec_spend_mana(old(game)@, side, amount),
        old(game)@.wf() ==> final(game)@.wf(),
{
    let mana = game.player(side).mana - amount;
    let player = game.player_mut(side);
    player.mana = mana;
    game.push_update(GameUpdate::ManaChange(side, mana));
    proof {
        if old(game)@.wf() {
            crate::game::lemma_wf_same_cards(old(game)@, game@);
        }
    }
}

/// The model with one player's mana increased.
pub open spec fn spec_gain_mana(g: GameModel, side: Side, amount: ManaValue) -> GameModel {
    let player = g.player(side);
    let mana = (player.mana + amount) as ManaValue;
    g.with_player(side, PlayerState { mana, ..player }).with_update(
        GameUpdate::ManaChange(side, mana),
    )
}

/// Gains mana.
pub fn gain_mana(game: &mut GameState, side: Side, amount: ManaValue)
    requires
        old(game)@.player(side).mana + amount <= ManaValue::MAX,
    ensures
        final(game)@ == spec_gain_mana(old(game)@, side, amount),
        old(game)@.wf() ==> final(game)@.wf(),
{
    let mana = game.player(side).mana + amount;
    let player = game.player_mut(side);
    player.mana = mana;
    game.push_update(GameUpdate::ManaChange(side, mana));
    proof {
        if old(game)@.wf() {
            crate::game::lemma_wf_same_cards(old(game)@, game@);
        }
    }
}

/// The model with one player's mana decreased by up to `amount`, clamped
/// at zero.
pub open spec fn spec_lose_mana_upto(g: GameModel, side: Side, amount: ManaValue) -> GameModel {
    let player = g.player(side);
    let mana = if player.mana >= amount {
        (player.mana - amount) as ManaValue
    } else {
        0
    };
    g.with_player(side, PlayerState { mana, ..player }).with_update(
        GameUpdate::ManaChange(side, mana),
    )
}

/// Loses up to `amount` mana: clamps at the zero floor rather than
/// failing.
pub fn lose_mana_upto(game: &mut GameState, side: Side, amount: ManaValue)
    ensures
        final(game)@ == spec_lose_mana_upto(old(game)@, side, amount),
        old(game)@.wf() ==> final(game)@.wf(),
{
    let current = game.player(side).mana;
    let mana = if current >= amount {
        current - amount
    } else {
        0
    };
    let player = game.player_mut(side);
    player.mana = mana;
    game.push_update(GameUpdate::ManaChange(side, mana));
    proof {
        if old(game)@.wf() {
            crate::game::lemma_wf_same_cards(old(game)@, game@);
        }
    }
}

/// The model with one player's action points decreased.
pub open spec fn spec_spend_action_points(g: GameModel, side: Side, amount: ActionCount) -> GameModel {
    let player = g.player(side);
    let actions = (player.actions - amount) as ActionCount;
    g.with_player(side, PlayerState { actions, ..player }).with_update(
        GameUpdate::ActionsChange(side, actions),
    )
}

/// Spends action points. Spending more than the player has is a
/// precondition violation.
pub fn spend_action_points(game: &mut GameState, side: Side, amount: ActionCount)
    requires
        old(game)@.player(side).actions >= amount,
    ensures
        final(game)@ == spec_spend_action_points(old(game)@, side, amount),
        old(game)@.wf() ==> final(game)@.wf(),
{
    let actions = game.player(side).actions - amount;
    let player = game.player_mut(side);
    player.actions = actions;
    game.push_update(GameUpdate::ActionsChange(side, actions));
    proof {
        if old(game)@.wf() {
            crate::game::lemma_wf_same_cards(old(game)@, game@);
        }
    }
}

/// The model with one player's action points increased.
pub open spec fn spec_gain_action_points(g: GameModel, side: Side, amount: ActionCount) -> GameModel {
    let player = g.player(side);
    let actions = (player.actions + amount) as ActionCount;
    g.with_player(side, PlayerState { actions, ..player }).with_update(
        GameUpdate::ActionsChange(side, actions),
    )
}

/// Gains action points.
pub fn gain_action_points(game: &mut GameState, side: Side, amount: ActionCount)
    requires
        old(game)@.player(side).actions + amount <= ActionCount::MAX,
    ensures
        final(game)@ == spec_gain_action_points(old(game)@, side, amount),
        old(game)@.wf() ==> final(game)@.wf(),
{
    let actions = game.player(side).actions + amount;
    let player = game.player_mut(side);
    player.actions = actions;
    game.push_update(GameUpdate::ActionsChange(side, actions));
    proof {
        if old(game)@.wf() {
            crate::game::lemma_wf_same_cards(old(game)@, game@);
        }
    }
}

/// The model with one player's score increased.
pub open spec fn spec_score_points(g: GameModel, side: Side, amount: PointsValue) -> GameModel {
    let player = g.player(side);
    let score = (player.score + amount) as PointsValue;
    g.with_player(side, PlayerState { score, ..player }).with_update(
        GameUpdate::ScoreChange(side, score),
    )
}

/// Adds to a player's score.
pub fn score_points(game: &mut GameState, side: Side, amount: PointsValue)
    requires
        old(game)@.player(side).score + amount <= PointsValue::MAX,
    ensures
        final(game)@ == spec_score_points(old(game)@, side, amount),
        old(game)@.wf() ==> final(game)@.wf(),
{
    let score = game.player(side).score + amount;
    let player = game.player_mut(side);
    player.score = score;
    game.push_update(GameUpdate::ScoreChange(side, score));
    proof {
        if old(game)@.wf() {
            crate::game::lemma_wf_same_cards(old(game)@, game@);
        }
    }
}

/// The model produced by [`set_revealed_to`]: the per-observer reveal flag
/// set independently for owner and opponent views, with an update record
/// when a card newly becomes revealed.
pub open spec fn spec_set_revealed_to(
    g: GameModel,
    id: CardId,
    side: Side,
    revealed: bool,
) -> GameModel {
    let card = g.card(id);
    let updated = g.with_card(id, card.spec_with_revealed_to(side, revealed));
    if revealed && !card.spec_is_revealed_to(side) {
        updated.with_update(GameUpdate::RevealCard(id, side))
    } else {
        updated
    }
}

/// Sets whether a card is revealed to the indicated player. A card's name
/// and identity are visible to a party exactly while this flag is set for
/// it.
pub fn set_revealed_to(game: &mut GameState, card_id: CardId, side: Side, revealed: bool)
    requires
        old(game)@.valid_card(card_id),
    ensures
        final(game)@ == spec_set_revealed_to(old(game)@, card_id, side, revealed),
        old(game)@.wf() ==> final(game)@.wf(),
{
    let was_revealed = game.card(card_id).is_revealed_to(side);
    let card = game.card_mut(card_id);
    card.set_revealed_to(side, revealed);
    if revealed && !was_revealed {
        game.push_update(GameUpdate::RevealCard(card_id, side));
    }
    proof {
        if old(game)@.wf() {
            let mid = old(game)@.with_card(
                card_id,
                old(game)@.card(card_id).spec_with_revealed_to(side, revealed),
            );
            assert forall|s: Side, i: int|
                0 <= i < mid.cards(s).len() implies {
                &&& (#[trigger] mid.cards(s)[i]).id == (CardId { side: s, index: i as usize })
                &&& mid.cards(s)[i].side == s
                &&& mid.cards(s)[i].sorting_key < mid.next_sorting_key
            } by {
                assert(old(game)@.cards(s)[i].id == (CardId { side: s, index: i as usize }));
                assert(old(game)@.cards(s)[i].sorting_key < old(game)@.next_sorting_key);
            }
            crate::game::lemma_wf_same_cards(mid, game@);
        }
    }
}

/// The model with a prompt set for one side. The other side's prompt is
/// cleared: exactly one side receives an actionable prompt at a time,
/// while the opponent's view renders a waiting indicator.
pub fn set_prompt(game: &mut GameState, side: Side, prompt: Prompt)
    ensures
        final(game)@ == old(game)@.with_prompt(side, prompt@),
        old(game)@.wf() ==> final(game)@.wf(),
{
    match side {
        Side::Overlord => {
            game.overlord_prompt = Some(prompt);
            game.champion_prompt = None;
        },
        Side::Champion => {
            game.champion_prompt = Some(prompt);
            game.overlord_prompt = None;
        },
    }
    proof {
        if old(game)@.wf() {
            crate::game::lemma_wf_same_cards(old(game)@, game@);
        }
    }
}

/// Clears both players' prompts.
pub fn clear_prompts(game: &mut GameState)
    ensures
        final(game)@ == old(game)@.with_prompts_cleared(),
        old(game)@.wf() ==> final(game)@.wf(),
{
    game.overlord_prompt = None;
    game.champion_prompt = None;
    proof {
        if old(game)@.wf() {
            crate::game::lemma_wf_same_cards(old(game)@, game@);
        }
    }
}

/// The model produced by [`end_raid`]: the raid-ended event fires while
/// the raid state is still present, so that outcome-dependent abilities
/// can observe raid context; only then is the raid destroyed, its ending
/// logged and both prompts cleared.
pub open spec fn spec_end_raid(
    g: GameModel,
    cache: Seq<crate::delegates::DelegateContext>,
    outcome: RaidOutcome,
) -> GameModel {
    let raid = g.data.raid->Some_0;
    let fired = spec_invoke_event(
        g,
        cache,
        GameEvent::RaidEnd(RaidEnded { raid_id: raid.raid_id, outcome }),
    );
    GameModel {
        data: GameDataModel { raid: None, raid_end_requested: None, ..fired.data },
        ..fired
    }.with_update(GameUpdate::RaidEnded(outcome)).with_prompts_cleared()
}

/// Ends the ongoing raid with the given outcome. Fires the raid-ended
/// event before clearing the raid state.
pub fn end_raid(game: &mut GameState, cache: &DelegateCache, outcome: RaidOutcome)
    requires
        old(game)@.wf(),
        old(game)@.data.raid is Some,
        old(game)@.next_sorting_key + spec_event_moves_bound(
            cache@,
            GameEvent::RaidEnd(
                RaidEnded { raid_id: old(game)@.data.raid->Some_0.raid_id, outcome },
            ),
        ) <= u32::MAX,
    ensures
        final(game)@ == spec_end_raid(old(game)@, cache@, outcome),
        final(game)@.wf(),
        final(game)@.data.raid is None,
{
    let raid_id = match &game.data.raid {
        Some(raid) => raid.raid_id,
        None => {
            proof {
                assert(false);
            }
            crate::primitives::RaidId(0)
        },
    };
    crate::dispatch::invoke_event(
        game,
        cache,
        GameEvent::RaidEnd(RaidEnded { raid_id, outcome }),
    );
    let ghost fired = game@;
    game.data.raid = None;
    game.data.raid_end_requested = None;
    game.push_update(GameUpdate::RaidEnded(outcome));
    game.overlord_prompt = None;
    game.champion_prompt = None;
    proof {
        crate::game::lemma_wf_same_cards(fired, game@);
    }
}

} // verus!
