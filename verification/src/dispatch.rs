//! The dispatcher: rebuilds the delegate cache and runs events and queries
//! through it.
//!
//! Dispatch is deterministic by construction: the effect of
//! [`invoke_event`] and the result of every query are functions of the game
//! state, the cache and the payload alone, stated exactly by the `spec`
//! interpreters in this module. The cache is treated as read-only for the
//! duration of one dispatch pass: no mutation in the closed set re-enters
//! the dispatcher, and cache rebuilds happen strictly between passes.

use vstd::prelude::*;

use crate::card_definition::CardDefinitionModel;
use crate::card_state::CardPosition;
use crate::delegates::{
    Delegate, DelegateCache, DelegateContext, DelegateKind, Flag, FlagQuery, GameEvent,
    ManaCostQuery, Mutation, NumericQuery, Requirement, Scope, Transform,
};
use crate::game::{
    spec_card_leq, spec_ids_where, CardFilter, CardOrder, GameModel, GameState, sort_card_ids,
    lemma_zone_selection,
};
use crate::primitives::{AbilityId, AbilityIndex, CardId, ManaValue, Side};
use crate::rules::{spec_definition, spec_game_in_catalogue, Catalogue};
use crate::updates::GameUpdate;

verus! {

/// Saturating addition on 32-bit counters.
pub open spec fn spec_sat_add(a: u32, b: u32) -> u32 {
    if a + b > u32::MAX {
        u32::MAX
    } else {
        (a + b) as u32
    }
}

/// Executable counterpart of [`spec_sat_add`].
pub fn u32_sat_add(a: u32, b: u32) -> (r: u32)
    ensures
        r == spec_sat_add(a, b),
{
    if a > u32::MAX - b {
        u32::MAX
    } else {
        a + b
    }
}

/// Saturating multiplication on 32-bit counters.
pub open spec fn spec_sat_mul(a: u32, b: u32) -> u32 {
    if a * b > u32::MAX {
        u32::MAX
    } else {
        (a * b) as u32
    }
}

/// Executable counterpart of [`spec_sat_mul`].
pub fn u32_sat_mul(a: u32, b: u32) -> (r: u32)
    ensures
        r == spec_sat_mul(a, b),
{
    if b == 0 {
        proof {
            assert(a * b == 0) by (nonlinear_arith)
                requires
                    b == 0,
            ;
        }
        0
    } else if a > u32::MAX / b {
        proof {
            assert(a * b > u32::MAX) by (nonlinear_arith)
                requires
                    a > u32::MAX / b,
                    b > 0,
            ;
        }
        u32::MAX
    } else {
        proof {
            assert(a * b <= u32::MAX) by (nonlinear_arith)
                requires
                    a <= u32::MAX / b,
                    b > 0,
            ;
        }
        a * b
    }
}

/// Whether a delegate's requirement holds for the card a payload concerns.
/// Requirements are drawn from a closed set and depend on the scope and
/// payload alone, so the set of delegates that fire in a pass is fixed
/// before the pass starts.
pub open spec fn spec_requirement_holds(
    scope: Scope,
    requirement: Requirement,
    payload_card: Option<CardId>,
) -> bool {
    match requirement {
        Requirement::Always => true,
        Requirement::ThisCard => payload_card == Some(scope.ability_id.card_id),
    }
}

/// Executable counterpart of [`spec_requirement_holds`].
pub fn requirement_holds(
    scope: Scope,
    requirement: Requirement,
    payload_card: Option<CardId>,
) -> (r: bool)
    ensures
        r == spec_requirement_holds(scope, requirement, payload_card),
{
    match requirement {
        Requirement::Always => true,
        Requirement::ThisCard => match payload_card {
            Some(id) => id == scope.ability_id.card_id,
            None => false,
        },
    }
}

/// The Champion's hand, as the dispatcher sees it when dealing damage.
pub open spec fn spec_champion_hand(g: GameModel) -> Seq<CardId> {
    spec_ids_where(g.cards(Side::Champion), g.cards(Side::Champion).len(), CardFilter::Hand)
}

/// One point of damage: the lowest-slot card of the Champion's hand moves
/// to the discard pile. No-op on an empty hand.
pub open spec fn spec_discard_one(g: GameModel) -> GameModel {
    let hand = spec_champion_hand(g);
    if hand.len() == 0 {
        g
    } else {
        g.spec_move_card(hand[0], CardPosition::DiscardPile(Side::Champion)).with_update(
            GameUpdate::MoveCard(hand[0]),
        )
    }
}

/// Up to `n` points of damage, applied one card at a time.
pub open spec fn spec_discard_first(g: GameModel, n: nat) -> GameModel
    decreases n,
{
    if n == 0 {
        g
    } else if spec_champion_hand(g).len() == 0 {
        g
    } else {
        spec_discard_first(spec_discard_one(g), (n - 1) as nat)
    }
}

/// The state change performed by one event mutation. The closed set keeps
/// every effect a function of the current state: a mutation never re-enters
/// dispatch, and a raid-ending effect only records the request.
pub open spec fn spec_apply_mutation(g: GameModel, scope: Scope, mutation: Mutation) -> GameModel {
    match mutation {
        Mutation::GainMana(side, amount) => {
            let player = g.player(side);
            let mana = spec_sat_add(player.mana, amount);
            g.with_player(
                side,
                crate::game::PlayerState { mana, ..player },
            ).with_update(GameUpdate::ManaChange(side, mana))
        },
        Mutation::DealDamage(amount) => spec_discard_first(g, amount as nat).with_update(
            GameUpdate::DealtDamage(amount),
        ),
        Mutation::EndRaid(outcome) => {
            if g.data.raid is Some {
                GameModel {
                    data: crate::game::GameDataModel {
                        raid_end_requested: Some(outcome),
                        ..g.data
                    },
                    ..g
                }
            } else {
                g
            }
        },
    }
}

/// Most moves (sorting-key consumptions) one mutation can perform.
pub open spec fn spec_mutation_moves_bound(mutation: Mutation) -> nat {
    match mutation {
        Mutation::DealDamage(amount) => amount as nat,
        _ => 0,
    }
}

/// Applies one event mutation.
pub fn apply_mutation(game: &mut GameState, scope: Scope, mutation: Mutation)
    requires
        old(game)@.wf(),
        old(game)@.next_sorting_key + spec_mutation_moves_bound(mutation) <= u32::MAX,
    ensures
        final(game)@ == spec_apply_mutation(old(game)@, scope, mutation),
        final(game)@.wf(),
        final(game)@.next_sorting_key <= old(game)@.next_sorting_key
            + spec_mutation_moves_bound(mutation),
{
    match mutation {
        Mutation::GainMana(side, amount) => {
            let mana = u32_sat_add(game.player(side).mana, amount);
            let player = game.player_mut(side);
            player.mana = mana;
            game.push_update(GameUpdate::ManaChange(side, mana));
            proof {
                crate::game::lemma_wf_same_cards(old(game)@, game@);
                assert(game@.next_sorting_key == old(game)@.next_sorting_key);
                assert(spec_mutation_moves_bound(mutation) == 0);
            }
        },
        Mutation::DealDamage(amount) => {
            let mut remaining = amount;
            while remaining > 0
                invariant
                    game@.wf(),
                    game@.next_sorting_key + remaining <= u32::MAX,
                    game@.next_sorting_key + remaining <= old(game)@.next_sorting_key + amount,
                    spec_discard_first(game@, remaining as nat) == spec_discard_first(
                        old(game)@,
                        amount as nat,
                    ),
                decreases remaining,
            {
                let hand = game.hand(Side::Champion);
                if hand.len() == 0 {
                    remaining = 0;
                } else {
                    let id = hand[0];
                    proof {
                        lemma_zone_selection(game@, Side::Champion, CardFilter::Hand);
                    }
                    let ghost before = game@;
                    game.move_card(id, CardPosition::DiscardPile(Side::Champion));
                    let ghost moved = game@;
                    game.push_update(GameUpdate::MoveCard(id));
                    proof {
                        crate::game::lemma_wf_same_cards(moved, game@);
                    }
                    remaining = remaining - 1;
                }
            }
            let ghost looped = game@;
            game.push_update(GameUpdate::DealtDamage(amount));
            proof {
                crate::game::lemma_wf_same_cards(looped, game@);
            }
        },
        Mutation::EndRaid(outcome) => {
            if game.data.raid.is_some() {
                game.data.raid_end_requested = Some(outcome);
                proof {
                    crate::game::lemma_wf_same_cards(old(game)@, game@);
                }
            }
        },
    }
}

/// The mutation a cached delegate runs for an event, if its kind matches
/// and its requirement holds.
pub open spec fn spec_fires(context: DelegateContext, event: GameEvent) -> Option<Mutation> {
    if context.delegate.spec_kind() == event.spec_kind() {
        match context.delegate.spec_event_delegate() {
            Some(delegate) => if spec_requirement_holds(
                context.scope,
                delegate.requirement,
                event.spec_card_id(),
            ) {
                Some(delegate.mutation)
            } else {
                None
            },
            None => None,
        }
    } else {
        None
    }
}

/// Most moves one event dispatch pass over `cache` can perform.
pub open spec fn spec_event_moves_bound(cache: Seq<DelegateContext>, event: GameEvent) -> nat
    decreases cache.len(),
{
    if cache.len() == 0 {
        0
    } else {
        (match spec_fires(cache[0], event) {
            Some(mutation) => spec_mutation_moves_bound(mutation),
            None => 0,
        }) + spec_event_moves_bound(cache.skip(1), event)
    }
}

/// Most moves any single event dispatch pass over `cache` can perform,
/// whatever the event: the sum of every cached event mutation's bound.
pub open spec fn spec_cache_moves_bound(cache: Seq<DelegateContext>) -> nat
    decreases cache.len(),
{
    if cache.len() == 0 {
        0
    } else {
        (match cache[0].delegate.spec_event_delegate() {
            Some(delegate) => spec_mutation_moves_bound(delegate.mutation),
            None => 0,
        }) + spec_cache_moves_bound(cache.skip(1))
    }
}

/// The per-event bound never exceeds the whole-cache bound.
pub proof fn lemma_event_moves_bound(cache: Seq<DelegateContext>, event: GameEvent)
    ensures
        spec_event_moves_bound(cache, event) <= spec_cache_moves_bound(cache),
    decreases cache.len(),
{
    if cache.len() != 0 {
        lemma_event_moves_bound(cache.skip(1), event);
    }
}

/// The state produced by one event dispatch pass: every cached delegate of
/// the event's kind whose requirement holds runs its mutation, in cache
/// order, each seeing the state its predecessors left.
pub open spec fn spec_invoke_event(
    g: GameModel,
    cache: Seq<DelegateContext>,
    event: GameEvent,
) -> GameModel
    decreases cache.len(),
{
    if cache.len() == 0 {
        g
    } else {
        let next = match spec_fires(cache[0], event) {
            Some(mutation) => spec_apply_mutation(g, cache[0].scope, mutation),
            None => g,
        };
        spec_invoke_event(next, cache.skip(1), event)
    }
}

/// Dispatches an event: runs every matching cached delegate's mutation in
/// cache order. The cache is read-only for the whole pass; re-running an
/// identical pass from the same state performs the same mutations in the
/// same order, which is exactly what the `spec_invoke_event` equality
/// states.
pub fn invoke_event(game: &mut GameState, cache: &DelegateCache, event: GameEvent)
    requires
        old(game)@.wf(),
        old(game)@.next_sorting_key + spec_event_moves_bound(cache@, event) <= u32::MAX,
    ensures
        final(game)@ == spec_invoke_event(old(game)@, cache@, event),
        final(game)@.wf(),
        final(game)@.next_sorting_key <= old(game)@.next_sorting_key + spec_event_moves_bound(
            cache@,
            event,
        ),
{
    let mut i: usize = 0;
    proof {
        assert(cache@.skip(0) =~= cache@);
    }
    while i < cache.delegates.len()
        invariant
            i <= cache@.len(),
            game@.wf(),
            game@.next_sorting_key + spec_event_moves_bound(cache@.skip(i as int), event)
                <= u32::MAX,
            spec_invoke_event(game@, cache@.skip(i as int), event) == spec_invoke_event(
                old(game)@,
                cache@,
                event,
            ),
            game@.next_sorting_key + spec_event_moves_bound(cache@.skip(i as int), event) <= old(
                game,
            )@.next_sorting_key + spec_event_moves_bound(cache@, event),
        decreases cache@.len() - i,
    {
        let ghost suffix = cache@.skip(i as int);
        proof {
            assert(suffix[0] == cache@[i as int]);
            assert(suffix.skip(1) =~= cache@.skip(i + 1));
        }
        let context = cache.delegates[i];
        if context.delegate.kind() == event.kind() {
            match context.delegate.event_delegate() {
                Some(delegate) => {
                    if requirement_holds(context.scope, delegate.requirement, event.card_id()) {
                        apply_mutation(game, context.scope, delegate.mutation);
                    }
                },
                None => {},
            }
        }
        i = i + 1;
    }
    proof {
        assert(cache@.skip(cache@.len() as int) =~= Seq::<DelegateContext>::empty());
    }
}

/// What a dispatch pass leaves untouched of one state relative to
/// another: slot counts, card names, the raid structure and the game
/// configuration. Mutations in the closed set change counters,
/// positions, keys, reveal flags, the end-raid request and the log,
/// never which cards exist.
pub open spec fn spec_preserves_structure(g: GameModel, g2: GameModel) -> bool {
    &&& forall|side: Side| (#[trigger] g2.cards(side)).len() == g.cards(side).len()
    &&& forall|side: Side, i: int|
        0 <= i < g.cards(side).len() ==> (#[trigger] g2.cards(side)[i]).name == g.cards(
            side,
        )[i].name && g2.cards(side)[i].id == g.cards(side)[i].id
    &&& g2.data.raid == g.data.raid
    &&& g2.data.config == g.data.config
    &&& g2.player(Side::Overlord).score == g.player(Side::Overlord).score
    &&& g2.player(Side::Champion).score == g.player(Side::Champion).score
}

/// Structure preservation carries the slot invariant along.
pub proof fn lemma_structure_slots_wf(g: GameModel, g2: GameModel)
    requires
        g.slots_wf(),
        spec_preserves_structure(g, g2),
    ensures
        g2.slots_wf(),
{
    assert forall|side: Side, i: int|
        0 <= i < g2.cards(side).len() implies (#[trigger] g2.cards(side)[i]).id == (
    crate::primitives::CardId { side, index: i as usize }) by {
        assert(g2.cards(side).len() == g.cards(side).len());
        assert(g2.cards(side)[i].id == g.cards(side)[i].id);
        assert(g.cards(side)[i].id == (crate::primitives::CardId { side, index: i as usize }));
    }
    assert(g2.cards(Side::Overlord).len() == g.cards(Side::Overlord).len());
    assert(g2.cards(Side::Champion).len() == g.cards(Side::Champion).len());
}

/// Structure preservation composes.
pub proof fn lemma_structure_transitive(g: GameModel, g1: GameModel, g2: GameModel)
    requires
        spec_preserves_structure(g, g1),
        spec_preserves_structure(g1, g2),
    ensures
        spec_preserves_structure(g, g2),
{
    assert forall|side: Side| (#[trigger] g2.cards(side)).len() == g.cards(side).len() by {
        assert(g1.cards(side).len() == g.cards(side).len());
    }
    assert forall|side: Side, i: int|
        0 <= i < g.cards(side).len() implies (#[trigger] g2.cards(side)[i]).name == g.cards(
        side,
    )[i].name && g2.cards(side)[i].id == g.cards(side)[i].id by {
        assert(g1.cards(side).len() == g.cards(side).len());
        assert(g1.cards(side)[i].name == g.cards(side)[i].name);
        assert(g1.cards(side)[i].id == g.cards(side)[i].id);
    }
}

/// Catalogue coverage transfers along structure preservation.
pub proof fn lemma_structure_in_catalogue(
    g: GameModel,
    g2: GameModel,
    defs: Seq<crate::card_definition::CardDefinitionModel>,
)
    requires
        spec_game_in_catalogue(g, defs),
        spec_preserves_structure(g, g2),
    ensures
        spec_game_in_catalogue(g2, defs),
{
    assert forall|side: Side, i: int|
        0 <= i < g2.cards(side).len() implies crate::rules::spec_defines(
        defs,
        (#[trigger] g2.cards(side)[i]).name,
    ) by {
        assert(g2.cards(side).len() == g.cards(side).len());
        assert(g2.cards(side)[i].name == g.cards(side)[i].name);
        assert(crate::rules::spec_defines(defs, g.cards(side)[i].name));
    }
}

/// One closed-set mutation preserves the structural parts of the state.
pub proof fn lemma_mutation_preserves_names(g: GameModel, scope: Scope, mutation: Mutation)
    requires
        g.slots_wf(),
    ensures
        spec_preserves_structure(g, spec_apply_mutation(g, scope, mutation)),
{
    match mutation {
        Mutation::DealDamage(amount) => {
            lemma_discard_preserves_names(g, amount as nat);
            let gd = spec_discard_first(g, amount as nat);
            let g2 = spec_apply_mutation(g, scope, mutation);
            assert(forall|side: Side| (#[trigger] g2.cards(side)) == gd.cards(side));
            lemma_structure_transitive(g, gd, g2);
        },
        _ => {},
    }
}

/// Damage discards reposition cards without renaming or removing them.
proof fn lemma_discard_preserves_names(g: GameModel, n: nat)
    requires
        g.slots_wf(),
    ensures
        spec_preserves_structure(g, spec_discard_first(g, n)),
    decreases n,
{
    if n != 0 && spec_champion_hand(g).len() != 0 {
        let hand = spec_champion_hand(g);
        assert forall|k1: int, k2: int|
            0 <= k1 < k2 < g.cards(Side::Champion).len() implies (#[trigger] g.cards(
            Side::Champion,
        )[k1]).id != (#[trigger] g.cards(Side::Champion)[k2]).id by {
            assert(g.cards(Side::Champion)[k1].id == (crate::primitives::CardId {
                side: Side::Champion,
                index: k1 as usize,
            }));
            assert(g.cards(Side::Champion)[k2].id == (crate::primitives::CardId {
                side: Side::Champion,
                index: k2 as usize,
            }));
        }
        crate::game::lemma_ids_where_distinct(
            g.cards(Side::Champion),
            g.cards(Side::Champion).len(),
            crate::game::CardFilter::Hand,
        );
        let k = choose|k: int|
            0 <= k < g.cards(Side::Champion).len() && (#[trigger] g.cards(Side::Champion)[k]).id
                == hand[0] && crate::game::spec_filter_matches(
                crate::game::CardFilter::Hand,
                g.cards(Side::Champion)[k],
            );
        assert(g.cards(Side::Champion)[k].id == (crate::primitives::CardId {
            side: Side::Champion,
            index: k as usize,
        }));
        assert(g.valid_card(hand[0]));
        let g1 = spec_discard_one(g);
        assert(spec_preserves_structure(g, g1));
        lemma_structure_slots_wf(g, g1);
        lemma_discard_preserves_names(g1, (n - 1) as nat);
        lemma_structure_transitive(g, g1, spec_discard_first(g, n));
    }
}

/// A whole event pass preserves the structural parts of the state.
pub proof fn lemma_invoke_event_preserves_names(
    g: GameModel,
    cache: Seq<DelegateContext>,
    event: GameEvent,
)
    requires
        g.slots_wf(),
    ensures
        spec_preserves_structure(g, spec_invoke_event(g, cache, event)),
    decreases cache.len(),
{
    if cache.len() != 0 {
        let g1 = match spec_fires(cache[0], event) {
            Some(mutation) => spec_apply_mutation(g, cache[0].scope, mutation),
            None => g,
        };
        match spec_fires(cache[0], event) {
            Some(mutation) => {
                lemma_mutation_preserves_names(g, cache[0].scope, mutation);
            },
            None => {},
        }
        assert(spec_preserves_structure(g, g1));
        lemma_structure_slots_wf(g, g1);
        lemma_invoke_event_preserves_names(g1, cache.skip(1), event);
        lemma_structure_transitive(g, g1, spec_invoke_event(g, cache, event));
    }
}

/// The value one transformation gives a numeric query.
pub open spec fn spec_transform_u32(
    g: GameModel,
    query: NumericQuery,
    transform: Transform,
    value: u32,
) -> u32 {
    match transform {
        Transform::SetValue(x) => x,
        Transform::AddValue(x) => spec_sat_add(value, x),
        Transform::AddPerBoost(bonus) => match query.spec_card_id() {
            Some(id) => if g.valid_card(id) {
                spec_sat_add(value, spec_sat_mul(g.card(id).data.boost_count, bonus))
            } else {
                value
            },
            None => value,
        },
        Transform::OverrideFlag(_) => value,
        Transform::SetManaCost(_) => value,
    }
}

/// The transformation a cached delegate applies to a query of the given
/// kind, if its kind matches and its requirement holds.
pub open spec fn spec_query_fires(
    context: DelegateContext,
    kind: DelegateKind,
    payload_card: Option<CardId>,
) -> Option<Transform> {
    if context.delegate.spec_kind() == kind {
        match context.delegate.spec_query_delegate() {
            Some(delegate) => if spec_requirement_holds(
                context.scope,
                delegate.requirement,
                payload_card,
            ) {
                Some(delegate.transformation)
            } else {
                None
            },
            None => None,
        }
    } else {
        None
    }
}

/// The result of a numeric query: the initial value folded through every
/// matching transformation, in cache order.
pub open spec fn spec_perform_u32_query(
    g: GameModel,
    cache: Seq<DelegateContext>,
    query: NumericQuery,
    value: u32,
) -> u32
    decreases cache.len(),
{
    if cache.len() == 0 {
        value
    } else {
        let next = match spec_query_fires(cache[0], query.spec_kind(), query.spec_card_id()) {
            Some(transform) => spec_transform_u32(g, query, transform, value),
            None => value,
        };
        spec_perform_u32_query(g, cache.skip(1), query, next)
    }
}

/// Performs a numeric query: folds `initial` through every matching
/// transformation in cache order.
pub fn perform_u32_query(
    game: &GameState,
    cache: &DelegateCache,
    query: NumericQuery,
    initial: u32,
) -> (r: u32)
    ensures
        r == spec_perform_u32_query(game@, cache@, query, initial),
{
    let mut value = initial;
    let mut i: usize = 0;
    proof {
        assert(cache@.skip(0) =~= cache@);
    }
    while i < cache.delegates.len()
        invariant
            i <= cache@.len(),
            spec_perform_u32_query(game@, cache@.skip(i as int), query, value)
                == spec_perform_u32_query(game@, cache@, query, initial),
        decreases cache@.len() - i,
    {
        let ghost suffix = cache@.skip(i as int);
        proof {
            assert(suffix[0] == cache@[i as int]);
            assert(suffix.skip(1) =~= cache@.skip(i + 1));
        }
        let context = cache.delegates[i];
        if context.delegate.kind() == query.kind() {
            match context.delegate.query_delegate() {
                Some(delegate) => {
                    if requirement_holds(context.scope, delegate.requirement, query.card_id()) {
                        value = apply_transform_u32(game, query, delegate.transformation, value);
                    }
                },
                None => {},
            }
        }
        i = i + 1;
    }
    proof {
        assert(cache@.skip(cache@.len() as int) =~= Seq::<DelegateContext>::empty());
    }
    value
}

/// Executable counterpart of [`spec_transform_u32`].
fn apply_transform_u32(game: &GameState, query: NumericQuery, transform: Transform, value: u32) -> (
    r: u32)
    ensures
        r == spec_transform_u32(game@, query, transform, value),
{
    match transform {
        Transform::SetValue(x) => x,
        Transform::AddValue(x) => u32_sat_add(value, x),
        Transform::AddPerBoost(bonus) => match query.card_id() {
            Some(id) => {
                if id.index < game.cards(id.side).len() {
                    let boost = game.card(id).data.boost_count;
                    u32_sat_add(value, u32_sat_mul(boost, bonus))
                } else {
                    value
                }
            },
            None => value,
        },
        Transform::OverrideFlag(_) => value,
        Transform::SetManaCost(_) => value,
    }
}

/// The delegate contexts one ability contributes: its delegates in
/// declaration order, each owned by the ability's scope.
pub open spec fn spec_ability_contexts(delegates: Seq<Delegate>, scope: Scope) -> Seq<
    DelegateContext,
> {
    delegates.map_values(|d: Delegate| DelegateContext { delegate: d, scope })
}

/// The delegate contexts of a card's first `upto` abilities, in ability
/// order.
pub open spec fn spec_card_contexts(def: CardDefinitionModel, id: CardId, upto: nat) -> Seq<
    DelegateContext,
>
    decreases upto,
{
    if upto == 0 || upto > def.abilities.len() {
        Seq::empty()
    } else {
        spec_card_contexts(def, id, (upto - 1) as nat) + spec_ability_contexts(
            def.abilities[upto - 1],
            Scope {
                ability_id: AbilityId {
                    card_id: id,
                    index: AbilityIndex((upto - 1) as usize),
                },
            },
        )
    }
}

/// The delegate contexts of the first `upto` listed cards, in list order:
/// per card, all of its abilities' delegates.
pub open spec fn spec_contexts_for_ids(
    defs: Seq<CardDefinitionModel>,
    g: GameModel,
    ids: Seq<CardId>,
    upto: nat,
) -> Seq<DelegateContext>
    decreases upto,
{
    if upto == 0 || upto > ids.len() {
        Seq::empty()
    } else {
        spec_contexts_for_ids(defs, g, ids, (upto - 1) as nat) + {
            let id = ids[upto - 1];
            let def = spec_definition(defs, g.card(id).name);
            spec_card_contexts(def, id, def.abilities.len())
        }
    }
}

/// Whether `ids` enumerates exactly the active cards of the game in
/// dispatch order: every in-play card once, all Overlord cards before all
/// Champion cards, within a side by canonical card name with the slot index
/// as a stable tie-break.
pub open spec fn spec_dispatch_enumeration(g: GameModel, ids: Seq<CardId>) -> bool {
    &&& forall|j: int|
        0 <= j < ids.len() ==> g.valid_card(#[trigger] ids[j]) && g.card(
            ids[j],
        ).position.spec_in_play()
    &&& forall|id: CardId|
        g.valid_card(id) && (#[trigger] g.card(id)).position.spec_in_play() && g.card(id).id
            == id ==> ids.contains(id)
    &&& ids.no_duplicates()
    &&& forall|p: int, q: int|
        0 <= p < q < ids.len() ==> spec_card_leq(g, CardOrder::Dispatch, #[trigger] ids[p], #[trigger] ids[q])
}

/// Enumerates the active cards, those whose abilities currently
/// participate in dispatch, in dispatch order.
pub fn active_cards_in_dispatch_order(game: &GameState) -> (r: Vec<CardId>)
    requires
        game@.wf(),
    ensures
        spec_dispatch_enumeration(game@, r@),
{
    let mut ids = game.card_ids_where(Side::Overlord, CardFilter::InPlay);
    let mut champions = game.card_ids_where(Side::Champion, CardFilter::InPlay);
    proof {
        lemma_zone_selection(game@, Side::Overlord, CardFilter::InPlay);
        lemma_zone_selection(game@, Side::Champion, CardFilter::InPlay);
    }
    let ghost overlord_part = ids@;
    let ghost champion_part = champions@;
    let mut k: usize = 0;
    while k < champions.len()
        invariant
            k <= champion_part.len(),
            champions@ == champion_part,
            ids@ == overlord_part + champion_part.take(k as int),
        decreases champion_part.len() - k,
    {
        ids.push(champions[k]);
        proof {
            assert(ids@ =~= overlord_part + champion_part.take(k + 1));
        }
        k = k + 1;
    }
    proof {
        assert(ids@ =~= overlord_part + champion_part);
        let combined = ids@;
        assert forall|j: int| 0 <= j < combined.len() implies game@.valid_card(
            #[trigger] combined[j],
        ) && game@.card(combined[j]).position.spec_in_play() by {
            if j < overlord_part.len() {
                assert(combined[j] == overlord_part[j]);
            } else {
                assert(combined[j] == champion_part[j - overlord_part.len()]);
            }
        }
        assert forall|p: int, q: int|
            0 <= p < q < combined.len() && combined[p] == combined[q] implies false by {
            if p < overlord_part.len() && q >= overlord_part.len() {
                assert(combined[p].side == Side::Overlord);
                assert(combined[q].side == Side::Champion);
            } else if p < overlord_part.len() {
                assert(overlord_part[p] == overlord_part[q]);
                assert(overlord_part.no_duplicates());
            } else {
                assert(champion_part[p - overlord_part.len()] == champion_part[q
                    - overlord_part.len()]);
                assert(champion_part.no_duplicates());
            }
        }
        assert(combined.no_duplicates());
    }
    let ghost unsorted = ids@;
    sort_card_ids(game, &mut ids, CardOrder::Dispatch);
    proof {
        broadcast use vstd::seq_lib::group_to_multiset_ensures;

        unsorted.lemma_multiset_has_no_duplicates();
        ids@.lemma_multiset_has_no_duplicates_conv();
        assert forall|j: int| 0 <= j < ids@.len() implies game@.valid_card(#[trigger] ids@[j])
            && game@.card(ids@[j]).position.spec_in_play() by {
            assert(ids@.to_multiset().contains(ids@[j]));
            assert(unsorted.contains(ids@[j]));
        }
        assert forall|id: CardId|
            game@.valid_card(id) && (#[trigger] game@.card(id)).position.spec_in_play()
                && game@.card(id).id == id implies ids@.contains(id) by {
            assert(game@.cards(id.side)[id.index as int].id == (CardId {
                side: id.side,
                index: id.index,
            }));
            let part = if id.side == Side::Overlord {
                overlord_part
            } else {
                champion_part
            };
            assert(part.contains(id));
            let j = choose|j: int| 0 <= j < part.len() && part[j] == id;
            if id.side == Side::Overlord {
                assert(unsorted[j] == id);
            } else {
                assert(unsorted[overlord_part.len() + j] == id);
            }
            assert(unsorted.contains(id));
            assert(ids@.to_multiset().contains(id));
        }
    }
    ids
}

/// Rebuilds the delegate cache for the game's current active-ability set:
/// every ability of every card currently in play, bucketed in dispatch
/// order. Called whenever the active set can have changed, strictly
/// between dispatch passes.
pub fn rebuild_cache(game: &GameState, catalogue: &Catalogue) -> (r: DelegateCache)
    requires
        game@.wf(),
        spec_game_in_catalogue(game@, catalogue@),
    ensures
        exists|ids: Seq<CardId>|
            spec_dispatch_enumeration(game@, ids) && r@ == #[trigger] spec_contexts_for_ids(
                catalogue@,
                game@,
                ids,
                ids.len(),
            ),
{
    let ids = active_cards_in_dispatch_order(game);
    let mut result: Vec<DelegateContext> = Vec::new();
    let mut i: usize = 0;
    while i < ids.len()
        invariant
            i <= ids@.len(),
            game@.wf(),
            spec_game_in_catalogue(game@, catalogue@),
            spec_dispatch_enumeration(game@, ids@),
            result@ == spec_contexts_for_ids(catalogue@, game@, ids@, i as nat),
        decreases ids@.len() - i,
    {
        let id = ids[i];
        let def = crate::rules::get(catalogue, game.card(id).name);
        let ghost card_block_base = result@;
        let mut a: usize = 0;
        while a < def.abilities.len()
            invariant
                a <= def@.abilities.len(),
                i < ids@.len(),
                id == ids@[i as int],
                def@ == spec_definition(catalogue@, game@.card(ids@[i as int]).name),
                result@ == card_block_base + spec_card_contexts(def@, ids@[i as int], a as nat),
            decreases def@.abilities.len() - a,
        {
            let ability = def.ability(a);
            let scope = Scope::new(AbilityId::new(id, AbilityIndex(a)));
            let ghost ability_base = result@;
            let mut d: usize = 0;
            while d < ability.delegates.len()
                invariant
                    d <= ability@.len(),
                    i < ids@.len(),
                    a < def@.abilities.len(),
                    ability@ == def@.abilities[a as int],
                    result@ == ability_base + spec_ability_contexts(
                        ability@.take(d as int),
                        Scope {
                            ability_id: AbilityId {
                                card_id: ids@[i as int],
                                index: AbilityIndex(a as usize),
                            },
                        },
                    ),
                    scope == (Scope {
                        ability_id: AbilityId {
                            card_id: ids@[i as int],
                            index: AbilityIndex(a as usize),
                        },
                    }),
                decreases ability@.len() - d,
            {
                result.push(DelegateContext { delegate: ability.delegates[d], scope });
                proof {
                    assert(result@ =~= ability_base + spec_ability_contexts(
                        ability@.take(d + 1),
                        scope,
                    ));
                }
                d = d + 1;
            }
            proof {
                assert(ability@.take(ability@.len() as int) =~= ability@);
                assert(result@ =~= card_block_base + spec_card_contexts(
                    def@,
                    ids@[i as int],
                    (a + 1) as nat,
                ));
            }
            a = a + 1;
        }
        proof {
            assert(result@ =~= spec_contexts_for_ids(catalogue@, game@, ids@, (i + 1) as nat));
        }
        i = i + 1;
    }
    let cache = DelegateCache { delegates: result };
    proof {
        assert(spec_dispatch_enumeration(game@, ids@) && cache@ == spec_contexts_for_ids(
            catalogue@,
            game@,
            ids@,
            ids@.len(),
        ));
    }
    cache
}

/// The value one transformation gives a flag query.
pub open spec fn spec_transform_flag(transform: Transform, value: Flag) -> Flag {
    match transform {
        Transform::OverrideFlag(b) => value.spec_with_override(b),
        _ => value,
    }
}

/// The result of a flag query: the initial flag folded through every
/// matching override, in cache order. Once any delegate overrides to
/// false, the flag stays false.
pub open spec fn spec_perform_flag_query(
    cache: Seq<DelegateContext>,
    query: FlagQuery,
    value: Flag,
) -> Flag
    decreases cache.len(),
{
    if cache.len() == 0 {
        value
    } else {
        let next = match spec_query_fires(cache[0], query.spec_kind(), query.spec_card_id()) {
            Some(transform) => spec_transform_flag(transform, value),
            None => value,
        };
        spec_perform_flag_query(cache.skip(1), query, next)
    }
}

/// Performs a flag (permission) query.
pub fn perform_flag_query(
    game: &GameState,
    cache: &DelegateCache,
    query: FlagQuery,
    initial: Flag,
) -> (r: Flag)
    ensures
        r == spec_perform_flag_query(cache@, query, initial),
{
    let mut value = initial;
    let mut i: usize = 0;
    proof {
        assert(cache@.skip(0) =~= cache@);
    }
    while i < cache.delegates.len()
        invariant
            i <= cache@.len(),
            spec_perform_flag_query(cache@.skip(i as int), query, value)
                == spec_perform_flag_query(cache@, query, initial),
        decreases cache@.len() - i,
    {
        let ghost suffix = cache@.skip(i as int);
        proof {
            assert(suffix[0] == cache@[i as int]);
            assert(suffix.skip(1) =~= cache@.skip(i + 1));
        }
        let context = cache.delegates[i];
        if context.delegate.kind() == query.kind() {
            match context.delegate.query_delegate() {
                Some(delegate) => {
                    if requirement_holds(context.scope, delegate.requirement, query.card_id()) {
                        value = match delegate.transformation {
                            Transform::OverrideFlag(b) => value.with_override(b),
                            _ => value,
                        };
                    }
                },
                None => {},
            }
        }
        i = i + 1;
    }
    proof {
        assert(cache@.skip(cache@.len() as int) =~= Seq::<DelegateContext>::empty());
    }
    value
}

/// The value one transformation gives a mana cost query.
pub open spec fn spec_transform_cost(transform: Transform, value: Option<ManaValue>) -> Option<
    ManaValue,
> {
    match transform {
        Transform::SetManaCost(c) => c,
        _ => value,
    }
}

/// The result of a mana cost query.
pub open spec fn spec_perform_cost_query(
    cache: Seq<DelegateContext>,
    query: ManaCostQuery,
    value: Option<ManaValue>,
) -> Option<ManaValue>
    decreases cache.len(),
{
    if cache.len() == 0 {
        value
    } else {
        let next = match spec_query_fires(cache[0], query.spec_kind(), query.spec_card_id()) {
            Some(transform) => spec_transform_cost(transform, value),
            None => value,
        };
        spec_perform_cost_query(cache.skip(1), query, next)
    }
}

/// Performs a mana cost query.
pub fn perform_cost_query(
    game: &GameState,
    cache: &DelegateCache,
    query: ManaCostQuery,
    initial: Option<ManaValue>,
) -> (r: Option<ManaValue>)
    ensures
        r == spec_perform_cost_query(cache@, query, initial),
{
    let mut value = initial;
    let mut i: usize = 0;
    proof {
        assert(cache@.skip(0) =~= cache@);
    }
    while i < cache.delegates.len()
        invariant
            i <= cache@.len(),
            spec_perform_cost_query(cache@.skip(i as int), query, value)
                == spec_perform_cost_query(cache@, query, initial),
        decreases cache@.len() - i,
    {
        let ghost suffix = cache@.skip(i as int);
        proof {
            assert(suffix[0] == cache@[i as int]);
            assert(suffix.skip(1) =~= cache@.skip(i + 1));
        }
        let context = cache.delegates[i];
        if context.delegate.kind() == query.kind() {
            match context.delegate.query_delegate() {
                Some(delegate) => {
                    if requirement_holds(context.scope, delegate.requirement, query.card_id()) {
                        value = match delegate.transformation {
                            Transform::SetManaCost(c) => c,
                            _ => value,
                        };
                    }
                },
                None => {},
            }
        }
        i = i + 1;
    }
    proof {
        assert(cache@.skip(cache@.len() as int) =~= Seq::<DelegateContext>::empty());
    }
    value
}

} // verus!
