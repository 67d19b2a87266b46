//! Entry actions and prompt construction for the phases of a raid.
//!
//! A raid moves through `Activation`, one `Encounter`/`Continue` cycle per
//! defender (most recently placed first), and a terminal `Access` phase;
//! see [`crate::game::RaidPhase`]. Entering a phase performs its entry
//! action and then sets the prompt for the side that acts during it.

use vstd::prelude::*;

use crate::actions::{
    ContinueAction, EncounterAction, Prompt, PromptAction, PromptContext, PromptModel,
    RoomActivationAction,
};
use crate::card_definition::CardDefinitionModel;
use crate::card_state::CardPosition;
use crate::delegates::{DelegateCache, DelegateContext};
use crate::flags::{spec_can_defeat_target, spec_can_destroy_accessed_card, spec_can_score_card};
use crate::game::{
    spec_card_leq, spec_count_where, spec_defender_enumeration, spec_ids_where, CardFilter,
    CardOrder, GameModel, GameState, RaidPhase, RaidState,
};
use crate::mutations::{spec_set_revealed_to, spec_spend_mana};
use crate::primitives::{CardId, ManaValue, RoomId, Side};
use crate::queries::{spec_mana_cost, spec_sanctum_access_count, spec_vault_access_count};
use crate::rules::{spec_game_in_catalogue, Catalogue};

verus! {

/// Number of defenders of a room.
pub open spec fn spec_defender_count(g: GameModel, room: RoomId) -> nat {
    spec_count_where(
        g.cards(Side::Overlord),
        g.cards(Side::Overlord).len(),
        CardFilter::RoomDefender(room),
    )
}

/// Finds the defending card at the given position in the indicated room,
/// index zero being the innermost defender.
///
/// Returns an illegal-action error exactly when the index is out of
/// range, so that callers validating player input can reject it before
/// any mutation.
pub fn find_defender(game: &GameState, room_id: RoomId, index: usize) -> (r: Result<
    CardId,
    crate::actions::ActionError,
>)
    requires
        game@.wf(),
    ensures
        r is Ok <==> index < spec_defender_count(game@, room_id),
        r matches Ok(id) ==> exists|ds: Seq<CardId>|
            spec_defender_enumeration(game@, room_id, ds) && (index as int) < ds.len() && id
                == #[trigger] ds[index as int],
{
    let defenders = game.defender_list(room_id);
    if index < defenders.len() {
        let id = defenders[index];
        proof {
            assert(spec_defender_enumeration(game@, room_id, defenders@) && (index as int)
                < defenders@.len() && id == defenders@[index as int]);
        }
        Ok(id)
    } else {
        Err(crate::actions::ActionError::IllegalAction)
    }
}

/// Whether a raid defender can be revealed automatically by paying its
/// mana cost on encounter entry: the room is activated, the defender is
/// not yet revealed to the Champion, and the Overlord can afford its
/// cost.
pub open spec fn spec_can_reveal_defender(
    g: GameModel,
    cache: Seq<DelegateContext>,
    defs: Seq<CardDefinitionModel>,
    room_active: bool,
    id: CardId,
) -> bool {
    &&& room_active
    &&& !g.card(id).spec_is_revealed_to(Side::Champion)
    &&& match spec_mana_cost(g, cache, defs, id) {
        Some(cost) => cost <= g.player(Side::Overlord).mana,
        None => false,
    }
}

/// Executable counterpart of [`spec_can_reveal_defender`], for the
/// defender at `defender_index` of the ongoing raid's target room.
pub fn can_reveal_defender(
    game: &GameState,
    cache: &DelegateCache,
    catalogue: &Catalogue,
    defender_index: usize,
) -> (r: bool)
    requires
        game@.wf(),
        spec_game_in_catalogue(game@, catalogue@),
        game@.data.raid is Some,
        defender_index < spec_defender_count(game@, game@.data.raid->Some_0.target),
    ensures
        exists|ds: Seq<CardId>|
            spec_defender_enumeration(game@, game@.data.raid->Some_0.target, ds) && r
                == spec_can_reveal_defender(
                game@,
                cache@,
                catalogue@,
                game@.data.raid->Some_0.room_active,
                #[trigger] ds[defender_index as int],
            ),
{
    let (target, room_active) = match &game.data.raid {
        Some(raid) => (raid.target, raid.room_active),
        None => {
            proof {
                assert(false);
            }
            (RoomId::Vault, false)
        },
    };
    let defenders = game.defender_list(target);
    let id = defenders[defender_index];
    let revealed = game.card(id).is_revealed_to(Side::Champion);
    let affordable = match crate::queries::mana_cost(game, cache, catalogue, id) {
        Some(cost) => cost <= game.player(Side::Overlord).mana,
        None => false,
    };
    let result = room_active && !revealed && affordable;
    proof {
        assert(spec_defender_enumeration(game@, game@.data.raid->Some_0.target, defenders@)
            && result == spec_can_reveal_defender(
            game@,
            cache@,
            catalogue@,
            game@.data.raid->Some_0.room_active,
            defenders@[defender_index as int],
        ));
    }
    result
}

/// Whether `ids` is the top of the deck: up to `n` in-deck cards of
/// `side`, most recently placed first, and every in-deck card outside the
/// selection sorts below every selected one.
pub open spec fn spec_deck_top_enumeration(
    g: GameModel,
    side: Side,
    n: nat,
    ids: Seq<CardId>,
) -> bool {
    let deck_count = spec_count_where(g.cards(side), g.cards(side).len(), CardFilter::InDeck);
    &&& ids.len() == if n <= deck_count {
        n
    } else {
        deck_count
    }
    &&& forall|j: int|
        0 <= j < ids.len() ==> g.valid_card(#[trigger] ids[j]) && ids[j].side == side && g.card(
            ids[j],
        ).position.spec_in_deck()
    &&& ids.no_duplicates()
    &&& forall|p: int, q: int|
        0 <= p < q < ids.len() ==> spec_card_leq(g, CardOrder::Placement, #[trigger] ids[q], #[trigger] ids[p])
    &&& forall|id: CardId, j: int|
        id.side == side && g.valid_card(id) && (#[trigger] g.card(id)).position.spec_in_deck()
            && !ids.contains(id) && 0 <= j < ids.len() ==> spec_card_leq(
            g,
            CardOrder::Placement,
            id,
            #[trigger] ids[j],
        )
}

/// The top `count` cards of a player's deck, topmost (most recently
/// placed) first. Used by deterministic Vault access.
pub fn top_of_deck_ids(game: &GameState, side: Side, count: usize) -> (r: Vec<CardId>)
    requires
        game@.wf(),
    ensures
        spec_deck_top_enumeration(game@, side, count as nat, r@),
{
    let mut ids = game.card_ids_where(side, CardFilter::InDeck);
    proof {
        crate::game::lemma_zone_selection(game@, side, CardFilter::InDeck);
    }
    let ghost unsorted = ids@;
    crate::game::sort_card_ids(game, &mut ids, CardOrder::Placement);
    proof {
        broadcast use vstd::seq_lib::group_to_multiset_ensures;

        unsorted.lemma_multiset_has_no_duplicates();
        ids@.lemma_multiset_has_no_duplicates_conv();
        assert forall|j: int| 0 <= j < ids@.len() implies game@.valid_card(#[trigger] ids@[j])
            && ids@[j].side == side && game@.card(ids@[j]).position.spec_in_deck() by {
            assert(ids@.to_multiset().contains(ids@[j]));
            assert(unsorted.contains(ids@[j]));
        }
        assert forall|id: CardId|
            id.side == side && game@.valid_card(id) && (#[trigger] game@.card(
                id,
            )).position.spec_in_deck() implies ids@.contains(id) by {
            assert(spec_filter_in_deck(game@, id));
            assert(unsorted.contains(id));
            assert(ids@.to_multiset().contains(id));
        }
    }
    let sorted = ids;
    let total = sorted.len();
    let mut result: Vec<CardId> = Vec::new();
    let mut taken: usize = 0;
    while taken < count && taken < total
        invariant
            game@.wf(),
            total == sorted@.len(),
            taken <= total,
            taken <= count,
            result@.len() == taken,
            forall|j: int| 0 <= j < taken ==> #[trigger] result@[j] == sorted@[total - 1 - j],
            sorted@.no_duplicates(),
            forall|j: int|
                0 <= j < sorted@.len() ==> game@.valid_card(#[trigger] sorted@[j])
                    && sorted@[j].side == side && game@.card(sorted@[j]).position.spec_in_deck(),
            forall|id: CardId|
                id.side == side && game@.valid_card(id) && (#[trigger] game@.card(
                    id,
                )).position.spec_in_deck() ==> sorted@.contains(id),
            forall|p: int, q: int|
                0 <= p < q < sorted@.len() ==> spec_card_leq(
                    game@,
                    CardOrder::Placement,
                    #[trigger] sorted@[p],
                    #[trigger] sorted@[q],
                ),
            sorted@.len() == spec_count_where(
                game@.cards(side),
                game@.cards(side).len(),
                CardFilter::InDeck,
            ),
        decreases count - taken,
    {
        result.push(sorted[total - 1 - taken]);
        taken = taken + 1;
    }
    proof {
        let deck_count = spec_count_where(
            game@.cards(side),
            game@.cards(side).len(),
            CardFilter::InDeck,
        );
        assert forall|p: int, q: int| 0 <= p < q < result@.len() implies spec_card_leq(
            game@,
            CardOrder::Placement,
            #[trigger] result@[q],
            #[trigger] result@[p],
        ) by {
            assert(result@[p] == sorted@[total - 1 - p]);
            assert(result@[q] == sorted@[total - 1 - q]);
        }
        assert forall|p: int, q: int|
            0 <= p < q < result@.len() implies #[trigger] result@[p] != #[trigger] result@[q] by {
            assert(result@[p] == sorted@[total - 1 - p]);
            assert(result@[q] == sorted@[total - 1 - q]);
        }
        assert(result@.no_duplicates());
        assert forall|id: CardId, j: int|
            id.side == side && game@.valid_card(id) && (#[trigger] game@.card(
                id,
            )).position.spec_in_deck() && !result@.contains(id) && 0 <= j
                < result@.len() implies spec_card_leq(
            game@,
            CardOrder::Placement,
            id,
            #[trigger] result@[j],
        ) by {
            assert(sorted@.contains(id));
            let i = choose|i: int| 0 <= i < sorted@.len() && sorted@[i] == id;
            assert(result@[j] == sorted@[total - 1 - j]);
            if i >= total - result@.len() {
                let jj = total - 1 - i;
                assert(result@[jj] == sorted@[i]);
                assert(result@.contains(id));
                assert(false);
            }
        }
    }
    result
}

/// Helper naming the in-deck filter over the model, for proof reuse.
pub open spec fn spec_filter_in_deck(g: GameModel, id: CardId) -> bool {
    crate::game::spec_filter_matches(CardFilter::InDeck, g.card(id))
}

/// The model with the ongoing raid's phase replaced.
pub open spec fn spec_with_raid_phase(g: GameModel, phase: RaidPhase) -> GameModel {
    GameModel {
        data: crate::game::GameDataModel {
            raid: Some(crate::game::RaidModel { phase, ..g.data.raid->Some_0 }),
            ..g.data
        },
        ..g
    }
}

/// The model with the ongoing raid's accessed-card list replaced.
pub open spec fn spec_with_raid_accessed(g: GameModel, accessed: Seq<CardId>) -> GameModel {
    GameModel {
        data: crate::game::GameDataModel {
            raid: Some(crate::game::RaidModel { accessed, ..g.data.raid->Some_0 }),
            ..g.data
        },
        ..g
    }
}

/// The model with the ongoing raid's room-activation state replaced.
pub open spec fn spec_with_room_active(g: GameModel, room_active: bool) -> GameModel {
    GameModel {
        data: crate::game::GameDataModel {
            raid: Some(crate::game::RaidModel { room_active, ..g.data.raid->Some_0 }),
            ..g.data
        },
        ..g
    }
}

/// The prompt offered to the Overlord during the activation phase.
pub open spec fn spec_activation_prompt() -> PromptModel {
    PromptModel {
        context: Some(PromptContext::ActivateRoom),
        responses: seq![
            PromptAction::ActivateRoomAction(RoomActivationAction::Activate),
            PromptAction::ActivateRoomAction(RoomActivationAction::Pass),
        ],
    }
}

/// The prompt offered to the Champion during a continue phase.
pub open spec fn spec_continue_prompt() -> PromptModel {
    PromptModel {
        context: Some(PromptContext::RaidAdvance),
        responses: seq![
            PromptAction::ContinueAction(ContinueAction::Advance),
            PromptAction::ContinueAction(ContinueAction::Retreat),
        ],
    }
}

/// The weapon choices offered against `defender`: one action per weapon
/// in play that can defeat it, scanning the first `upto` weapons in slot
/// order.
pub open spec fn spec_weapon_actions(
    g: GameModel,
    cache: Seq<DelegateContext>,
    defs: Seq<CardDefinitionModel>,
    weapons: Seq<CardId>,
    upto: nat,
    defender: CardId,
) -> Seq<PromptAction>
    decreases upto,
{
    if upto == 0 || upto > weapons.len() {
        Seq::empty()
    } else {
        spec_weapon_actions(g, cache, defs, weapons, (upto - 1) as nat, defender)
            + if spec_can_defeat_target(g, cache, defs, weapons[upto - 1], defender) {
            seq![
                PromptAction::EncounterAction(
                    EncounterAction::UseWeaponAbility(weapons[upto - 1], defender),
                ),
            ]
        } else {
            Seq::empty()
        }
    }
}

/// The Champion's weapons in play, in slot order.
pub open spec fn spec_weapons(g: GameModel) -> Seq<CardId> {
    spec_ids_where(g.cards(Side::Champion), g.cards(Side::Champion).len(), CardFilter::WeaponItem)
}

/// The prompt offered to the Champion during an encounter: a weapon
/// choice per usable weapon, then passing with no weapon.
pub open spec fn spec_encounter_prompt(
    g: GameModel,
    cache: Seq<DelegateContext>,
    defs: Seq<CardDefinitionModel>,
    defender: CardId,
) -> PromptModel {
    PromptModel {
        context: None,
        responses: spec_weapon_actions(
            g,
            cache,
            defs,
            spec_weapons(g),
            spec_weapons(g).len(),
            defender,
        ) + seq![PromptAction::EncounterAction(EncounterAction::NoWeapon)],
    }
}

/// The per-card access actions for the first `upto` accessed cards: a
/// score action per scoreable card and a destroy action per destroyable
/// one.
pub open spec fn spec_access_actions(
    g: GameModel,
    cache: Seq<DelegateContext>,
    defs: Seq<CardDefinitionModel>,
    accessed: Seq<CardId>,
    upto: nat,
) -> Seq<PromptAction>
    decreases upto,
{
    if upto == 0 || upto > accessed.len() {
        Seq::empty()
    } else {
        spec_access_actions(g, cache, defs, accessed, (upto - 1) as nat) + {
            let id = accessed[upto - 1];
            if spec_can_score_card(g, defs, id) {
                seq![PromptAction::RaidScoreCard(id)]
            } else if spec_can_destroy_accessed_card(g, cache, defs, id) {
                seq![PromptAction::RaidDestroyCard(id)]
            } else {
                Seq::empty()
            }
        }
    }
}

/// The prompt offered to the Champion during the access phase: one
/// action per eligible accessed card, plus the always-available choice to
/// end the raid.
pub open spec fn spec_access_prompt(
    g: GameModel,
    cache: Seq<DelegateContext>,
    defs: Seq<CardDefinitionModel>,
) -> PromptModel {
    let accessed = g.data.raid->Some_0.accessed;
    PromptModel {
        context: None,
        responses: spec_access_actions(g, cache, defs, accessed, accessed.len())
            + seq![PromptAction::EndRaid],
    }
}

/// The model with every listed card revealed to the Champion, in list
/// order.
pub open spec fn spec_reveal_all(g: GameModel, ids: Seq<CardId>, upto: nat) -> GameModel
    decreases upto,
{
    if upto == 0 || upto > ids.len() {
        g
    } else {
        spec_set_revealed_to(
            spec_reveal_all(g, ids, (upto - 1) as nat),
            ids[upto - 1],
            Side::Champion,
            true,
        )
    }
}

/// The cards accessed when a raid reaches the access phase, by room
/// type. In deterministic mode the selection is exact; in real-random
/// mode only its zone, distinctness and size are determined.
pub open spec fn spec_access_selection(
    g: GameModel,
    cache: Seq<DelegateContext>,
    defs: Seq<CardDefinitionModel>,
    accessed: Seq<CardId>,
) -> bool {
    let raid = g.data.raid->Some_0;
    match raid.target {
        RoomId::Vault => {
            let n = spec_vault_access_count(g, cache, raid.raid_id) as nat;
            if g.data.config.deterministic {
                spec_deck_top_enumeration(g, Side::Overlord, n, accessed)
            } else {
                spec_random_zone_selection(g, CardFilter::InDeck, n, accessed)
            }
        },
        RoomId::Sanctum => {
            let n = spec_sanctum_access_count(g, cache, raid.raid_id) as nat;
            let hand = spec_ids_where(
                g.cards(Side::Overlord),
                g.cards(Side::Overlord).len(),
                CardFilter::Hand,
            );
            if g.data.config.deterministic {
                accessed == hand.take(if n <= hand.len() {
                    n as int
                } else {
                    hand.len() as int
                })
            } else {
                spec_random_zone_selection(g, CardFilter::Hand, n, accessed)
            }
        },
        RoomId::Crypts => accessed == spec_ids_where(
            g.cards(Side::Overlord),
            g.cards(Side::Overlord).len(),
            CardFilter::DiscardPileHiddenFrom(Side::Champion),
        ),
        _ => accessed == spec_ids_where(
            g.cards(Side::Overlord),
            g.cards(Side::Overlord).len(),
            CardFilter::RoomOccupant(raid.target),
        ),
    }
}

/// What holds of a random sample from one of the Overlord's zones,
/// whatever the process randomness returned: distinct cards of that
/// zone, as many as requested or as the zone holds.
pub open spec fn spec_random_zone_selection(
    g: GameModel,
    filter: CardFilter,
    n: nat,
    accessed: Seq<CardId>,
) -> bool {
    let zone = spec_count_where(
        g.cards(Side::Overlord),
        g.cards(Side::Overlord).len(),
        filter,
    );
    &&& accessed.len() == if n <= zone {
        n
    } else {
        zone
    }
    &&& accessed.no_duplicates()
    &&& forall|j: int|
        0 <= j < accessed.len() ==> g.valid_card(#[trigger] accessed[j]) && accessed[j].side
            == Side::Overlord && crate::game::spec_filter_matches(filter, g.card(accessed[j]))
}

/// Draws up to `n` distinct cards from the Overlord zone selected by
/// `filter`, uniformly without replacement. Real-random mode only.
fn sample_from_zone(game: &GameState, filter: CardFilter, n: usize) -> (r: Vec<CardId>)
    requires
        game@.wf(),
    ensures
        spec_random_zone_selection(game@, filter, n as nat, r@),
{
    let full = game.card_ids_where(Side::Overlord, filter);
    proof {
        crate::game::lemma_zone_selection(game@, Side::Overlord, filter);
        crate::game::lemma_ids_where_len(
            game@.cards(Side::Overlord),
            game@.cards(Side::Overlord).len(),
            filter,
        );
    }
    let k = if n <= full.len() {
        n
    } else {
        full.len()
    };
    let picks = crate::random::sample_indices(full.len(), k);
    let mut result: Vec<CardId> = Vec::new();
    let mut i: usize = 0;
    while i < picks.len()
        invariant
            i <= picks@.len(),
            result@.len() == i,
            picks@.len() == k,
            k <= full@.len(),
            full@ == spec_ids_where(
                game@.cards(Side::Overlord),
                game@.cards(Side::Overlord).len(),
                filter,
            ),
            forall|j: int| 0 <= j < picks@.len() ==> #[trigger] picks@[j] < full@.len(),
            forall|p: int, q: int| 0 <= p < q < picks@.len() ==> picks@[p] != picks@[q],
            forall|j: int| 0 <= j < i ==> #[trigger] result@[j] == full@[picks@[j] as int],
        decreases picks@.len() - i,
    {
        result.push(full[picks[i]]);
        i = i + 1;
    }
    proof {
        crate::game::lemma_zone_selection(game@, Side::Overlord, filter);
        assert forall|p: int, q: int|
            0 <= p < q < result@.len() implies #[trigger] result@[p] != #[trigger] result@[q] by {
            assert(result@[p] == full@[picks@[p] as int]);
            assert(result@[q] == full@[picks@[q] as int]);
            assert(full@.no_duplicates());
        }
        assert(result@.no_duplicates());
    }
    result
}

/// Copies the ongoing raid's accessed-card list.
pub fn raid_accessed(game: &GameState) -> (r: Vec<CardId>)
    requires
        game@.data.raid is Some,
    ensures
        r@ == game@.data.raid->Some_0.accessed,
{
    match &game.data.raid {
        Some(raid) => {
            let mut result: Vec<CardId> = Vec::new();
            let mut i: usize = 0;
            while i < raid.accessed.len()
                invariant
                    i <= raid.accessed@.len(),
                    result@ == raid.accessed@.take(i as int),
            decreases raid.accessed@.len() - i,
            {
                result.push(raid.accessed[i]);
                proof {
                    assert(result@ =~= raid.accessed@.take(i + 1));
                }
                i = i + 1;
            }
            proof {
                assert(result@ =~= raid.accessed@);
            }
            result
        },
        None => {
            proof {
                assert(false);
            }
            Vec::new()
        },
    }
}

/// Computes the cards accessed for the current raid target, without
/// mutating the game: the room-type rules of the access phase.
pub fn accessed_cards(game: &GameState, cache: &DelegateCache, catalogue: &Catalogue) -> (r: Vec<
    CardId,
>)
    requires
        game@.wf(),
        spec_game_in_catalogue(game@, catalogue@),
        game@.data.raid is Some,
    ensures
        spec_access_selection(game@, cache@, catalogue@, r@),
        forall|j: int|
            0 <= j < r@.len() ==> game@.valid_card(#[trigger] r@[j]) && r@[j].side
                == Side::Overlord,
        r@.no_duplicates(),
{
    let (target, raid_id, deterministic) = match &game.data.raid {
        Some(raid) => (raid.target, raid.raid_id, game.data.config.deterministic),
        None => {
            proof {
                assert(false);
            }
            (RoomId::Vault, crate::primitives::RaidId(0), true)
        },
    };
    let result = match target {
        RoomId::Vault => {
            let n = crate::queries::vault_access_count(game, cache, raid_id);
            if deterministic {
                top_of_deck_ids(game, Side::Overlord, n as usize)
            } else {
                sample_from_zone(game, CardFilter::InDeck, n as usize)
            }
        },
        RoomId::Sanctum => {
            let n = crate::queries::sanctum_access_count(game, cache, raid_id);
            if deterministic {
                let hand = game.hand(Side::Overlord);
                proof {
                    crate::game::lemma_zone_selection(game@, Side::Overlord, CardFilter::Hand);
                }
                let k = if (n as usize) <= hand.len() {
                    n as usize
                } else {
                    hand.len()
                };
                let mut taken: Vec<CardId> = Vec::new();
                let mut i: usize = 0;
                while i < k
                    invariant
                        i <= k,
                        k <= hand@.len(),
                        taken@ == hand@.take(i as int),
                    decreases k - i,
                {
                    taken.push(hand[i]);
                    proof {
                        assert(taken@ =~= hand@.take(i + 1));
                    }
                    i = i + 1;
                }
                taken
            } else {
                sample_from_zone(game, CardFilter::Hand, n as usize)
            }
        },
        RoomId::Crypts => {
            let ids = game.card_ids_where(
                Side::Overlord,
                CardFilter::DiscardPileHiddenFrom(Side::Champion),
            );
            ids
        },
        _ => game.occupants(target),
    };
    proof {
        crate::game::lemma_zone_selection(
            game@,
            Side::Overlord,
            CardFilter::DiscardPileHiddenFrom(Side::Champion),
        );
        crate::game::lemma_zone_selection(game@, Side::Overlord, CardFilter::Hand);
        crate::game::lemma_zone_selection(
            game@,
            Side::Overlord,
            CardFilter::RoomOccupant(game@.data.raid->Some_0.target),
        );
        if game@.data.raid->Some_0.target == RoomId::Sanctum && game@.data.config.deterministic {
            let hand = spec_ids_where(
                game@.cards(Side::Overlord),
                game@.cards(Side::Overlord).len(),
                CardFilter::Hand,
            );
            assert forall|p: int, q: int|
                0 <= p < q < result@.len() implies #[trigger] result@[p] != #[trigger] result@[q]
                by {
                assert(result@[p] == hand[p]);
                assert(result@[q] == hand[q]);
                assert(hand.no_duplicates());
            }
            assert(result@.no_duplicates());
        }
    }
    result
}

/// The model after entering the activation phase.
pub open spec fn spec_enter_activation(g: GameModel) -> GameModel {
    spec_with_raid_phase(g, RaidPhase::Activation).with_prompt(
        Side::Overlord,
        spec_activation_prompt(),
    )
}

/// The model after entering a continue phase.
pub open spec fn spec_enter_continue(g: GameModel, next_index: usize) -> GameModel {
    spec_with_raid_phase(g, RaidPhase::Continue(next_index)).with_prompt(
        Side::Champion,
        spec_continue_prompt(),
    )
}

/// The model after entering an encounter: when the defender can be
/// revealed by paying its cost, the Overlord's mana is spent and the
/// defender revealed, then the Champion is prompted for a weapon.
pub open spec fn spec_enter_encounter(
    g: GameModel,
    cache: Seq<DelegateContext>,
    defs: Seq<CardDefinitionModel>,
    defender: CardId,
    index: usize,
) -> GameModel {
    let g1 = spec_with_raid_phase(g, RaidPhase::Encounter(index));
    let g2 = if spec_can_reveal_defender(
        g1,
        cache,
        defs,
        g1.data.raid->Some_0.room_active,
        defender,
    ) {
        spec_set_revealed_to(
            spec_spend_mana(
                g1,
                Side::Overlord,
                spec_mana_cost(g1, cache, defs, defender)->Some_0,
            ),
            defender,
            Side::Champion,
            true,
        )
    } else {
        g1
    };
    g2.with_prompt(Side::Champion, spec_encounter_prompt(g2, cache, defs, defender))
}

/// The model after entering the access phase with selection `accessed`:
/// the selection is recorded on the raid, every accessed card is revealed
/// to the Champion, and the Champion is prompted with the access actions.
pub open spec fn spec_enter_access(
    g: GameModel,
    cache: Seq<DelegateContext>,
    defs: Seq<CardDefinitionModel>,
    accessed: Seq<CardId>,
) -> GameModel {
    let g1 = spec_with_raid_accessed(spec_with_raid_phase(g, RaidPhase::Access), accessed);
    let g2 = spec_reveal_all(g1, accessed, accessed.len());
    g2.with_prompt(Side::Champion, spec_access_prompt(g2, cache, defs))
}

/// Revealing cards changes reveal flags and the update log alone: slot
/// counts, names, positions and keys survive, and with them
/// well-formedness and catalogue coverage.
pub proof fn lemma_reveal_all_preserves(g: GameModel, ids: Seq<CardId>, upto: nat)
    requires
        forall|j: int| 0 <= j < ids.len() ==> g.valid_card(#[trigger] ids[j]),
    ensures
        ({
            let g2 = spec_reveal_all(g, ids, upto);
            &&& forall|side: Side| g2.cards(side).len() == g.cards(side).len()
            &&& forall|side: Side, i: int|
                0 <= i < g.cards(side).len() ==> {
                    &&& (#[trigger] g2.cards(side)[i]).name == g.cards(side)[i].name
                    &&& g2.cards(side)[i].id == g.cards(side)[i].id
                    &&& g2.cards(side)[i].side == g.cards(side)[i].side
                    &&& g2.cards(side)[i].position == g.cards(side)[i].position
                    &&& g2.cards(side)[i].sorting_key == g.cards(side)[i].sorting_key
                }
            &&& g2.next_sorting_key == g.next_sorting_key
            &&& g2.data.raid == g.data.raid
            &&& g2.data.config == g.data.config
            &&& g2.overlord == g.overlord
            &&& g2.champion == g.champion
        }),
    decreases upto,
{
    if upto != 0 && upto <= ids.len() {
        lemma_reveal_all_preserves(g, ids, (upto - 1) as nat);
        let gp = spec_reveal_all(g, ids, (upto - 1) as nat);
        let g2 = spec_reveal_all(g, ids, upto);
        assert(g2 == spec_set_revealed_to(gp, ids[upto - 1], Side::Champion, true));
        assert forall|side: Side| g2.cards(side).len() == g.cards(side).len() by {
            assert(gp.cards(side).len() == g.cards(side).len());
        }
        assert forall|side: Side, i: int|
            0 <= i < g.cards(side).len() implies {
            &&& (#[trigger] g2.cards(side)[i]).name == g.cards(side)[i].name
            &&& g2.cards(side)[i].id == g.cards(side)[i].id
            &&& g2.cards(side)[i].side == g.cards(side)[i].side
            &&& g2.cards(side)[i].position == g.cards(side)[i].position
            &&& g2.cards(side)[i].sorting_key == g.cards(side)[i].sorting_key
        } by {
            assert(gp.cards(side)[i].name == g.cards(side)[i].name);
            assert(gp.cards(side)[i].id == g.cards(side)[i].id);
            assert(gp.cards(side)[i].side == g.cards(side)[i].side);
            assert(gp.cards(side)[i].position == g.cards(side)[i].position);
            assert(gp.cards(side)[i].sorting_key == g.cards(side)[i].sorting_key);
        }
    }
}

/// Catalogue coverage and well-formedness transfer to the revealed
/// state.
pub proof fn lemma_reveal_all_wf(
    g: GameModel,
    defs: Seq<CardDefinitionModel>,
    ids: Seq<CardId>,
    upto: nat,
)
    requires
        g.wf(),
        spec_game_in_catalogue(g, defs),
        forall|j: int| 0 <= j < ids.len() ==> g.valid_card(#[trigger] ids[j]),
    ensures
        spec_reveal_all(g, ids, upto).wf(),
        spec_game_in_catalogue(spec_reveal_all(g, ids, upto), defs),
{
    let g2 = spec_reveal_all(g, ids, upto);
    lemma_reveal_all_preserves(g, ids, upto);
    assert(g2.cards(Side::Overlord).len() == g.cards(Side::Overlord).len());
    assert(g2.cards(Side::Champion).len() == g.cards(Side::Champion).len());
    assert forall|side: Side, i: int|
        0 <= i < g2.cards(side).len() implies {
        &&& (#[trigger] g2.cards(side)[i]).id == (CardId { side, index: i as usize })
        &&& g2.cards(side)[i].side == side
        &&& g2.cards(side)[i].sorting_key < g2.next_sorting_key
        &&& crate::rules::spec_defines(defs, g2.cards(side)[i].name)
    } by {
        assert(g.cards(side)[i].id == (CardId { side, index: i as usize }));
        assert(g.cards(side)[i].sorting_key < g.next_sorting_key);
        assert(crate::rules::spec_defines(defs, g.cards(side)[i].name));
    }
}

/// Revealing cards never touches the general game data: turn, raid and
/// configuration survive, whatever ids are listed.
pub proof fn lemma_reveal_all_keeps_data(g: GameModel, ids: Seq<CardId>, upto: nat)
    ensures
        spec_reveal_all(g, ids, upto).data == g.data,
    decreases upto,
{
    if upto != 0 && upto <= ids.len() {
        lemma_reveal_all_keeps_data(g, ids, (upto - 1) as nat);
    }
}

/// Reveals every listed card to the Champion, in list order.
pub fn reveal_accessed(game: &mut GameState, ids: &Vec<CardId>)
    requires
        old(game)@.wf(),
        forall|j: int| 0 <= j < ids@.len() ==> old(game)@.valid_card(#[trigger] ids@[j]),
    ensures
        final(game)@ == spec_reveal_all(old(game)@, ids@, ids@.len()),
        final(game)@.wf(),
{
    let mut i: usize = 0;
    while i < ids.len()
        invariant
            i <= ids@.len(),
            game@ == spec_reveal_all(old(game)@, ids@, i as nat),
            game@.wf(),
            forall|j: int| 0 <= j < ids@.len() ==> old(game)@.valid_card(#[trigger] ids@[j]),
        decreases ids@.len() - i,
    {
        proof {
            lemma_reveal_all_preserves(old(game)@, ids@, i as nat);
        }
        crate::mutations::set_revealed_to(game, ids[i], Side::Champion, true);
        i = i + 1;
    }
}

/// Builds the activation prompt: the Overlord chooses to activate the
/// room or pass.
pub fn build_activation_prompt() -> (r: Prompt)
    ensures
        r@ == spec_activation_prompt(),
{
    let mut responses: Vec<PromptAction> = Vec::new();
    responses.push(PromptAction::ActivateRoomAction(RoomActivationAction::Activate));
    responses.push(PromptAction::ActivateRoomAction(RoomActivationAction::Pass));
    let r = Prompt { context: Some(PromptContext::ActivateRoom), responses };
    proof {
        assert(r@.responses =~= spec_activation_prompt().responses);
    }
    r
}

/// Builds the continue prompt: the Champion chooses to advance or
/// retreat.
pub fn build_continue_prompt() -> (r: Prompt)
    ensures
        r@ == spec_continue_prompt(),
{
    let mut responses: Vec<PromptAction> = Vec::new();
    responses.push(PromptAction::ContinueAction(ContinueAction::Advance));
    responses.push(PromptAction::ContinueAction(ContinueAction::Retreat));
    let r = Prompt { context: Some(PromptContext::RaidAdvance), responses };
    proof {
        assert(r@.responses =~= spec_continue_prompt().responses);
    }
    r
}

/// Builds the encounter prompt: one action per weapon in play that can
/// defeat the revealed defender, then passing with no weapon.
pub fn build_encounter_prompt(
    game: &GameState,
    cache: &DelegateCache,
    catalogue: &Catalogue,
    defender: CardId,
) -> (r: Prompt)
    requires
        game@.wf(),
        spec_game_in_catalogue(game@, catalogue@),
        game@.valid_card(defender),
    ensures
        r@ == spec_encounter_prompt(game@, cache@, catalogue@, defender),
{
    let weapons = game.weapons();
    proof {
        crate::game::lemma_zone_selection(game@, Side::Champion, CardFilter::WeaponItem);
    }
    let mut responses: Vec<PromptAction> = Vec::new();
    let mut i: usize = 0;
    while i < weapons.len()
        invariant
            i <= weapons@.len(),
            game@.wf(),
            spec_game_in_catalogue(game@, catalogue@),
            game@.valid_card(defender),
            weapons@ == spec_weapons(game@),
            forall|j: int| 0 <= j < weapons@.len() ==> game@.valid_card(#[trigger] weapons@[j]),
            responses@ == spec_weapon_actions(
                game@,
                cache@,
                catalogue@,
                weapons@,
                i as nat,
                defender,
            ),
        decreases weapons@.len() - i,
    {
        if crate::flags::can_defeat_target(game, cache, catalogue, weapons[i], defender) {
            responses.push(
                PromptAction::EncounterAction(
                    EncounterAction::UseWeaponAbility(weapons[i], defender),
                ),
            );
            proof {
                assert(responses@ =~= spec_weapon_actions(
                    game@,
                    cache@,
                    catalogue@,
                    weapons@,
                    (i + 1) as nat,
                    defender,
                ));
            }
        } else {
            proof {
                assert(responses@ =~= spec_weapon_actions(
                    game@,
                    cache@,
                    catalogue@,
                    weapons@,
                    (i + 1) as nat,
                    defender,
                ));
            }
        }
        i = i + 1;
    }
    responses.push(PromptAction::EncounterAction(EncounterAction::NoWeapon));
    let r = Prompt { context: None, responses };
    proof {
        assert(r@.responses =~= spec_encounter_prompt(
            game@,
            cache@,
            catalogue@,
            defender,
        ).responses);
    }
    r
}

/// Builds the access prompt: one action per eligible accessed card, plus
/// ending the raid.
pub fn build_access_prompt(game: &GameState, cache: &DelegateCache, catalogue: &Catalogue) -> (r:
    Prompt)
    requires
        game@.wf(),
        spec_game_in_catalogue(game@, catalogue@),
        game@.data.raid is Some,
        forall|j: int|
            0 <= j < game@.data.raid->Some_0.accessed.len() ==> game@.valid_card(
                #[trigger] game@.data.raid->Some_0.accessed[j],
            ),
    ensures
        r@ == spec_access_prompt(game@, cache@, catalogue@),
{
    let accessed = raid_accessed(game);
    let mut responses: Vec<PromptAction> = Vec::new();
    let mut i: usize = 0;
    while i < accessed.len()
        invariant
            i <= accessed@.len(),
            game@.wf(),
            spec_game_in_catalogue(game@, catalogue@),
            accessed@ == game@.data.raid->Some_0.accessed,
            forall|j: int|
                0 <= j < accessed@.len() ==> game@.valid_card(#[trigger] accessed@[j]),
            responses@ == spec_access_actions(game@, cache@, catalogue@, accessed@, i as nat),
        decreases accessed@.len() - i,
    {
        let id = accessed[i];
        if crate::flags::can_score_card(game, catalogue, id) {
            responses.push(PromptAction::RaidScoreCard(id));
        } else if crate::flags::can_destroy_accessed_card(game, cache, catalogue, id) {
            responses.push(PromptAction::RaidDestroyCard(id));
        }
        proof {
            assert(responses@ =~= spec_access_actions(
                game@,
                cache@,
                catalogue@,
                accessed@,
                (i + 1) as nat,
            ));
        }
        i = i + 1;
    }
    responses.push(PromptAction::EndRaid);
    let r = Prompt { context: None, responses };
    proof {
        assert(r@.responses =~= spec_access_prompt(game@, cache@, catalogue@).responses);
    }
    r
}

/// Updates the phase of the ongoing raid, runs the phase's entry action
/// and prompts the side that acts during it.
///
/// Entering an encounter auto-pays and reveals the defender when the
/// room is active and the Overlord can afford its cost; entering the
/// access phase computes and reveals the accessed cards. A phase index
/// out of range is a programmer error, excluded by precondition.
pub fn set_raid_phase(
    game: &mut GameState,
    cache: &DelegateCache,
    catalogue: &Catalogue,
    phase: RaidPhase,
)
    requires
        old(game)@.wf(),
        spec_game_in_catalogue(old(game)@, catalogue@),
        old(game)@.data.raid is Some,
        phase matches RaidPhase::Encounter(n) ==> n < spec_defender_count(
            old(game)@,
            old(game)@.data.raid->Some_0.target,
        ),
    ensures
        final(game)@.wf(),
        final(game)@.data.raid is Some,
        final(game)@.data.raid->Some_0.phase == phase,
        phase == RaidPhase::Activation ==> final(game)@ == spec_enter_activation(old(game)@),
        phase matches RaidPhase::Continue(m) ==> final(game)@ == spec_enter_continue(
            old(game)@,
            m,
        ),
        phase matches RaidPhase::Encounter(n) ==> exists|ds: Seq<CardId>|
            spec_defender_enumeration(old(game)@, old(game)@.data.raid->Some_0.target, ds) && (
            n as int) < ds.len() && final(game)@ == spec_enter_encounter(
                old(game)@,
                cache@,
                catalogue@,
                #[trigger] ds[n as int],
                n,
            ),
        phase == RaidPhase::Access ==> exists|acc: Seq<CardId>|
            spec_access_selection(old(game)@, cache@, catalogue@, acc) && final(game)@
                == #[trigger] spec_enter_access(old(game)@, cache@, catalogue@, acc),
{
    match phase {
        RaidPhase::Activation => {
            set_phase_field(game, phase);
            let prompt = build_activation_prompt();
            crate::mutations::set_prompt(game, Side::Overlord, prompt);
        },
        RaidPhase::Continue(_) => {
            set_phase_field(game, phase);
            let prompt = build_continue_prompt();
            crate::mutations::set_prompt(game, Side::Champion, prompt);
        },
        RaidPhase::Encounter(n) => {
            let target = match &game.data.raid {
                Some(raid) => raid.target,
                None => {
                    proof {
                        assert(false);
                    }
                    RoomId::Vault
                },
            };
            let defenders = game.defender_list(target);
            let defender = defenders[n];
            set_phase_field(game, phase);
            let ghost g1 = game@;
            let room_active = match &game.data.raid {
                Some(raid) => raid.room_active,
                None => {
                    proof {
                        assert(false);
                    }
                    false
                },
            };
            let revealed = game.card(defender).is_revealed_to(Side::Champion);
            let cost = crate::queries::mana_cost(game, cache, catalogue, defender);
            let reveal = room_active && !revealed && (match cost {
                Some(c) => c <= game.player(Side::Overlord).mana,
                None => false,
            });
            if reveal {
                let c = match cost {
                    Some(c) => c,
                    None => {
                        proof {
                            assert(false);
                        }
                        0
                    },
                };
                crate::mutations::spend_mana(game, Side::Overlord, c);
                crate::mutations::set_revealed_to(game, defender, Side::Champion, true);
            }
            let ghost g2 = game@;
            proof {
                assert(g2.wf());
                assert forall|side: Side, i: int|
                    0 <= i < g2.cards(side).len() implies crate::rules::spec_defines(
                    catalogue@,
                    (#[trigger] g2.cards(side)[i]).name,
                ) by {
                    assert(crate::rules::spec_defines(
                        catalogue@,
                        old(game)@.cards(side)[i].name,
                    ));
                }
            }
            let prompt = build_encounter_prompt(game, cache, catalogue, defender);
            crate::mutations::set_prompt(game, Side::Champion, prompt);
            proof {
                assert(spec_defender_enumeration(
                    old(game)@,
                    old(game)@.data.raid->Some_0.target,
                    defenders@,
                ) && (n as int) < defenders@.len() && final(game)@ == spec_enter_encounter(
                    old(game)@,
                    cache@,
                    catalogue@,
                    defenders@[n as int],
                    n,
                ));
            }
        },
        RaidPhase::Access => {
            let accessed = accessed_cards(game, cache, catalogue);
            set_phase_field(game, phase);
            set_accessed_field(game, &accessed);
            let ghost g1 = game@;
            proof {
                assert forall|side: Side, i: int|
                    0 <= i < g1.cards(side).len() implies crate::rules::spec_defines(
                    catalogue@,
                    (#[trigger] g1.cards(side)[i]).name,
                ) by {
                    assert(crate::rules::spec_defines(
                        catalogue@,
                        old(game)@.cards(side)[i].name,
                    ));
                }
            }
            reveal_accessed(game, &accessed);
            proof {
                lemma_reveal_all_wf(g1, catalogue@, accessed@, accessed@.len());
                lemma_reveal_all_preserves(g1, accessed@, accessed@.len());
            }
            let prompt = build_access_prompt(game, cache, catalogue);
            crate::mutations::set_prompt(game, Side::Champion, prompt);
            proof {
                assert(spec_access_selection(old(game)@, cache@, catalogue@, accessed@));
                assert(final(game)@ == spec_enter_access(old(game)@, cache@, catalogue@, accessed@));
            }
        },
    }
}

/// Sets the prompt for the current raid phase: the Overlord decides
/// activation, the Champion decides encounters, continuation and access,
/// while the other side waits. Used when a prompt must be refreshed
/// without re-running the phase's entry action.
pub fn set_raid_prompt(game: &mut GameState, cache: &DelegateCache, catalogue: &Catalogue)
    requires
        old(game)@.wf(),
        spec_game_in_catalogue(old(game)@, catalogue@),
        old(game)@.data.raid is Some,
        old(game)@.data.raid->Some_0.phase matches RaidPhase::Encounter(n) ==> n
            < spec_defender_count(old(game)@, old(game)@.data.raid->Some_0.target),
        forall|j: int|
            0 <= j < old(game)@.data.raid->Some_0.accessed.len() ==> old(game)@.valid_card(
                #[trigger] old(game)@.data.raid->Some_0.accessed[j],
            ),
    ensures
        final(game)@.wf(),
        old(game)@.data.raid->Some_0.phase == RaidPhase::Activation ==> final(game)@ == old(
            game,
        )@.with_prompt(Side::Overlord, spec_activation_prompt()),
        (old(game)@.data.raid->Some_0.phase matches RaidPhase::Continue(_)) ==> final(game)@
            == old(game)@.with_prompt(Side::Champion, spec_continue_prompt()),
        old(game)@.data.raid->Some_0.phase == RaidPhase::Access ==> final(game)@ == old(
            game,
        )@.with_prompt(
            Side::Champion,
            spec_access_prompt(old(game)@, cache@, catalogue@),
        ),
        old(game)@.data.raid->Some_0.phase matches RaidPhase::Encounter(n) ==> exists|
            ds: Seq<CardId>,
        |
            spec_defender_enumeration(old(game)@, old(game)@.data.raid->Some_0.target, ds)
                && final(game)@ == old(game)@.with_prompt(
                Side::Champion,
                #[trigger] spec_encounter_prompt(old(game)@, cache@, catalogue@, ds[n as int]),
            ),
{
    let phase = match &game.data.raid {
        Some(raid) => raid.phase,
        None => {
            proof {
                assert(false);
            }
            RaidPhase::Access
        },
    };
    match phase {
        RaidPhase::Activation => {
            let prompt = build_activation_prompt();
            crate::mutations::set_prompt(game, Side::Overlord, prompt);
        },
        RaidPhase::Continue(_) => {
            let prompt = build_continue_prompt();
            crate::mutations::set_prompt(game, Side::Champion, prompt);
        },
        RaidPhase::Encounter(n) => {
            let target = match &game.data.raid {
                Some(raid) => raid.target,
                None => {
                    proof {
                        assert(false);
                    }
                    RoomId::Vault
                },
            };
            let defenders = game.defender_list(target);
            let defender = defenders[n];
            let prompt = build_encounter_prompt(game, cache, catalogue, defender);
            crate::mutations::set_prompt(game, Side::Champion, prompt);
            proof {
                assert(spec_defender_enumeration(
                    old(game)@,
                    old(game)@.data.raid->Some_0.target,
                    defenders@,
                ) && final(game)@ == old(game)@.with_prompt(
                    Side::Champion,
                    spec_encounter_prompt(old(game)@, cache@, catalogue@, defenders@[n as int]),
                ));
            }
        },
        RaidPhase::Access => {
            let prompt = build_access_prompt(game, cache, catalogue);
            crate::mutations::set_prompt(game, Side::Champion, prompt);
        },
    }
}

/// Sets the raw phase field of the ongoing raid.
fn set_phase_field(game: &mut GameState, phase: RaidPhase)
    requires
        old(game)@.data.raid is Some,
    ensures
        final(game)@ == spec_with_raid_phase(old(game)@, phase),
        old(game)@.wf() ==> final(game)@.wf(),
{
    match &mut game.data.raid {
        Some(raid) => {
            raid.phase = phase;
        },
        None => {
            proof {
                assert(false);
            }
        },
    }
    proof {
        if old(game)@.wf() {
            crate::game::lemma_wf_same_cards(old(game)@, game@);
        }
    }
}

/// Sets the raw accessed-card list of the ongoing raid.
fn set_accessed_field(game: &mut GameState, accessed: &Vec<CardId>)
    requires
        old(game)@.data.raid is Some,
    ensures
        final(game)@ == spec_with_raid_accessed(old(game)@, accessed@),
        old(game)@.wf() ==> final(game)@.wf(),
{
    let mut copy = raid_accessed(game);
    copy.clear();
    let mut i: usize = 0;
    while i < accessed.len()
        invariant
            i <= accessed@.len(),
            copy@ == accessed@.take(i as int),
        decreases accessed@.len() - i,
    {
        copy.push(accessed[i]);
        proof {
            assert(copy@ =~= accessed@.take(i + 1));
        }
        i = i + 1;
    }
    proof {
        assert(copy@ =~= accessed@);
    }
    match &mut game.data.raid {
        Some(raid) => {
            raid.accessed = copy;
        },
        None => {
            proof {
                assert(false);
            }
        },
    }
    proof {
        if old(game)@.wf() {
            crate::game::lemma_wf_same_cards(old(game)@, game@);
        }
    }
}

} // verus!
