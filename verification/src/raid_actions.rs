//! The action-handling boundary of the raid state machine: validates each
//! requested player action against the current raid state and permission
//! flags, rejects illegal actions with no state change, and drives the
//! phase transitions of accepted ones.

use vstd::prelude::*;

use crate::actions::ActionError;
use crate::card_definition::CardDefinitionModel;
use crate::delegates::{DelegateCache, DelegateContext, GameEvent};
use crate::dispatch::{lemma_event_moves_bound, spec_cache_moves_bound, spec_invoke_event};
use crate::flags::spec_can_initiate_raid;
use crate::game::{spec_defender_enumeration, GameModel, GameState, RaidPhase, RaidState};
use crate::mutations::{spec_end_raid, spec_spend_action_points};
use crate::primitives::{CardId, RaidId, RoomId, Side};
use crate::queries::spec_cost_to_defeat;
use crate::raid_phases::{
    spec_access_selection, spec_can_reveal_defender, spec_defender_count, spec_enter_access,
    spec_enter_activation, spec_enter_continue, spec_enter_encounter,
};
use crate::rules::{spec_game_in_catalogue, Catalogue};
use crate::updates::GameUpdate;

verus! {

/// Whether the defender can take part in an encounter: it is revealed to
/// the Champion, or entering its encounter would auto-pay and reveal it.
pub open spec fn spec_encounterable(
    g: GameModel,
    cache: Seq<DelegateContext>,
    defs: Seq<CardDefinitionModel>,
    room_active: bool,
    id: CardId,
) -> bool {
    g.card(id).spec_is_revealed_to(Side::Champion) || spec_can_reveal_defender(
        g,
        cache,
        defs,
        room_active,
        id,
    )
}

/// Executable counterpart of [`spec_encounterable`].
fn encounterable(
    game: &GameState,
    cache: &DelegateCache,
    catalogue: &Catalogue,
    room_active: bool,
    id: CardId,
) -> (r: bool)
    requires
        game@.wf(),
        spec_game_in_catalogue(game@, catalogue@),
        game@.valid_card(id),
    ensures
        r == spec_encounterable(game@, cache@, catalogue@, room_active, id),
{
    if game.card(id).is_revealed_to(Side::Champion) {
        return true;
    }
    let affordable = match crate::queries::mana_cost(game, cache, catalogue, id) {
        Some(cost) => cost <= game.player(Side::Overlord).mana,
        None => false,
    };
    room_active && affordable
}

/// The phase reached by scanning the defender list downward from `from`:
/// the encounter of the first encounterable defender, or access when none
/// is left.
pub open spec fn spec_scan_phase(
    g: GameModel,
    cache: Seq<DelegateContext>,
    defs: Seq<CardDefinitionModel>,
    ds: Seq<CardId>,
    room_active: bool,
    from: int,
) -> RaidPhase
    decreases from + 1,
{
    if from < 0 || from >= ds.len() {
        RaidPhase::Access
    } else if spec_encounterable(g, cache, defs, room_active, ds[from]) {
        RaidPhase::Encounter(from as usize)
    } else {
        spec_scan_phase(g, cache, defs, ds, room_active, from - 1)
    }
}

/// The state after advancing the raid by scanning `ds` from `from`:
/// entering the found encounter, or the access phase with selection
/// `acc`.
pub open spec fn spec_enter_scanned(
    g: GameModel,
    cache: Seq<DelegateContext>,
    defs: Seq<CardDefinitionModel>,
    ds: Seq<CardId>,
    acc: Seq<CardId>,
    from: int,
) -> GameModel {
    let room_active = g.data.raid->Some_0.room_active;
    match spec_scan_phase(g, cache, defs, ds, room_active, from) {
        RaidPhase::Encounter(n) => spec_enter_encounter(g, cache, defs, ds[n as int], n),
        _ => spec_enter_access(g, cache, defs, acc),
    }
}

/// Advances the raid to the next encounterable defender at or below index
/// `upper - 1` of the given defender enumeration, or to the access phase
/// when none remains.
fn advance_raid(
    game: &mut GameState,
    cache: &DelegateCache,
    catalogue: &Catalogue,
    defenders: &Vec<CardId>,
    upper: usize,
)
    requires
        old(game)@.wf(),
        spec_game_in_catalogue(old(game)@, catalogue@),
        old(game)@.data.raid is Some,
        spec_defender_enumeration(old(game)@, old(game)@.data.raid->Some_0.target, defenders@),
        upper <= defenders@.len(),
    ensures
        final(game)@.wf(),
        final(game)@.data.raid is Some,
        exists|acc: Seq<CardId>|
            (spec_scan_phase(
                old(game)@,
                cache@,
                catalogue@,
                defenders@,
                old(game)@.data.raid->Some_0.room_active,
                upper - 1,
            ) == RaidPhase::Access ==> spec_access_selection(old(game)@, cache@, catalogue@, acc))
                && final(game)@ == #[trigger] spec_enter_scanned(
                old(game)@,
                cache@,
                catalogue@,
                defenders@,
                acc,
                upper - 1,
            ),
{
    let room_active = match &game.data.raid {
        Some(raid) => raid.room_active,
        None => {
            proof {
                assert(false);
            }
            false
        },
    };
    let ghost from = upper as int - 1;
    let mut j: usize = upper;
    while j > 0
        invariant
            j <= defenders@.len(),
            game@ == old(game)@,
            game@.wf(),
            spec_game_in_catalogue(game@, catalogue@),
            game@.data.raid is Some,
            room_active == game@.data.raid->Some_0.room_active,
            spec_defender_enumeration(game@, game@.data.raid->Some_0.target, defenders@),
            spec_scan_phase(game@, cache@, catalogue@, defenders@, room_active, j - 1)
                == spec_scan_phase(game@, cache@, catalogue@, defenders@, room_active, upper - 1),
        decreases j,
    {
        if encounterable(game, cache, catalogue, room_active, defenders[j - 1]) {
            proof {
                assert(spec_scan_phase(
                    game@,
                    cache@,
                    catalogue@,
                    defenders@,
                    room_active,
                    j - 1,
                ) == RaidPhase::Encounter((j - 1) as usize));
                assert(spec_scan_phase(
                    old(game)@,
                    cache@,
                    catalogue@,
                    defenders@,
                    room_active,
                    upper - 1,
                ) == RaidPhase::Encounter((j - 1) as usize));
            }
            crate::raid_phases::set_raid_phase(
                game,
                cache,
                catalogue,
                RaidPhase::Encounter(j - 1),
            );
            proof {
                let ds0 = choose|ds0: Seq<CardId>|
                    spec_defender_enumeration(
                        old(game)@,
                        old(game)@.data.raid->Some_0.target,
                        ds0,
                    ) && ((j - 1) as int) < ds0.len() && final(game)@
                        == spec_enter_encounter(
                        old(game)@,
                        cache@,
                        catalogue@,
                        #[trigger] ds0[(j - 1) as int],
                        (j - 1) as usize,
                    );
                crate::game::lemma_defender_enumeration_unique(
                    old(game)@,
                    old(game)@.data.raid->Some_0.target,
                    ds0,
                    defenders@,
                );
                let acc = Seq::<CardId>::empty();
                assert(spec_scan_phase(
                    old(game)@,
                    cache@,
                    catalogue@,
                    defenders@,
                    room_active,
                    upper - 1,
                ) == RaidPhase::Encounter((j - 1) as usize));
                assert(final(game)@ == spec_enter_scanned(
                    old(game)@,
                    cache@,
                    catalogue@,
                    defenders@,
                    acc,
                    upper - 1,
                ));
            }
            return ;
        }
        j = j - 1;
    }
    crate::raid_phases::set_raid_phase(game, cache, catalogue, RaidPhase::Access);
    proof {
        let acc = choose|acc: Seq<CardId>|
            spec_access_selection(old(game)@, cache@, catalogue@, acc) && final(game)@
                == #[trigger] spec_enter_access(old(game)@, cache@, catalogue@, acc);
        assert(spec_scan_phase(
            old(game)@,
            cache@,
            catalogue@,
            defenders@,
            room_active,
            upper - 1,
        ) == RaidPhase::Access);
        assert(final(game)@ == spec_enter_scanned(
            old(game)@,
            cache@,
            catalogue@,
            defenders@,
            acc,
            upper - 1,
        ));
    }
}

/// The state created for a new raid, before the begin event fires: the
/// action point is spent, the raid state exists in its activation phase
/// with the room not yet active, and the initiation is logged.
pub open spec fn spec_initiate_base(g: GameModel, room: RoomId) -> GameModel {
    let g1 = spec_spend_action_points(g, Side::Champion, 1);
    let g2 = GameModel {
        data: crate::game::GameDataModel {
            raid: Some(
                crate::game::RaidModel {
                    raid_id: RaidId(g.next_raid_id),
                    target: room,
                    phase: RaidPhase::Activation,
                    room_active: false,
                    accessed: Seq::empty(),
                    priority: Side::Champion,
                },
            ),
            ..g1.data
        },
        next_raid_id: (g.next_raid_id + 1) as u64,
        ..g1
    };
    g2.with_update(GameUpdate::InitiateRaid(room))
}

/// Whether a fresh raid stops in the activation phase: there is a
/// defender to encounter first, it is hidden, and the Overlord could
/// reveal it by activating the room and paying its cost.
pub open spec fn spec_wants_activation(
    g: GameModel,
    cache: Seq<DelegateContext>,
    defs: Seq<CardDefinitionModel>,
    ds: Seq<CardId>,
) -> bool {
    ds.len() > 0 && spec_can_reveal_defender(g, cache, defs, true, ds[ds.len() - 1])
}

/// The state a successful raid initiation produces, for defender
/// enumeration `ds` and access selection `acc` read on the state after
/// the begin event.
pub open spec fn spec_initiate_result(
    g: GameModel,
    cache: Seq<DelegateContext>,
    defs: Seq<CardDefinitionModel>,
    room: RoomId,
    ds: Seq<CardId>,
    acc: Seq<CardId>,
) -> GameModel {
    let g1 = spec_initiate_base(g, room);
    let g2 = spec_invoke_event(g1, cache, GameEvent::RaidBegin(RaidId(g.next_raid_id)));
    match g2.data.raid_end_requested {
        Some(outcome) => spec_end_raid(g2, cache, outcome),
        None => if spec_wants_activation(g2, cache, defs, ds) {
            spec_enter_activation(g2)
        } else {
            spec_enter_scanned(g2, cache, defs, ds, acc, ds.len() - 1)
        },
    }
}

/// Initiates a raid against `room` on behalf of `user_side`.
///
/// Rejected, with no state change, exactly when the raid permission flag
/// denies it: wrong side, not the Champion's turn, no action point left,
/// a raid already running, or an unraidable room. On success the action
/// point is spent, the raid exists, the begin event has fired and the
/// raid stands in its first phase with the acting side prompted.
pub fn initiate_raid(
    game: &mut GameState,
    cache: &DelegateCache,
    catalogue: &Catalogue,
    user_side: Side,
    room: RoomId,
) -> (r: Result<(), ActionError>)
    requires
        old(game)@.wf(),
        spec_game_in_catalogue(old(game)@, catalogue@),
        old(game)@.next_raid_id < u64::MAX,
        old(game)@.next_sorting_key + 2 * spec_cache_moves_bound(cache@) <= u32::MAX,
    ensures
        r is Ok <==> spec_can_initiate_raid(old(game)@, cache@, user_side, room) && old(
            game,
        )@.player(Side::Champion).actions > 0 && old(game)@.data.raid is None,
        r is Err ==> final(game)@ == old(game)@,
        r is Ok ==> final(game)@.wf() && exists|ds: Seq<CardId>, acc: Seq<CardId>|
            spec_defender_enumeration(
                spec_invoke_event(
                    spec_initiate_base(old(game)@, room),
                    cache@,
                    GameEvent::RaidBegin(RaidId(old(game)@.next_raid_id)),
                ),
                room,
                ds,
            ) && final(game)@ == #[trigger] spec_initiate_result(
                old(game)@,
                cache@,
                catalogue@,
                room,
                ds,
                acc,
            ),
{
    if game.player(Side::Champion).actions == 0 || game.data.raid.is_some() {
        // A permission override cannot conjure the action point a raid
        // costs, nor run two raids at once.
        return Err(ActionError::IllegalAction);
    }
    if !crate::flags::can_initiate_raid(game, cache, user_side, room) {
        return Err(ActionError::IllegalAction);
    }
    crate::mutations::spend_action_points(game, Side::Champion, 1);
    let raid_id = RaidId(game.next_raid_id);
    game.data.raid = Some(
        RaidState {
            raid_id,
            target: room,
            phase: RaidPhase::Activation,
            room_active: false,
            accessed: Vec::new(),
            priority: Side::Champion,
        },
    );
    game.next_raid_id = game.next_raid_id + 1;
    game.push_update(GameUpdate::InitiateRaid(room));
    proof {
        crate::game::lemma_wf_same_cards(old(game)@, game@);
        assert(game@ == spec_initiate_base(old(game)@, room));
        lemma_event_moves_bound(cache@, GameEvent::RaidBegin(raid_id));
    }
    crate::dispatch::invoke_event(game, cache, GameEvent::RaidBegin(raid_id));
    let ghost g2 = game@;
    proof {
        let g1 = spec_initiate_base(old(game)@, room);
        crate::dispatch::lemma_invoke_event_preserves_names(
            g1,
            cache@,
            GameEvent::RaidBegin(raid_id),
        );
        assert forall|side: Side, i: int|
            0 <= i < g2.cards(side).len() implies crate::rules::spec_defines(
            catalogue@,
            (#[trigger] g2.cards(side)[i]).name,
        ) by {
            assert(g2.cards(side)[i].name == g1.cards(side)[i].name);
            assert(g1.cards(side)[i].name == old(game)@.cards(side)[i].name);
            assert(crate::rules::spec_defines(catalogue@, old(game)@.cards(side)[i].name));
        }
    }
    let defenders = game.defender_list(room);
    let pending = game.data.raid_end_requested;
    match pending {
        Some(outcome) => {
            proof {
                lemma_event_moves_bound(
                    cache@,
                    GameEvent::RaidEnd(
                        crate::delegates::RaidEnded {
                            raid_id: game@.data.raid->Some_0.raid_id,
                            outcome,
                        },
                    ),
                );
            }
            crate::mutations::end_raid(game, cache, outcome);
            proof {
                let ds = defenders@;
                let acc = Seq::<CardId>::empty();
                assert(final(game)@ == spec_initiate_result(
                    old(game)@,
                    cache@,
                    catalogue@,
                    room,
                    ds,
                    acc,
                ));
            }
        },
        None => {
            let k = defenders.len();
            let wants_activation = if k > 0 {
                let last = defenders[k - 1];
                let revealed = game.card(last).is_revealed_to(Side::Champion);
                let affordable = match crate::queries::mana_cost(game, cache, catalogue, last) {
                    Some(cost) => cost <= game.player(Side::Overlord).mana,
                    None => false,
                };
                !revealed && affordable
            } else {
                false
            };
            if wants_activation {
                crate::raid_phases::set_raid_phase(game, cache, catalogue, RaidPhase::Activation);
                proof {
                    let ds = defenders@;
                    let acc = Seq::<CardId>::empty();
                    assert(spec_wants_activation(g2, cache@, catalogue@, ds));
                    assert(final(game)@ == spec_initiate_result(
                        old(game)@,
                        cache@,
                        catalogue@,
                        room,
                        ds,
                        acc,
                    ));
                }
            } else {
                advance_raid(game, cache, catalogue, &defenders, k);
                proof {
                    let ds = defenders@;
                    assert(!spec_wants_activation(g2, cache@, catalogue@, ds));
                    let acc = choose|acc: Seq<CardId>|
                        (spec_scan_phase(
                            g2,
                            cache@,
                            catalogue@,
                            ds,
                            g2.data.raid->Some_0.room_active,
                            k - 1,
                        ) == RaidPhase::Access ==> spec_access_selection(
                            g2,
                            cache@,
                            catalogue@,
                            acc,
                        )) && final(game)@ == #[trigger] spec_enter_scanned(
                            g2,
                            cache@,
                            catalogue@,
                            ds,
                            acc,
                            k - 1,
                        );
                    assert(final(game)@ == spec_initiate_result(
                        old(game)@,
                        cache@,
                        catalogue@,
                        room,
                        ds,
                        acc,
                    ));
                }
            }
        },
    }
    Ok(())
}

/// The scan start for advancing past defender `m`: `m` itself, clamped
/// to the last index of the defender list.
pub open spec fn spec_clamped_index(m: usize, len: nat) -> int {
    if m + 1 <= len {
        m as int
    } else {
        len - 1
    }
}

/// Whether the activation decision turns the room on.
pub open spec fn spec_activation_choice(action: crate::actions::RoomActivationAction) -> bool {
    action == crate::actions::RoomActivationAction::Activate
}

/// Sets the raw room-activation state of the ongoing raid.
fn set_room_active_field(game: &mut GameState, room_active: bool)
    requires
        old(game)@.data.raid is Some,
    ensures
        final(game)@ == crate::raid_phases::spec_with_room_active(old(game)@, room_active),
        old(game)@.wf() ==> final(game)@.wf(),
{
    match &mut game.data.raid {
        Some(raid) => {
            raid.room_active = room_active;
        },
        None => {
            proof {
                assert(false);
            }
        },
    }
    proof {
        if old(game)@.wf() {
            crate::game::lemma_wf_same_cards(old(game)@, game@);
        }
    }
}

/// Handles the Overlord's activation decision: activating the room
/// enables automatic paid reveals of its defenders, passing declines.
/// Either way the raid advances to the outermost encounterable defender
/// or straight to access.
///
/// Rejected, with no state change, exactly when no raid is in its
/// activation phase or the actor is not the Overlord.
pub fn handle_room_activation(
    game: &mut GameState,
    cache: &DelegateCache,
    catalogue: &Catalogue,
    user_side: Side,
    action: crate::actions::RoomActivationAction,
) -> (r: Result<(), ActionError>)
    requires
        old(game)@.wf(),
        spec_game_in_catalogue(old(game)@, catalogue@),
    ensures
        r is Ok <==> old(game)@.data.raid is Some && old(game)@.data.raid->Some_0.phase
            == RaidPhase::Activation && user_side == Side::Overlord,
        r is Err ==> final(game)@ == old(game)@,
        r is Ok ==> final(game)@.wf() && exists|ds: Seq<CardId>, acc: Seq<CardId>|
            spec_defender_enumeration(
                crate::raid_phases::spec_with_room_active(
                    old(game)@,
                    spec_activation_choice(action),
                ),
                old(game)@.data.raid->Some_0.target,
                ds,
            ) && final(game)@ == #[trigger] spec_enter_scanned(
                crate::raid_phases::spec_with_room_active(
                    old(game)@,
                    spec_activation_choice(action),
                ),
                cache@,
                catalogue@,
                ds,
                acc,
                ds.len() - 1,
            ),
{
    let valid = match &game.data.raid {
        Some(raid) => raid.phase == RaidPhase::Activation && user_side == Side::Overlord,
        None => false,
    };
    if !valid {
        return Err(ActionError::IllegalAction);
    }
    let activate = action == crate::actions::RoomActivationAction::Activate;
    set_room_active_field(game, activate);
    let ghost g1 = game@;
    proof {
        assert forall|side: Side, i: int|
            0 <= i < g1.cards(side).len() implies crate::rules::spec_defines(
            catalogue@,
            (#[trigger] g1.cards(side)[i]).name,
        ) by {
            assert(crate::rules::spec_defines(catalogue@, old(game)@.cards(side)[i].name));
        }
    }
    let target = match &game.data.raid {
        Some(raid) => raid.target,
        None => {
            proof {
                assert(false);
            }
            RoomId::Vault
        },
    };
    let defenders = game.defender_list(target);
    let k = defenders.len();
    advance_raid(game, cache, catalogue, &defenders, k);
    proof {
        let ds = defenders@;
        let acc = choose|acc: Seq<CardId>|
            (spec_scan_phase(
                g1,
                cache@,
                catalogue@,
                ds,
                g1.data.raid->Some_0.room_active,
                k - 1,
            ) == RaidPhase::Access ==> spec_access_selection(g1, cache@, catalogue@, acc))
                && final(game)@ == #[trigger] spec_enter_scanned(
                g1,
                cache@,
                catalogue@,
                ds,
                acc,
                k - 1,
            );
        assert(final(game)@ == spec_enter_scanned(g1, cache@, catalogue@, ds, acc, ds.len() - 1));
    }
    Ok(())
}

/// Handles the Champion's choice between encounters: advancing proceeds
/// to the next defender's encounter (or to access when none is
/// encounterable), retreating abandons the raid, ending it in failure.
///
/// Rejected, with no state change, exactly when no raid is in a continue
/// phase or the actor is not the Champion.
pub fn handle_continue_action(
    game: &mut GameState,
    cache: &DelegateCache,
    catalogue: &Catalogue,
    user_side: Side,
    action: crate::actions::ContinueAction,
) -> (r: Result<(), ActionError>)
    requires
        old(game)@.wf(),
        spec_game_in_catalogue(old(game)@, catalogue@),
        old(game)@.next_sorting_key + spec_cache_moves_bound(cache@) <= u32::MAX,
    ensures
        r is Ok <==> old(game)@.data.raid is Some && (old(game)@.data.raid->Some_0.phase matches
            RaidPhase::Continue(_)) && user_side == Side::Champion,
        r is Err ==> final(game)@ == old(game)@,
        r is Ok ==> final(game)@.wf(),
        r is Ok && action == crate::actions::ContinueAction::Retreat ==> final(game)@
            == spec_end_raid(old(game)@, cache@, crate::delegates::RaidOutcome::Failure),
        r is Ok && action == crate::actions::ContinueAction::Advance ==> final(game)@.wf()
            && exists|ds: Seq<CardId>, acc: Seq<CardId>|
            spec_defender_enumeration(old(game)@, old(game)@.data.raid->Some_0.target, ds)
                && final(game)@ == #[trigger] spec_enter_scanned(
                old(game)@,
                cache@,
                catalogue@,
                ds,
                acc,
                spec_clamped_index(old(game)@.data.raid->Some_0.phase->Continue_0, ds.len()),
            ),
{
    let (valid, next_index) = match &game.data.raid {
        Some(raid) => match raid.phase {
            RaidPhase::Continue(m) => (user_side == Side::Champion, m),
            _ => (false, 0),
        },
        None => (false, 0),
    };
    if !valid {
        return Err(ActionError::IllegalAction);
    }
    match action {
        crate::actions::ContinueAction::Retreat => {
            proof {
                lemma_event_moves_bound(
                    cache@,
                    GameEvent::RaidEnd(
                        crate::delegates::RaidEnded {
                            raid_id: old(game)@.data.raid->Some_0.raid_id,
                            outcome: crate::delegates::RaidOutcome::Failure,
                        },
                    ),
                );
            }
            crate::mutations::end_raid(game, cache, crate::delegates::RaidOutcome::Failure);
        },
        crate::actions::ContinueAction::Advance => {
            let target = match &game.data.raid {
                Some(raid) => raid.target,
                None => {
                    proof {
                        assert(false);
                    }
                    RoomId::Vault
                },
            };
            let defenders = game.defender_list(target);
            let upper = if next_index < defenders.len() {
                next_index + 1
            } else {
                defenders.len()
            };
            advance_raid(game, cache, catalogue, &defenders, upper);
            proof {
                let ds = defenders@;
                let m = old(game)@.data.raid->Some_0.phase->Continue_0;
                let acc = choose|acc: Seq<CardId>|
                    (spec_scan_phase(
                        old(game)@,
                        cache@,
                        catalogue@,
                        ds,
                        old(game)@.data.raid->Some_0.room_active,
                        upper - 1,
                    ) == RaidPhase::Access ==> spec_access_selection(
                        old(game)@,
                        cache@,
                        catalogue@,
                        acc,
                    )) && final(game)@ == #[trigger] spec_enter_scanned(
                        old(game)@,
                        cache@,
                        catalogue@,
                        ds,
                        acc,
                        upper - 1,
                    );
                assert(upper - 1 == spec_clamped_index(m, ds.len()));
                assert(final(game)@ == spec_enter_scanned(
                    old(game)@,
                    cache@,
                    catalogue@,
                    ds,
                    acc,
                    spec_clamped_index(m, ds.len()),
                ));
            }
        },
    }
    Ok(())
}

/// Whether an encounter-phase action is legal in state `g`: a raid
/// stands in an encounter phase with a live defender index, the actor is
/// the Champion, and a weapon choice names the encountered defender with
/// a weapon that can legally defeat it.
pub open spec fn spec_encounter_action_valid(
    g: GameModel,
    cache: Seq<DelegateContext>,
    defs: Seq<CardDefinitionModel>,
    user_side: Side,
    action: crate::actions::EncounterAction,
) -> bool {
    &&& g.data.raid is Some
    &&& (g.data.raid->Some_0.phase matches RaidPhase::Encounter(n) && n < spec_defender_count(
        g,
        g.data.raid->Some_0.target,
    ) && match action {
        crate::actions::EncounterAction::NoWeapon => true,
        crate::actions::EncounterAction::UseWeaponAbility(w, t) => exists|ds: Seq<CardId>|
            #![trigger spec_defender_enumeration(g, g.data.raid->Some_0.target, ds)]
            spec_defender_enumeration(g, g.data.raid->Some_0.target, ds)
                && spec_weapon_choice_valid(g, cache, defs, ds, n, w, t),
    })
    &&& user_side == Side::Champion
}

/// Whether a weapon choice is a legal answer to the encounter of the
/// defender at index `n` of enumeration `ds`: the weapon is a Champion
/// card in the weapon slot, the defeat permission holds, and the
/// Champion can pay the boost cost the defeat requires.
pub open spec fn spec_weapon_choice_valid(
    g: GameModel,
    cache: Seq<DelegateContext>,
    defs: Seq<CardDefinitionModel>,
    ds: Seq<CardId>,
    n: usize,
    weapon: CardId,
    target: CardId,
) -> bool {
    &&& (n as int) < ds.len()
    &&& target == ds[n as int]
    &&& weapon.side == Side::Champion
    &&& g.valid_card(weapon)
    &&& g.card(weapon).position == crate::card_state::CardPosition::ArenaItem(
        crate::primitives::ItemLocation::Weapons,
    )
    &&& crate::flags::spec_can_defeat_target(g, cache, defs, weapon, target)
    &&& match spec_cost_to_defeat(g, cache, defs, weapon, target) {
        Some(cost) => cost <= g.player(Side::Champion).mana,
        None => false,
    }
}

/// The continuation every encounter resolution shares: honour a pending
/// end-raid request, otherwise move to the continue phase when defenders
/// remain below index `n`, or to access with selection `acc`.
pub open spec fn spec_after_encounter(
    g: GameModel,
    cache: Seq<DelegateContext>,
    defs: Seq<CardDefinitionModel>,
    n: usize,
    acc: Seq<CardId>,
) -> GameModel {
    match g.data.raid_end_requested {
        Some(outcome) => spec_end_raid(g, cache, outcome),
        None => if n > 0 {
            spec_enter_continue(g, (n - 1) as usize)
        } else {
            spec_enter_access(g, cache, defs, acc)
        },
    }
}

/// The state a successful weapon use produces: the Champion pays the
/// defeat cost, the defeat event fires, and the raid proceeds past the
/// defender.
pub open spec fn spec_use_weapon_result(
    g: GameModel,
    cache: Seq<DelegateContext>,
    defs: Seq<CardDefinitionModel>,
    weapon: CardId,
    target: CardId,
    n: usize,
    acc: Seq<CardId>,
) -> GameModel {
    let cost = spec_cost_to_defeat(g, cache, defs, weapon, target)->Some_0;
    let g1 = crate::mutations::spec_spend_mana(g, Side::Champion, cost);
    let g2 = spec_invoke_event(g1, cache, GameEvent::MinionDefeated(target));
    spec_after_encounter(g2, cache, defs, n, acc)
}

/// The state passing with no weapon produces: the defender's combat
/// ability fires, then the raid proceeds, or ends if the ability asked
/// it to.
pub open spec fn spec_no_weapon_result(
    g: GameModel,
    cache: Seq<DelegateContext>,
    defs: Seq<CardDefinitionModel>,
    target: CardId,
    n: usize,
    acc: Seq<CardId>,
) -> GameModel {
    let g2 = spec_invoke_event(g, cache, GameEvent::MinionCombatAbility(target));
    spec_after_encounter(g2, cache, defs, n, acc)
}

/// Handles the Champion's encounter choice: using a weapon that can
/// defeat the revealed defender, or passing and letting the defender's
/// combat ability fire. Either way the raid then proceeds to the next
/// defender's continue phase, to access, or ends if an ability ended it.
///
/// Rejected, with no state change, exactly when no raid is in an
/// encounter phase, the actor is not the Champion, the phase index is
/// stale, or the weapon choice is not legal.
#[verifier::rlimit(100)]
pub fn handle_encounter_action(
    game: &mut GameState,
    cache: &DelegateCache,
    catalogue: &Catalogue,
    user_side: Side,
    action: crate::actions::EncounterAction,
) -> (r: Result<(), ActionError>)
    requires
        old(game)@.wf(),
        spec_game_in_catalogue(old(game)@, catalogue@),
        old(game)@.next_sorting_key + 2 * spec_cache_moves_bound(cache@) <= u32::MAX,
    ensures
        r is Err ==> final(game)@ == old(game)@,
        r is Ok <==> spec_encounter_action_valid(
            old(game)@,
            cache@,
            catalogue@,
            user_side,
            action,
        ),
        r is Ok ==> final(game)@.wf(),
        action matches crate::actions::EncounterAction::UseWeaponAbility(w, t) ==> (r is Ok
            ==> exists|ds: Seq<CardId>, acc: Seq<CardId>|
            #![trigger spec_defender_enumeration(old(game)@, old(game)@.data.raid->Some_0.target, ds), spec_use_weapon_result(old(game)@, cache@, catalogue@, w, t, old(game)@.data.raid->Some_0.phase->Encounter_0, acc)]
            spec_defender_enumeration(old(game)@, old(game)@.data.raid->Some_0.target, ds)
                && spec_weapon_choice_valid(
                old(game)@,
                cache@,
                catalogue@,
                ds,
                old(game)@.data.raid->Some_0.phase->Encounter_0,
                w,
                t,
            ) && final(game)@ == spec_use_weapon_result(
                old(game)@,
                cache@,
                catalogue@,
                w,
                t,
                old(game)@.data.raid->Some_0.phase->Encounter_0,
                acc,
            )),
        action == crate::actions::EncounterAction::NoWeapon ==> (r is Ok ==> exists|
            ds: Seq<CardId>,
            acc: Seq<CardId>,
        |
            #![trigger spec_no_weapon_result(old(game)@, cache@, catalogue@, ds[old(game)@.data.raid->Some_0.phase->Encounter_0 as int], old(game)@.data.raid->Some_0.phase->Encounter_0, acc)]
            spec_defender_enumeration(old(game)@, old(game)@.data.raid->Some_0.target, ds)
                && final(game)@ == spec_no_weapon_result(
                old(game)@,
                cache@,
                catalogue@,
                ds[old(game)@.data.raid->Some_0.phase->Encounter_0 as int],
                old(game)@.data.raid->Some_0.phase->Encounter_0,
                acc,
            )),
{
    let (valid, n, target_room) = match &game.data.raid {
        Some(raid) => match raid.phase {
            RaidPhase::Encounter(n) => (user_side == Side::Champion, n, raid.target),
            _ => (false, 0, raid.target),
        },
        None => (false, 0, RoomId::Vault),
    };
    if !valid {
        return Err(ActionError::IllegalAction);
    }
    let defenders = game.defender_list(target_room);
    if n >= defenders.len() {
        return Err(ActionError::IllegalAction);
    }
    let defender = defenders[n];
    match action {
        crate::actions::EncounterAction::UseWeaponAbility(weapon, chosen_target) => {
            let placed_ok = chosen_target == defender && weapon.side == Side::Champion
                && weapon.index < game.cards(Side::Champion).len() && game.card(weapon).position
                == crate::card_state::CardPosition::ArenaItem(
                crate::primitives::ItemLocation::Weapons,
            );
            let flag_ok = placed_ok && crate::flags::can_defeat_target(
                game,
                cache,
                catalogue,
                weapon,
                defender,
            );
            let cost_opt = if flag_ok {
                crate::queries::cost_to_defeat_target(game, cache, catalogue, weapon, defender)
            } else {
                None
            };
            let accept = match cost_opt {
                Some(c) => c <= game.player(Side::Champion).mana,
                None => false,
            };
            if !accept {
                proof {
                    // No defender enumeration can make this weapon choice
                    // legal: any enumeration equals the one just computed,
                    // on which one of the mirrored checks failed.
                    if exists|ds: Seq<CardId>|
                        #![trigger spec_defender_enumeration(old(game)@, old(game)@.data.raid->Some_0.target, ds)]
                        spec_defender_enumeration(
                            old(game)@,
                            old(game)@.data.raid->Some_0.target,
                            ds,
                        ) && spec_weapon_choice_valid(
                            old(game)@,
                            cache@,
                            catalogue@,
                            ds,
                            n,
                            weapon,
                            chosen_target,
                        ) {
                        let ds = choose|ds: Seq<CardId>|
                            #![trigger spec_defender_enumeration(old(game)@, old(game)@.data.raid->Some_0.target, ds)]
                            spec_defender_enumeration(
                                old(game)@,
                                old(game)@.data.raid->Some_0.target,
                                ds,
                            ) && spec_weapon_choice_valid(
                                old(game)@,
                                cache@,
                                catalogue@,
                                ds,
                                n,
                                weapon,
                                chosen_target,
                            );
                        crate::game::lemma_defender_enumeration_unique(
                            old(game)@,
                            old(game)@.data.raid->Some_0.target,
                            ds,
                            defenders@,
                        );
                        assert(false);
                    }
                }
                return Err(ActionError::IllegalAction);
            }
            let cost = match cost_opt {
                Some(c) => c,
                None => {
                    proof {
                        assert(false);
                    }
                    0
                },
            };
            crate::mutations::spend_mana(game, Side::Champion, cost);
            let ghost g_spent = game@;
            proof {
                lemma_event_moves_bound(cache@, GameEvent::MinionDefeated(defender));
                assert(crate::dispatch::spec_preserves_structure(old(game)@, g_spent));
                crate::dispatch::lemma_structure_in_catalogue(old(game)@, g_spent, catalogue@);
            }
            crate::dispatch::invoke_event(game, cache, GameEvent::MinionDefeated(defender));
            proof {
                crate::dispatch::lemma_invoke_event_preserves_names(
                    g_spent,
                    cache@,
                    GameEvent::MinionDefeated(defender),
                );
                crate::dispatch::lemma_structure_in_catalogue(g_spent, game@, catalogue@);
            }
            finish_encounter(game, cache, catalogue, n);
            proof {
                let ds = defenders@;
                let g2 = spec_invoke_event(
                    crate::mutations::spec_spend_mana(old(game)@, Side::Champion, cost),
                    cache@,
                    GameEvent::MinionDefeated(defender),
                );
                let acc = choose|acc: Seq<CardId>|
                    final(game)@ == #[trigger] spec_after_encounter(
                        g2,
                        cache@,
                        catalogue@,
                        n,
                        acc,
                    );
                assert(spec_defender_enumeration(
                    old(game)@,
                    old(game)@.data.raid->Some_0.target,
                    ds,
                ));
                assert(spec_weapon_choice_valid(
                    old(game)@,
                    cache@,
                    catalogue@,
                    ds,
                    n,
                    weapon,
                    chosen_target,
                ));
                assert(spec_encounter_action_valid(
                    old(game)@,
                    cache@,
                    catalogue@,
                    user_side,
                    action,
                ));
                assert(final(game)@ == spec_use_weapon_result(
                    old(game)@,
                    cache@,
                    catalogue@,
                    weapon,
                    chosen_target,
                    n,
                    acc,
                ));
            }
        },
        crate::actions::EncounterAction::NoWeapon => {
            proof {
                lemma_event_moves_bound(cache@, GameEvent::MinionCombatAbility(defender));
            }
            crate::dispatch::invoke_event(game, cache, GameEvent::MinionCombatAbility(defender));
            proof {
                crate::dispatch::lemma_invoke_event_preserves_names(
                    old(game)@,
                    cache@,
                    GameEvent::MinionCombatAbility(defender),
                );
                crate::dispatch::lemma_structure_in_catalogue(old(game)@, game@, catalogue@);
            }
            finish_encounter(game, cache, catalogue, n);
            proof {
                let ds = defenders@;
                let g2 = spec_invoke_event(
                    old(game)@,
                    cache@,
                    GameEvent::MinionCombatAbility(defender),
                );
                let acc = choose|acc: Seq<CardId>|
                    final(game)@ == #[trigger] spec_after_encounter(
                        g2,
                        cache@,
                        catalogue@,
                        n,
                        acc,
                    );
                assert(final(game)@ == spec_no_weapon_result(
                    old(game)@,
                    cache@,
                    catalogue@,
                    defender,
                    n,
                    acc,
                ));
            }
        },
    }
    Ok(())
}

/// Shared continuation after an encounter resolves: honours a pending
/// end-raid request, else enters the continue phase of the next defender
/// down, or access when the resolved defender was the innermost.
fn finish_encounter(game: &mut GameState, cache: &DelegateCache, catalogue: &Catalogue, n: usize)
    requires
        old(game)@.wf(),
        spec_game_in_catalogue(old(game)@, catalogue@),
        old(game)@.data.raid is Some,
        old(game)@.next_sorting_key + spec_cache_moves_bound(cache@) <= u32::MAX,
    ensures
        final(game)@.wf(),
        exists|acc: Seq<CardId>|
            final(game)@ == #[trigger] spec_after_encounter(old(game)@, cache@, catalogue@, n, acc),
{
    let pending = game.data.raid_end_requested;
    match pending {
        Some(outcome) => {
            proof {
                lemma_event_moves_bound(
                    cache@,
                    GameEvent::RaidEnd(
                        crate::delegates::RaidEnded {
                            raid_id: old(game)@.data.raid->Some_0.raid_id,
                            outcome,
                        },
                    ),
                );
            }
            crate::mutations::end_raid(game, cache, outcome);
            proof {
                let acc = Seq::<CardId>::empty();
                assert(final(game)@ == spec_after_encounter(
                    old(game)@,
                    cache@,
                    catalogue@,
                    n,
                    acc,
                ));
            }
        },
        None => {
            if n > 0 {
                crate::raid_phases::set_raid_phase(
                    game,
                    cache,
                    catalogue,
                    RaidPhase::Continue(n - 1),
                );
                proof {
                    let acc = Seq::<CardId>::empty();
                    assert(final(game)@ == spec_after_encounter(
                        old(game)@,
                        cache@,
                        catalogue@,
                        n,
                        acc,
                    ));
                }
            } else {
                crate::raid_phases::set_raid_phase(game, cache, catalogue, RaidPhase::Access);
                proof {
                    let acc = choose|acc: Seq<CardId>|
                        spec_access_selection(old(game)@, cache@, catalogue@, acc) && final(game)@
                            == #[trigger] spec_enter_access(old(game)@, cache@, catalogue@, acc);
                    assert(final(game)@ == spec_after_encounter(
                        old(game)@,
                        cache@,
                        catalogue@,
                        n,
                        acc,
                    ));
                }
            }
        },
    }
}

/// The sequence with every occurrence of `id` removed, scanning the
/// first `upto` entries.
pub open spec fn spec_remove_id(s: Seq<CardId>, id: CardId, upto: nat) -> Seq<CardId>
    decreases upto,
{
    if upto == 0 || upto > s.len() {
        Seq::empty()
    } else {
        spec_remove_id(s, id, (upto - 1) as nat) + if s[upto - 1] == id {
            Seq::empty()
        } else {
            seq![s[upto - 1]]
        }
    }
}

/// Whether `v` holds `id`.
pub fn vec_contains(v: &Vec<CardId>, id: CardId) -> (r: bool)
    ensures
        r == v@.contains(id),
{
    let mut i: usize = 0;
    while i < v.len()
        invariant
            i <= v@.len(),
            forall|j: int| 0 <= j < i ==> v@[j] != id,
        decreases v@.len() - i,
    {
        if v[i] == id {
            return true;
        }
        i = i + 1;
    }
    false
}

/// Removes every occurrence of `id` from the ongoing raid's accessed
/// list.
fn remove_accessed(game: &mut GameState, id: CardId)
    requires
        old(game)@.data.raid is Some,
    ensures
        final(game)@ == crate::raid_phases::spec_with_raid_accessed(
            old(game)@,
            spec_remove_id(
                old(game)@.data.raid->Some_0.accessed,
                id,
                old(game)@.data.raid->Some_0.accessed.len(),
            ),
        ),
        old(game)@.wf() ==> final(game)@.wf(),
{
    let accessed = crate::raid_phases::raid_accessed(game);
    let mut kept: Vec<CardId> = Vec::new();
    let mut i: usize = 0;
    while i < accessed.len()
        invariant
            i <= accessed@.len(),
            accessed@ == old(game)@.data.raid->Some_0.accessed,
            game@ == old(game)@,
            kept@ == spec_remove_id(accessed@, id, i as nat),
        decreases accessed@.len() - i,
    {
        if accessed[i] != id {
            kept.push(accessed[i]);
        }
        proof {
            assert(kept@ =~= spec_remove_id(accessed@, id, (i + 1) as nat));
        }
        i = i + 1;
    }
    match &mut game.data.raid {
        Some(raid) => {
            raid.accessed = kept;
        },
        None => {
            proof {
                assert(false);
            }
        },
    }
    proof {
        if old(game)@.wf() {
            crate::game::lemma_wf_same_cards(old(game)@, game@);
        }
    }
}

/// The tail every access action on a card shares: honour a pending
/// end-raid request, else drop the card from the accessed list and
/// re-prompt the Champion with the remaining access actions.
pub open spec fn spec_after_access_action(
    g: GameModel,
    cache: Seq<DelegateContext>,
    defs: Seq<CardDefinitionModel>,
    id: CardId,
) -> GameModel {
    match g.data.raid_end_requested {
        Some(outcome) => spec_end_raid(g, cache, outcome),
        None => {
            let g5 = crate::raid_phases::spec_with_raid_accessed(
                g,
                spec_remove_id(
                    g.data.raid->Some_0.accessed,
                    id,
                    g.data.raid->Some_0.accessed.len(),
                ),
            );
            g5.with_prompt(
                Side::Champion,
                crate::raid_phases::spec_access_prompt(g5, cache, defs),
            )
        },
    }
}

/// The state scoring an accessed scheme produces: the card moves to the
/// Champion's score pile, its points are awarded, scoring is logged, the
/// score event fires, and the access prompt is rebuilt without it.
pub open spec fn spec_score_result(
    g: GameModel,
    cache: Seq<DelegateContext>,
    defs: Seq<CardDefinitionModel>,
    id: CardId,
) -> GameModel {
    let points = crate::rules::spec_definition(defs, g.card(id).name).stats.scheme_points->Some_0;
    let g1 = crate::mutations::spec_move_card_with_events(
        g,
        cache,
        id,
        crate::card_state::CardPosition::Scored(Side::Champion),
    );
    let g2 = crate::mutations::spec_score_points(g1, Side::Champion, points);
    let g3 = g2.with_update(GameUpdate::ScoreCard(Side::Champion, id));
    let g4 = spec_invoke_event(g3, cache, GameEvent::ChampionScoreCard(id));
    spec_after_access_action(g4, cache, defs, id)
}

/// The state destroying an accessed card produces: the Champion pays its
/// cost, the card moves to the Overlord's discard pile, and the access
/// prompt is rebuilt without it.
pub open spec fn spec_destroy_result(
    g: GameModel,
    cache: Seq<DelegateContext>,
    defs: Seq<CardDefinitionModel>,
    id: CardId,
) -> GameModel {
    let cost = crate::queries::spec_mana_cost(g, cache, defs, id)->Some_0;
    let g1 = crate::mutations::spec_spend_mana(g, Side::Champion, cost);
    let g2 = crate::mutations::spec_move_card_with_events(
        g1,
        cache,
        id,
        crate::card_state::CardPosition::DiscardPile(Side::Overlord),
    );
    spec_after_access_action(g2, cache, defs, id)
}

/// Whether an access-phase action is legal in state `g`.
pub open spec fn spec_access_action_valid(
    g: GameModel,
    cache: Seq<DelegateContext>,
    defs: Seq<CardDefinitionModel>,
    user_side: Side,
    action: crate::actions::PromptAction,
) -> bool {
    &&& g.data.raid is Some
    &&& g.data.raid->Some_0.phase == RaidPhase::Access
    &&& user_side == Side::Champion
    &&& match action {
        crate::actions::PromptAction::RaidScoreCard(id) => g.data.raid->Some_0.accessed.contains(
            id,
        ) && g.valid_card(id) && crate::flags::spec_can_score_card(g, defs, id),
        crate::actions::PromptAction::RaidDestroyCard(id) => g.data.raid->Some_0.accessed.contains(
            id,
        ) && g.valid_card(id) && crate::flags::spec_can_destroy_accessed_card(g, cache, defs, id),
        crate::actions::PromptAction::EndRaid => true,
        _ => false,
    }
}

/// Handles one of the Champion's access-phase choices: scoring an
/// accessed scheme, destroying an accessed project or upgrade at the
/// price of its cost, or ending the raid in success.
///
/// Rejected, with no state change, exactly when the action is not legal
/// in the current state.
#[verifier::rlimit(100)]
pub fn handle_access_action(
    game: &mut GameState,
    cache: &DelegateCache,
    catalogue: &Catalogue,
    user_side: Side,
    action: crate::actions::PromptAction,
) -> (r: Result<(), ActionError>)
    requires
        old(game)@.wf(),
        spec_game_in_catalogue(old(game)@, catalogue@),
        old(game)@.next_sorting_key + 1 + 3 * spec_cache_moves_bound(cache@) <= u32::MAX,
        old(game)@.data.raid matches Some(raid) ==> forall|j: int|
            0 <= j < raid.accessed.len() ==> old(game)@.valid_card(#[trigger] raid.accessed[j]),
        action matches crate::actions::PromptAction::RaidScoreCard(id) ==> (old(game)@.valid_card(
            id,
        ) ==> old(game)@.player(Side::Champion).score + (match crate::rules::spec_definition(
            catalogue@,
            old(game)@.card(id).name,
        ).stats.scheme_points {
            Some(p) => p as int,
            None => 0,
        }) <= u32::MAX),
    ensures
        r is Ok <==> spec_access_action_valid(old(game)@, cache@, catalogue@, user_side, action),
        r is Err ==> final(game)@ == old(game)@,
        r is Ok ==> final(game)@.wf(),
        r is Ok ==> match action {
            crate::actions::PromptAction::RaidScoreCard(id) => final(game)@ == spec_score_result(
                old(game)@,
                cache@,
                catalogue@,
                id,
            ),
            crate::actions::PromptAction::RaidDestroyCard(id) => final(game)@
                == spec_destroy_result(old(game)@, cache@, catalogue@, id),
            crate::actions::PromptAction::EndRaid => final(game)@ == spec_end_raid(
                old(game)@,
                cache@,
                crate::delegates::RaidOutcome::Success,
            ),
            _ => false,
        },
{
    let valid_phase = match &game.data.raid {
        Some(raid) => raid.phase == RaidPhase::Access && user_side == Side::Champion,
        None => false,
    };
    if !valid_phase {
        return Err(ActionError::IllegalAction);
    }
    match action {
        crate::actions::PromptAction::RaidScoreCard(id) => {
            let accessed = crate::raid_phases::raid_accessed(game);
            if !vec_contains(&accessed, id) {
                return Err(ActionError::IllegalAction);
            }
            if !crate::flags::can_score_card(game, catalogue, id) {
                return Err(ActionError::IllegalAction);
            }
            let points = match crate::rules::card_definition(
                catalogue,
                game,
                id,
            ).stats.scheme_points {
                Some(p) => p,
                None => {
                    proof {
                        assert(false);
                    }
                    0
                },
            };
            proof {
                lemma_event_moves_bound(
                    cache@,
                    GameEvent::MoveCard(
                        id,
                        crate::delegates::CardMoved {
                            old_position: old(game)@.card(id).position,
                            new_position: crate::card_state::CardPosition::Scored(Side::Champion),
                        },
                    ),
                );
            }
            crate::mutations::move_card(
                game,
                cache,
                id,
                crate::card_state::CardPosition::Scored(Side::Champion),
            );
            let ghost g1 = game@;
            let ghost moved = old(game)@.spec_move_card(
                id,
                crate::card_state::CardPosition::Scored(Side::Champion),
            ).with_update(GameUpdate::MoveCard(id));
            proof {
                assert(crate::dispatch::spec_preserves_structure(old(game)@, moved));
                crate::dispatch::lemma_structure_in_catalogue(old(game)@, moved, catalogue@);
                crate::dispatch::lemma_invoke_event_preserves_names(
                    moved,
                    cache@,
                    GameEvent::MoveCard(
                        id,
                        crate::delegates::CardMoved {
                            old_position: old(game)@.card(id).position,
                            new_position: crate::card_state::CardPosition::Scored(Side::Champion),
                        },
                    ),
                );
                crate::dispatch::lemma_structure_transitive(old(game)@, moved, g1);
                crate::dispatch::lemma_structure_in_catalogue(moved, g1, catalogue@);
                assert(g1.player(Side::Champion).score == old(game)@.player(
                    Side::Champion,
                ).score);
            }
            crate::mutations::score_points(game, Side::Champion, points);
            game.push_update(GameUpdate::ScoreCard(Side::Champion, id));
            let ghost g3 = game@;
            proof {
                crate::game::lemma_wf_same_cards(g1, game@);
                assert(g3.next_sorting_key == g1.next_sorting_key);
                assert forall|side: Side, i: int|
                    0 <= i < g3.cards(side).len() implies crate::rules::spec_defines(
                    catalogue@,
                    (#[trigger] g3.cards(side)[i]).name,
                ) by {
                    assert(crate::rules::spec_defines(catalogue@, g1.cards(side)[i].name));
                }
                lemma_event_moves_bound(cache@, GameEvent::ChampionScoreCard(id));
            }
            crate::dispatch::invoke_event(game, cache, GameEvent::ChampionScoreCard(id));
            proof {
                crate::dispatch::lemma_invoke_event_preserves_names(
                    g3,
                    cache@,
                    GameEvent::ChampionScoreCard(id),
                );
                crate::dispatch::lemma_structure_in_catalogue(g3, game@, catalogue@);
                assert(g3.data.raid == g1.data.raid);
                assert(g1.data.raid == old(game)@.data.raid);
                assert(game@.data.raid == old(game)@.data.raid);
                assert(forall|side: Side| (#[trigger] g3.cards(side)) == g1.cards(side));
                assert forall|j: int|
                    0 <= j < game@.data.raid->Some_0.accessed.len() implies game@.valid_card(
                    #[trigger] game@.data.raid->Some_0.accessed[j],
                ) by {
                    let aid = game@.data.raid->Some_0.accessed[j];
                    assert(old(game)@.valid_card(old(game)@.data.raid->Some_0.accessed[j]));
                    assert(game@.cards(aid.side).len() == g3.cards(aid.side).len());
                    assert(g3.cards(aid.side).len() == g1.cards(aid.side).len());
                    assert(g1.cards(aid.side).len() == moved.cards(aid.side).len());
                    assert(moved.cards(aid.side).len() == old(game)@.cards(aid.side).len());
                }
                assert(game@.next_sorting_key + crate::dispatch::spec_cache_moves_bound(cache@)
                    <= u32::MAX);
            }
            finish_access_action(game, cache, catalogue, id);
        },
        crate::actions::PromptAction::RaidDestroyCard(id) => {
            let accessed = crate::raid_phases::raid_accessed(game);
            if !vec_contains(&accessed, id) {
                return Err(ActionError::IllegalAction);
            }
            if !crate::flags::can_destroy_accessed_card(game, cache, catalogue, id) {
                return Err(ActionError::IllegalAction);
            }
            let cost = match crate::queries::mana_cost(game, cache, catalogue, id) {
                Some(c) => c,
                None => {
                    proof {
                        assert(false);
                    }
                    0
                },
            };
            crate::mutations::spend_mana(game, Side::Champion, cost);
            let ghost g1 = game@;
            proof {
                lemma_event_moves_bound(
                    cache@,
                    GameEvent::MoveCard(
                        id,
                        crate::delegates::CardMoved {
                            old_position: g1.card(id).position,
                            new_position: crate::card_state::CardPosition::DiscardPile(
                                Side::Overlord,
                            ),
                        },
                    ),
                );
            }
            crate::mutations::move_card(
                game,
                cache,
                id,
                crate::card_state::CardPosition::DiscardPile(Side::Overlord),
            );
            let ghost moved = g1.spec_move_card(
                id,
                crate::card_state::CardPosition::DiscardPile(Side::Overlord),
            ).with_update(GameUpdate::MoveCard(id));
            proof {
                assert(crate::dispatch::spec_preserves_structure(g1, moved));
                crate::dispatch::lemma_structure_in_catalogue(old(game)@, g1, catalogue@);
                crate::dispatch::lemma_structure_in_catalogue(g1, moved, catalogue@);
                crate::dispatch::lemma_invoke_event_preserves_names(
                    moved,
                    cache@,
                    GameEvent::MoveCard(
                        id,
                        crate::delegates::CardMoved {
                            old_position: g1.card(id).position,
                            new_position: crate::card_state::CardPosition::DiscardPile(
                                Side::Overlord,
                            ),
                        },
                    ),
                );
                crate::dispatch::lemma_structure_in_catalogue(moved, game@, catalogue@);
                assert(game@.data.raid == old(game)@.data.raid);
                assert forall|j: int|
                    0 <= j < game@.data.raid->Some_0.accessed.len() implies game@.valid_card(
                    #[trigger] game@.data.raid->Some_0.accessed[j],
                ) by {
                    let aid = game@.data.raid->Some_0.accessed[j];
                    assert(old(game)@.valid_card(old(game)@.data.raid->Some_0.accessed[j]));
                    assert(game@.cards(aid.side).len() == moved.cards(aid.side).len());
                    assert(moved.cards(aid.side).len() == g1.cards(aid.side).len());
                    assert(g1.cards(aid.side).len() == old(game)@.cards(aid.side).len());
                }
                assert(game@.next_sorting_key + crate::dispatch::spec_cache_moves_bound(cache@)
                    <= u32::MAX);
            }
            finish_access_action(game, cache, catalogue, id);
        },
        crate::actions::PromptAction::EndRaid => {
            proof {
                lemma_event_moves_bound(
                    cache@,
                    GameEvent::RaidEnd(
                        crate::delegates::RaidEnded {
                            raid_id: old(game)@.data.raid->Some_0.raid_id,
                            outcome: crate::delegates::RaidOutcome::Success,
                        },
                    ),
                );
            }
            crate::mutations::end_raid(game, cache, crate::delegates::RaidOutcome::Success);
        },
        _ => {
            return Err(ActionError::IllegalAction);
        },
    }
    Ok(())
}

/// Shared tail of scoring and destroying: honours a pending end-raid
/// request, else removes the card from the accessed list and re-prompts.
fn finish_access_action(game: &mut GameState, cache: &DelegateCache, catalogue: &Catalogue, id: CardId)
    requires
        old(game)@.wf(),
        spec_game_in_catalogue(old(game)@, catalogue@),
        old(game)@.data.raid is Some,
        old(game)@.next_sorting_key + spec_cache_moves_bound(cache@) <= u32::MAX,
        forall|j: int|
            0 <= j < old(game)@.data.raid->Some_0.accessed.len() ==> old(game)@.valid_card(
                #[trigger] old(game)@.data.raid->Some_0.accessed[j],
            ),
    ensures
        final(game)@.wf(),
        final(game)@ == spec_after_access_action(old(game)@, cache@, catalogue@, id),
{
    let pending = game.data.raid_end_requested;
    match pending {
        Some(outcome) => {
            proof {
                lemma_event_moves_bound(
                    cache@,
                    GameEvent::RaidEnd(
                        crate::delegates::RaidEnded {
                            raid_id: old(game)@.data.raid->Some_0.raid_id,
                            outcome,
                        },
                    ),
                );
            }
            crate::mutations::end_raid(game, cache, outcome);
        },
        None => {
            remove_accessed(game, id);
            proof {
                assert forall|side: Side, i: int|
                    0 <= i < game@.cards(side).len() implies crate::rules::spec_defines(
                    catalogue@,
                    (#[trigger] game@.cards(side)[i]).name,
                ) by {
                    assert(crate::rules::spec_defines(
                        catalogue@,
                        old(game)@.cards(side)[i].name,
                    ));
                }
                lemma_remove_id_subset(
                    old(game)@.data.raid->Some_0.accessed,
                    id,
                    old(game)@.data.raid->Some_0.accessed.len(),
                );
            }
            let prompt = crate::raid_phases::build_access_prompt(game, cache, catalogue);
            crate::mutations::set_prompt(game, Side::Champion, prompt);
        },
    }
}

/// The action entry point of the engine: validates a player's requested
/// action against prompts, permission flags and resources, and applies
/// it. Illegal actions are rejected with no state change; the caller,
/// server or search agent, must not construct actions referencing
/// nonexistent entities, which are excluded by precondition instead.
pub fn handle_game_action(
    game: &mut GameState,
    cache: &DelegateCache,
    catalogue: &Catalogue,
    user_side: Side,
    action: crate::actions::GameAction,
) -> (r: Result<(), ActionError>)
    requires
        old(game)@.wf(),
        spec_game_in_catalogue(old(game)@, catalogue@),
        old(game)@.next_raid_id < u64::MAX,
        action == crate::actions::GameAction::GainMana ==> old(game)@.player(user_side).mana
            < u32::MAX,
        old(game)@.next_sorting_key + 1 + 3 * spec_cache_moves_bound(cache@) <= u32::MAX,
        old(game)@.data.raid matches Some(raid) ==> forall|j: int|
            0 <= j < raid.accessed.len() ==> old(game)@.valid_card(#[trigger] raid.accessed[j]),
        action matches crate::actions::GameAction::PromptAction(
            crate::actions::PromptAction::RaidScoreCard(id),
        ) ==> (old(game)@.valid_card(id) ==> old(game)@.player(Side::Champion).score + (
        match crate::rules::spec_definition(catalogue@, old(game)@.card(id).name).stats.scheme_points {
            Some(p) => p as int,
            None => 0,
        }) <= u32::MAX),
    ensures
        r is Err ==> final(game)@ == old(game)@,
        r is Ok ==> final(game)@.wf(),
        action == crate::actions::GameAction::GainMana ==> {
            &&& (r is Ok <==> crate::flags::spec_can_take_gain_mana_action(
                old(game)@,
                cache@,
                user_side,
            ) && old(game)@.player(user_side).actions > 0)
            &&& r is Ok ==> final(game)@ == crate::mutations::spec_gain_mana(
                spec_spend_action_points(old(game)@, user_side, 1),
                user_side,
                1,
            )
        },
        action matches crate::actions::GameAction::InitiateRaid(room) ==> (r is Ok
            <==> spec_can_initiate_raid(old(game)@, cache@, user_side, room) && old(game)@.player(
            Side::Champion,
        ).actions > 0 && old(game)@.data.raid is None),
        action matches crate::actions::GameAction::InitiateRaid(room) ==> (r is Ok ==> exists|
            ds: Seq<CardId>,
            acc: Seq<CardId>,
        |
            spec_defender_enumeration(
                spec_invoke_event(
                    spec_initiate_base(old(game)@, room),
                    cache@,
                    GameEvent::RaidBegin(RaidId(old(game)@.next_raid_id)),
                ),
                room,
                ds,
            ) && final(game)@ == #[trigger] spec_initiate_result(
                old(game)@,
                cache@,
                catalogue@,
                room,
                ds,
                acc,
            )),
        action matches crate::actions::GameAction::PromptAction(
            crate::actions::PromptAction::ActivateRoomAction(a),
        ) ==> {
            &&& (r is Ok <==> old(game)@.data.raid is Some
                && old(game)@.data.raid->Some_0.phase == RaidPhase::Activation && user_side
                == Side::Overlord)
            &&& (r is Ok ==> exists|ds: Seq<CardId>, acc: Seq<CardId>|
                spec_defender_enumeration(
                    crate::raid_phases::spec_with_room_active(
                        old(game)@,
                        spec_activation_choice(a),
                    ),
                    old(game)@.data.raid->Some_0.target,
                    ds,
                ) && final(game)@ == #[trigger] spec_enter_scanned(
                    crate::raid_phases::spec_with_room_active(
                        old(game)@,
                        spec_activation_choice(a),
                    ),
                    cache@,
                    catalogue@,
                    ds,
                    acc,
                    ds.len() - 1,
                ))
        },
        action matches crate::actions::GameAction::PromptAction(
            crate::actions::PromptAction::ContinueAction(a),
        ) ==> {
            &&& (r is Ok <==> old(game)@.data.raid is Some && (
            old(game)@.data.raid->Some_0.phase matches RaidPhase::Continue(_)) && user_side
                == Side::Champion)
            &&& (r is Ok && a == crate::actions::ContinueAction::Retreat ==> final(game)@
                == spec_end_raid(old(game)@, cache@, crate::delegates::RaidOutcome::Failure))
            &&& (r is Ok && a == crate::actions::ContinueAction::Advance ==> exists|
                ds: Seq<CardId>,
                acc: Seq<CardId>,
            |
                spec_defender_enumeration(old(game)@, old(game)@.data.raid->Some_0.target, ds)
                    && final(game)@ == #[trigger] spec_enter_scanned(
                    old(game)@,
                    cache@,
                    catalogue@,
                    ds,
                    acc,
                    spec_clamped_index(
                        old(game)@.data.raid->Some_0.phase->Continue_0,
                        ds.len(),
                    ),
                ))
        },
        action matches crate::actions::GameAction::PromptAction(
            crate::actions::PromptAction::EncounterAction(a),
        ) ==> (r is Ok <==> spec_encounter_action_valid(
            old(game)@,
            cache@,
            catalogue@,
            user_side,
            a,
        )),
        action matches crate::actions::GameAction::PromptAction(
            crate::actions::PromptAction::EncounterAction(
                crate::actions::EncounterAction::UseWeaponAbility(w, t),
            ),
        ) ==> (r is Ok ==> exists|ds: Seq<CardId>, acc: Seq<CardId>|
            #![trigger spec_defender_enumeration(old(game)@, old(game)@.data.raid->Some_0.target, ds), spec_use_weapon_result(old(game)@, cache@, catalogue@, w, t, old(game)@.data.raid->Some_0.phase->Encounter_0, acc)]
            spec_defender_enumeration(old(game)@, old(game)@.data.raid->Some_0.target, ds)
                && spec_weapon_choice_valid(
                old(game)@,
                cache@,
                catalogue@,
                ds,
                old(game)@.data.raid->Some_0.phase->Encounter_0,
                w,
                t,
            ) && final(game)@ == spec_use_weapon_result(
                old(game)@,
                cache@,
                catalogue@,
                w,
                t,
                old(game)@.data.raid->Some_0.phase->Encounter_0,
                acc,
            )),
        action == crate::actions::GameAction::PromptAction(
            crate::actions::PromptAction::EncounterAction(
                crate::actions::EncounterAction::NoWeapon,
            ),
        ) ==> (r is Ok ==> exists|ds: Seq<CardId>, acc: Seq<CardId>|
            #![trigger spec_no_weapon_result(old(game)@, cache@, catalogue@, ds[old(game)@.data.raid->Some_0.phase->Encounter_0 as int], old(game)@.data.raid->Some_0.phase->Encounter_0, acc)]
            spec_defender_enumeration(old(game)@, old(game)@.data.raid->Some_0.target, ds)
                && final(game)@ == spec_no_weapon_result(
                old(game)@,
                cache@,
                catalogue@,
                ds[old(game)@.data.raid->Some_0.phase->Encounter_0 as int],
                old(game)@.data.raid->Some_0.phase->Encounter_0,
                acc,
            )),
        action matches crate::actions::GameAction::PromptAction(
            crate::actions::PromptAction::RaidScoreCard(id),
        ) ==> {
            &&& (r is Ok <==> spec_access_action_valid(
                old(game)@,
                cache@,
                catalogue@,
                user_side,
                crate::actions::PromptAction::RaidScoreCard(id),
            ))
            &&& (r is Ok ==> final(game)@ == spec_score_result(old(game)@, cache@, catalogue@, id))
        },
        action matches crate::actions::GameAction::PromptAction(
            crate::actions::PromptAction::RaidDestroyCard(id),
        ) ==> {
            &&& (r is Ok <==> spec_access_action_valid(
                old(game)@,
                cache@,
                catalogue@,
                user_side,
                crate::actions::PromptAction::RaidDestroyCard(id),
            ))
            &&& (r is Ok ==> final(game)@ == spec_destroy_result(
                old(game)@,
                cache@,
                catalogue@,
                id,
            ))
        },
        action == crate::actions::GameAction::PromptAction(crate::actions::PromptAction::EndRaid)
            ==> {
            &&& (r is Ok <==> spec_access_action_valid(
                old(game)@,
                cache@,
                catalogue@,
                user_side,
                crate::actions::PromptAction::EndRaid,
            ))
            &&& (r is Ok ==> final(game)@ == spec_end_raid(
                old(game)@,
                cache@,
                crate::delegates::RaidOutcome::Success,
            ))
        },
{
    match action {
        crate::actions::GameAction::GainMana => {
            if game.player(user_side).actions == 0 {
                return Err(ActionError::IllegalAction);
            }
            if !crate::flags::can_take_gain_mana_action(game, cache, user_side) {
                return Err(ActionError::IllegalAction);
            }
            crate::mutations::spend_action_points(game, user_side, 1);
            let ghost mid = game@;
            crate::mutations::gain_mana(game, user_side, 1);
            proof {
                crate::game::lemma_wf_same_cards(old(game)@, mid);
                crate::game::lemma_wf_same_cards(mid, game@);
            }
            Ok(())
        },
        crate::actions::GameAction::InitiateRaid(room) => initiate_raid(
            game,
            cache,
            catalogue,
            user_side,
            room,
        ),
        crate::actions::GameAction::PromptAction(prompt_action) => match prompt_action {
            crate::actions::PromptAction::ActivateRoomAction(a) => handle_room_activation(
                game,
                cache,
                catalogue,
                user_side,
                a,
            ),
            crate::actions::PromptAction::EncounterAction(a) => handle_encounter_action(
                game,
                cache,
                catalogue,
                user_side,
                a,
            ),
            crate::actions::PromptAction::ContinueAction(a) => handle_continue_action(
                game,
                cache,
                catalogue,
                user_side,
                a,
            ),
            crate::actions::PromptAction::RaidScoreCard(_)
                | crate::actions::PromptAction::RaidDestroyCard(_)
                | crate::actions::PromptAction::EndRaid => handle_access_action(
                game,
                cache,
                catalogue,
                user_side,
                prompt_action,
            ),
        },
    }
}

/// Every entry of the removal's result is an entry of the original.
proof fn lemma_remove_id_subset(s: Seq<CardId>, id: CardId, upto: nat)
    requires
        upto <= s.len(),
    ensures
        forall|j: int|
            0 <= j < spec_remove_id(s, id, upto).len() ==> exists|k: int|
                0 <= k < upto && #[trigger] spec_remove_id(s, id, upto)[j] == s[k],
    decreases upto,
{
    if upto != 0 {
        lemma_remove_id_subset(s, id, (upto - 1) as nat);
        let prev = spec_remove_id(s, id, (upto - 1) as nat);
        let whole = spec_remove_id(s, id, upto);
        assert forall|j: int|
            0 <= j < whole.len() implies exists|k: int|
            0 <= k < upto && #[trigger] whole[j] == s[k] by {
            if j < prev.len() {
                assert(whole[j] == prev[j]);
                let k = choose|k: int| 0 <= k < upto - 1 && #[trigger] prev[j] == s[k];
                assert(whole[j] == s[k]);
            } else {
                assert(whole[j] == s[upto - 1]);
            }
        }
    }
}

} // verus!
