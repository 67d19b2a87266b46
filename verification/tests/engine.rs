//! End-to-end tests driving the engine through raids against each room
//! type, mirroring the behaviours the contracts state.

use spelldawn::actions::{
    ContinueAction, EncounterAction, GameAction, PromptAction, RoomActivationAction,
};
use spelldawn::card_definition::{Ability, AttackBoost, CardDefinition, CardStats, Cost};
use spelldawn::card_state::CardPosition;
use spelldawn::delegates::{
    Delegate, EventDelegate, Flag, Mutation, QueryDelegate, RaidOutcome, Requirement, Transform,
};
use spelldawn::dispatch::rebuild_cache;
use spelldawn::game::{Deck, GameState, NewGameOptions, RaidPhase};
use spelldawn::primitives::{
    CardId, CardName, CardType, GameId, ItemLocation, RoomId, RoomLocation, Side,
};
use spelldawn::raid_actions::{
    handle_access_action, handle_continue_action, handle_encounter_action, handle_game_action,
};
use spelldawn::rules::{build_catalogue, Catalogue};
use spelldawn::updates::GameUpdate;

const MINION_END_RAID: CardName = CardName(1);
const WEAPON: CardName = CardName(2);
const SCHEME: CardName = CardName(3);
const PROJECT: CardName = CardName(4);
const MINION_DEAL_DAMAGE: CardName = CardName(5);
const IDENTITY: CardName = CardName(6);
const VAULT_BOOSTER: CardName = CardName(7);
const FILLER: CardName = CardName(8);

const ROOM: RoomId = RoomId::RoomA;
const STARTING_MANA: u32 = 999;

fn definition(name: CardName, side: Side, card_type: CardType) -> CardDefinition {
    CardDefinition {
        name,
        side,
        card_type,
        cost: Cost { mana: None, actions: 1 },
        stats: CardStats::none(),
        abilities: Vec::new(),
    }
}

fn catalogue() -> Catalogue {
    let mut defs = Vec::new();

    let mut minion = definition(MINION_END_RAID, Side::Overlord, CardType::Minion);
    minion.cost.mana = Some(3);
    minion.stats.health = Some(5);
    minion.abilities.push(Ability {
        delegates: vec![Delegate::MinionCombatAbility(EventDelegate::new(
            Requirement::ThisCard,
            Mutation::EndRaid(RaidOutcome::Failure),
        ))],
    });
    defs.push(minion);

    let mut weapon = definition(WEAPON, Side::Champion, CardType::Weapon);
    weapon.cost.mana = Some(3);
    weapon.stats.base_attack = Some(3);
    weapon.stats.attack_boost = Some(AttackBoost { cost: 1, bonus: 2 });
    defs.push(weapon);

    let mut scheme = definition(SCHEME, Side::Overlord, CardType::Scheme);
    scheme.stats.scheme_points = Some(1);
    defs.push(scheme);

    let mut project = definition(PROJECT, Side::Overlord, CardType::Project);
    project.cost.mana = Some(2);
    defs.push(project);

    let mut damage = definition(MINION_DEAL_DAMAGE, Side::Overlord, CardType::Minion);
    damage.cost.mana = Some(1);
    damage.stats.health = Some(5);
    damage.abilities.push(Ability {
        delegates: vec![Delegate::MinionCombatAbility(EventDelegate::new(
            Requirement::ThisCard,
            Mutation::DealDamage(1),
        ))],
    });
    defs.push(damage);

    defs.push(definition(IDENTITY, Side::Overlord, CardType::Identity));

    let mut booster = definition(VAULT_BOOSTER, Side::Champion, CardType::Artifact);
    booster.abilities.push(Ability {
        delegates: vec![Delegate::VaultAccessCount(QueryDelegate::new(
            Requirement::Always,
            Transform::SetValue(2),
        ))],
    });
    defs.push(booster);

    defs.push(definition(FILLER, Side::Overlord, CardType::Spell));

    build_catalogue(defs)
}

/// A new deterministic game. Overlord deck: scheme, project, two fillers,
/// two end-raid minions, one damage minion. Champion deck: weapon, vault
/// booster. Both players start with mana and actions.
fn new_game() -> GameState {
    let overlord_deck = Deck {
        identity: IDENTITY,
        cards: vec![
            SCHEME,
            PROJECT,
            FILLER,
            FILLER,
            MINION_END_RAID,
            MINION_END_RAID,
            MINION_DEAL_DAMAGE,
        ],
    };
    let champion_deck = Deck { identity: IDENTITY, cards: vec![WEAPON, VAULT_BOOSTER] };
    let mut game = GameState::new_game(
        GameId(1),
        overlord_deck,
        champion_deck,
        NewGameOptions { enable_animations: true, deterministic: true },
    );
    game.overlord.mana = STARTING_MANA;
    game.champion.mana = STARTING_MANA;
    game.overlord.actions = 3;
    game.champion.actions = 3;
    game.data.turn = Side::Champion;
    game
}

// Fixed slots within the decks built above (slot zero is the identity).
const SCHEME_ID: CardId = CardId { side: Side::Overlord, index: 1 };
const PROJECT_ID: CardId = CardId { side: Side::Overlord, index: 2 };
const MINION_A: CardId = CardId { side: Side::Overlord, index: 5 };
const MINION_B: CardId = CardId { side: Side::Overlord, index: 6 };
const DAMAGE_MINION: CardId = CardId { side: Side::Overlord, index: 7 };
const WEAPON_ID: CardId = CardId { side: Side::Champion, index: 1 };

/// Puts a revealed (summoned) defender in front of `room`.
fn summon_defender(game: &mut GameState, id: CardId, room: RoomId) {
    game.move_card(id, CardPosition::Room(room, RoomLocation::Defender));
    spelldawn::mutations::set_revealed_to(game, id, Side::Champion, true);
    spelldawn::mutations::set_revealed_to(game, id, Side::Overlord, true);
}

/// Puts an unrevealed defender in front of `room`.
fn hidden_defender(game: &mut GameState, id: CardId, room: RoomId) {
    game.move_card(id, CardPosition::Room(room, RoomLocation::Defender));
}

fn occupy(game: &mut GameState, id: CardId, room: RoomId) {
    game.move_card(id, CardPosition::Room(room, RoomLocation::Occupant));
}

fn play_weapon(game: &mut GameState) {
    game.move_card(WEAPON_ID, CardPosition::ArenaItem(ItemLocation::Weapons));
    game.champion.mana -= 3;
}

fn raid_phase(game: &GameState) -> Option<RaidPhase> {
    game.data.raid.as_ref().map(|r| r.phase)
}

fn champion_responses(game: &GameState) -> Vec<PromptAction> {
    game.champion_prompt.as_ref().expect("champion prompt").responses.clone()
}

#[test]
fn initiate_raid() {
    let catalogue = catalogue();
    let mut game = new_game();
    play_weapon(&mut game);
    summon_defender(&mut game, MINION_A, ROOM);
    occupy(&mut game, SCHEME_ID, ROOM);
    let cache = rebuild_cache(&game, &catalogue);

    let result = spelldawn::raid_actions::initiate_raid(&mut game, &cache, &catalogue, Side::Champion, ROOM);
    assert!(result.is_ok());
    assert_eq!(game.champion.actions, 2);
    assert_eq!(raid_phase(&game), Some(RaidPhase::Encounter(0)));
    assert!(game.champion_prompt.is_some());
    assert!(game.overlord_prompt.is_none());
    assert_eq!(
        champion_responses(&game),
        vec![
            PromptAction::EncounterAction(EncounterAction::UseWeaponAbility(WEAPON_ID, MINION_A)),
            PromptAction::EncounterAction(EncounterAction::NoWeapon),
        ]
    );
}

#[test]
fn use_weapon() {
    let catalogue = catalogue();
    let mut game = new_game();
    play_weapon(&mut game);
    summon_defender(&mut game, MINION_A, ROOM);
    occupy(&mut game, SCHEME_ID, ROOM);
    let cache = rebuild_cache(&game, &catalogue);

    spelldawn::raid_actions::initiate_raid(&mut game, &cache, &catalogue, Side::Champion, ROOM).unwrap();
    assert_eq!(game.champion.mana, 996);
    let result = handle_encounter_action(
        &mut game,
        &cache,
        &catalogue,
        Side::Champion,
        EncounterAction::UseWeaponAbility(WEAPON_ID, MINION_A),
    );
    assert!(result.is_ok());
    // One boost activation closes the 3 attack vs 5 health gap: one mana.
    assert_eq!(game.champion.mana, 995);
    assert_eq!(raid_phase(&game), Some(RaidPhase::Access));
    assert!(game.card(SCHEME_ID).is_revealed_to(Side::Champion));
    assert_eq!(
        champion_responses(&game),
        vec![PromptAction::RaidScoreCard(SCHEME_ID), PromptAction::EndRaid]
    );
}

#[test]
fn fire_combat_ability() {
    let catalogue = catalogue();
    let mut game = new_game();
    play_weapon(&mut game);
    summon_defender(&mut game, MINION_A, ROOM);
    occupy(&mut game, SCHEME_ID, ROOM);
    let cache = rebuild_cache(&game, &catalogue);

    spelldawn::raid_actions::initiate_raid(&mut game, &cache, &catalogue, Side::Champion, ROOM).unwrap();
    assert_eq!(game.champion.mana, 996);
    let result = handle_encounter_action(
        &mut game,
        &cache,
        &catalogue,
        Side::Champion,
        EncounterAction::NoWeapon,
    );
    assert!(result.is_ok());
    // The end-raid combat ability fired: the raid is over, in failure,
    // with the raid-ended record appended before the raid state vanished.
    assert_eq!(game.champion.mana, 996);
    assert!(game.data.raid.is_none());
    assert!(!game.card(SCHEME_ID).is_revealed_to(Side::Champion));
    let updates = game.updates.as_ref().unwrap();
    assert!(updates.contains(&GameUpdate::RaidEnded(RaidOutcome::Failure)));
}

#[test]
fn score_scheme_card() {
    let catalogue = catalogue();
    let mut game = new_game();
    play_weapon(&mut game);
    summon_defender(&mut game, MINION_A, ROOM);
    occupy(&mut game, SCHEME_ID, ROOM);
    let cache = rebuild_cache(&game, &catalogue);

    spelldawn::raid_actions::initiate_raid(&mut game, &cache, &catalogue, Side::Champion, ROOM).unwrap();
    handle_encounter_action(
        &mut game,
        &cache,
        &catalogue,
        Side::Champion,
        EncounterAction::UseWeaponAbility(WEAPON_ID, MINION_A),
    )
    .unwrap();
    let result = handle_access_action(
        &mut game,
        &cache,
        &catalogue,
        Side::Champion,
        PromptAction::RaidScoreCard(SCHEME_ID),
    );
    assert!(result.is_ok());
    assert_eq!(game.champion.score, 1);
    assert!(game.data.raid.is_some());
    assert_eq!(game.card(SCHEME_ID).position, CardPosition::Scored(Side::Champion));
    assert_eq!(champion_responses(&game), vec![PromptAction::EndRaid]);
}

#[test]
fn complete_raid() {
    let catalogue = catalogue();
    let mut game = new_game();
    play_weapon(&mut game);
    summon_defender(&mut game, MINION_A, ROOM);
    occupy(&mut game, SCHEME_ID, ROOM);
    let cache = rebuild_cache(&game, &catalogue);

    spelldawn::raid_actions::initiate_raid(&mut game, &cache, &catalogue, Side::Champion, ROOM).unwrap();
    handle_encounter_action(
        &mut game,
        &cache,
        &catalogue,
        Side::Champion,
        EncounterAction::UseWeaponAbility(WEAPON_ID, MINION_A),
    )
    .unwrap();
    handle_access_action(
        &mut game,
        &cache,
        &catalogue,
        Side::Champion,
        PromptAction::RaidScoreCard(SCHEME_ID),
    )
    .unwrap();
    let result =
        handle_access_action(&mut game, &cache, &catalogue, Side::Champion, PromptAction::EndRaid);
    assert!(result.is_ok());
    assert_eq!(game.champion.score, 1);
    assert!(game.data.raid.is_none());
    assert!(game.champion_prompt.is_none());
    assert!(game.overlord_prompt.is_none());
    let updates = game.updates.as_ref().unwrap();
    assert!(updates.contains(&GameUpdate::RaidEnded(RaidOutcome::Success)));
}

#[test]
fn cannot_activate() {
    let catalogue = catalogue();
    let mut game = new_game();
    game.overlord.mana = 0;
    play_weapon(&mut game);
    hidden_defender(&mut game, MINION_A, ROOM);
    occupy(&mut game, SCHEME_ID, ROOM);
    let cache = rebuild_cache(&game, &catalogue);

    // The Overlord cannot afford to reveal its defender, so the raid
    // skips activation and the hidden defender, landing at access.
    spelldawn::raid_actions::initiate_raid(&mut game, &cache, &catalogue, Side::Champion, ROOM).unwrap();
    assert_eq!(raid_phase(&game), Some(RaidPhase::Access));
    assert_eq!(
        champion_responses(&game),
        vec![PromptAction::RaidScoreCard(SCHEME_ID), PromptAction::EndRaid]
    );
}

#[test]
fn raid_activation_pass() {
    let catalogue = catalogue();
    let mut game = new_game();
    play_weapon(&mut game);
    hidden_defender(&mut game, MINION_A, ROOM);
    occupy(&mut game, SCHEME_ID, ROOM);
    let cache = rebuild_cache(&game, &catalogue);

    spelldawn::raid_actions::initiate_raid(&mut game, &cache, &catalogue, Side::Champion, ROOM).unwrap();
    // The Overlord can afford the reveal: the activation choice is his.
    assert_eq!(raid_phase(&game), Some(RaidPhase::Activation));
    assert!(game.overlord_prompt.is_some());
    assert!(game.champion_prompt.is_none());
    let result = spelldawn::raid_actions::handle_room_activation(
        &mut game,
        &cache,
        &catalogue,
        Side::Overlord,
        RoomActivationAction::Pass,
    );
    assert!(result.is_ok());
    // Passing leaves the defender hidden, so the raid goes to access.
    assert_eq!(raid_phase(&game), Some(RaidPhase::Access));
}

#[test]
fn raid_activation_activate() {
    let catalogue = catalogue();
    let mut game = new_game();
    play_weapon(&mut game);
    hidden_defender(&mut game, MINION_A, ROOM);
    occupy(&mut game, SCHEME_ID, ROOM);
    let cache = rebuild_cache(&game, &catalogue);

    spelldawn::raid_actions::initiate_raid(&mut game, &cache, &catalogue, Side::Champion, ROOM).unwrap();
    spelldawn::raid_actions::handle_room_activation(
        &mut game,
        &cache,
        &catalogue,
        Side::Overlord,
        RoomActivationAction::Activate,
    )
    .unwrap();
    // Entering the encounter auto-pays the defender's cost and reveals it.
    assert_eq!(raid_phase(&game), Some(RaidPhase::Encounter(0)));
    assert_eq!(game.overlord.mana, STARTING_MANA - 3);
    assert!(game.card(MINION_A).is_revealed_to(Side::Champion));
}

#[test]
fn raid_no_defenders() {
    let catalogue = catalogue();
    let mut game = new_game();
    occupy(&mut game, SCHEME_ID, ROOM);
    let cache = rebuild_cache(&game, &catalogue);

    spelldawn::raid_actions::initiate_raid(&mut game, &cache, &catalogue, Side::Champion, ROOM).unwrap();
    // With no defenders the raid jumps straight to access.
    assert_eq!(raid_phase(&game), Some(RaidPhase::Access));
    assert_eq!(
        champion_responses(&game),
        vec![PromptAction::RaidScoreCard(SCHEME_ID), PromptAction::EndRaid]
    );
}

#[test]
fn raid_no_occupants() {
    let catalogue = catalogue();
    let mut game = new_game();
    play_weapon(&mut game);
    summon_defender(&mut game, MINION_A, ROOM);
    let cache = rebuild_cache(&game, &catalogue);

    let result = spelldawn::raid_actions::initiate_raid(&mut game, &cache, &catalogue, Side::Champion, ROOM);
    assert!(result.is_err());
    assert!(game.data.raid.is_none());
    assert_eq!(game.champion.actions, 3);
}

#[test]
fn raid_no_occupants_or_defenders() {
    let catalogue = catalogue();
    let mut game = new_game();
    let cache = rebuild_cache(&game, &catalogue);

    let result = spelldawn::raid_actions::initiate_raid(&mut game, &cache, &catalogue, Side::Champion, ROOM);
    assert!(result.is_err());
    assert!(game.data.raid.is_none());
}

#[test]
fn raid_two_defenders() {
    let catalogue = catalogue();
    let mut game = new_game();
    play_weapon(&mut game);
    summon_defender(&mut game, MINION_A, ROOM);
    summon_defender(&mut game, MINION_B, ROOM);
    occupy(&mut game, SCHEME_ID, ROOM);
    let cache = rebuild_cache(&game, &catalogue);

    spelldawn::raid_actions::initiate_raid(&mut game, &cache, &catalogue, Side::Champion, ROOM).unwrap();
    // The most recently placed defender is encountered first.
    assert_eq!(raid_phase(&game), Some(RaidPhase::Encounter(1)));
    handle_encounter_action(
        &mut game,
        &cache,
        &catalogue,
        Side::Champion,
        EncounterAction::UseWeaponAbility(WEAPON_ID, MINION_B),
    )
    .unwrap();
    assert_eq!(raid_phase(&game), Some(RaidPhase::Continue(0)));
    assert_eq!(
        champion_responses(&game),
        vec![
            PromptAction::ContinueAction(ContinueAction::Advance),
            PromptAction::ContinueAction(ContinueAction::Retreat),
        ]
    );
}

#[test]
fn raid_two_defenders_full_raid() {
    let catalogue = catalogue();
    let mut game = new_game();
    play_weapon(&mut game);
    summon_defender(&mut game, MINION_A, ROOM);
    summon_defender(&mut game, MINION_B, ROOM);
    occupy(&mut game, SCHEME_ID, ROOM);
    let cache = rebuild_cache(&game, &catalogue);

    spelldawn::raid_actions::initiate_raid(&mut game, &cache, &catalogue, Side::Champion, ROOM).unwrap();
    handle_encounter_action(
        &mut game,
        &cache,
        &catalogue,
        Side::Champion,
        EncounterAction::UseWeaponAbility(WEAPON_ID, MINION_B),
    )
    .unwrap();
    handle_continue_action(
        &mut game,
        &cache,
        &catalogue,
        Side::Champion,
        ContinueAction::Advance,
    )
    .unwrap();
    assert_eq!(raid_phase(&game), Some(RaidPhase::Encounter(0)));
    handle_encounter_action(
        &mut game,
        &cache,
        &catalogue,
        Side::Champion,
        EncounterAction::UseWeaponAbility(WEAPON_ID, MINION_A),
    )
    .unwrap();
    assert_eq!(raid_phase(&game), Some(RaidPhase::Access));
    handle_access_action(
        &mut game,
        &cache,
        &catalogue,
        Side::Champion,
        PromptAction::RaidScoreCard(SCHEME_ID),
    )
    .unwrap();
    // Weapon play for three, plus one boost per encounter.
    assert_eq!(game.champion.mana, STARTING_MANA - 5);
    assert_eq!(game.champion.score, 1);
}

#[test]
fn raid_retreat() {
    let catalogue = catalogue();
    let mut game = new_game();
    play_weapon(&mut game);
    summon_defender(&mut game, MINION_A, ROOM);
    summon_defender(&mut game, MINION_B, ROOM);
    occupy(&mut game, SCHEME_ID, ROOM);
    let cache = rebuild_cache(&game, &catalogue);

    spelldawn::raid_actions::initiate_raid(&mut game, &cache, &catalogue, Side::Champion, ROOM).unwrap();
    handle_encounter_action(
        &mut game,
        &cache,
        &catalogue,
        Side::Champion,
        EncounterAction::UseWeaponAbility(WEAPON_ID, MINION_B),
    )
    .unwrap();
    handle_continue_action(
        &mut game,
        &cache,
        &catalogue,
        Side::Champion,
        ContinueAction::Retreat,
    )
    .unwrap();
    assert!(game.data.raid.is_none());
    let updates = game.updates.as_ref().unwrap();
    assert!(updates.contains(&GameUpdate::RaidEnded(RaidOutcome::Failure)));
}

#[test]
fn raid_vault() {
    let catalogue = catalogue();
    let mut game = new_game();
    play_weapon(&mut game);
    summon_defender(&mut game, MINION_A, RoomId::Vault);
    // Put the scheme on top of the deck.
    game.move_card(SCHEME_ID, CardPosition::DeckTop(Side::Overlord));
    let cache = rebuild_cache(&game, &catalogue);

    spelldawn::raid_actions::initiate_raid(&mut game, &cache, &catalogue, Side::Champion, RoomId::Vault).unwrap();
    handle_encounter_action(
        &mut game,
        &cache,
        &catalogue,
        Side::Champion,
        EncounterAction::UseWeaponAbility(WEAPON_ID, MINION_A),
    )
    .unwrap();
    assert_eq!(raid_phase(&game), Some(RaidPhase::Access));
    // Vault access count is one: exactly the top deck card is accessed.
    assert_eq!(game.data.raid.as_ref().unwrap().accessed, vec![SCHEME_ID]);
    assert!(game.card(SCHEME_ID).is_revealed_to(Side::Champion));
    assert_eq!(
        champion_responses(&game),
        vec![PromptAction::RaidScoreCard(SCHEME_ID), PromptAction::EndRaid]
    );
}

#[test]
fn raid_vault_access_two() {
    let catalogue = catalogue();
    let mut game = new_game();
    // The vault booster in play sets the access count to two.
    game.move_card(
        CardId { side: Side::Champion, index: 2 },
        CardPosition::ArenaItem(ItemLocation::Artifacts),
    );
    game.move_card(SCHEME_ID, CardPosition::DeckTop(Side::Overlord));
    game.move_card(PROJECT_ID, CardPosition::DeckTop(Side::Overlord));
    let cache = rebuild_cache(&game, &catalogue);

    spelldawn::raid_actions::initiate_raid(&mut game, &cache, &catalogue, Side::Champion, RoomId::Vault).unwrap();
    assert_eq!(raid_phase(&game), Some(RaidPhase::Access));
    // Deterministic mode: the literal top two deck cards in order, the
    // most recently placed on top.
    assert_eq!(game.data.raid.as_ref().unwrap().accessed, vec![PROJECT_ID, SCHEME_ID]);
}

#[test]
fn raid_sanctum() {
    let catalogue = catalogue();
    let mut game = new_game();
    play_weapon(&mut game);
    summon_defender(&mut game, MINION_A, RoomId::Sanctum);
    game.move_card(SCHEME_ID, CardPosition::Hand(Side::Overlord));
    game.move_card(PROJECT_ID, CardPosition::Hand(Side::Overlord));
    let cache = rebuild_cache(&game, &catalogue);

    spelldawn::raid_actions::initiate_raid(&mut game, &cache, &catalogue, Side::Champion, RoomId::Sanctum).unwrap();
    handle_encounter_action(
        &mut game,
        &cache,
        &catalogue,
        Side::Champion,
        EncounterAction::UseWeaponAbility(WEAPON_ID, MINION_A),
    )
    .unwrap();
    assert_eq!(raid_phase(&game), Some(RaidPhase::Access));
    // Deterministic mode takes the first hand card in slot order.
    assert_eq!(game.data.raid.as_ref().unwrap().accessed, vec![SCHEME_ID]);
}

#[test]
fn raid_crypts() {
    let catalogue = catalogue();
    let mut game = new_game();
    play_weapon(&mut game);
    summon_defender(&mut game, MINION_A, RoomId::Crypts);
    game.move_card(SCHEME_ID, CardPosition::DiscardPile(Side::Overlord));
    game.move_card(PROJECT_ID, CardPosition::DiscardPile(Side::Overlord));
    // One discard card is already revealed to the Champion: it is not
    // accessed again.
    spelldawn::mutations::set_revealed_to(&mut game, PROJECT_ID, Side::Champion, true);
    let cache = rebuild_cache(&game, &catalogue);

    spelldawn::raid_actions::initiate_raid(&mut game, &cache, &catalogue, Side::Champion, RoomId::Crypts).unwrap();
    handle_encounter_action(
        &mut game,
        &cache,
        &catalogue,
        Side::Champion,
        EncounterAction::UseWeaponAbility(WEAPON_ID, MINION_A),
    )
    .unwrap();
    assert_eq!(raid_phase(&game), Some(RaidPhase::Access));
    assert_eq!(game.data.raid.as_ref().unwrap().accessed, vec![SCHEME_ID]);
}

#[test]
fn destroy_project() {
    let catalogue = catalogue();
    let mut game = new_game();
    occupy(&mut game, PROJECT_ID, ROOM);
    let cache = rebuild_cache(&game, &catalogue);

    spelldawn::raid_actions::initiate_raid(&mut game, &cache, &catalogue, Side::Champion, ROOM).unwrap();
    assert_eq!(raid_phase(&game), Some(RaidPhase::Access));
    assert_eq!(
        champion_responses(&game),
        vec![PromptAction::RaidDestroyCard(PROJECT_ID), PromptAction::EndRaid]
    );
    handle_access_action(
        &mut game,
        &cache,
        &catalogue,
        Side::Champion,
        PromptAction::RaidDestroyCard(PROJECT_ID),
    )
    .unwrap();
    // Destruction costs the project's printed mana cost.
    assert_eq!(game.champion.mana, STARTING_MANA - 2);
    assert_eq!(game.card(PROJECT_ID).position, CardPosition::DiscardPile(Side::Overlord));
    assert_eq!(champion_responses(&game), vec![PromptAction::EndRaid]);
}

#[test]
fn deal_damage_discards_from_hand() {
    let catalogue = catalogue();
    let mut game = new_game();
    play_weapon(&mut game);
    summon_defender(&mut game, DAMAGE_MINION, ROOM);
    occupy(&mut game, SCHEME_ID, ROOM);
    // Two cards in the Champion's hand; damage discards the lowest slot.
    game.move_card(CardId { side: Side::Champion, index: 0 }, CardPosition::Hand(Side::Champion));
    game.move_card(CardId { side: Side::Champion, index: 2 }, CardPosition::Hand(Side::Champion));
    let cache = rebuild_cache(&game, &catalogue);

    spelldawn::raid_actions::initiate_raid(&mut game, &cache, &catalogue, Side::Champion, ROOM).unwrap();
    handle_encounter_action(
        &mut game,
        &cache,
        &catalogue,
        Side::Champion,
        EncounterAction::NoWeapon,
    )
    .unwrap();
    // The combat ability dealt one damage: the lowest-slot hand card was
    // discarded; the raid continues to access.
    assert_eq!(
        game.card(CardId { side: Side::Champion, index: 0 }).position,
        CardPosition::DiscardPile(Side::Champion)
    );
    assert_eq!(
        game.card(CardId { side: Side::Champion, index: 2 }).position,
        CardPosition::Hand(Side::Champion)
    );
    assert_eq!(raid_phase(&game), Some(RaidPhase::Access));
}

#[test]
fn gain_mana_action() {
    let catalogue = catalogue();
    let mut game = new_game();
    let cache = rebuild_cache(&game, &catalogue);

    let result =
        handle_game_action(&mut game, &cache, &catalogue, Side::Champion, GameAction::GainMana);
    assert!(result.is_ok());
    assert_eq!(game.champion.mana, STARTING_MANA + 1);
    assert_eq!(game.champion.actions, 2);
    // The Overlord cannot act off turn.
    let result =
        handle_game_action(&mut game, &cache, &catalogue, Side::Overlord, GameAction::GainMana);
    assert!(result.is_err());
    assert_eq!(game.overlord.mana, STARTING_MANA);
}

#[test]
fn sorting_keys_increase() {
    let mut game = new_game();
    game.move_card(SCHEME_ID, CardPosition::Hand(Side::Overlord));
    let first = game.card(SCHEME_ID).sorting_key;
    game.move_card(PROJECT_ID, CardPosition::Hand(Side::Overlord));
    let second = game.card(PROJECT_ID).sorting_key;
    game.move_card(SCHEME_ID, CardPosition::DiscardPile(Side::Overlord));
    let third = game.card(SCHEME_ID).sorting_key;
    assert!(first < second);
    assert!(second < third);
}

#[test]
fn flag_false_wins() {
    let flag = Flag::new(true);
    assert!(flag.resolve());
    let overridden = flag.with_override(false);
    assert!(!overridden.resolve());
    // Once false, later true overrides cannot restore it.
    assert!(!overridden.with_override(true).resolve());
    // Overriding to true works only from the untouched default.
    assert!(Flag::new(false).with_override(true).resolve());
}

#[test]
fn dispatch_order_is_overlord_first_then_name() {
    let catalogue = catalogue();
    let mut game = new_game();
    // In play: a Champion artifact and two Overlord minions whose names
    // order opposite to their slots.
    game.move_card(
        CardId { side: Side::Champion, index: 2 },
        CardPosition::ArenaItem(ItemLocation::Artifacts),
    );
    summon_defender(&mut game, DAMAGE_MINION, ROOM);
    summon_defender(&mut game, MINION_A, ROOM);
    let cache = rebuild_cache(&game, &catalogue);
    let owners: Vec<CardId> =
        cache.delegates.iter().map(|c| c.scope.ability_id.card_id).collect();
    // Overlord delegates first, ordered by canonical name: the end-raid
    // minion's name precedes the damage minion's.
    assert_eq!(owners, vec![MINION_A, DAMAGE_MINION, CardId { side: Side::Champion, index: 2 }]);
}

#[test]
fn raid_two_defenders_cannot_afford_second() {
    let catalogue = catalogue();
    let mut game = new_game();
    // The Overlord holds a single mana: enough to reveal the outer
    // defender, not the inner one.
    game.overlord.mana = 1;
    play_weapon(&mut game);
    hidden_defender(&mut game, MINION_A, RoomId::Vault);
    hidden_defender(&mut game, DAMAGE_MINION, RoomId::Vault);
    game.move_card(SCHEME_ID, CardPosition::DeckTop(Side::Overlord));
    let cache = rebuild_cache(&game, &catalogue);

    spelldawn::raid_actions::initiate_raid(&mut game, &cache, &catalogue, Side::Champion, RoomId::Vault)
        .unwrap();
    assert_eq!(raid_phase(&game), Some(RaidPhase::Activation));
    spelldawn::raid_actions::handle_room_activation(
        &mut game,
        &cache,
        &catalogue,
        Side::Overlord,
        RoomActivationAction::Activate,
    )
    .unwrap();
    // The outer defender is revealed for its one mana.
    assert_eq!(raid_phase(&game), Some(RaidPhase::Encounter(1)));
    assert_eq!(game.overlord.mana, 0);
    assert!(game.card(DAMAGE_MINION).is_revealed_to(Side::Champion));
    handle_encounter_action(
        &mut game,
        &cache,
        &catalogue,
        Side::Champion,
        EncounterAction::UseWeaponAbility(WEAPON_ID, DAMAGE_MINION),
    )
    .unwrap();
    assert_eq!(raid_phase(&game), Some(RaidPhase::Continue(0)));
    handle_continue_action(
        &mut game,
        &cache,
        &catalogue,
        Side::Champion,
        ContinueAction::Advance,
    )
    .unwrap();
    // The inner defender's reveal is unaffordable: its encounter is
    // skipped and the raid reaches access.
    assert_eq!(raid_phase(&game), Some(RaidPhase::Access));
    assert!(!game.card(MINION_A).is_revealed_to(Side::Champion));
    assert_eq!(game.data.raid.as_ref().unwrap().accessed, vec![SCHEME_ID]);
    assert_eq!(game.champion.mana, STARTING_MANA - 4);
    assert_eq!(game.overlord.mana, 0);
    assert_eq!(
        champion_responses(&game),
        vec![PromptAction::RaidScoreCard(SCHEME_ID), PromptAction::EndRaid]
    );
}

#[test]
fn random_card_deterministic_picks_first() {
    let mut game = new_game();
    assert_eq!(game.random_card(CardPosition::Hand(Side::Overlord)), None);
    game.move_card(PROJECT_ID, CardPosition::Hand(Side::Overlord));
    game.move_card(SCHEME_ID, CardPosition::Hand(Side::Overlord));
    // Deterministic mode picks the first matching slot.
    assert_eq!(game.random_card(CardPosition::Hand(Side::Overlord)), Some(SCHEME_ID));
}
