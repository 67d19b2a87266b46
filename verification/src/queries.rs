//! Read-only queries for game information, each implemented as a fold of
//! the matching query delegates over an initial value taken from the card's
//! definition; see [`crate::dispatch`].

use vstd::prelude::*;

use crate::card_definition::{CardDefinitionModel, CardStats};
use crate::delegates::{DelegateCache, DelegateContext, ManaCostQuery, NumericQuery};
use crate::dispatch::{
    spec_perform_cost_query, spec_perform_u32_query, perform_cost_query, perform_u32_query,
};
use crate::game::{GameModel, GameState};
use crate::primitives::{ActionCount, AttackValue, CardId, HealthValue, ManaValue, RaidId, Side};
use crate::rules::{spec_defines, spec_definition, Catalogue};

verus! {

/// Base number of cards a raid accesses from the Vault, before delegates.
pub const BASE_VAULT_ACCESS: u32 = 1;

/// Base number of cards a raid accesses from the Sanctum, before
/// delegates.
pub const BASE_SANCTUM_ACCESS: u32 = 1;

/// Base number of actions a player receives at the start of a turn.
pub const BASE_ACTIONS_PER_TURN: u32 = 3;

/// The stats recorded in a card's definition.
pub fn stats<'a>(catalogue: &'a Catalogue, game: &GameState, card_id: CardId) -> (r: &'a CardStats)
    requires
        game@.valid_card(card_id),
        spec_defines(catalogue@, game@.card(card_id).name),
    ensures
        *r == spec_definition(catalogue@, game@.card(card_id).name).stats,
{
    &crate::rules::card_definition(catalogue, game, card_id).stats
}

/// The current mana cost of a card: its printed cost folded through the
/// mana cost delegates.
pub open spec fn spec_mana_cost(
    g: GameModel,
    cache: Seq<DelegateContext>,
    defs: Seq<CardDefinitionModel>,
    id: CardId,
) -> Option<ManaValue> {
    spec_perform_cost_query(
        cache,
        ManaCostQuery::ManaCost(id),
        spec_definition(defs, g.card(id).name).cost.mana,
    )
}

/// Executable counterpart of [`spec_mana_cost`].
pub fn mana_cost(
    game: &GameState,
    cache: &DelegateCache,
    catalogue: &Catalogue,
    card_id: CardId,
) -> (r: Option<ManaValue>)
    requires
        game@.valid_card(card_id),
        spec_defines(catalogue@, game@.card(card_id).name),
    ensures
        r == spec_mana_cost(game@, cache@, catalogue@, card_id),
{
    let base = crate::rules::card_definition(catalogue, game, card_id).cost.mana;
    perform_cost_query(game, cache, ManaCostQuery::ManaCost(card_id), base)
}

/// The current attack value of a card: its printed base attack, or zero,
/// folded through the attack delegates.
pub open spec fn spec_attack(
    g: GameModel,
    cache: Seq<DelegateContext>,
    defs: Seq<CardDefinitionModel>,
    id: CardId,
) -> AttackValue {
    spec_perform_u32_query(
        g,
        cache,
        NumericQuery::AttackValue(id),
        match spec_definition(defs, g.card(id).name).stats.base_attack {
            Some(a) => a,
            None => 0,
        },
    )
}

/// Executable counterpart of [`spec_attack`].
pub fn attack(
    game: &GameState,
    cache: &DelegateCache,
    catalogue: &Catalogue,
    card_id: CardId,
) -> (r: AttackValue)
    requires
        game@.valid_card(card_id),
        spec_defines(catalogue@, game@.card(card_id).name),
    ensures
        r == spec_attack(game@, cache@, catalogue@, card_id),
{
    let base = match stats(catalogue, game, card_id).base_attack {
        Some(a) => a,
        None => 0,
    };
    perform_u32_query(game, cache, NumericQuery::AttackValue(card_id), base)
}

/// The current health value of a card.
pub open spec fn spec_health(
    g: GameModel,
    cache: Seq<DelegateContext>,
    defs: Seq<CardDefinitionModel>,
    id: CardId,
) -> HealthValue {
    spec_perform_u32_query(
        g,
        cache,
        NumericQuery::HealthValue(id),
        match spec_definition(defs, g.card(id).name).stats.health {
            Some(h) => h,
            None => 0,
        },
    )
}

/// Executable counterpart of [`spec_health`].
pub fn health(
    game: &GameState,
    cache: &DelegateCache,
    catalogue: &Catalogue,
    card_id: CardId,
) -> (r: HealthValue)
    requires
        game@.valid_card(card_id),
        spec_defines(catalogue@, game@.card(card_id).name),
    ensures
        r == spec_health(game@, cache@, catalogue@, card_id),
{
    let base = match stats(catalogue, game, card_id).health {
        Some(h) => h,
        None => 0,
    };
    perform_u32_query(game, cache, NumericQuery::HealthValue(card_id), base)
}

/// The current shield value of a card.
pub open spec fn spec_shield(
    g: GameModel,
    cache: Seq<DelegateContext>,
    defs: Seq<CardDefinitionModel>,
    id: CardId,
) -> u32 {
    spec_perform_u32_query(
        g,
        cache,
        NumericQuery::ShieldValue(id),
        match spec_definition(defs, g.card(id).name).stats.shield {
            Some(s) => s,
            None => 0,
        },
    )
}

/// Executable counterpart of [`spec_shield`].
pub fn shield(
    game: &GameState,
    cache: &DelegateCache,
    catalogue: &Catalogue,
    card_id: CardId,
) -> (r: u32)
    requires
        game@.valid_card(card_id),
        spec_defines(catalogue@, game@.card(card_id).name),
    ensures
        r == spec_shield(game@, cache@, catalogue@, card_id),
{
    let base = match stats(catalogue, game, card_id).shield {
        Some(s) => s,
        None => 0,
    };
    perform_u32_query(game, cache, NumericQuery::ShieldValue(card_id), base)
}

/// The current boost count of a card: its stored count folded through the
/// boost count delegates.
pub open spec fn spec_boost_count(g: GameModel, cache: Seq<DelegateContext>, id: CardId) -> u32 {
    spec_perform_u32_query(
        g,
        cache,
        NumericQuery::BoostCount(id),
        g.card(id).data.boost_count,
    )
}

/// Executable counterpart of [`spec_boost_count`].
pub fn boost_count(game: &GameState, cache: &DelegateCache, card_id: CardId) -> (r: u32)
    requires
        game@.valid_card(card_id),
    ensures
        r == spec_boost_count(game@, cache@, card_id),
{
    let base = game.card(card_id).data.boost_count;
    perform_u32_query(game, cache, NumericQuery::BoostCount(card_id), base)
}

/// The current action point cost of a card.
pub open spec fn spec_action_cost(
    g: GameModel,
    cache: Seq<DelegateContext>,
    defs: Seq<CardDefinitionModel>,
    id: CardId,
) -> ActionCount {
    spec_perform_u32_query(
        g,
        cache,
        NumericQuery::ActionCost(id),
        spec_definition(defs, g.card(id).name).cost.actions,
    )
}

/// Executable counterpart of [`spec_action_cost`].
pub fn action_cost(
    game: &GameState,
    cache: &DelegateCache,
    catalogue: &Catalogue,
    card_id: CardId,
) -> (r: ActionCount)
    requires
        game@.valid_card(card_id),
        spec_defines(catalogue@, game@.card(card_id).name),
    ensures
        r == spec_action_cost(game@, cache@, catalogue@, card_id),
{
    let base = crate::rules::card_definition(catalogue, game, card_id).cost.actions;
    perform_u32_query(game, cache, NumericQuery::ActionCost(card_id), base)
}

/// The number of actions a player receives at the start of their turn.
pub open spec fn spec_start_of_turn_actions(
    g: GameModel,
    cache: Seq<DelegateContext>,
    side: Side,
) -> ActionCount {
    spec_perform_u32_query(
        g,
        cache,
        NumericQuery::StartOfTurnActions(side),
        BASE_ACTIONS_PER_TURN,
    )
}

/// Executable counterpart of [`spec_start_of_turn_actions`].
pub fn start_of_turn_actions(game: &GameState, cache: &DelegateCache, side: Side) -> (r:
    ActionCount)
    ensures
        r == spec_start_of_turn_actions(game@, cache@, side),
{
    perform_u32_query(game, cache, NumericQuery::StartOfTurnActions(side), BASE_ACTIONS_PER_TURN)
}

/// The number of cards the Champion can access from the Vault during the
/// given raid.
pub open spec fn spec_vault_access_count(
    g: GameModel,
    cache: Seq<DelegateContext>,
    raid_id: RaidId,
) -> u32 {
    spec_perform_u32_query(g, cache, NumericQuery::VaultAccessCount(raid_id), BASE_VAULT_ACCESS)
}

/// Executable counterpart of [`spec_vault_access_count`].
pub fn vault_access_count(game: &GameState, cache: &DelegateCache, raid_id: RaidId) -> (r: u32)
    ensures
        r == spec_vault_access_count(game@, cache@, raid_id),
{
    perform_u32_query(game, cache, NumericQuery::VaultAccessCount(raid_id), BASE_VAULT_ACCESS)
}

/// The number of cards the Champion can access from the Sanctum during
/// the given raid.
pub open spec fn spec_sanctum_access_count(
    g: GameModel,
    cache: Seq<DelegateContext>,
    raid_id: RaidId,
) -> u32 {
    spec_perform_u32_query(
        g,
        cache,
        NumericQuery::SanctumAccessCount(raid_id),
        BASE_SANCTUM_ACCESS,
    )
}

/// Executable counterpart of [`spec_sanctum_access_count`].
pub fn sanctum_access_count(game: &GameState, cache: &DelegateCache, raid_id: RaidId) -> (r: u32)
    ensures
        r == spec_sanctum_access_count(game@, cache@, raid_id),
{
    perform_u32_query(game, cache, NumericQuery::SanctumAccessCount(raid_id), BASE_SANCTUM_ACCESS)
}

/// Boost activations a weapon needs before its attack reaches `health`,
/// when each activation grants `bonus` attack.
pub open spec fn spec_boosts_needed(attack: u32, health: u32, bonus: u32) -> int {
    (health - attack + bonus - 1) / (bonus as int)
}

/// A product of activations and per-activation cost, saturating at the
/// counter limit.
pub open spec fn spec_sat_cost(k: int, cost: u32) -> u32 {
    if k * cost > u32::MAX {
        u32::MAX
    } else {
        (k * cost) as u32
    }
}

/// The mana the Champion must pay for a weapon to defeat a minion: zero
/// when its current attack already meets the minion's health, otherwise
/// the cost of the fewest boost activations that close the gap; `None`
/// when the weapon has no usable boost.
pub open spec fn spec_cost_to_defeat(
    g: GameModel,
    cache: Seq<DelegateContext>,
    defs: Seq<CardDefinitionModel>,
    source: CardId,
    target: CardId,
) -> Option<ManaValue> {
    let health = spec_health(g, cache, defs, target);
    let attack = spec_attack(g, cache, defs, source);
    if attack >= health {
        Some(0)
    } else {
        match spec_definition(defs, g.card(source).name).stats.attack_boost {
            None => None,
            Some(boost) => if boost.bonus == 0 {
                None
            } else {
                Some(spec_sat_cost(spec_boosts_needed(attack, health, boost.bonus), boost.cost))
            },
        }
    }
}

/// Executable counterpart of [`spec_cost_to_defeat`]: the price of using
/// `source` to defeat `target` in the current state.
pub fn cost_to_defeat_target(
    game: &GameState,
    cache: &DelegateCache,
    catalogue: &Catalogue,
    source: CardId,
    target: CardId,
) -> (r: Option<ManaValue>)
    requires
        game@.valid_card(source),
        game@.valid_card(target),
        spec_defines(catalogue@, game@.card(source).name),
        spec_defines(catalogue@, game@.card(target).name),
    ensures
        r == spec_cost_to_defeat(game@, cache@, catalogue@, source, target),
{
    let health = health(game, cache, catalogue, target);
    let attack = attack(game, cache, catalogue, source);
    if attack >= health {
        return Some(0);
    }
    match stats(catalogue, game, source).attack_boost {
        None => None,
        Some(boost) => {
            if boost.bonus == 0 {
                return None;
            }
            let gap: u64 = health as u64 - attack as u64;
            let bonus: u64 = boost.bonus as u64;
            let k: u64 = (gap + bonus - 1) / bonus;
            proof {
                assert(k == spec_boosts_needed(attack, health, boost.bonus));
            }
            if boost.cost == 0 {
                proof {
                    assert(spec_boosts_needed(attack, health, boost.bonus) * boost.cost == 0)
                        by (nonlinear_arith)
                        requires
                            boost.cost == 0,
                    ;
                }
                return Some(0);
            }
            if k > (u32::MAX / boost.cost) as u64 {
                proof {
                    assert(k * boost.cost > u32::MAX) by (nonlinear_arith)
                        requires
                            k > (u32::MAX as int) / (boost.cost as int),
                            boost.cost > 0,
                    ;
                }
                Some(u32::MAX)
            } else {
                proof {
                    assert(k * boost.cost <= u32::MAX) by (nonlinear_arith)
                        requires
                            k <= (u32::MAX as int) / (boost.cost as int),
                            boost.cost > 0,
                    ;
                }
                let total: u64 = k * (boost.cost as u64);
                Some(total as u32)
            }
        },
    }
}

} // verus!
