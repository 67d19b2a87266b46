//! The card catalogue: the immutable collection of all card definitions,
//! built once at startup from an exhaustive list and threaded explicitly
//! into every component that needs it. There is no ambient global lookup.

use vstd::prelude::*;

use crate::card_definition::{Ability, CardDefinition, CardDefinitionModel};
use crate::delegates::Delegate;
use crate::game::GameState;
use crate::primitives::{AbilityId, CardId, CardName};

verus! {

/// All known card definitions. Built once by [`build_catalogue`]; treated as
/// immutable afterwards.
#[derive(Clone, Debug)]
pub struct Catalogue {
    pub definitions: Vec<CardDefinition>,
}

impl View for Catalogue {
    type V = Seq<CardDefinitionModel>;

    open spec fn view(&self) -> Seq<CardDefinitionModel> {
        self.definitions@.map_values(|d: CardDefinition| d@)
    }
}

/// Slot of the first definition of `name` within the first `upto` entries,
/// or `-1` when there is none.
pub open spec fn spec_index_of_name(defs: Seq<CardDefinitionModel>, name: CardName, upto: nat) -> int
    decreases upto,
{
    if upto == 0 || upto > defs.len() {
        -1
    } else if spec_index_of_name(defs, name, (upto - 1) as nat) >= 0 {
        spec_index_of_name(defs, name, (upto - 1) as nat)
    } else if defs[upto - 1].name == name {
        upto - 1
    } else {
        -1
    }
}

/// Whether the catalogue defines a card of this name.
pub open spec fn spec_defines(defs: Seq<CardDefinitionModel>, name: CardName) -> bool {
    spec_index_of_name(defs, name, defs.len()) >= 0
}

/// The definition the catalogue gives for this name: the first entry
/// carrying it.
pub open spec fn spec_definition(defs: Seq<CardDefinitionModel>, name: CardName) -> CardDefinitionModel {
    defs[spec_index_of_name(defs, name, defs.len())]
}

/// The index returned by [`spec_index_of_name`] is in range and carries the
/// name, and no earlier entry does.
pub proof fn lemma_index_of_name(defs: Seq<CardDefinitionModel>, name: CardName, upto: nat)
    requires
        upto <= defs.len(),
    ensures
        spec_index_of_name(defs, name, upto) >= 0 ==> {
            &&& spec_index_of_name(defs, name, upto) < upto
            &&& defs[spec_index_of_name(defs, name, upto)].name == name
        },
        spec_index_of_name(defs, name, upto) < 0 ==> forall|k: int|
            0 <= k < upto ==> (#[trigger] defs[k]).name != name,
    decreases upto,
{
    if upto != 0 {
        lemma_index_of_name(defs, name, (upto - 1) as nat);
    }
}

/// Builds the catalogue from an exhaustive, statically known list of card
/// definitions. Invoked exactly once during startup.
pub fn build_catalogue(definitions: Vec<CardDefinition>) -> (r: Catalogue)
    ensures
        r@ == definitions@.map_values(|d: CardDefinition| d@),
{
    Catalogue { definitions }
}

/// Returns an iteration of all known card definitions, in catalogue order.
pub fn all_cards(catalogue: &Catalogue) -> (r: &Vec<CardDefinition>)
    ensures
        r@.map_values(|d: CardDefinition| d@) == catalogue@,
{
    &catalogue.definitions
}

/// Looks up the definition for a card name.
///
/// A name outside the catalogue is a construction-time invariant violation,
/// excluded by precondition rather than handled at runtime.
pub fn get<'a>(catalogue: &'a Catalogue, name: CardName) -> (r: &'a CardDefinition)
    requires
        spec_defines(catalogue@, name),
    ensures
        r@ == spec_definition(catalogue@, name),
{
    let defs = &catalogue.definitions;
    let mut i: usize = 0;
    proof {
        lemma_index_of_name(catalogue@, name, catalogue@.len());
    }
    while i < defs.len()
        invariant
            i <= catalogue@.len(),
            defs@.map_values(|d: CardDefinition| d@) == catalogue@,
            spec_defines(catalogue@, name),
            spec_index_of_name(catalogue@, name, catalogue@.len()) >= i,
            forall|k: int| 0 <= k < i ==> (#[trigger] catalogue@[k]).name != name,
        decreases catalogue@.len() - i,
    {
        if defs[i].name == name {
            proof {
                lemma_index_of_name_pins(catalogue@, name, i as int);
            }
            return &defs[i];
        }
        proof {
            lemma_index_of_name_above(catalogue@, name, (i + 1) as nat);
        }
        i = i + 1;
    }
    proof {
        assert(false);
    }
    &defs[0]
}

/// When every entry before `i` misses and entry `i` hits, the first index
/// of the name is `i`.
proof fn lemma_index_of_name_pins(defs: Seq<CardDefinitionModel>, name: CardName, i: int)
    requires
        0 <= i < defs.len(),
        defs[i].name == name,
        forall|k: int| 0 <= k < i ==> (#[trigger] defs[k]).name != name,
    ensures
        spec_index_of_name(defs, name, defs.len()) == i,
{
    lemma_index_of_name_from(defs, name, i, defs.len());
}

/// Helper: for any `upto` beyond a hit at `i` preceded only by misses, the
/// first index is `i`.
proof fn lemma_index_of_name_from(defs: Seq<CardDefinitionModel>, name: CardName, i: int, upto: nat)
    requires
        0 <= i < defs.len(),
        defs[i].name == name,
        forall|k: int| 0 <= k < i ==> (#[trigger] defs[k]).name != name,
        i < upto <= defs.len(),
    ensures
        spec_index_of_name(defs, name, upto) == i,
    decreases upto,
{
    if upto - 1 > i {
        lemma_index_of_name_from(defs, name, i, (upto - 1) as nat);
    } else {
        lemma_index_of_name_misses(defs, name, i as nat);
    }
}

/// A scan over misses only finds nothing.
proof fn lemma_index_of_name_misses(defs: Seq<CardDefinitionModel>, name: CardName, upto: nat)
    requires
        upto <= defs.len(),
        forall|k: int| 0 <= k < upto ==> (#[trigger] defs[k]).name != name,
    ensures
        spec_index_of_name(defs, name, upto) == -1,
    decreases upto,
{
    if upto != 0 {
        lemma_index_of_name_misses(defs, name, (upto - 1) as nat);
    }
}

/// When the first `upto` entries miss, the overall first index, which
/// exists, is at least `upto`.
proof fn lemma_index_of_name_above(defs: Seq<CardDefinitionModel>, name: CardName, upto: nat)
    requires
        upto <= defs.len(),
        forall|k: int| 0 <= k < upto ==> (#[trigger] defs[k]).name != name,
        spec_defines(defs, name),
    ensures
        spec_index_of_name(defs, name, defs.len()) >= upto,
{
    lemma_index_of_name(defs, name, defs.len());
    let first = spec_index_of_name(defs, name, defs.len());
    if first < upto {
        assert(defs[first].name == name);
        assert(false);
    }
}

/// Whether the game state can look up every card it holds: each card's name
/// is defined by the catalogue.
pub open spec fn spec_game_in_catalogue(g: crate::game::GameModel, defs: Seq<CardDefinitionModel>) -> bool {
    forall|side: crate::primitives::Side, i: int|
        0 <= i < g.cards(side).len() ==> spec_defines(defs, (#[trigger] g.cards(side)[i]).name)
}

/// Looks up the definition for a card in the game.
pub fn card_definition<'a>(catalogue: &'a Catalogue, game: &GameState, card_id: CardId) -> (r:
    &'a CardDefinition)
    requires
        game@.valid_card(card_id),
        spec_defines(catalogue@, game@.card(card_id).name),
    ensures
        r@ == spec_definition(catalogue@, game@.card(card_id).name),
{
    get(catalogue, game.card(card_id).name)
}

/// Looks up the definition for an ability in the game.
pub fn ability_definition<'a>(
    catalogue: &'a Catalogue,
    game: &GameState,
    ability_id: AbilityId,
) -> (r: &'a Ability)
    requires
        game@.valid_card(ability_id.card_id),
        spec_defines(catalogue@, game@.card(ability_id.card_id).name),
        ability_id.index.0 < spec_definition(
            catalogue@,
            game@.card(ability_id.card_id).name,
        ).abilities.len(),
    ensures
        r@ == spec_definition(catalogue@, game@.card(ability_id.card_id).name).abilities[ability_id.index.0 as int],
{
    card_definition(catalogue, game, ability_id.card_id).ability(ability_id.index.0)
}

} // verus!
