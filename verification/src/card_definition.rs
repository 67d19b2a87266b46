//! Static definitions of cards: costs, stats and abilities. Definitions are
//! immutable data built once per process and threaded explicitly into every
//! component that needs them; see [`crate::rules`].

use vstd::prelude::*;

use crate::delegates::Delegate;
use crate::primitives::{
    ActionCount, AttackValue, CardName, CardType, HealthValue, ManaValue, PointsValue, ShieldValue,
    Side,
};

verus! {

/// Cost to play a card or activate an ability.
#[derive(Clone, Copy, Debug, PartialEq, Eq, Structural)]
pub struct Cost {
    /// Mana cost, if this card can be paid for with mana at all.
    pub mana: Option<ManaValue>,
    /// Action point cost.
    pub actions: ActionCount,
}

/// Activated boost of a weapon: pay `cost` mana to add `bonus` attack for the
/// current encounter.
#[derive(Clone, Copy, Debug, PartialEq, Eq, Structural)]
pub struct AttackBoost {
    /// Mana cost of one activation.
    pub cost: ManaValue,
    /// Attack granted by one activation.
    pub bonus: AttackValue,
}

/// Base numeric properties of a card, the initial values of the corresponding
/// queries before delegates transform them.
#[derive(Clone, Copy, Debug, PartialEq, Eq, Structural)]
pub struct CardStats {
    /// Damage required to defeat this card in an encounter.
    pub health: Option<HealthValue>,
    /// Mana cost attackers must overcome to interact with this card.
    pub shield: Option<ShieldValue>,
    /// Base damage dealt by this card during an encounter.
    pub base_attack: Option<AttackValue>,
    /// An attack boost this card can purchase during an encounter.
    pub attack_boost: Option<AttackBoost>,
    /// Points awarded for scoring this card.
    pub scheme_points: Option<PointsValue>,
}

impl CardStats {
    /// Stats for a card with no numeric properties.
    pub fn none() -> (r: CardStats)
        ensures
            r == CardStats::spec_none(),
    {
        CardStats {
            health: None,
            shield: None,
            base_attack: None,
            attack_boost: None,
            scheme_points: None,
        }
    }

    /// Specification counterpart of [`Self::none`].
    pub open spec fn spec_none() -> CardStats {
        CardStats {
            health: None,
            shield: None,
            base_attack: None,
            attack_boost: None,
            scheme_points: None,
        }
    }
}

/// One ability of a card: the delegates through which it observes and alters
/// core dispatch.
#[derive(Clone, Debug)]
pub struct Ability {
    pub delegates: Vec<Delegate>,
}

impl Ability {
    /// The delegates of this ability as a sequence.
    pub open spec fn view(self) -> Seq<Delegate> {
        self.delegates@
    }
}

/// The complete rules of one card design. Game state never stores these; it
/// refers to them by [`CardName`].
#[derive(Clone, Debug)]
pub struct CardDefinition {
    pub name: CardName,
    pub side: Side,
    pub card_type: CardType,
    pub cost: Cost,
    pub stats: CardStats,
    pub abilities: Vec<Ability>,
}

/// Ghost projection of a [`CardDefinition`], with abilities as a sequence of
/// delegate sequences.
pub ghost struct CardDefinitionModel {
    pub name: CardName,
    pub side: Side,
    pub card_type: CardType,
    pub cost: Cost,
    pub stats: CardStats,
    pub abilities: Seq<Seq<Delegate>>,
}

impl View for CardDefinition {
    type V = CardDefinitionModel;

    open spec fn view(&self) -> CardDefinitionModel {
        CardDefinitionModel {
            name: self.name,
            side: self.side,
            card_type: self.card_type,
            cost: self.cost,
            stats: self.stats,
            abilities: self.abilities@.map_values(|a: Ability| a@),
        }
    }
}

impl CardDefinition {
    /// Number of abilities this card defines.
    pub fn ability_count(&self) -> (r: usize)
        ensures
            r == self@.abilities.len(),
    {
        self.abilities.len()
    }

    /// The ability at `index`.
    pub fn ability(&self, index: usize) -> (r: &Ability)
        requires
            index < self@.abilities.len(),
        ensures
            r@ == self@.abilities[index as int],
    {
        &self.abilities[index]
    }
}

} // verus!
