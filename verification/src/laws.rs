//! The engine's cross-cutting guarantees, stated and proved over the same
//! spec functions its contracts use.

use vstd::prelude::*;

use crate::card_definition::CardDefinitionModel;
use crate::card_state::{CardPosition, CardState};
use crate::delegates::{DelegateContext, Flag};
use crate::dispatch::{spec_card_contexts, spec_contexts_for_ids};
use crate::game::{spec_card_leq, CardOrder, GameModel, RaidPhase};
use crate::primitives::{CardId, Side};
use crate::rules::spec_definition;

verus! {

/// Sorting keys are strictly increasing and never reused: the key a move
/// assigns is strictly above every key already stamped on a card, and a
/// second move, wherever it lands, assigns a strictly greater key than
/// the first. Since every reposition goes through
/// [`crate::game::GameState::move_card`], the sequence of keys assigned
/// over any run of moves is strictly increasing.
pub proof fn lemma_sorting_keys_strictly_increase(
    g: GameModel,
    id1: CardId,
    p1: CardPosition,
    id2: CardId,
    p2: CardPosition,
)
    requires
        g.wf(),
        g.valid_card(id1),
        g.valid_card(id2),
        g.next_sorting_key + 1 < u32::MAX,
    ensures
        ({
            let key1 = g.spec_move_card(id1, p1).card(id1).sorting_key;
            let key2 = g.spec_move_card(id1, p1).spec_move_card(id2, p2).card(id2).sorting_key;
            &&& key1 == g.next_sorting_key
            &&& key2 == g.next_sorting_key + 1
            &&& key1 < key2
            &&& forall|side: Side, i: int|
                0 <= i < g.cards(side).len() ==> (#[trigger] g.cards(side)[i]).sorting_key < key1
        }),
{
    let g1 = g.spec_move_card(id1, p1);
    assert(g1.cards(id1.side) == g.cards(id1.side).update(
        id1.index as int,
        CardState { position: p1, sorting_key: g.next_sorting_key, ..g.card(id1) },
    ));
}

/// How a flag resolves after a sequence of overrides, applied in order.
pub open spec fn spec_apply_overrides(flag: Flag, overrides: Seq<bool>) -> Flag
    decreases overrides.len(),
{
    if overrides.len() == 0 {
        flag
    } else {
        spec_apply_overrides(flag.spec_with_override(overrides[0]), overrides.skip(1))
    }
}

/// False wins: once any override in a sequence is false, the resolved
/// boolean is false, regardless of any later true overrides; and a flag
/// that sees no overrides resolves to its default.
pub proof fn lemma_flag_false_wins(flag: Flag, overrides: Seq<bool>)
    ensures
        (exists|i: int| 0 <= i < overrides.len() && !overrides[i]) ==> !spec_apply_overrides(
            flag,
            overrides,
        ).spec_resolve(),
        overrides.len() == 0 ==> spec_apply_overrides(flag, overrides) == flag,
        flag matches Flag::Override(false) ==> !spec_apply_overrides(
            flag,
            overrides,
        ).spec_resolve(),
    decreases overrides.len(),
{
    if overrides.len() > 0 {
        let next = flag.spec_with_override(overrides[0]);
        lemma_flag_false_wins(next, overrides.skip(1));
        if exists|i: int| 0 <= i < overrides.len() && !overrides[i] {
            let i = choose|i: int| 0 <= i < overrides.len() && !overrides[i];
            if i == 0 {
                assert(next == Flag::Override(false));
            } else {
                assert(overrides.skip(1)[i - 1] == overrides[i]);
                assert(exists|j: int| 0 <= j < overrides.skip(1).len() && !overrides.skip(1)[j]);
            }
        }
    }
}

/// Dispatch order is deterministic and fixed: within the delegate cache
/// built for a game, every delegate context of an earlier card precedes
/// every context of a later card in dispatch order, Overlord cards
/// before Champion cards and, within a side, canonical card-name order.
/// Together with the dispatcher's contracts, which state the result of
/// every pass as a function of state, cache and payload alone, re-running
/// dispatch against an identical cache and payload invokes the same
/// delegates in the same order.
pub proof fn lemma_dispatch_order(
    defs: Seq<CardDefinitionModel>,
    g: GameModel,
    ids: Seq<CardId>,
    upto: nat,
)
    requires
        upto <= ids.len(),
        forall|p: int, q: int|
            0 <= p < q < ids.len() ==> spec_card_leq(g, CardOrder::Dispatch, #[trigger] ids[p], #[trigger] ids[q]),
    ensures
        ({
            let cache = spec_contexts_for_ids(defs, g, ids, upto);
            &&& forall|p: int|
                0 <= p < cache.len() ==> exists|k: int|
                    0 <= k < upto && (#[trigger] cache[p]).scope.ability_id.card_id == ids[k]
            &&& forall|p: int, q: int|
                0 <= p < q < cache.len() ==> spec_card_leq(
                    g,
                    CardOrder::Dispatch,
                    (#[trigger] cache[p]).scope.ability_id.card_id,
                    (#[trigger] cache[q]).scope.ability_id.card_id,
                )
        }),
    decreases upto,
{
    if upto != 0 {
        lemma_dispatch_order(defs, g, ids, (upto - 1) as nat);
        let prev = spec_contexts_for_ids(defs, g, ids, (upto - 1) as nat);
        let cache = spec_contexts_for_ids(defs, g, ids, upto);
        let id = ids[upto - 1];
        let def = spec_definition(defs, g.card(id).name);
        let block = spec_card_contexts(def, id, def.abilities.len());
        lemma_card_contexts_scopes(def, id, def.abilities.len());
        assert(cache == prev + block);
        assert forall|p: int| 0 <= p < cache.len() implies exists|k: int|
            0 <= k < upto && (#[trigger] cache[p]).scope.ability_id.card_id == ids[k] by {
            if p < prev.len() {
                assert(cache[p] == prev[p]);
                let k = choose|k: int|
                    0 <= k < upto - 1 && (#[trigger] prev[p]).scope.ability_id.card_id == ids[k];
                assert(cache[p].scope.ability_id.card_id == ids[k]);
            } else {
                assert(cache[p] == block[p - prev.len()]);
                assert(cache[p].scope.ability_id.card_id == ids[upto - 1]);
            }
        }
        assert forall|p: int, q: int| 0 <= p < q < cache.len() implies spec_card_leq(
            g,
            CardOrder::Dispatch,
            (#[trigger] cache[p]).scope.ability_id.card_id,
            (#[trigger] cache[q]).scope.ability_id.card_id,
        ) by {
            let a = cache[p].scope.ability_id.card_id;
            let b = cache[q].scope.ability_id.card_id;
            if q < prev.len() {
                assert(cache[p] == prev[p] && cache[q] == prev[q]);
            } else if p >= prev.len() {
                assert(cache[p] == block[p - prev.len()]);
                assert(cache[q] == block[q - prev.len()]);
                assert(a == id && b == id);
            } else {
                assert(cache[p] == prev[p]);
                assert(cache[q] == block[q - prev.len()]);
                assert(b == id);
                let k = choose|k: int|
                    0 <= k < upto - 1 && (#[trigger] prev[p]).scope.ability_id.card_id == ids[k];
                if k < upto - 1 {
                    assert(spec_card_leq(g, CardOrder::Dispatch, ids[k], ids[upto - 1]));
                }
            }
        }
    }
}

/// Every context a card contributes carries that card's scope.
proof fn lemma_card_contexts_scopes(def: CardDefinitionModel, id: CardId, upto: nat)
    ensures
        forall|p: int|
            0 <= p < spec_card_contexts(def, id, upto).len() ==> (#[trigger] spec_card_contexts(
                def,
                id,
                upto,
            )[p]).scope.ability_id.card_id == id,
    decreases upto,
{
    if upto != 0 && upto <= def.abilities.len() {
        lemma_card_contexts_scopes(def, id, (upto - 1) as nat);
        let prev = spec_card_contexts(def, id, (upto - 1) as nat);
        let whole = spec_card_contexts(def, id, upto);
        assert forall|p: int| 0 <= p < whole.len() implies (#[trigger] whole[p]).scope.ability_id.card_id
            == id by {
            if p < prev.len() {
                assert(whole[p] == prev[p]);
            }
        }
    }
}

/// The phase an uninterrupted raid moves to next: encounters count down
/// through continue phases until the innermost defender is resolved and
/// the access phase is reached.
pub open spec fn spec_next_phase(phase: RaidPhase) -> RaidPhase {
    match phase {
        RaidPhase::Activation => RaidPhase::Activation,
        RaidPhase::Encounter(n) => if n == 0 {
            RaidPhase::Access
        } else {
            RaidPhase::Continue((n - 1) as usize)
        },
        RaidPhase::Continue(m) => RaidPhase::Encounter(m),
        RaidPhase::Access => RaidPhase::Access,
    }
}

/// The phase after `steps` uninterrupted transitions.
pub open spec fn spec_iterate_phases(phase: RaidPhase, steps: nat) -> RaidPhase
    decreases steps,
{
    if steps == 0 {
        phase
    } else {
        spec_iterate_phases(spec_next_phase(phase), (steps - 1) as nat)
    }
}

/// Raid phase sequencing: a raid that starts encountering the outermost
/// of `k` defenders and meets no interventions reaches the access phase
/// after exactly `k` encounter/continue cycles: `2k - 1` transitions in
/// all, every earlier phase being an encounter or a continue, never
/// access. A raid against an empty room starts at access directly, zero
/// cycles.
pub proof fn lemma_raid_reaches_access(k: nat)
    requires
        0 < k <= usize::MAX,
    ensures
        spec_iterate_phases(RaidPhase::Encounter((k - 1) as usize), (2 * k - 1) as nat)
            == RaidPhase::Access,
        forall|s: nat|
            s < 2 * k - 1 ==> #[trigger] spec_iterate_phases(
                RaidPhase::Encounter((k - 1) as usize),
                s,
            ) != RaidPhase::Access,
    decreases k,
{
    let start = RaidPhase::Encounter((k - 1) as usize);
    if k == 1 {
        assert(spec_iterate_phases(start, 1) == RaidPhase::Access) by {
            reveal_with_fuel(spec_iterate_phases, 3);
        }
        assert forall|s: nat| s < 1 implies spec_iterate_phases(start, s)
            != RaidPhase::Access by {
            assert(spec_iterate_phases(start, 0) == start);
        }
    } else {
        lemma_raid_reaches_access((k - 1) as nat);
        let mid = RaidPhase::Encounter((k - 2) as usize);
        assert(spec_next_phase(start) == RaidPhase::Continue((k - 2) as usize));
        assert(spec_next_phase(RaidPhase::Continue((k - 2) as usize)) == mid);
        lemma_iterate_shift(start, 2, (2 * k - 3) as nat);
        assert(spec_iterate_phases(start, 2) == mid) by {
            reveal_with_fuel(spec_iterate_phases, 4);
        }
        assert(spec_iterate_phases(start, (2 * k - 1) as nat) == spec_iterate_phases(
            mid,
            (2 * k - 3) as nat,
        ));
        assert forall|s: nat| s < 2 * k - 1 implies spec_iterate_phases(start, s)
            != RaidPhase::Access by {
            if s == 0 {
                assert(spec_iterate_phases(start, s) == start);
            } else if s == 1 {
                assert(spec_iterate_phases(start, 1) == RaidPhase::Continue((k - 2) as usize))
                    by {
                    reveal_with_fuel(spec_iterate_phases, 3);
                }
            } else {
                lemma_iterate_shift(start, 2, (s - 2) as nat);
                assert(spec_iterate_phases(start, s) == spec_iterate_phases(
                    mid,
                    (s - 2) as nat,
                ));
            }
        }
    }
}

/// Iteration splits: stepping `a + b` times is stepping `a` then `b`.
proof fn lemma_iterate_shift(phase: RaidPhase, a: nat, b: nat)
    ensures
        spec_iterate_phases(phase, a + b) == spec_iterate_phases(
            spec_iterate_phases(phase, a),
            b,
        ),
    decreases a,
{
    if a != 0 {
        lemma_iterate_shift(spec_next_phase(phase), (a - 1) as nat, b);
    }
}

/// The engine's encounter resolution follows [`spec_next_phase`]: when no
/// delegate requested the raid end, resolving the defender at index `n`
/// leaves the raid in exactly the successor phase.
pub proof fn lemma_encounter_follows_successor(
    g: GameModel,
    cache: Seq<DelegateContext>,
    defs: Seq<CardDefinitionModel>,
    n: usize,
    acc: Seq<CardId>,
)
    requires
        g.data.raid is Some,
        g.data.raid_end_requested is None,
    ensures
        crate::raid_actions::spec_after_encounter(g, cache, defs, n, acc).data.raid->Some_0.phase
            == spec_next_phase(RaidPhase::Encounter(n)),
{
    if n == 0 {
        let g1 = crate::raid_phases::spec_with_raid_accessed(
            crate::raid_phases::spec_with_raid_phase(g, RaidPhase::Access),
            acc,
        );
        crate::raid_phases::lemma_reveal_all_keeps_data(g1, acc, acc.len());
    }
}

/// The engine's advance step follows [`spec_next_phase`] too: choosing to
/// advance from the continue phase before defender `m` scans downward
/// from `m`, and when that defender can be encountered, an uninterrupted
/// raid enters exactly its encounter.
pub proof fn lemma_advance_follows_successor(
    g: GameModel,
    cache: Seq<DelegateContext>,
    defs: Seq<CardDefinitionModel>,
    ds: Seq<CardId>,
    room_active: bool,
    m: usize,
)
    requires
        m < ds.len(),
        crate::raid_actions::spec_encounterable(g, cache, defs, room_active, ds[m as int]),
    ensures
        crate::raid_actions::spec_scan_phase(g, cache, defs, ds, room_active, m as int)
            == spec_next_phase(RaidPhase::Continue(m)),
{
}

} // verus!
