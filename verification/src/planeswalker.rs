//! Loyalty abilities of planeswalkers.

use std::sync::Arc;
use vstd::prelude::*;
use crate::ability::{AbilityCost, AbilityDefinition, ResolvedAbility, TargetRef};
use crate::ability_utils::{
    auto_select_targets, build_resolved_from_def, build_target_slots, first_targets,
    is_target_lacking, lacks_target, leaves_no_choice, resolved_from, target_slots,
};
use crate::cards::{has_core_type, CoreType, CounterKind, CounterType, Phase, Zone};
use crate::errors::{forbid, forbidden, invalid, refuse, EngineError};
use crate::events::{
    emit, log, EventModel, GameEvent, PendingCast, PendingCastModel, TargetSlot, WaitingFor,
    WaitingModel,
};
use crate::ids::{CardId, ObjectId, PlayerId};
use crate::keyed::KeySet;
use crate::mana::ManaCost;
use crate::object::ObjectModel;
use crate::restrictions::{activated, record_ability_activation};
use crate::state::{object_at, with_object, Game, GameState, StackEntry, StackEntryKind};
use crate::views::seq_view;

verus! {

broadcast use crate::views::group_views;

/// Whether a player may activate a loyalty ability of a planeswalker: one that the player controls
/// and that was not used this turn, in the player's main phase, when the stack is empty.
pub open spec fn may_activate(g: Game, id: ObjectId, player: PlayerId) -> bool {
    match object_at(g, id) {
        Some(o) => o.card_types.core_types.contains(CoreType::Planeswalker) && o.zone
            == Zone::Battlefield && o.controller == player && !o.loyalty_activated_this_turn && (
        g.phase == Phase::PreCombatMain || g.phase == Phase::PostCombatMain) && g.stack.len() == 0
            && g.active_player == player,
        None => false,
    }
}

/// Whether a player may activate a loyalty ability of a planeswalker: one that the player controls
/// and that was not used this turn, in the player's main phase, when the stack is empty.
pub fn can_activate_loyalty(state: &GameState, planeswalker_id: ObjectId, player: PlayerId) -> (r:
    bool)
    ensures
        r == may_activate(state@, planeswalker_id, player),
{
    match state.object(planeswalker_id) {
        Some(o) => has_core_type(&o.card_types.core_types, CoreType::Planeswalker) && o.zone
            == Zone::Battlefield && o.controller == player && !o.loyalty_activated_this_turn && (
        state.phase == Phase::PreCombatMain || state.phase == Phase::PostCombatMain)
            && state.stack.len() == 0 && state.active_player == player,
        None => false,
    }
}

/// The loyalty cost of an ability, zero where it has none.
pub open spec fn loyalty_cost_of(a: AbilityDefinition) -> i32 {
    match a.cost {
        Some(AbilityCost::Loyalty { amount }) => amount,
        _ => 0,
    }
}

/// The loyalty cost of an ability, zero where it has none.
pub fn parse_loyalty_cost(ability_def: &AbilityDefinition) -> (r: i32)
    ensures
        r == loyalty_cost_of(*ability_def),
{
    match &ability_def.cost {
        Some(AbilityCost::Loyalty { amount }) => *amount,
        _ => 0,
    }
}

/// The loyalty that an object has.
pub open spec fn loyalty_of(o: ObjectModel) -> u32 {
    match o.loyalty {
        Some(n) => n,
        None => 0,
    }
}

/// A loyalty after a cost has been paid, no less than zero and no more than 32 bits can hold.
pub open spec fn loyalty_after(loyalty: u32, cost: i32) -> u32 {
    if loyalty + cost < 0 {
        0
    } else if loyalty + cost > u32::MAX {
        u32::MAX
    } else {
        (loyalty + cost) as u32
    }
}

fn new_loyalty(loyalty: u32, cost: i32) -> (r: u32)
    ensures
        r == loyalty_after(loyalty, cost),
{
    let sum: i64 = loyalty as i64 + cost as i64;
    if sum < 0 {
        0
    } else if sum > 0xffff_ffff {
        u32::MAX
    } else {
        sum as u32
    }
}

/// What stands against activating an ability.
pub enum Objection {
    /// A rule forbids it.
    Forbidden(Seq<char>),
    /// It makes no sense.
    Invalid(Seq<char>),
}

/// What stands against a player activating a loyalty ability.
pub open spec fn objection(g: Game, player: PlayerId, id: ObjectId, index: usize) -> Option<
    Objection,
> {
    if !may_activate(g, id, player) {
        Some(Objection::Forbidden("Cannot activate loyalty ability"@))
    } else {
        let o = object_at(g, id)->0;
        if index >= o.abilities.len() {
            Some(Objection::Invalid("Invalid ability index"@))
        } else {
            let a = o.abilities[index as int];
            let cost = loyalty_cost_of(a);
            if cost < 0 && loyalty_of(o) + cost < 0 {
                Some(Objection::Forbidden("Not enough loyalty to activate ability"@))
            } else if lacks_target(target_slots(g, a, player, id)) {
                Some(Objection::Forbidden("No legal targets available"@))
            } else {
                None
            }
        }
    }
}

/// The game with the loyalty cost of an ability paid, and the planeswalker marked as used.
pub open spec fn loyalty_paid(g: Game, id: ObjectId, cost: i32) -> Game {
    let o = object_at(g, id)->0;
    let n = loyalty_after(loyalty_of(o), cost);
    with_object(
        g,
        id,
        ObjectModel {
            loyalty: Some(n),
            counters: o.counters.insert(CounterKind::Loyalty, n),
            loyalty_activated_this_turn: true,
            ..o
        },
    )
}

/// The game with the planeswalker marked as used and the lands tapped for mana forgotten.
pub open spec fn announced(g: Game, player: PlayerId, id: ObjectId) -> Game {
    let o = object_at(g, id)->0;
    Game {
        lands_tapped_for_mana: g.lands_tapped_for_mana.remove(player),
        ..with_object(g, id, ObjectModel { loyalty_activated_this_turn: true, ..o })
    }
}

/// What is told of the first `n` targets.
pub open spec fn targeting_told(
    told: Seq<EventModel>,
    targets: Seq<TargetRef>,
    source: ObjectId,
    n: nat,
) -> Seq<EventModel>
    decreases n,
{
    if n == 0 || n > targets.len() {
        told
    } else {
        targeting_told(told, targets, source, (n - 1) as nat).push(
            EventModel::BecomesTarget { target: targets[n - 1], source_id: source },
        )
    }
}

/// Whether an entry of the stack is a loyalty ability with targets.
pub open spec fn is_entry_of(
    e: StackEntry,
    g: Game,
    player: PlayerId,
    id: ObjectId,
    a: AbilityDefinition,
    targets: Seq<TargetRef>,
) -> bool {
    e.id == ObjectId(g.next_object_id) && e.source_id == id && e.controller == player && (
    match e.kind {
        StackEntryKind::ActivatedAbility { source_id, ability } => source_id == id && ability@
            == resolved_from(a, id, player, targets),
        _ => false,
    })
}

/// The game with a loyalty ability on the stack, as an entry.
pub open spec fn put_on_stack(
    g: Game,
    player: PlayerId,
    id: ObjectId,
    index: usize,
    cost: i32,
    entry: StackEntry,
) -> Game {
    let h = loyalty_paid(g, id, cost);
    Game {
        next_object_id: g.next_object_id.wrapping_add(1),
        stack: h.stack.push(entry),
        pending_activations: h.pending_activations.push((id, index)),
        lands_tapped_for_mana: h.lands_tapped_for_mana.remove(player),
        priority_passes: Set::empty(),
        priority_pass_count: 0,
        ..activated(h, id, index)
    }
}

/// Whether a game is another with a loyalty ability, with targets, on the stack.
pub open spec fn is_activated(
    g: Game,
    h: Game,
    player: PlayerId,
    id: ObjectId,
    index: usize,
    targets: Seq<TargetRef>,
) -> bool {
    let a = object_at(g, id)->0.abilities[index as int];
    h.stack.len() > 0 && is_entry_of(h.stack.last(), g, player, id, a, targets) && h == put_on_stack(
        g,
        player,
        id,
        index,
        loyalty_cost_of(a),
        h.stack.last(),
    )
}

/// What is told when a loyalty ability has been put on the stack.
pub open spec fn activation_told(
    told: Seq<EventModel>,
    g: Game,
    id: ObjectId,
    targets: Seq<TargetRef>,
) -> Seq<EventModel> {
    targeting_told(told, targets, id, targets.len()).push(
        EventModel::StackPushed { object_id: ObjectId(g.next_object_id) },
    ).push(EventModel::AbilityActivated { source_id: id })
}

/// A loyalty ability whose targets are still to be chosen; its cost is paid after that.
pub open spec fn to_be_targeted(
    a: AbilityDefinition,
    player: PlayerId,
    id: ObjectId,
    index: usize,
) -> PendingCastModel {
    PendingCastModel {
        object_id: id,
        card_id: CardId(0),
        ability: resolved_from(a, id, player, Seq::empty()),
        cost: ManaCost::NoCost,
        activation_ability_index: Some(index),
        activation_cost: Some(AbilityCost::Loyalty { amount: loyalty_cost_of(a) }),
    }
}

fn pay_loyalty(state: &mut GameState, id: ObjectId, cost: i32)
    requires
        object_at(old(state)@, id) is Some,
    ensures
        final(state)@ == loyalty_paid(old(state)@, id, cost),
{
    if let Some(o) = state.object_mut(id) {
        let current: u32 = match o.loyalty {
            Some(n) => n,
            None => 0,
        };
        let n: u32 = new_loyalty(current, cost);
        o.loyalty = Some(n);
        o.counters.insert(CounterType::Loyalty, n);
        o.loyalty_activated_this_turn = true;
    }
}

fn emit_targeting_events(targets: &Vec<TargetRef>, source: ObjectId, events: &mut Vec<GameEvent>)
    ensures
        log(final(events)@) == targeting_told(
            log(old(events)@),
            targets@,
            source,
            targets@.len(),
        ),
{
    let ghost told = log(events@);
    let mut i: usize = 0;
    while i < targets.len()
        invariant
            i <= targets@.len(),
            log(events@) == targeting_told(told, targets@, source, i as nat),
        decreases targets.len() - i,
    {
        emit(events, GameEvent::BecomesTarget { target: targets[i], source_id: source });
        i += 1;
    }
}

fn finalize_loyalty_activation(
    state: &mut GameState,
    player: PlayerId,
    id: ObjectId,
    cost: i32,
    resolved: ResolvedAbility,
    index: usize,
    events: &mut Vec<GameEvent>,
) -> (r: WaitingFor)
    requires
        object_at(old(state)@, id) is Some,
        index < object_at(old(state)@, id)->0.abilities.len(),
        cost == loyalty_cost_of(object_at(old(state)@, id)->0.abilities[index as int]),
        resolved@ == resolved_from(
            object_at(old(state)@, id)->0.abilities[index as int],
            id,
            player,
            resolved@.targets,
        ),
    ensures
        is_activated(old(state)@, final(state)@, player, id, index, resolved@.targets),
        log(final(events)@) == activation_told(
            log(old(events)@),
            old(state)@,
            id,
            resolved@.targets,
        ),
        r@ == (WaitingModel::Priority { player }),
{
    pay_loyalty(state, id, cost);
    emit_targeting_events(&resolved.targets, id, events);
    let entry_id = ObjectId(state.next_object_id);
    state.next_object_id = state.next_object_id.wrapping_add(1);
    state.stack.push(
        StackEntry {
            id: entry_id,
            source_id: id,
            controller: player,
            kind: StackEntryKind::ActivatedAbility { source_id: id, ability: Arc::new(resolved) },
        },
    );
    emit(events, GameEvent::StackPushed { object_id: entry_id });
    record_ability_activation(state, id, index);
    state.pending_activations.push((id, index));
    emit(events, GameEvent::AbilityActivated { source_id: id });
    let _ = state.lands_tapped_for_mana.remove(&player);
    state.priority_passes = KeySet::new();
    state.priority_pass_count = 0;
    WaitingFor::Priority { player }
}

fn mark_announced(state: &mut GameState, player: PlayerId, id: ObjectId)
    requires
        object_at(old(state)@, id) is Some,
    ensures
        final(state)@ == announced(old(state)@, player, id),
{
    if let Some(o) = state.object_mut(id) {
        o.loyalty_activated_this_turn = true;
    }
    let _ = state.lands_tapped_for_mana.remove(&player);
}

/// Finds the places for targets of a loyalty ability that a player may activate, its cost, and the
/// ability as it goes on the stack, without targets.
fn check_activation(state: &GameState, player: PlayerId, id: ObjectId, index: usize) -> (r: Result<
    (Vec<TargetSlot>, i32, ResolvedAbility),
    EngineError,
>)
    ensures
        match objection(state@, player, id, index) {
            Some(Objection::Forbidden(text)) => forbidden(r, text),
            Some(Objection::Invalid(text)) => invalid(r, text),
            None => r is Ok && object_at(state@, id) is Some && index < object_at(
                state@,
                id,
            )->0.abilities.len() && ({
                let a = object_at(state@, id)->0.abilities[index as int];
                seq_view((r->Ok_0).0@) == target_slots(state@, a, player, id) && (r->Ok_0).1
                    == loyalty_cost_of(a) && (r->Ok_0).2@ == resolved_from(
                    a,
                    id,
                    player,
                    Seq::empty(),
                )
            }),
        },
{
    if !can_activate_loyalty(state, id, player) {
        return forbid("Cannot activate loyalty ability");
    }
    match state.object(id) {
        Some(o) => {
            if index >= o.abilities.len() {
                return refuse("Invalid ability index");
            }
            let a = &o.abilities[index];
            assert(*a == o@.abilities[index as int]);
            let cost: i32 = parse_loyalty_cost(a);
            let current: u32 = match o.loyalty {
                Some(n) => n,
                None => 0,
            };
            if cost < 0 && (current as i64 + cost as i64) < 0 {
                return forbid("Not enough loyalty to activate ability");
            }
            let slots = build_target_slots(state, a, player, id);
            if is_target_lacking(&slots) {
                return forbid("No legal targets available");
            }
            let resolved = build_resolved_from_def(a, id, player, Vec::new());
            Ok((slots, cost, resolved))
        },
        None => forbid("Cannot activate loyalty ability"),
    }
}

/// Activates a loyalty ability of a planeswalker. Its targets are chosen before its cost is paid: if
/// they leave a choice, the player is asked, and the planeswalker counts as used already.
pub fn handle_activate_loyalty(
    state: &mut GameState,
    player: PlayerId,
    pw_id: ObjectId,
    ability_index: usize,
    events: &mut Vec<GameEvent>,
) -> (r: Result<WaitingFor, EngineError>)
    ensures
        ({
            let g = old(state)@;
            let told = log(old(events)@);
            match objection(g, player, pw_id, ability_index) {
                Some(Objection::Forbidden(text)) => forbidden(r, text) && final(state)@ == g && log(
                    final(events)@,
                ) == told,
                Some(Objection::Invalid(text)) => invalid(r, text) && final(state)@ == g && log(
                    final(events)@,
                ) == told,
                None => {
                    let a = object_at(g, pw_id)->0.abilities[ability_index as int];
                    let slots = target_slots(g, a, player, pw_id);
                    r is Ok && if leaves_no_choice(slots) {
                        is_activated(
                            g,
                            final(state)@,
                            player,
                            pw_id,
                            ability_index,
                            first_targets(slots),
                        ) && log(final(events)@) == activation_told(
                            told,
                            g,
                            pw_id,
                            first_targets(slots),
                        ) && (r->Ok_0)@ == (WaitingModel::Priority { player })
                    } else {
                        final(state)@ == announced(g, player, pw_id) && log(final(events)@) == told
                            && (r->Ok_0)@ == (WaitingModel::TargetSelection {
                            player,
                            pending_cast: to_be_targeted(a, player, pw_id, ability_index),
                            target_slots: slots,
                        })
                    }
                },
            }
        }),
{
    let (slots, cost, mut resolved) = match check_activation(state, player, pw_id, ability_index) {
        Ok(x) => x,
        Err(e) => {
            return Err(e);
        },
    };
    match auto_select_targets(&slots) {
        Some(targets) => {
            resolved.targets = targets;
            Ok(
                finalize_loyalty_activation(
                    state,
                    player,
                    pw_id,
                    cost,
                    resolved,
                    ability_index,
                    events,
                ),
            )
        },
        None => {
            mark_announced(state, player, pw_id);
            let pending = PendingCast {
                object_id: pw_id,
                card_id: CardId(0),
                ability: resolved,
                cost: ManaCost::NoCost,
                activation_ability_index: Some(ability_index),
                activation_cost: Some(AbilityCost::Loyalty { amount: cost }),
            };
            Ok(
                WaitingFor::TargetSelection {
                    player,
                    pending_cast: Box::new(pending),
                    target_slots: slots,
                },
            )
        },
    }
}

/// A planeswalker that was used may not be used again that turn, by whichever player.
pub proof fn loyalty_is_activated_once_a_turn(
    g: Game,
    h: Game,
    player: PlayerId,
    id: ObjectId,
    index: usize,
    targets: Seq<TargetRef>,
    other: PlayerId,
)
    requires
        object_at(g, id) is Some,
    ensures
        is_activated(g, h, player, id, index, targets) ==> !may_activate(h, id, other),
        !may_activate(announced(g, player, id), id, other),
{
}

/// A loyalty cost changes the loyalty by just that much, and the counters are as many.
pub proof fn loyalty_changes_by_the_cost(g: Game, player: PlayerId, id: ObjectId, index: usize)
    requires
        objection(g, player, id, index) is None,
    ensures
        ({
            let o = object_at(g, id)->0;
            let cost = loyalty_cost_of(o.abilities[index as int]);
            let paid = object_at(loyalty_paid(g, id, cost), id)->0;
            loyalty_of(o) + cost <= u32::MAX ==> loyalty_of(paid) == loyalty_of(o) + cost
                && paid.counters[CounterKind::Loyalty] == loyalty_of(o) + cost
        }),
{
}

} // verus!
