//! Effects that act on given objects.

use vstd::prelude::*;
use crate::ability::{Effect, ResolvedAbility, TargetRef};
use crate::cards::Zone;
use crate::events::{log, EventModel, GameEvent};
use crate::ids::ObjectId;
use crate::object::{ObjectModel, PhaseOutCause};
use crate::phasing::{phase_out_object, phased_out, phasing_out_told, phasing_out_with};
use crate::state::{object_at, with_object, Game, GameState};
use crate::zones::{move_to_zone, move_told, moved};

verus! {

broadcast use crate::views::group_views;

/// Whether an object lies where an effect takes it from.
pub open spec fn lies_in_origin(g: Game, id: ObjectId, origin: Option<Zone>) -> bool {
    match (object_at(g, id), origin) {
        (Some(o), Some(z)) => o.zone == z,
        (Some(_), None) => true,
        (None, _) => false,
    }
}

/// The game with an object tapped or untapped.
pub open spec fn with_tap(g: Game, id: ObjectId, tapped: bool) -> Game {
    match object_at(g, id) {
        Some(o) => with_object(g, id, ObjectModel { tapped, ..o }),
        None => g,
    }
}

/// The game, and what was told, after an effect has acted on an object.
pub open spec fn acted_on(e: Effect, g: Game, told: Seq<EventModel>, id: ObjectId) -> (
    Game,
    Seq<EventModel>,
) {
    match e {
        Effect::ChangeZone { origin, destination, .. } => if lies_in_origin(g, id, origin) {
            (moved(g, id, destination), move_told(told, g, id, destination))
        } else {
            (g, told)
        },
        Effect::Tap { .. } => (with_tap(g, id, true), told),
        Effect::Untap { .. } => (with_tap(g, id, false), told),
        Effect::PhaseOut { .. } => {
            let h = phased_out(g, id, PhaseOutCause::Directly);
            let list = phasing_out_with(g, id, PhaseOutCause::Directly);
            (h, phasing_out_told(told, h, list, list.len()))
        },
        _ => (g, told),
    }
}

/// The game, and what was told, after an effect has acted on the objects among the first `n`
/// targets.
pub open spec fn resolved(
    e: Effect,
    g: Game,
    told: Seq<EventModel>,
    targets: Seq<TargetRef>,
    n: nat,
) -> (Game, Seq<EventModel>)
    decreases n,
{
    if n == 0 || n > targets.len() {
        (g, told)
    } else {
        let (h, t) = resolved(e, g, told, targets, (n - 1) as nat);
        match targets[n - 1] {
            TargetRef::Object(id) => acted_on(e, h, t, id),
            TargetRef::Player(_) => (h, t),
        }
    }
}

fn set_tapped(state: &mut GameState, id: ObjectId, tapped: bool)
    ensures
        final(state)@ == with_tap(old(state)@, id, tapped),
{
    if let Some(o) = state.object_mut(id) {
        o.tapped = tapped;
    }
}

fn act_on(e: &Effect, state: &mut GameState, id: ObjectId, events: &mut Vec<GameEvent>)
    ensures
        (final(state)@, log(final(events)@)) == acted_on(*e, old(state)@, log(old(events)@), id),
{
    match e {
        Effect::ChangeZone { origin, destination, .. } => {
            let lies_there = match state.object(id) {
                Some(o) => match origin {
                    Some(z) => o.zone == *z,
                    None => true,
                },
                None => false,
            };
            if lies_there {
                move_to_zone(state, id, *destination, events);
            }
        },
        Effect::Tap { .. } => set_tapped(state, id, true),
        Effect::Untap { .. } => set_tapped(state, id, false),
        Effect::PhaseOut { .. } => {
            let _ = phase_out_object(state, id, PhaseOutCause::Directly, events);
        },
        _ => {},
    }
}

/// Lets an effect act on the objects among the targets of an ability: it changes their zone, taps
/// or untaps them, or phases them out. An effect that does none of these leaves the game as it is.
pub fn resolve_effect(state: &mut GameState, ability: &ResolvedAbility, events: &mut Vec<GameEvent>)
    ensures
        (final(state)@, log(final(events)@)) == resolved(
            *ability.effect,
            old(state)@,
            log(old(events)@),
            ability.targets@,
            ability.targets@.len(),
        ),
{
    let ghost g = state@;
    let ghost told = log(events@);
    let mut i: usize = 0;
    while i < ability.targets.len()
        invariant
            i <= ability.targets@.len(),
            (state@, log(events@)) == resolved(
                *ability.effect,
                g,
                told,
                ability.targets@,
                i as nat,
            ),
        decreases ability.targets.len() - i,
    {
        match ability.targets[i] {
            TargetRef::Object(id) => act_on(&*ability.effect, state, id, events),
            TargetRef::Player(_) => {},
        }
        i += 1;
    }
}

} // verus!
