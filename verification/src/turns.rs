//! The beginning of a turn.

use vstd::prelude::*;
use crate::cards::Phase;
use crate::events::{emit, log, EventModel, GameEvent, WaitingFor, WaitingModel};
use crate::phasing::{execute_untap_step_phasing, untap_phased};
use crate::state::{Game, GameState};

verus! {

broadcast use crate::views::group_views;

/// What is told when the steps of the beginning phase pass.
pub open spec fn steps_told(told: Seq<EventModel>, from: Phase) -> Seq<EventModel> {
    let upkeep = EventModel::PhaseChanged { phase: Phase::Upkeep };
    let draw = EventModel::PhaseChanged { phase: Phase::Draw };
    let main = EventModel::PhaseChanged { phase: Phase::PreCombatMain };
    match from {
        Phase::Untap => told.push(upkeep).push(draw).push(main),
        Phase::Upkeep => told.push(draw).push(main),
        Phase::Draw => told.push(main),
        _ => told,
    }
}

/// Whether a step belongs to the beginning phase.
pub open spec fn is_beginning(phase: Phase) -> bool {
    phase == Phase::Untap || phase == Phase::Upkeep || phase == Phase::Draw
}

/// The game, and what is told, when the beginning phase has passed and the active player has
/// priority.
pub open spec fn advanced(g: Game, told: Seq<EventModel>) -> (Game, Seq<EventModel>) {
    let (h, t) = if g.phase == Phase::Untap {
        untap_phased(g, told)
    } else {
        (g, told)
    };
    (
        Game {
            phase: if is_beginning(g.phase) {
                Phase::PreCombatMain
            } else {
                g.phase
            },
            priority_player: g.active_player,
            ..h
        },
        steps_told(t, g.phase),
    )
}

/// Lets the beginning phase of a game's first turn pass, in which no card is drawn, and gives the
/// active player priority.
pub fn auto_advance(state: &mut GameState, events: &mut Vec<GameEvent>) -> (r: WaitingFor)
    ensures
        (final(state)@, log(final(events)@)) == advanced(old(state)@, log(old(events)@)),
        r@ == (WaitingModel::Priority { player: old(state)@.active_player }),
{
    let phase = state.phase;
    let active = state.active_player;
    if phase == Phase::Untap {
        execute_untap_step_phasing(state, events);
        emit(events, GameEvent::PhaseChanged { phase: Phase::Upkeep });
    }
    if phase == Phase::Untap || phase == Phase::Upkeep {
        emit(events, GameEvent::PhaseChanged { phase: Phase::Draw });
    }
    if phase == Phase::Untap || phase == Phase::Upkeep || phase == Phase::Draw {
        emit(events, GameEvent::PhaseChanged { phase: Phase::PreCombatMain });
        state.phase = Phase::PreCombatMain;
    }
    state.priority_player = active;
    WaitingFor::Priority { player: active }
}

} // verus!
