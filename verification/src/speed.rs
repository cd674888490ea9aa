//! Speed.

use vstd::prelude::*;
use crate::cards::Keyword;
use crate::events::{emit, log, EventModel, GameEvent};
use crate::ids::{ObjectId, PlayerId};
use crate::object::object_has;
use crate::state::{
    object_at, player_of, seat_of, with_player_at, Game, GameState, PlayerModel,
};

verus! {

/// The speed of a player, zero where there is none.
pub open spec fn speed_of(g: Game, p: PlayerId) -> u8 {
    match player_of(g, p) {
        Some(q) => match q.speed {
            Some(s) => s,
            None => 0,
        },
        None => 0,
    }
}

/// The speed of a player, zero where there is none.
pub fn effective_speed(state: &GameState, p: PlayerId) -> (r: u8)
    ensures
        r == speed_of(state@, p),
{
    match state.player(p) {
        Some(q) => match q.speed {
            Some(s) => s,
            None => 0,
        },
        None => 0,
    }
}

/// Whether an object is a permanent of a player with "start your engines!".
pub open spec fn starts_engines(g: Game, p: PlayerId, id: ObjectId) -> bool {
    match object_at(g, id) {
        Some(o) => o.controller == p && object_has(o, Keyword::StartYourEngines),
        None => false,
    }
}

/// Whether a player controls a permanent with "start your engines!".
pub open spec fn has_engines(g: Game, p: PlayerId) -> bool {
    exists|i: int| 0 <= i < g.battlefield.len() && starts_engines(g, p, #[trigger] g.battlefield[i])
}

/// Whether a player controls a permanent with "start your engines!".
pub fn controls_start_your_engines(state: &GameState, p: PlayerId) -> (r: bool)
    ensures
        r == has_engines(state@, p),
{
    let ghost bf = state@.battlefield;
    let mut i: usize = 0;
    while i < state.battlefield.len()
        invariant
            i <= bf.len(),
            bf == state.battlefield@,
            bf == state@.battlefield,
            forall|j: int| 0 <= j < i ==> !starts_engines(state@, p, #[trigger] bf[j]),
        decreases bf.len() - i,
    {
        if let Some(obj) = state.object(state.battlefield[i]) {
            if obj.controller == p && obj.has_keyword(&Keyword::StartYourEngines) {
                assert(starts_engines(state@, p, bf[i as int]));
                return true;
            }
        }
        i += 1;
    }
    false
}

/// The game after a player's speed was set.
pub open spec fn with_speed(g: Game, p: PlayerId, speed: Option<u8>) -> Game {
    match seat_of(g.players, p) {
        Some(i) => with_player_at(g, i, PlayerModel { speed, ..g.players[i] }),
        None => g,
    }
}

/// Sets the speed of a player.
pub fn set_speed(
    state: &mut GameState,
    p: PlayerId,
    speed: Option<u8>,
    events: &mut Vec<GameEvent>,
)
    ensures
        final(state)@ == with_speed(old(state)@, p, speed),
        log(final(events)@) == log(old(events)@).push(
            EventModel::SpeedChanged { player_id: p, speed },
        ),
{
    if let Some(i) = state.seat(p) {
        let player = state.player_mut_at(i);
        player.speed = speed;
    }
    emit(events, GameEvent::SpeedChanged { player_id: p, speed });
}

} // verus!
