//! Players who leave the game, and the end of the game.

use vstd::prelude::*;
use crate::events::{emit, log, EventModel, GameEvent, WaitingFor, WaitingModel};
use crate::ids::PlayerId;
use crate::players::{lives, partner_of, teammates};
use crate::seqs::{first_where, lemma_first_where, lemma_first_where_none};
use crate::state::{seat_of, with_player_at, Game, GameState, PlayerModel};

verus! {

broadcast use crate::views::group_views;

/// Being a player who is still in the game.
pub open spec fn still_in() -> spec_fn(PlayerModel) -> bool {
    |p: PlayerModel| !p.is_eliminated
}

/// The game with one player eliminated, if the player is still in it.
pub open spec fn without_player(g: Game, p: PlayerId) -> Game {
    match seat_of(g.players, p) {
        Some(i) => if g.players[i].is_eliminated {
            g
        } else {
            Game {
                eliminated_players: g.eliminated_players.push(p),
                ..with_player_at(g, i, PlayerModel { is_eliminated: true, ..g.players[i] })
            }
        },
        None => g,
    }
}

fn mark_eliminated(state: &mut GameState, player: PlayerId)
    ensures
        final(state)@ == without_player(old(state)@, player),
{
    if let Some(i) = state.seat(player) {
        if !state.players[i].is_eliminated {
            let p = state.player_mut_at(i);
            p.is_eliminated = true;
            state.eliminated_players.push(player);
        }
    }
}

/// The game without a player and, in a team format, without the player's teammate.
pub open spec fn without_team(g: Game, p: PlayerId) -> Game {
    if g.format_config.team_based && lives(g.players, partner_of(p)) {
        without_player(without_player(g, p), partner_of(p))
    } else {
        without_player(g, p)
    }
}

/// The first player who is still in the game.
pub open spec fn survivor(players: Seq<PlayerModel>) -> Option<PlayerId> {
    match first_where(players, still_in()) {
        Some(i) => Some(players[i].id),
        None => None,
    }
}

/// Whether nobody is left to play against: every player still in the game is the first of them or
/// that player's teammate.
pub open spec fn is_decided(g: Game) -> bool {
    forall|i: int|
        0 <= i < g.players.len() && !(#[trigger] g.players[i]).is_eliminated ==> {
            let first = survivor(g.players)->0;
            g.players[i].id == first || (g.format_config.team_based && g.players[i].id
                == partner_of(first))
        }
}

/// The game after a player has left it.
#[verifier::opaque]
pub open spec fn eliminated(g: Game, p: PlayerId) -> Game {
    let h = without_team(g, p);
    if is_decided(h) {
        Game { waiting_for: WaitingModel::GameOver { winner: survivor(h.players) }, ..h }
    } else {
        h
    }
}

/// What is told when a player leaves the game.
#[verifier::opaque]
pub open spec fn elimination_told(told: Seq<EventModel>, g: Game, p: PlayerId) -> Seq<EventModel> {
    let h = without_team(g, p);
    if is_decided(h) {
        told.push(EventModel::GameOver { winner: survivor(h.players) })
    } else {
        told
    }
}

fn first_survivor(state: &GameState) -> (r: Option<PlayerId>)
    ensures
        r == survivor(state@.players),
{
    let ghost ps = state@.players;
    let ghost keep = still_in();
    let mut i: usize = 0;
    while i < state.players.len()
        invariant
            i <= ps.len(),
            ps == state@.players,
            ps.len() == state.players@.len(),
            keep == still_in(),
            forall|j: int| 0 <= j < i ==> !keep(#[trigger] ps[j]),
        decreases ps.len() - i,
    {
        assert(ps[i as int] == state.players@[i as int]@);
        if !state.players[i].is_eliminated {
            proof {
                lemma_first_where(ps, keep, i as int);
            }
            return Some(state.players[i].id);
        }
        i += 1;
    }
    proof {
        lemma_first_where_none(ps, keep);
    }
    None
}

fn is_partner(first: PlayerId, other: PlayerId) -> (r: bool)
    ensures
        r == (other == partner_of(first)),
{
    if first.0 % 2 == 0 {
        first.0 < u8::MAX && other.0 == first.0 + 1
    } else {
        other.0 == first.0 - 1
    }
}

fn nobody_to_play_against(state: &GameState, first: Option<PlayerId>) -> (r: bool)
    requires
        first == survivor(state@.players),
    ensures
        r == is_decided(state@),
{
    let ghost ps = state@.players;
    let first = match first {
        Some(f) => f,
        None => {
            proof {
                if exists|i: int| 0 <= i < ps.len() && !(#[trigger] ps[i]).is_eliminated {
                    let i = choose|i: int| 0 <= i < ps.len() && !(#[trigger] ps[i]).is_eliminated;
                    lemma_some_survivor(ps, i);
                }
            }
            return true;
        },
    };
    let mut i: usize = 0;
    while i < state.players.len()
        invariant
            i <= ps.len(),
            ps == state@.players,
            ps.len() == state.players@.len(),
            survivor(ps) == Some(first),
            forall|j: int|
                0 <= j < i && !(#[trigger] ps[j]).is_eliminated ==> ps[j].id == first || (
                state@.format_config.team_based && ps[j].id == partner_of(first)),
        decreases ps.len() - i,
    {
        assert(ps[i as int] == state.players@[i as int]@);
        let p = &state.players[i];
        if !p.is_eliminated && p.id != first && !(state.format_config.team_based && is_partner(
            first,
            p.id,
        )) {
            return false;
        }
        i += 1;
    }
    true
}

proof fn lemma_some_survivor(ps: Seq<PlayerModel>, i: int)
    requires
        0 <= i < ps.len(),
        !ps[i].is_eliminated,
    ensures
        survivor(ps) is Some,
    decreases i,
{
    if forall|j: int| 0 <= j < i ==> (#[trigger] ps[j]).is_eliminated {
        lemma_first_where(ps, still_in(), i);
    } else {
        let j = choose|j: int| 0 <= j < i && !(#[trigger] ps[j]).is_eliminated;
        lemma_some_survivor(ps, j);
    }
}

/// Takes a player out of the game, and the teammate with the player. Where that leaves nobody to
/// play against, the game is over.
pub fn eliminate_player(state: &mut GameState, player: PlayerId, events: &mut Vec<GameEvent>)
    ensures
        final(state)@ == eliminated(old(state)@, player),
        log(final(events)@) == elimination_told(log(old(events)@), old(state)@, player),
{
    proof {
        reveal(eliminated);
        reveal(elimination_told);
    }
    let mates = teammates(state, player);
    mark_eliminated(state, player);
    if mates.len() > 0 {
        mark_eliminated(state, mates[0]);
    }
    assert(state@ == without_team(old(state)@, player));
    let first = first_survivor(state);
    if nobody_to_play_against(state, first) {
        state.waiting_for = WaitingFor::GameOver { winner: first };
        emit(events, GameEvent::GameOver { winner: first });
    }
}

} // verus!
