//! Starting a game.

use vstd::prelude::*;
use crate::cards::Phase;
use crate::events::{log, EventModel, GameEvent, WaitingFor, WaitingModel};
use crate::ids::PlayerId;
use crate::mulligan::{
    every_seat_is_taken, first_decision, hands_dealt, libraries_shuffled, start_mulligan,
};
use crate::players::being;
use crate::seqs::{first_where, lemma_first_where, lemma_first_where_none};
use crate::state::{player_of, Game, GameState};
use crate::turns::{advanced, auto_advance};

verus! {

broadcast use crate::views::group_views;

/// What came of an action: what happened, and what the game waits for.
#[derive(Debug)]
pub struct ActionResult {
    pub events: Vec<GameEvent>,
    pub waiting_for: WaitingFor,
}

/// The seats in the same circle, from a player on.
pub open spec fn seated_from(seats: Seq<PlayerId>, p: PlayerId) -> Seq<PlayerId> {
    match first_where(seats, being(p)) {
        Some(i) => seats.skip(i) + seats.take(i),
        None => seats,
    }
}

/// The game at the beginning of its first turn, which is a player's.
pub open spec fn opened_by(g: Game, p: PlayerId) -> Game {
    Game {
        turn_number: 1,
        phase: Phase::Untap,
        active_player: p,
        priority_player: p,
        current_starting_player: p,
        seat_order: seated_from(g.seat_order, p),
        ..g
    }
}

/// Whether someone has cards to draw.
pub open spec fn has_cards(g: Game) -> bool {
    exists|i: int| 0 <= i < g.players.len() && (#[trigger] g.players[i]).library.len() > 0
}

/// Whether a game that is about to begin can have become another, with something told and waited
/// for: opening hands are drawn from shuffled libraries and the first seat is asked, or, where
/// nobody has cards, the first turn begins at once.
#[verifier::opaque]
pub open spec fn is_started(
    g: Game,
    h: Game,
    told: Seq<EventModel>,
    waiting_for: WaitingModel,
) -> bool {
    if has_cards(g) {
        waiting_for == first_decision(g) && exists|s: Game|
            {
                let dealt = hands_dealt(
                    s,
                    Seq::<EventModel>::empty().push(EventModel::MulliganStarted),
                    s.seat_order,
                    s.seat_order.len(),
                );
                #[trigger] libraries_shuffled(g, s) && h == (Game { waiting_for, ..dealt.0 })
                    && told == dealt.1
            }
    } else {
        let a = advanced(g, Seq::empty());
        waiting_for == (WaitingModel::Priority { player: g.active_player }) && h == (Game {
            waiting_for,
            ..a.0
        }) && told == a.1
    }
}

fn copy_waiting(w: &WaitingFor) -> (r: Option<WaitingFor>)
    ensures
        match w {
            WaitingFor::Priority { .. } | WaitingFor::MulliganDecision { .. } => r is Some && (
            r->0)@ == w@,
            _ => r is None,
        },
{
    match w {
        WaitingFor::Priority { player } => Some(WaitingFor::Priority { player: *player }),
        WaitingFor::MulliganDecision { player, mulligan_count } => Some(
            WaitingFor::MulliganDecision { player: *player, mulligan_count: *mulligan_count },
        ),
        _ => None,
    }
}

fn seat_from(seats: &Vec<PlayerId>, p: PlayerId) -> (r: Vec<PlayerId>)
    ensures
        r@ == seated_from(seats@, p),
{
    let ghost s = seats@;
    let ghost is_it = being(p);
    let n: usize = seats.len();
    let mut start: usize = 0;
    while start < n && seats[start] != p
        invariant
            start <= n,
            n == s.len(),
            s == seats@,
            is_it == being(p),
            forall|j: int| 0 <= j < start ==> !is_it(#[trigger] s[j]),
        decreases n - start,
    {
        start += 1;
    }
    let mut out: Vec<PlayerId> = Vec::new();
    let mut i: usize = start;
    while i < n
        invariant
            start <= i <= n,
            n == s.len(),
            s == seats@,
            out@ == s.subrange(start as int, i as int),
        decreases n - i,
    {
        out.push(seats[i]);
        assert(s.subrange(start as int, i as int).push(s[i as int]) =~= s.subrange(
            start as int,
            i as int + 1,
        ));
        i += 1;
    }
    let mut k: usize = 0;
    assert(out@ =~= s.skip(start as int) + s.take(0));
    while k < start
        invariant
            k <= start <= n,
            n == s.len(),
            s == seats@,
            out@ == s.skip(start as int) + s.take(k as int),
        decreases start - k,
    {
        out.push(seats[k]);
        assert((s.skip(start as int) + s.take(k as int)).push(s[k as int]) =~= s.skip(start as int)
            + s.take(k as int + 1));
        k += 1;
    }
    proof {
        if start < n {
            lemma_first_where(s, is_it, start as int);
        } else {
            lemma_first_where_none(s, is_it);
            assert(s.skip(n as int) + s.take(n as int) =~= s);
        }
    }
    out
}

fn someone_has_cards(state: &GameState) -> (r: bool)
    ensures
        r == has_cards(state@),
{
    let ghost ps = state@.players;
    let mut i: usize = 0;
    while i < state.players.len()
        invariant
            i <= ps.len(),
            ps == state@.players,
            ps.len() == state.players@.len(),
            forall|j: int| 0 <= j < i ==> (#[trigger] ps[j]).library.len() == 0,
        decreases ps.len() - i,
    {
        assert(ps[i as int] == state.players@[i as int]@);
        if state.players[i].library.len() > 0 {
            return true;
        }
        i += 1;
    }
    false
}

/// Starts a game whose first turn is a player's. Opening hands are drawn if anyone has cards.
pub fn start_game_with_starting_player(state: &mut GameState, player: PlayerId) -> (r: ActionResult)
    requires
        every_seat_is_taken(old(state)@),
    ensures
        is_started(
            opened_by(old(state)@, player),
            final(state)@,
            log(r.events@),
            r.waiting_for@,
        ),
        final(state)@.waiting_for == r.waiting_for@,
{
    proof {
        reveal(is_started);
    }
    let ghost g = state@;
    state.turn_number = 1;
    state.phase = Phase::Untap;
    state.active_player = player;
    state.priority_player = player;
    state.current_starting_player = player;
    state.seat_order = seat_from(&state.seat_order, player);
    let ghost s = opened_by(g, player);
    assert(state@ == s);
    proof {
        assert forall|i: int| 0 <= i < s.seat_order.len() implies player_of(
            s,
            #[trigger] s.seat_order[i],
        ) is Some by {
            match first_where(g.seat_order, being(player)) {
                Some(k) => {
                    if exists|c: int| crate::seqs::is_first(g.seat_order, being(player), c) {
                        let c = choose|c: int| crate::seqs::is_first(g.seat_order, being(player), c);
                        assert(k == c);
                    }
                    if i < g.seat_order.len() - k {
                        assert(s.seat_order[i] == g.seat_order[k + i]);
                        assert(player_of(g, g.seat_order[k + i]) is Some);
                    } else {
                        assert(s.seat_order[i] == g.seat_order[i - (g.seat_order.len() - k)]);
                        assert(player_of(g, g.seat_order[i - (g.seat_order.len() - k)]) is Some);
                    }
                },
                None => {
                    assert(player_of(g, g.seat_order[i]) is Some);
                },
            }
        }
    }
    let mut events: Vec<GameEvent> = Vec::new();
    assert(log(events@) =~= Seq::<EventModel>::empty());
    let waiting_for = if someone_has_cards(state) {
        start_mulligan(state, &mut events)
    } else {
        auto_advance(state, &mut events)
    };
    if let Some(w) = copy_waiting(&waiting_for) {
        state.waiting_for = w;
    }
    ActionResult { events, waiting_for }
}

} // verus!
