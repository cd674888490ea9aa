//! Opening hands and mulligans.

use std::sync::Arc;
use rand::rngs::StdRng;
use rand::seq::SliceRandom;
use vstd::prelude::*;
use crate::ability::{AbilityDefinition, AbilityKind, Effect, ResolvedAbility, TargetRef};
use crate::cards::Zone;
use crate::effects::{resolve_effect, resolved};
use crate::events::{emit, log, EventModel, GameEvent, WaitingFor, WaitingModel};
use crate::ids::{ObjectId, PlayerId};
use crate::object::GameObject;
use crate::players::{being, place_in};
use crate::seqs::{
    first_where, holds, lemma_filter_members, lemma_first_where, lemma_first_where_none,
};
use crate::state::{
    free_in_duels, is_seat, lemma_seat, object_at, player_of, seat_of, with_player_at, Game,
    GameState, PlayerModel,
};
use crate::targeting::copy_ids;
use crate::text::{decimal, push_number};
use crate::turns::{advanced, auto_advance};
use crate::views::seq_view;
use crate::keyed::{lemma_filter_all, lemma_filter_drop, unlike};
use crate::zones::{
    a_move_changes_no_other_object, gone_from, move_to_zone, move_told, moved,
    moved_objects_lie_where_they_were_put,
};

verus! {

broadcast use crate::views::group_views;

/// How many cards an opening hand has.
pub const STARTING_HAND_SIZE: usize = 7;

/// How many mulligans a player can take.
pub const MAX_MULLIGANS: u8 = 7;

// ---------------------------------------------------------------------------
// Seats
// ---------------------------------------------------------------------------

/// Whether two lists of players have the same players at the same places.
pub open spec fn same_seats(a: Seq<PlayerModel>, b: Seq<PlayerModel>) -> bool {
    a.len() == b.len() && forall|i: int| 0 <= i < a.len() ==> (#[trigger] a[i]).id == b[i].id
}

/// Where the same players sit at the same places, each has the same seat.
pub proof fn lemma_same_seats(a: Seq<PlayerModel>, b: Seq<PlayerModel>, p: PlayerId)
    requires
        same_seats(a, b),
    ensures
        seat_of(a, p) == seat_of(b, p),
{
    if exists|i: int| is_seat(a, p, i) {
        let i = choose|i: int| is_seat(a, p, i);
        lemma_seat(a, p, i);
        assert(a[i].id == b[i].id);
        assert forall|j: int| 0 <= j < i implies (#[trigger] b[j]).id != p by {
            assert(a[j].id != p);
        }
        lemma_seat(b, p, i);
    } else if exists|i: int| is_seat(b, p, i) {
        let i = choose|i: int| is_seat(b, p, i);
        lemma_seat(b, p, i);
        assert(a[i].id == b[i].id);
        assert forall|j: int| 0 <= j < i implies (#[trigger] a[j]).id != p by {
            assert(b[j].id != p);
        }
        lemma_seat(a, p, i);
    }
}

/// A move leaves everyone seated.
proof fn lemma_move_keeps_seats(g: Game, id: ObjectId, to: Zone)
    ensures
        same_seats(moved(g, id, to).players, g.players),
        moved(g, id, to).seat_order == g.seat_order,
{
    reveal(moved);
}

/// Whether every seat is taken by a player of the game.
pub open spec fn every_seat_is_taken(g: Game) -> bool {
    forall|i: int|
        0 <= i < g.seat_order.len() ==> player_of(g, #[trigger] g.seat_order[i]) is Some
}

// ---------------------------------------------------------------------------
// Shuffling
// ---------------------------------------------------------------------------

/// Shuffles a list with `rand::seq::SliceRandom::shuffle`. The list holds the same elements
/// afterwards, each as often; their order is a matter of chance and is left open.
#[verifier::external_body]
fn shuffle(list: &mut Vec<ObjectId>, rng: &mut StdRng)
    ensures
        final(list)@.to_multiset() == old(list)@.to_multiset(),
{
    list.shuffle(rng);
}

/// Whether a list holds the same elements as another, each as often.
pub open spec fn reordered(a: Seq<ObjectId>, b: Seq<ObjectId>) -> bool {
    a.to_multiset() == b.to_multiset()
}

/// A player with the cards of the library in another order.
pub open spec fn is_player_shuffled(p: PlayerModel, q: PlayerModel) -> bool {
    q == (PlayerModel { library: q.library, ..p }) && reordered(q.library, p.library)
}

/// Whether a game is another with all libraries shuffled. Chance has been asked.
pub open spec fn libraries_shuffled(g: Game, h: Game) -> bool {
    &&& h == Game { players: h.players, rng: h.rng, ..g }
    &&& h.players.len() == g.players.len()
    &&& forall|i: int|
        0 <= i < g.players.len() ==> is_player_shuffled(#[trigger] g.players[i], h.players[i])
}

/// Whether a game is another with one player's library shuffled. Chance has been asked.
pub open spec fn library_shuffled(g: Game, h: Game, p: PlayerId) -> bool {
    match seat_of(g.players, p) {
        Some(i) => h == (Game { rng: h.rng, ..with_player_at(g, i, h.players[i]) }) && is_player_shuffled(
            g.players[i],
            h.players[i],
        ),
        None => h == g,
    }
}

fn shuffle_library_at(state: &mut GameState, i: usize)
    requires
        i < old(state)@.players.len(),
    ensures
        final(state)@ == (Game {
            rng: final(state)@.rng,
            ..with_player_at(old(state)@, i as int, final(state)@.players[i as int])
        }),
        is_player_shuffled(old(state)@.players[i as int], final(state)@.players[i as int]),
{
    shuffle(&mut state.players[i].library, &mut state.rng);
}

fn shuffle_libraries(state: &mut GameState)
    ensures
        libraries_shuffled(old(state)@, final(state)@),
{
    let ghost g = state@;
    let mut i: usize = 0;
    while i < state.players.len()
        invariant
            i <= g.players.len(),
            state@ == (Game { players: state@.players, rng: state@.rng, ..g }),
            state@.players.len() == g.players.len(),
            state@.players.len() == state.players@.len(),
            forall|j: int|
                0 <= j < i ==> is_player_shuffled(#[trigger] g.players[j], state@.players[j]),
            forall|j: int| i <= j < g.players.len() ==> #[trigger] g.players[j] == state@.players[j],
        decreases g.players.len() - i,
    {
        let ghost before = state@;
        shuffle_library_at(state, i);
        assert(state@.players.len() == state.players@.len());
        assert forall|j: int| 0 <= j < i + 1 implies is_player_shuffled(
            #[trigger] g.players[j],
            state@.players[j],
        ) by {
            if j < i {
                assert(state@.players[j] == before.players[j]);
            } else {
                assert(before.players[j] == g.players[j]);
            }
        }
        i += 1;
    }
}

fn shuffle_library_of(state: &mut GameState, p: PlayerId)
    ensures
        library_shuffled(old(state)@, final(state)@, p),
{
    if let Some(i) = state.seat(p) {
        shuffle_library_at(state, i);
    }
}

// ---------------------------------------------------------------------------
// Drawing
// ---------------------------------------------------------------------------

/// The library of a player.
pub open spec fn library_of(g: Game, p: PlayerId) -> Seq<ObjectId> {
    match player_of(g, p) {
        Some(q) => q.library,
        None => Seq::empty(),
    }
}

/// The hand of a player.
pub open spec fn hand_of(g: Game, p: PlayerId) -> Seq<ObjectId> {
    match player_of(g, p) {
        Some(q) => q.hand,
        None => Seq::empty(),
    }
}

/// The game and what is told after a player has drawn up to `n` cards, one after the other.
pub open spec fn drawn(g: Game, told: Seq<EventModel>, p: PlayerId, n: nat) -> (
    Game,
    Seq<EventModel>,
)
    decreases n,
{
    if n == 0 {
        (g, told)
    } else {
        let (h, t) = drawn(g, told, p, (n - 1) as nat);
        let library = library_of(h, p);
        if library.len() == 0 {
            (h, t)
        } else {
            (moved(h, library[0], Zone::Hand), move_told(t, h, library[0], Zone::Hand))
        }
    }
}

/// The game and what is told after a player has drawn a number of cards, or all that there are.
pub open spec fn hand_drawn(g: Game, told: Seq<EventModel>, p: PlayerId, n: nat) -> (
    Game,
    Seq<EventModel>,
) {
    let (h, t) = drawn(g, told, p, n);
    (h, t.push(EventModel::CardsDrawn { player_id: p, count: n as u32 }))
}

proof fn lemma_drawn_seats(g: Game, told: Seq<EventModel>, p: PlayerId, n: nat)
    ensures
        same_seats(drawn(g, told, p, n).0.players, g.players),
        drawn(g, told, p, n).0.seat_order == g.seat_order,
    decreases n,
{
    if n > 0 {
        lemma_drawn_seats(g, told, p, (n - 1) as nat);
        let h = drawn(g, told, p, (n - 1) as nat).0;
        if library_of(h, p).len() > 0 {
            lemma_move_keeps_seats(h, library_of(h, p)[0], Zone::Hand);
        }
    }
}

proof fn lemma_nothing_left(g: Game, told: Seq<EventModel>, p: PlayerId, i: nat, n: nat)
    requires
        i <= n,
        library_of(drawn(g, told, p, i).0, p).len() == 0,
    ensures
        drawn(g, told, p, n) == drawn(g, told, p, i),
    decreases n,
{
    if i < n {
        lemma_nothing_left(g, told, p, i, (n - 1) as nat);
    }
}

fn draw_n(state: &mut GameState, p: PlayerId, count: usize, events: &mut Vec<GameEvent>)
    requires
        player_of(old(state)@, p) is Some,
        count <= u32::MAX,
    ensures
        (final(state)@, log(final(events)@)) == hand_drawn(
            old(state)@,
            log(old(events)@),
            p,
            count as nat,
        ),
        same_seats(final(state)@.players, old(state)@.players),
        final(state)@.seat_order == old(state)@.seat_order,
{
    let ghost g = state@;
    let ghost told = log(events@);
    let mut i: usize = 0;
    while i < count
        invariant_except_break
            i <= count,
            player_of(g, p) is Some,
            (state@, log(events@)) == drawn(g, told, p, i as nat),
        ensures
            (state@, log(events@)) == drawn(g, told, p, count as nat),
        decreases count - i,
    {
        proof {
            lemma_drawn_seats(g, told, p, i as nat);
            lemma_same_seats(state@.players, g.players, p);
        }
        let top = match state.player(p) {
            Some(q) => if q.library.len() > 0 {
                Some(q.library[0])
            } else {
                None
            },
            None => None,
        };
        match top {
            Some(card) => move_to_zone(state, card, Zone::Hand, events),
            None => {
                proof {
                    lemma_nothing_left(g, told, p, i as nat, count as nat);
                }
                break;
            },
        }
        i += 1;
    }
    proof {
        lemma_drawn_seats(g, told, p, count as nat);
    }
    emit(events, GameEvent::CardsDrawn { player_id: p, count: count as u32 });
}

// ---------------------------------------------------------------------------
// The first hands
// ---------------------------------------------------------------------------

/// The game and what is told after the first `n` seats have drawn their opening hands.
pub open spec fn hands_dealt(g: Game, told: Seq<EventModel>, seats: Seq<PlayerId>, n: nat) -> (
    Game,
    Seq<EventModel>,
)
    decreases n,
{
    if n == 0 || n > seats.len() {
        (g, told)
    } else {
        let (h, t) = hands_dealt(g, told, seats, (n - 1) as nat);
        hand_drawn(h, t, seats[n - 1], STARTING_HAND_SIZE as nat)
    }
}

/// The decision that the first seat has to make.
pub open spec fn first_decision(g: Game) -> WaitingModel {
    WaitingModel::MulliganDecision {
        player: if g.seat_order.len() > 0 {
            g.seat_order[0]
        } else {
            PlayerId(0)
        },
        mulligan_count: 0,
    }
}

fn copy_seats(list: &Vec<PlayerId>) -> (r: Vec<PlayerId>)
    ensures
        r@ == list@,
{
    let r = list.clone();
    assert(r@ =~= list@);
    r
}

/// Deals opening hands from libraries that are shuffled, in seat order, and asks the first seat.
pub fn deal_opening_hands(state: &mut GameState, events: &mut Vec<GameEvent>) -> (r: WaitingFor)
    requires
        every_seat_is_taken(old(state)@),
    ensures
        (final(state)@, log(final(events)@)) == hands_dealt(
            old(state)@,
            log(old(events)@),
            old(state)@.seat_order,
            old(state)@.seat_order.len(),
        ),
        r@ == first_decision(old(state)@),
{
    let ghost g = state@;
    let ghost told = log(events@);
    let seats = copy_seats(&state.seat_order);
    let mut i: usize = 0;
    while i < seats.len()
        invariant
            i <= seats@.len(),
            seats@ == g.seat_order,
            every_seat_is_taken(g),
            same_seats(state@.players, g.players),
            state@.seat_order == g.seat_order,
            (state@, log(events@)) == hands_dealt(g, told, seats@, i as nat),
        decreases seats.len() - i,
    {
        proof {
            assert(player_of(g, g.seat_order[i as int]) is Some);
            lemma_same_seats(state@.players, g.players, seats@[i as int]);
        }
        draw_n(state, seats[i], STARTING_HAND_SIZE, events);
        i += 1;
    }
    let player = if seats.len() > 0 {
        seats[0]
    } else {
        PlayerId(0)
    };
    WaitingFor::MulliganDecision { player, mulligan_count: 0 }
}

/// Starts the mulligans: all libraries are shuffled, everyone draws an opening hand, and the first
/// seat is asked.
pub fn start_mulligan(state: &mut GameState, events: &mut Vec<GameEvent>) -> (r: WaitingFor)
    requires
        every_seat_is_taken(old(state)@),
    ensures
        exists|h: Game| #[trigger]
            libraries_shuffled(old(state)@, h) && (final(state)@, log(final(events)@))
                == hands_dealt(
                h,
                log(old(events)@).push(EventModel::MulliganStarted),
                h.seat_order,
                h.seat_order.len(),
            ),
        r@ == first_decision(old(state)@),
{
    emit(events, GameEvent::MulliganStarted);
    let ghost g = state@;
    shuffle_libraries(state);
    let ghost h = state@;
    proof {
        assert(same_seats(h.players, g.players)) by {
            assert forall|i: int| 0 <= i < h.players.len() implies (#[trigger] h.players[i]).id
                == g.players[i].id by {
                assert(is_player_shuffled(g.players[i], h.players[i]));
            }
        }
        assert forall|i: int| 0 <= i < h.seat_order.len() implies player_of(
            h,
            #[trigger] h.seat_order[i],
        ) is Some by {
            assert(player_of(g, g.seat_order[i]) is Some);
            lemma_same_seats(h.players, g.players, h.seat_order[i]);
        }
        assert(libraries_shuffled(old(state)@, h));
    }
    deal_opening_hands(state, events)
}

// ---------------------------------------------------------------------------
// Beginning the game
// ---------------------------------------------------------------------------

/// Being an ability that works at the beginning of a game.
pub open spec fn begins_game() -> spec_fn(AbilityDefinition) -> bool {
    |a: AbilityDefinition| a.kind == AbilityKind::BeginGame
}

/// The effect of the first ability of an object that works at the beginning of a game.
pub open spec fn opening_effect(g: Game, id: ObjectId) -> Option<Arc<Effect>> {
    match object_at(g, id) {
        Some(o) => match first_where(o.abilities, begins_game()) {
            Some(i) => Some(o.abilities[i].effect),
            None => None,
        },
        None => None,
    }
}

/// What the first `n` cards of a hand do at the beginning of a game.
pub open spec fn openings_of_hand(g: Game, p: PlayerId, hand: Seq<ObjectId>, n: nat) -> Seq<
    (PlayerId, ObjectId, Arc<Effect>),
>
    decreases n,
{
    if n == 0 || n > hand.len() {
        Seq::empty()
    } else {
        let front = openings_of_hand(g, p, hand, (n - 1) as nat);
        match opening_effect(g, hand[n - 1]) {
            Some(e) => front.push((p, hand[n - 1], e)),
            None => front,
        }
    }
}

/// What the opening hands of the first `n` seats do at the beginning of a game.
pub open spec fn openings(g: Game, n: nat) -> Seq<(PlayerId, ObjectId, Arc<Effect>)>
    decreases n,
{
    if n == 0 || n > g.seat_order.len() {
        Seq::empty()
    } else {
        let p = g.seat_order[n - 1];
        openings(g, (n - 1) as nat) + openings_of_hand(g, p, hand_of(g, p), hand_of(g, p).len())
    }
}

/// The game and what is told after the first `n` effects have acted, each on its card.
pub open spec fn opened(
    g: Game,
    told: Seq<EventModel>,
    list: Seq<(PlayerId, ObjectId, Arc<Effect>)>,
    n: nat,
) -> (Game, Seq<EventModel>)
    decreases n,
{
    if n == 0 || n > list.len() {
        (g, told)
    } else {
        let (h, t) = opened(g, told, list, (n - 1) as nat);
        resolved(*list[n - 1].2, h, t, seq![TargetRef::Object(list[n - 1].1)], 1)
    }
}

/// The game and what is told when everyone has kept: what works at the beginning of the game does,
/// and the first turn begins.
pub open spec fn begun(g: Game, told: Seq<EventModel>) -> (Game, Seq<EventModel>) {
    let list = openings(g, g.seat_order.len());
    let (h, t) = opened(g, told, list, list.len());
    advanced(h, t)
}

/// The player who is active when everyone has kept.
pub open spec fn beginner(g: Game, told: Seq<EventModel>) -> PlayerId {
    let list = openings(g, g.seat_order.len());
    opened(g, told, list, list.len()).0.active_player
}

fn find_opening_effect(o: &GameObject) -> (r: Option<Arc<Effect>>)
    ensures
        r == (match first_where(o@.abilities, begins_game()) {
            Some(i) => Some(o@.abilities[i].effect),
            None => None,
        }),
{
    let ghost s = o@.abilities;
    let ghost p = begins_game();
    let mut i: usize = 0;
    while i < o.abilities.len()
        invariant
            i <= s.len(),
            s == o.abilities@,
            p == begins_game(),
            forall|j: int| 0 <= j < i ==> !p(#[trigger] s[j]),
        decreases s.len() - i,
    {
        if o.abilities[i].kind == AbilityKind::BeginGame {
            proof {
                lemma_first_where(s, p, i as int);
            }
            return Some(o.abilities[i].effect.clone());
        }
        i += 1;
    }
    proof {
        lemma_first_where_none(s, p);
    }
    None
}

fn add_openings_of_hand(
    state: &GameState,
    p: PlayerId,
    hand: &Vec<ObjectId>,
    out: &mut Vec<(PlayerId, ObjectId, Arc<Effect>)>,
)
    ensures
        final(out)@ == old(out)@ + openings_of_hand(state@, p, hand@, hand@.len()),
{
    let ghost start = out@;
    let mut i: usize = 0;
    assert(out@ =~= start + openings_of_hand(state@, p, hand@, 0));
    while i < hand.len()
        invariant
            i <= hand@.len(),
            out@ == start + openings_of_hand(state@, p, hand@, i as nat),
        decreases hand.len() - i,
    {
        if let Some(o) = state.object(hand[i]) {
            if let Some(e) = find_opening_effect(o) {
                out.push((p, hand[i], e));
            }
        }
        i += 1;
        assert(out@ =~= start + openings_of_hand(state@, p, hand@, i as nat));
    }
}

fn find_openings(state: &GameState) -> (r: Vec<(PlayerId, ObjectId, Arc<Effect>)>)
    requires
        every_seat_is_taken(state@),
    ensures
        r@ == openings(state@, state@.seat_order.len()),
{
    let ghost g = state@;
    let mut out: Vec<(PlayerId, ObjectId, Arc<Effect>)> = Vec::new();
    let mut i: usize = 0;
    while i < state.seat_order.len()
        invariant
            i <= g.seat_order.len(),
            g == state@,
            g.seat_order == state.seat_order@,
            every_seat_is_taken(g),
            out@ == openings(g, i as nat),
        decreases g.seat_order.len() - i,
    {
        assert(player_of(g, g.seat_order[i as int]) is Some);
        if let Some(q) = state.player(state.seat_order[i]) {
            add_openings_of_hand(state, state.seat_order[i], &q.hand, &mut out);
        }
        i += 1;
    }
    out
}

fn finish_mulligans(state: &mut GameState, events: &mut Vec<GameEvent>) -> (r: WaitingFor)
    requires
        every_seat_is_taken(old(state)@),
    ensures
        (final(state)@, log(final(events)@)) == begun(old(state)@, log(old(events)@)),
        r@ == (WaitingModel::Priority { player: beginner(old(state)@, log(old(events)@)) }),
{
    let ghost g = state@;
    let ghost told = log(events@);
    let list = find_openings(state);
    let mut i: usize = 0;
    while i < list.len()
        invariant
            i <= list@.len(),
            (state@, log(events@)) == opened(g, told, list@, i as nat),
        decreases list.len() - i,
    {
        let mut targets: Vec<TargetRef> = Vec::new();
        targets.push(TargetRef::Object(list[i].1));
        assert(targets@ =~= seq![TargetRef::Object(list@[i as int].1)]);
        let ability = ResolvedAbility::new(list[i].2.clone(), targets, list[i].1, list[i].0);
        resolve_effect(state, &ability, events);
        i += 1;
    }
    auto_advance(state, events)
}

// ---------------------------------------------------------------------------
// Decisions
// ---------------------------------------------------------------------------

/// Whether no seat comes after a player's.
pub open spec fn is_last_seat(g: Game, p: PlayerId) -> bool {
    place_in(g.seat_order, p) + 1 >= g.seat_order.len()
}

/// The game, what is told and what the game waits for when a player is done: the next seat is
/// asked, or the game begins.
pub open spec fn next_decision(g: Game, told: Seq<EventModel>, p: PlayerId) -> (
    Game,
    Seq<EventModel>,
    WaitingModel,
) {
    if is_last_seat(g, p) {
        let (h, t) = begun(g, told);
        (h, t, WaitingModel::Priority { player: beginner(g, told) })
    } else {
        (
            g,
            told,
            WaitingModel::MulliganDecision {
                player: g.seat_order[place_in(g.seat_order, p) + 1],
                mulligan_count: 0,
            },
        )
    }
}

fn advance_mulligan(state: &mut GameState, p: PlayerId, events: &mut Vec<GameEvent>) -> (r:
    WaitingFor)
    requires
        is_last_seat(old(state)@, p) ==> every_seat_is_taken(old(state)@),
    ensures
        (final(state)@, log(final(events)@), r@) == next_decision(
            old(state)@,
            log(old(events)@),
            p,
        ),
{
    let ghost seats = state@.seat_order;
    let ghost is_it = being(p);
    let mut place: usize = 0;
    let mut i: usize = 0;
    let mut is_found: bool = false;
    while i < state.seat_order.len() && !is_found
        invariant
            i <= seats.len(),
            seats == state.seat_order@,
            is_it == being(p),
            !is_found ==> place == 0 && forall|j: int| 0 <= j < i ==> !is_it(#[trigger] seats[j]),
            is_found ==> place < seats.len() && first_where(seats, is_it) == Some(place as int),
        decreases seats.len() - i, !is_found as int,
    {
        if state.seat_order[i] == p {
            proof {
                lemma_first_where(seats, is_it, i as int);
            }
            place = i;
            is_found = true;
        } else {
            i += 1;
        }
    }
    proof {
        if !is_found {
            lemma_first_where_none(seats, is_it);
        }
    }
    if place < state.seat_order.len() && state.seat_order.len() - place > 1 {
        WaitingFor::MulliganDecision { player: state.seat_order[place + 1], mulligan_count: 0 }
    } else {
        finish_mulligans(state, events)
    }
}

/// Whether the first mulligan of a game costs no card.
pub open spec fn has_free_mulligan(g: Game) -> bool {
    g.seat_order.len() > 2 || free_in_duels(g.format_config.format)
}

/// How many cards a player puts on the bottom who keeps after some mulligans.
pub open spec fn cards_to_bottom(g: Game, mulligan_count: u8) -> u8 {
    if has_free_mulligan(g) && mulligan_count > 0 {
        (mulligan_count - 1) as u8
    } else {
        mulligan_count
    }
}

/// The game and what is told after the first `n` cards of a list have been put on the bottom of
/// their owners' libraries.
pub open spec fn put_on_bottom(g: Game, told: Seq<EventModel>, list: Seq<ObjectId>, n: nat) -> (
    Game,
    Seq<EventModel>,
)
    decreases n,
{
    if n == 0 || n > list.len() {
        (g, told)
    } else {
        let (h, t) = put_on_bottom(g, told, list, (n - 1) as nat);
        (moved(h, list[n - 1], Zone::Library), move_told(t, h, list[n - 1], Zone::Library))
    }
}

proof fn lemma_bottom_seats(g: Game, told: Seq<EventModel>, list: Seq<ObjectId>, n: nat)
    ensures
        same_seats(put_on_bottom(g, told, list, n).0.players, g.players),
        put_on_bottom(g, told, list, n).0.seat_order == g.seat_order,
    decreases n,
{
    if 0 < n <= list.len() {
        lemma_bottom_seats(g, told, list, (n - 1) as nat);
        lemma_move_keeps_seats(
            put_on_bottom(g, told, list, (n - 1) as nat).0,
            list[n - 1],
            Zone::Library,
        );
    }
}

fn move_to_bottom(state: &mut GameState, list: &Vec<ObjectId>, events: &mut Vec<GameEvent>)
    ensures
        (final(state)@, log(final(events)@)) == put_on_bottom(
            old(state)@,
            log(old(events)@),
            list@,
            list@.len(),
        ),
        same_seats(final(state)@.players, old(state)@.players),
        final(state)@.seat_order == old(state)@.seat_order,
{
    let ghost g = state@;
    let ghost told = log(events@);
    let mut i: usize = 0;
    while i < list.len()
        invariant
            i <= list@.len(),
            (state@, log(events@)) == put_on_bottom(g, told, list@, i as nat),
        decreases list.len() - i,
    {
        move_to_zone(state, list[i], Zone::Library, events);
        i += 1;
    }
    proof {
        lemma_bottom_seats(g, told, list@, list@.len());
    }
}

/// The game and what is told after a player's hand has been put into the library.
pub open spec fn hand_returned(g: Game, told: Seq<EventModel>, p: PlayerId) -> (
    Game,
    Seq<EventModel>,
) {
    put_on_bottom(g, told, hand_of(g, p), hand_of(g, p).len())
}

/// Draws a new hand from a library that is shuffled, after a mulligan.
pub fn draw_new_hand(state: &mut GameState, player: PlayerId, events: &mut Vec<GameEvent>)
    requires
        player_of(old(state)@, player) is Some,
    ensures
        (final(state)@, log(final(events)@)) == hand_drawn(
            old(state)@,
            log(old(events)@),
            player,
            STARTING_HAND_SIZE as nat,
        ),
{
    draw_n(state, player, STARTING_HAND_SIZE, events);
}

/// What the game waits for after a mulligan has been taken.
pub open spec fn after_mulligan(g: Game, player: PlayerId, mulligan_count: u8) -> WaitingModel {
    if mulligan_count + 1 >= MAX_MULLIGANS {
        WaitingModel::MulliganBottomCards { player, count: cards_to_bottom(g, MAX_MULLIGANS) }
    } else {
        WaitingModel::MulliganDecision { player, mulligan_count: (mulligan_count + 1) as u8 }
    }
}

fn take_mulligan(state: &mut GameState, player: PlayerId, events: &mut Vec<GameEvent>)
    requires
        player_of(old(state)@, player) is Some,
    ensures
        ({
            let (b, t) = hand_returned(old(state)@, log(old(events)@), player);
            exists|h: Game| #[trigger]
                library_shuffled(b, h, player) && (final(state)@, log(final(events)@))
                    == hand_drawn(h, t, player, STARTING_HAND_SIZE as nat)
        }),
{
    let ghost g = state@;
    let hand = match state.player(player) {
        Some(q) => copy_ids(&q.hand),
        None => Vec::new(),
    };
    move_to_bottom(state, &hand, events);
    let ghost b = state@;
    let ghost t = log(events@);
    proof {
        lemma_same_seats(b.players, g.players, player);
    }
    shuffle_library_of(state, player);
    let ghost h = state@;
    proof {
        let i = seat_of(b.players, player)->0;
        assert(is_seat(b.players, player, i)) by {
            assert(exists|k: int| is_seat(b.players, player, k));
        }
        assert(is_player_shuffled(b.players[i], h.players[i]));
        assert(same_seats(h.players, b.players));
        lemma_same_seats(h.players, b.players, player);
        assert(library_shuffled(b, h, player));
    }
    draw_new_hand(state, player, events);
}

/// Lets a player keep a hand or take a mulligan. Who keeps after mulligans has to put cards on the
/// bottom, one for each that was not free; who takes a mulligan draws a new hand, and after the
/// last one has to keep it.
pub fn handle_mulligan_decision(
    state: &mut GameState,
    player: PlayerId,
    keep: bool,
    mulligan_count: u8,
    events: &mut Vec<GameEvent>,
) -> (r: WaitingFor)
    requires
        keep && cards_to_bottom(old(state)@, mulligan_count) == 0 && is_last_seat(
            old(state)@,
            player,
        ) ==> every_seat_is_taken(old(state)@),
        !keep ==> player_of(old(state)@, player) is Some && mulligan_count < u8::MAX,
    ensures
        keep && cards_to_bottom(old(state)@, mulligan_count) > 0 ==> final(state)@ == old(state)@
            && log(final(events)@) == log(old(events)@) && r@ == (
        WaitingModel::MulliganBottomCards {
            player,
            count: cards_to_bottom(old(state)@, mulligan_count),
        }),
        keep && cards_to_bottom(old(state)@, mulligan_count) == 0 ==> (
            final(state)@,
            log(final(events)@),
            r@,
        ) == next_decision(old(state)@, log(old(events)@), player),
        !keep ==> r@ == after_mulligan(old(state)@, player, mulligan_count) && ({
            let (b, t) = hand_returned(old(state)@, log(old(events)@), player);
            exists|h: Game| #[trigger]
                library_shuffled(b, h, player) && (final(state)@, log(final(events)@))
                    == hand_drawn(h, t, player, STARTING_HAND_SIZE as nat)
        }),
{
    let is_free = state.seat_order.len() > 2
        || state.format_config.format.grants_free_first_mulligan();
    if keep {
        let count: u8 = if is_free && mulligan_count > 0 {
            mulligan_count - 1
        } else {
            mulligan_count
        };
        if count > 0 {
            WaitingFor::MulliganBottomCards { player, count }
        } else {
            advance_mulligan(state, player, events)
        }
    } else {
        let new_count: u8 = mulligan_count + 1;
        take_mulligan(state, player, events);
        if new_count >= MAX_MULLIGANS {
            let count: u8 = if is_free {
                MAX_MULLIGANS - 1
            } else {
                MAX_MULLIGANS
            };
            WaitingFor::MulliganBottomCards { player, count }
        } else {
            WaitingFor::MulliganDecision { player, mulligan_count: new_count }
        }
    }
}

/// What is said when a player puts the wrong number of cards on the bottom.
pub open spec fn wrong_count_text(expected: u8, got: nat) -> Seq<char> {
    "Expected "@ + decimal(expected as nat) + " cards to bottom, got "@ + decimal(got)
}

/// What is said when a card is not in a player's hand.
pub open spec fn not_in_hand_text(card: ObjectId) -> Seq<char> {
    "Card ObjectId("@ + decimal(card.0 as nat) + ") is not in player's hand"@
}

fn say_wrong_count(expected: u8, got: usize) -> (r: String)
    ensures
        r@ == wrong_count_text(expected, got as nat),
{
    let mut s = "Expected ".to_owned();
    push_number(&mut s, expected as u128);
    s.append(" cards to bottom, got ");
    push_number(&mut s, got as u128);
    s
}

fn say_not_in_hand(card: ObjectId) -> (r: String)
    ensures
        r@ == not_in_hand_text(card),
{
    let mut s = "Card ObjectId(".to_owned();
    push_number(&mut s, card.0 as u128);
    s.append(") is not in player's hand");
    s
}

/// Being a card outside a hand.
pub open spec fn outside(hand: Seq<ObjectId>) -> spec_fn(ObjectId) -> bool {
    |id: ObjectId| !hand.contains(id)
}

/// The first card of a list that is not in a hand.
pub open spec fn first_outside(cards: Seq<ObjectId>, hand: Seq<ObjectId>) -> Option<ObjectId> {
    match first_where(cards, outside(hand)) {
        Some(i) => Some(cards[i]),
        None => None,
    }
}

fn find_outside(cards: &Vec<ObjectId>, hand: &Vec<ObjectId>) -> (r: Option<ObjectId>)
    ensures
        r == first_outside(cards@, hand@),
{
    let ghost s = cards@;
    let ghost p = outside(hand@);
    let mut i: usize = 0;
    while i < cards.len()
        invariant
            i <= s.len(),
            s == cards@,
            p == outside(hand@),
            forall|j: int| 0 <= j < i ==> !p(#[trigger] s[j]),
        decreases s.len() - i,
    {
        assert(seq_view(hand@) =~= hand@);
        if !holds(hand, &cards[i]) {
            proof {
                lemma_first_where(s, p, i as int);
            }
            return Some(cards[i]);
        }
        i += 1;
    }
    proof {
        lemma_first_where_none(s, p);
    }
    None
}

/// Puts cards that a player has chosen from the hand on the bottom of the library, and goes on to
/// the next seat.
pub fn handle_mulligan_bottom(
    state: &mut GameState,
    player: PlayerId,
    cards: Vec<ObjectId>,
    expected_count: u8,
    events: &mut Vec<GameEvent>,
) -> (r: Result<WaitingFor, String>)
    requires
        cards@.len() == expected_count ==> player_of(old(state)@, player) is Some,
        cards@.len() == expected_count && first_outside(cards@, hand_of(old(state)@, player)) is None
            && is_last_seat(old(state)@, player) ==> every_seat_is_taken(old(state)@),
    ensures
        ({
            let g = old(state)@;
            let told = log(old(events)@);
            let missing = first_outside(cards@, hand_of(g, player));
            if cards@.len() != expected_count {
                r is Err && (r->Err_0)@ == wrong_count_text(expected_count, cards@.len()) && final(
                    state)@ == g && log(final(events)@) == told
            } else if missing is Some {
                r is Err && (r->Err_0)@ == not_in_hand_text(missing->0) && final(state)@ == g
                    && log(final(events)@) == told
            } else {
                let (b, t) = put_on_bottom(g, told, cards@, cards@.len());
                r is Ok && (final(state)@, log(final(events)@), (r->Ok_0)@) == next_decision(
                    b,
                    t,
                    player,
                )
            }
        }),
{
    if cards.len() != expected_count as usize {
        return Err(say_wrong_count(expected_count, cards.len()));
    }
    if let Some(q) = state.player(player) {
        if let Some(card) = find_outside(&cards, &q.hand) {
            return Err(say_not_in_hand(card));
        }
    }
    let ghost g = state@;
    move_to_bottom(state, &cards, events);
    proof {
        if is_last_seat(state@, player) {
            assert forall|i: int| 0 <= i < state@.seat_order.len() implies player_of(
                state@,
                #[trigger] state@.seat_order[i],
            ) is Some by {
                assert(player_of(g, g.seat_order[i]) is Some);
                lemma_same_seats(state@.players, g.players, g.seat_order[i]);
            }
        }
    }
    Ok(advance_mulligan(state, player, events))
}

// ---------------------------------------------------------------------------
// Laws
// ---------------------------------------------------------------------------

/// Whether the cards of a player's library are there, each once, and are the player's own.
pub open spec fn is_stacked(g: Game, p: PlayerId) -> bool {
    let library = library_of(g, p);
    &&& player_of(g, p) is Some
    &&& library.no_duplicates()
    &&& forall|i: int|
        0 <= i < library.len() ==> object_at(g, #[trigger] library[i]) is Some && object_at(
            g,
            library[i],
        )->0.zone == Zone::Library && object_at(g, library[i])->0.owner == p
}

proof fn lemma_without_first(list: Seq<ObjectId>)
    requires
        list.len() > 0,
        list.no_duplicates(),
    ensures
        gone_from(list, list[0]) == list.skip(1),
{
    let keep = unlike(list[0]);
    lemma_filter_drop(list, 0, keep);
    assert(list.remove(0) =~= list.skip(1));
    assert forall|i: int| 0 <= i < list.skip(1).len() implies keep(#[trigger] list.skip(1)[i]) by {
        assert(list.skip(1)[i] == list[i + 1]);
    }
    lemma_filter_all(list.skip(1), keep);
}

proof fn lemma_draw_one(g: Game, p: PlayerId)
    requires
        is_stacked(g, p),
        library_of(g, p).len() > 0,
    ensures
        ({
            let h = moved(g, library_of(g, p)[0], Zone::Hand);
            player_of(h, p) is Some && library_of(h, p) == library_of(g, p).skip(1) && hand_of(h, p)
                == hand_of(g, p).push(library_of(g, p)[0])
        }),
{
    let top = library_of(g, p)[0];
    let h = moved(g, top, Zone::Hand);
    lemma_without_first(library_of(g, p));
    lemma_move_keeps_seats(g, top, Zone::Hand);
    lemma_same_seats(h.players, g.players, p);
    let i = seat_of(g.players, p)->0;
    assert(is_seat(g.players, p, i)) by {
        assert(exists|k: int| is_seat(g.players, p, k));
    }
    reveal(moved);
    let o = object_at(g, top)->0;
    assert(o.zone == Zone::Library && o.owner == p);
    let a = crate::zones::taken_out(
        crate::zones::remembering(g, top, o, Zone::Hand),
        top,
        Zone::Library,
        p,
    );
    assert(same_seats(a.players, g.players));
    lemma_same_seats(a.players, g.players, p);
}

proof fn lemma_drawn_from_top(g: Game, told: Seq<EventModel>, p: PlayerId, n: nat)
    requires
        is_stacked(g, p),
        n <= library_of(g, p).len(),
    ensures
        ({
            let h = drawn(g, told, p, n).0;
            is_stacked(h, p) && library_of(h, p) == library_of(g, p).skip(n as int) && hand_of(h, p)
                == hand_of(g, p) + library_of(g, p).take(n as int)
        }),
    decreases n,
{
    let library = library_of(g, p);
    if n == 0 {
        assert(library.skip(0) =~= library);
        assert(hand_of(g, p) + library.take(0) =~= hand_of(g, p));
    } else {
        lemma_drawn_from_top(g, told, p, (n - 1) as nat);
        let h = drawn(g, told, p, (n - 1) as nat).0;
        let rest = library_of(h, p);
        assert(rest[0] == library[n - 1]);
        lemma_draw_one(h, p);
        let k = moved(h, rest[0], Zone::Hand);
        assert(rest.skip(1) =~= library.skip(n as int));
        assert(hand_of(g, p) + library.take(n - 1).push(library[n - 1]) =~= (hand_of(g, p)
            + library.take(n - 1)).push(library[n - 1]));
        assert(library.take(n - 1).push(library[n - 1]) =~= library.take(n as int));
        let last = library_of(k, p);
        assert forall|i: int| 0 <= i < last.len() implies object_at(k, #[trigger] last[i]) is Some
            && object_at(k, last[i])->0.zone == Zone::Library && object_at(k, last[i])->0.owner
            == p by {
            assert(last[i] == rest[i + 1]);
            assert(rest[i + 1] != rest[0]);
            a_move_changes_no_other_object(h, rest[0], Zone::Hand, rest[i + 1]);
        }
    }
}

/// Cards are drawn from the top of the library, in order: as many as asked for, or all that there
/// are. The rest of the library stays as it was.
pub proof fn cards_are_drawn_from_the_top(g: Game, told: Seq<EventModel>, p: PlayerId, n: nat)
    requires
        is_stacked(g, p),
    ensures
        ({
            let h = hand_drawn(g, told, p, n).0;
            let m = if n <= library_of(g, p).len() {
                n
            } else {
                library_of(g, p).len()
            };
            hand_of(h, p) == hand_of(g, p) + library_of(g, p).take(m as int) && library_of(h, p)
                == library_of(g, p).skip(m as int)
        }),
{
    let length = library_of(g, p).len();
    if n <= length {
        lemma_drawn_from_top(g, told, p, n);
    } else {
        lemma_drawn_from_top(g, told, p, length);
        lemma_nothing_left(g, told, p, length, n);
    }
}

/// Whether the cards in a player's hand are there, each once, and are the player's own.
pub open spec fn is_held(g: Game, p: PlayerId) -> bool {
    let hand = hand_of(g, p);
    &&& player_of(g, p) is Some
    &&& hand.no_duplicates()
    &&& forall|i: int|
        0 <= i < hand.len() ==> object_at(g, #[trigger] hand[i]) is Some && object_at(
            g,
            hand[i],
        )->0.zone == Zone::Hand && object_at(g, hand[i])->0.owner == p
}

/// What is left of a hand when a card has gone.
proof fn lemma_hand_without(list: Seq<ObjectId>, id: ObjectId)
    requires
        list.no_duplicates(),
    ensures
        gone_from(list, id).no_duplicates(),
        forall|x: ObjectId| #[trigger]
            gone_from(list, id).contains(x) <==> list.contains(x) && x != id,
    decreases list.len(),
{
    let keep = unlike(id);
    lemma_filter_members(list, keep);
    reveal(Seq::filter);
    if list.len() > 0 {
        let front = list.drop_last();
        lemma_hand_without(front, id);
        let kept = front.filter(keep);
        assert(kept == gone_from(front, id));
        assert(!front.contains(list.last()));
        assert(!kept.contains(list.last()));
        assert(kept.push(list.last()).no_duplicates()) by {
            assert forall|i: int| 0 <= i < kept.len() implies kept[i] != list.last() by {
                assert(kept.contains(kept[i]));
            }
        }
    }
}

proof fn lemma_put_one(g: Game, p: PlayerId, id: ObjectId)
    requires
        is_stacked(g, p),
        is_held(g, p),
        hand_of(g, p).contains(id),
    ensures
        ({
            let h = moved(g, id, Zone::Library);
            player_of(h, p) is Some && library_of(h, p) == library_of(g, p).push(id) && hand_of(
                h,
                p,
            ) == gone_from(hand_of(g, p), id)
        }),
{
    let h = moved(g, id, Zone::Library);
    lemma_move_keeps_seats(g, id, Zone::Library);
    lemma_same_seats(h.players, g.players, p);
    let i = seat_of(g.players, p)->0;
    assert(is_seat(g.players, p, i)) by {
        assert(exists|k: int| is_seat(g.players, p, k));
    }
    reveal(moved);
    let k = choose|k: int| 0 <= k < hand_of(g, p).len() && hand_of(g, p)[k] == id;
    let o = object_at(g, hand_of(g, p)[k])->0;
    assert(o.zone == Zone::Hand && o.owner == p);
    let a = crate::zones::taken_out(
        crate::zones::remembering(g, id, o, Zone::Library),
        id,
        Zone::Hand,
        p,
    );
    assert(same_seats(a.players, g.players));
    lemma_same_seats(a.players, g.players, p);
}

/// A card that is put back lies in the library, and the other cards lie where they lay.
proof fn lemma_put_one_keeps(g: Game, p: PlayerId, id: ObjectId)
    requires
        is_stacked(g, p),
        is_held(g, p),
        hand_of(g, p).contains(id),
    ensures
        is_stacked(moved(g, id, Zone::Library), p),
        is_held(moved(g, id, Zone::Library), p),
{
    let h = moved(g, id, Zone::Library);
    let library = library_of(g, p);
    let hand = hand_of(g, p);
    let k = choose|k: int| 0 <= k < hand.len() && hand[k] == id;
    assert(object_at(g, hand[k])->0.zone == Zone::Hand);
    lemma_put_one(g, p, id);
    lemma_hand_without(hand, id);
    moved_objects_lie_where_they_were_put(g, id, Zone::Library);
    let stack = library_of(h, p);
    assert forall|i: int| 0 <= i < library.len() implies #[trigger] library[i] != id by {
        assert(object_at(g, library[i])->0.zone == Zone::Library);
    }
    assert forall|i: int| 0 <= i < stack.len() implies object_at(h, #[trigger] stack[i]) is Some
        && object_at(h, stack[i])->0.zone == Zone::Library && object_at(h, stack[i])->0.owner
        == p by {
        if i < library.len() {
            assert(stack[i] == library[i]);
            a_move_changes_no_other_object(g, id, Zone::Library, library[i]);
        }
    }
    let left = hand_of(h, p);
    assert forall|i: int| 0 <= i < left.len() implies object_at(h, #[trigger] left[i]) is Some
        && object_at(h, left[i])->0.zone == Zone::Hand && object_at(h, left[i])->0.owner == p by {
        assert(left.contains(left[i]));
        let j = choose|j: int| 0 <= j < hand.len() && hand[j] == left[i];
        assert(object_at(g, hand[j])->0.zone == Zone::Hand);
        a_move_changes_no_other_object(g, id, Zone::Library, hand[j]);
    }
}

proof fn lemma_put_all(
    g: Game,
    told: Seq<EventModel>,
    p: PlayerId,
    list: Seq<ObjectId>,
    n: nat,
)
    requires
        is_stacked(g, p),
        is_held(g, p),
        list.no_duplicates(),
        forall|i: int| 0 <= i < list.len() ==> hand_of(g, p).contains(#[trigger] list[i]),
        n <= list.len(),
    ensures
        ({
            let h = put_on_bottom(g, told, list, n).0;
            &&& is_stacked(h, p)
            &&& is_held(h, p)
            &&& library_of(h, p) == library_of(g, p) + list.take(n as int)
            &&& forall|x: ObjectId| #[trigger]
                hand_of(h, p).contains(x) <==> hand_of(g, p).contains(x) && !list.take(
                    n as int,
                ).contains(x)
        }),
    decreases n,
{
    if n == 0 {
        assert(library_of(g, p) + list.take(0) =~= library_of(g, p));
    } else {
        lemma_put_all(g, told, p, list, (n - 1) as nat);
        let h = put_on_bottom(g, told, list, (n - 1) as nat).0;
        let id = list[n - 1];
        let front = list.take(n - 1);
        assert(!front.contains(id));
        assert(hand_of(h, p).contains(id));
        lemma_put_one(h, p, id);
        lemma_put_one_keeps(h, p, id);
        lemma_hand_without(hand_of(h, p), id);
        assert(list.take(n as int) =~= front.push(id));
        assert((library_of(g, p) + front).push(id) =~= library_of(g, p) + front.push(id));
        assert forall|x: ObjectId| #[trigger]
            front.push(id).contains(x) <==> front.contains(x) || x == id by {
            if front.contains(x) {
                let i = choose|i: int| 0 <= i < front.len() && front[i] == x;
                assert(front.push(id)[i] == x);
            }
            if x == id {
                assert(front.push(id)[front.len() as int] == x);
            }
        }
    }
}

/// Cards that are put back lie at the bottom of the library in the order given, under all that
/// lay there; the hand holds the others.
pub proof fn cards_put_back_lie_at_the_bottom(
    g: Game,
    told: Seq<EventModel>,
    p: PlayerId,
    cards: Seq<ObjectId>,
)
    requires
        is_stacked(g, p),
        is_held(g, p),
        cards.no_duplicates(),
        forall|i: int| 0 <= i < cards.len() ==> hand_of(g, p).contains(#[trigger] cards[i]),
    ensures
        ({
            let h = put_on_bottom(g, told, cards, cards.len()).0;
            &&& library_of(h, p) == library_of(g, p) + cards
            &&& forall|x: ObjectId| #[trigger]
                hand_of(h, p).contains(x) <==> hand_of(g, p).contains(x) && !cards.contains(x)
        }),
{
    lemma_put_all(g, told, p, cards, cards.len());
    assert(cards.take(cards.len() as int) =~= cards);
}

/// A shuffled library is still one in which every card lies once.
proof fn lemma_shuffled_is_stacked(g: Game, h: Game, p: PlayerId)
    requires
        is_stacked(g, p),
        library_shuffled(g, h, p),
    ensures
        is_stacked(h, p),
        reordered(library_of(h, p), library_of(g, p)),
        hand_of(h, p) == hand_of(g, p),
{
    broadcast use vstd::seq_lib::group_to_multiset_ensures;

    let i = seat_of(g.players, p)->0;
    assert(is_seat(g.players, p, i)) by {
        assert(exists|k: int| is_seat(g.players, p, k));
    }
    assert(same_seats(h.players, g.players));
    lemma_same_seats(h.players, g.players, p);
    let a = library_of(g, p);
    let b = library_of(h, p);
    a.lemma_multiset_has_no_duplicates();
    b.lemma_multiset_has_no_duplicates_conv();
    assert forall|j: int| 0 <= j < b.len() implies object_at(h, #[trigger] b[j]) is Some
        && object_at(h, b[j])->0.zone == Zone::Library && object_at(h, b[j])->0.owner == p by {
        assert(b.contains(b[j]));
        assert(b.to_multiset().count(b[j]) > 0);
        assert(a.contains(b[j]));
        let k = choose|k: int| 0 <= k < a.len() && a[k] == b[j];
        assert(object_at(g, a[k]) is Some);
    }
}

/// A mulligan keeps a player's cards: however the library is shuffled, hand and library hold the
/// same cards as before, and the new hand has seven of them or all that there are.
pub proof fn a_mulligan_keeps_the_cards(g: Game, told: Seq<EventModel>, p: PlayerId, h: Game)
    requires
        is_stacked(g, p),
        is_held(g, p),
        library_shuffled(hand_returned(g, told, p).0, h, p),
    ensures
        ({
            let f = hand_drawn(
                h,
                hand_returned(g, told, p).1,
                p,
                STARTING_HAND_SIZE as nat,
            ).0;
            let total = hand_of(g, p).len() + library_of(g, p).len();
            &&& reordered(hand_of(f, p) + library_of(f, p), hand_of(g, p) + library_of(g, p))
            &&& hand_of(f, p).len() == if total < STARTING_HAND_SIZE {
                total
            } else {
                STARTING_HAND_SIZE as nat
            }
        }),
{
    let (b, t) = hand_returned(g, told, p);
    let hand = hand_of(g, p);
    let library = library_of(g, p);
    lemma_put_all(g, told, p, hand, hand.len());
    assert(hand.take(hand.len() as int) =~= hand);
    assert(hand_of(b, p) =~= Seq::<ObjectId>::empty()) by {
        if hand_of(b, p).len() > 0 {
            assert(hand_of(b, p).contains(hand_of(b, p)[0]));
        }
    }
    lemma_shuffled_is_stacked(b, h, p);
    let pile = library_of(h, p);
    let n = STARTING_HAND_SIZE as nat;
    cards_are_drawn_from_the_top(h, t, p, n);
    let f = hand_drawn(h, t, p, n).0;
    let m = if n <= pile.len() {
        n
    } else {
        pile.len()
    };
    assert(hand_of(f, p) =~= pile.take(m as int));
    assert(hand_of(f, p) + library_of(f, p) =~= pile);
    vstd::seq_lib::lemma_multiset_commutative(library, hand);
    vstd::seq_lib::lemma_multiset_commutative(hand, library);
    assert((hand + library).to_multiset() =~= (library + hand).to_multiset());
    assert(pile.len() == hand.len() + library.len()) by {
        broadcast use vstd::seq_lib::group_to_multiset_ensures;

        assert(pile.to_multiset().len() == (library + hand).to_multiset().len());
    }
}

} // verus!
