//! Matches of several games.

use std::sync::Arc;
use vstd::prelude::*;
use crate::deck_loading::{
    decks_loaded, load_deck_into_state, DeckModel, DeckPayload, PlayerDeckPayload,
};
use crate::engine::{is_started, opened_by, start_game_with_starting_player};
use crate::events::{log, EventModel, GameEvent, MatchScore, WaitingFor, WaitingModel};
use crate::ids::PlayerId;
use crate::mulligan::{every_seat_is_taken, same_seats, lemma_same_seats};
use crate::object::CardFace;
use crate::seqs::{first_where, holds, is_first, lemma_first_where, lemma_first_where_none};
use crate::state::{
    is_new_game, lemma_seat, player_of, DeckCardCount, DeckEntry, DeckPoolModel, Game, GameState,
    MatchPhase, MatchType, PlayerDeckPool,
};
use crate::text::{decimal, push_number, same_text};
use crate::views::seq_view;

verus! {

broadcast use crate::views::group_views;

/// The other player of two.
pub open spec fn other_player(p: PlayerId) -> PlayerId {
    if p == PlayerId(0) {
        PlayerId(1)
    } else {
        PlayerId(0)
    }
}

fn opponent(player: PlayerId) -> (r: PlayerId)
    ensures
        r == other_player(player),
{
    if player == PlayerId(0) {
        PlayerId(1)
    } else {
        PlayerId(0)
    }
}

// ---------------------------------------------------------------------------
// The end of a game
// ---------------------------------------------------------------------------

/// A count that grows by one, as far as it can.
pub open spec fn counted_up(n: u8) -> u8 {
    if n < u8::MAX {
        (n + 1) as u8
    } else {
        n
    }
}

/// The score after a game that a player has won, or that was drawn.
pub open spec fn scored(s: MatchScore, winner: Option<PlayerId>) -> MatchScore {
    match winner {
        Some(w) => if w == PlayerId(0) {
            MatchScore { p0_wins: counted_up(s.p0_wins), ..s }
        } else if w == PlayerId(1) {
            MatchScore { p1_wins: counted_up(s.p1_wins), ..s }
        } else {
            s
        },
        None => MatchScore { draws: counted_up(s.draws), ..s },
    }
}

/// Whether a player has won the match.
pub open spec fn is_won(s: MatchScore) -> bool {
    s.p0_wins >= 2 || s.p1_wins >= 2
}

/// The player who chooses who begins the next game: the loser, or after a draw the one who chose
/// before, or else the one who began.
pub open spec fn next_chooser(g: Game, winner: Option<PlayerId>) -> Option<PlayerId> {
    match winner {
        Some(w) => Some(other_player(w)),
        None => match g.next_game_chooser {
            Some(c) => Some(c),
            None => Some(g.current_starting_player),
        },
    }
}

/// The match after a game that is over.
pub open spec fn after_game(g: Game) -> Game {
    if g.match_phase != MatchPhase::InGame {
        g
    } else {
        match g.waiting_for {
            WaitingModel::GameOver { winner } => if g.match_config.match_type != MatchType::Bo3
                || g.players.len() != 2 {
                Game { match_phase: MatchPhase::Completed, ..g }
            } else {
                let score = scored(g.match_score, winner);
                if is_won(score) {
                    Game { match_score: score, match_phase: MatchPhase::Completed, ..g }
                } else {
                    Game {
                        match_score: score,
                        match_phase: MatchPhase::BetweenGames,
                        game_number: counted_up(g.game_number),
                        sideboard_submitted: Seq::empty(),
                        next_game_chooser: next_chooser(g, winner),
                        waiting_for: WaitingModel::BetweenGamesSideboard {
                            player: PlayerId(0),
                            game_number: counted_up(g.game_number),
                            score,
                        },
                        ..g
                    }
                }
            },
            _ => g,
        }
    }
}

fn count_up(n: u8) -> (r: u8)
    ensures
        r == counted_up(n),
{
    if n < u8::MAX {
        n + 1
    } else {
        n
    }
}

fn score_game(s: MatchScore, winner: Option<PlayerId>) -> (r: MatchScore)
    ensures
        r == scored(s, winner),
{
    match winner {
        Some(w) => if w == PlayerId(0) {
            MatchScore { p0_wins: count_up(s.p0_wins), ..s }
        } else if w == PlayerId(1) {
            MatchScore { p1_wins: count_up(s.p1_wins), ..s }
        } else {
            s
        },
        None => MatchScore { draws: count_up(s.draws), ..s },
    }
}

/// Goes on after a game that is over: the match is completed, or the players may change their decks
/// for the next game.
pub fn handle_game_over_transition(state: &mut GameState)
    ensures
        final(state)@ == after_game(old(state)@),
{
    if state.match_phase != MatchPhase::InGame {
        return;
    }
    let winner = match &state.waiting_for {
        WaitingFor::GameOver { winner } => *winner,
        _ => {
            return;
        },
    };
    assert(state@.players.len() == state.players@.len());
    if state.match_config.match_type != MatchType::Bo3 || state.players.len() != 2 {
        state.match_phase = MatchPhase::Completed;
        return;
    }
    state.match_score = score_game(state.match_score, winner);
    if state.match_score.p0_wins >= 2 || state.match_score.p1_wins >= 2 {
        state.match_phase = MatchPhase::Completed;
        return;
    }
    state.match_phase = MatchPhase::BetweenGames;
    state.game_number = count_up(state.game_number);
    state.sideboard_submitted = Vec::new();
    state.next_game_chooser = match winner {
        Some(w) => Some(opponent(w)),
        None => match state.next_game_chooser {
            Some(c) => Some(c),
            None => Some(state.current_starting_player),
        },
    };
    state.waiting_for = WaitingFor::BetweenGamesSideboard {
        player: PlayerId(0),
        game_number: state.game_number,
        score: state.match_score,
    };
}

// ---------------------------------------------------------------------------
// Counting cards
// ---------------------------------------------------------------------------

/// How many cards a list names.
pub open spec fn total(list: Seq<DeckCardCount>) -> nat
    decreases list.len(),
{
    if list.len() == 0 {
        0
    } else {
        total(list.drop_last()) + list.last().count as nat
    }
}

/// How many cards of a name a list names.
pub open spec fn copies(list: Seq<DeckCardCount>, name: Seq<char>) -> nat
    decreases list.len(),
{
    if list.len() == 0 {
        0
    } else {
        copies(list.drop_last(), name) + (if list.last().name@ == name {
            list.last().count as nat
        } else {
            0
        })
    }
}

/// How many cards a deck has.
pub open spec fn deck_size(list: Seq<DeckEntry>) -> nat
    decreases list.len(),
{
    if list.len() == 0 {
        0
    } else {
        deck_size(list.drop_last()) + list.last().count as nat
    }
}

/// How many cards of a name a deck has.
pub open spec fn copies_in_deck(list: Seq<DeckEntry>, name: Seq<char>) -> nat
    decreases list.len(),
{
    if list.len() == 0 {
        0
    } else {
        copies_in_deck(list.drop_last(), name) + (if list.last().card.name@ == name {
            list.last().count as nat
        } else {
            0
        })
    }
}

/// Whether a submitted deck and sideboard have just the cards that were registered.
pub open spec fn is_same_pool(
    pool: DeckPoolModel,
    main: Seq<DeckCardCount>,
    sideboard: Seq<DeckCardCount>,
) -> bool {
    forall|name: Seq<char>|
        copies(main, name) + #[trigger] copies(sideboard, name) == copies_in_deck(
            pool.registered_main,
            name,
        ) + copies_in_deck(pool.registered_sideboard, name)
}

proof fn lemma_next_count(list: Seq<DeckCardCount>, i: int, name: Seq<char>)
    requires
        0 <= i < list.len(),
    ensures
        total(list.take(i + 1)) == total(list.take(i)) + list[i].count,
        copies(list.take(i + 1), name) == copies(list.take(i), name) + (if list[i].name@ == name {
            list[i].count as nat
        } else {
            0
        }),
{
    assert(list.take(i + 1).drop_last() =~= list.take(i));
}

proof fn lemma_next_entry(list: Seq<DeckEntry>, i: int, name: Seq<char>)
    requires
        0 <= i < list.len(),
    ensures
        deck_size(list.take(i + 1)) == deck_size(list.take(i)) + list[i].count,
        copies_in_deck(list.take(i + 1), name) == copies_in_deck(list.take(i), name) + (
        if list[i].card.name@ == name {
            list[i].count as nat
        } else {
            0
        }),
{
    assert(list.take(i + 1).drop_last() =~= list.take(i));
}

/// A list names cards of a name only where an entry does.
proof fn lemma_named_in_list(list: Seq<DeckCardCount>, name: Seq<char>)
    ensures
        copies(list, name) > 0 ==> exists|i: int|
            0 <= i < list.len() && (#[trigger] list[i]).name@ == name,
        forall|i: int|
            0 <= i < list.len() && (#[trigger] list[i]).name@ == name ==> copies(list, name)
                >= list[i].count,
    decreases list.len(),
{
    if list.len() > 0 {
        let front = list.drop_last();
        lemma_named_in_list(front, name);
        if copies(list, name) > 0 {
            if list.last().name@ == name {
                assert(list[list.len() - 1].name@ == name);
            } else {
                let i = choose|i: int| 0 <= i < front.len() && (#[trigger] front[i]).name@ == name;
                assert(list[i].name@ == name);
            }
        }
        assert forall|i: int| 0 <= i < list.len() && (#[trigger] list[i]).name@ == name implies copies(
            list,
            name,
        ) >= list[i].count by {
            if i < front.len() {
                assert(front[i] == list[i]);
            }
        }
    }
}

/// A deck has cards of a name only where an entry has.
proof fn lemma_named_in_deck(list: Seq<DeckEntry>, name: Seq<char>)
    ensures
        copies_in_deck(list, name) > 0 ==> exists|i: int|
            0 <= i < list.len() && (#[trigger] list[i]).card.name@ == name,
    decreases list.len(),
{
    if list.len() > 0 {
        let front = list.drop_last();
        lemma_named_in_deck(front, name);
        if copies_in_deck(list, name) > 0 {
            if list.last().card.name@ == name {
                assert(list[list.len() - 1].card.name@ == name);
            } else {
                let i = choose|i: int|
                    0 <= i < front.len() && (#[trigger] front[i]).card.name@ == name;
                assert(list[i].card.name@ == name);
            }
        }
    }
}

fn total_of(list: &Vec<DeckCardCount>) -> (r: u128)
    ensures
        r == total(list@),
{
    let ghost s = list@;
    let mut n: u128 = 0;
    let mut i: usize = 0;
    assert(s.take(0) =~= Seq::empty());
    while i < list.len()
        invariant
            i <= s.len(),
            s == list@,
            n == total(s.take(i as int)),
            n <= i * 0xffff_ffff,
        decreases s.len() - i,
    {
        proof {
            lemma_next_count(s, i as int, Seq::empty());
        }
        n = n + list[i].count as u128;
        i += 1;
    }
    assert(s.take(i as int) =~= s);
    n
}

fn count_named(list: &Vec<DeckCardCount>, name: &str) -> (r: u128)
    ensures
        r == copies(list@, name@),
        r <= 0x1_0000_0000_0000_0000_0000_0000,
{
    let ghost s = list@;
    let mut n: u128 = 0;
    let mut i: usize = 0;
    assert(s.take(0) =~= Seq::empty());
    while i < list.len()
        invariant
            i <= s.len(),
            s == list@,
            n == copies(s.take(i as int), name@),
            n <= i * 0xffff_ffff,
        decreases s.len() - i,
    {
        proof {
            lemma_next_count(s, i as int, name@);
        }
        if same_text(list[i].name.as_str(), name) {
            n = n + list[i].count as u128;
        }
        i += 1;
    }
    assert(s.take(i as int) =~= s);
    n
}

fn total_count(list: &Vec<DeckEntry>) -> (r: u128)
    ensures
        r == deck_size(list@),
{
    let ghost s = list@;
    let mut n: u128 = 0;
    let mut i: usize = 0;
    assert(s.take(0) =~= Seq::empty());
    while i < list.len()
        invariant
            i <= s.len(),
            s == list@,
            n == deck_size(s.take(i as int)),
            n <= i * 0xffff_ffff,
        decreases s.len() - i,
    {
        proof {
            lemma_next_entry(s, i as int, Seq::empty());
        }
        n = n + list[i].count as u128;
        i += 1;
    }
    assert(s.take(i as int) =~= s);
    n
}

fn count_in_deck(list: &Vec<DeckEntry>, name: &str) -> (r: u128)
    ensures
        r == copies_in_deck(list@, name@),
        r <= 0x1_0000_0000_0000_0000_0000_0000,
{
    let ghost s = list@;
    let mut n: u128 = 0;
    let mut i: usize = 0;
    assert(s.take(0) =~= Seq::empty());
    while i < list.len()
        invariant
            i <= s.len(),
            s == list@,
            n == copies_in_deck(s.take(i as int), name@),
            n <= i * 0xffff_ffff,
        decreases s.len() - i,
    {
        proof {
            lemma_next_entry(s, i as int, name@);
        }
        if same_text(list[i].card.name.as_str(), name) {
            n = n + list[i].count as u128;
        }
        i += 1;
    }
    assert(s.take(i as int) =~= s);
    n
}

spec fn is_balanced(
    pool: DeckPoolModel,
    main: Seq<DeckCardCount>,
    sideboard: Seq<DeckCardCount>,
    name: Seq<char>,
) -> bool {
    copies(main, name) + copies(sideboard, name) == copies_in_deck(pool.registered_main, name)
        + copies_in_deck(pool.registered_sideboard, name)
}

fn name_is_balanced(
    pool: &PlayerDeckPool,
    main: &Vec<DeckCardCount>,
    sideboard: &Vec<DeckCardCount>,
    name: &str,
) -> (r: bool)
    ensures
        r == is_balanced(pool@, main@, sideboard@, name@),
{
    count_named(main, name) + count_named(sideboard, name) == count_in_deck(
        &*pool.registered_main,
        name,
    ) + count_in_deck(&*pool.registered_sideboard, name)
}

fn list_is_balanced(
    pool: &PlayerDeckPool,
    main: &Vec<DeckCardCount>,
    sideboard: &Vec<DeckCardCount>,
    list: &Vec<DeckCardCount>,
) -> (r: bool)
    ensures
        r == (forall|i: int|
            0 <= i < list@.len() ==> is_balanced(
                pool@,
                main@,
                sideboard@,
                (#[trigger] list@[i]).name@,
            )),
{
    let mut i: usize = 0;
    while i < list.len()
        invariant
            i <= list@.len(),
            forall|j: int|
                0 <= j < i ==> is_balanced(pool@, main@, sideboard@, (#[trigger] list@[j]).name@),
        decreases list.len() - i,
    {
        if !name_is_balanced(pool, main, sideboard, list[i].name.as_str()) {
            assert(!is_balanced(pool@, main@, sideboard@, list@[i as int].name@));
            return false;
        }
        i += 1;
    }
    true
}

fn deck_is_balanced(
    pool: &PlayerDeckPool,
    main: &Vec<DeckCardCount>,
    sideboard: &Vec<DeckCardCount>,
    list: &Vec<DeckEntry>,
) -> (r: bool)
    ensures
        r == (forall|i: int|
            0 <= i < list@.len() ==> is_balanced(
                pool@,
                main@,
                sideboard@,
                (#[trigger] list@[i]).card.name@,
            )),
{
    let mut i: usize = 0;
    while i < list.len()
        invariant
            i <= list@.len(),
            forall|j: int|
                0 <= j < i ==> is_balanced(
                    pool@,
                    main@,
                    sideboard@,
                    (#[trigger] list@[j]).card.name@,
                ),
        decreases list.len() - i,
    {
        if !name_is_balanced(pool, main, sideboard, list[i].card.name.as_str()) {
            assert(!is_balanced(pool@, main@, sideboard@, list@[i as int].card.name@));
            return false;
        }
        i += 1;
    }
    true
}

fn pool_is_same(
    pool: &PlayerDeckPool,
    main: &Vec<DeckCardCount>,
    sideboard: &Vec<DeckCardCount>,
) -> (r: bool)
    ensures
        r == is_same_pool(pool@, main@, sideboard@),
{
    let r = list_is_balanced(pool, main, sideboard, main) && list_is_balanced(
        pool,
        main,
        sideboard,
        sideboard,
    ) && deck_is_balanced(pool, main, sideboard, &*pool.registered_main) && deck_is_balanced(
        pool,
        main,
        sideboard,
        &*pool.registered_sideboard,
    );
    proof {
        let p = pool@;
        if r {
            assert forall|name: Seq<char>|
                copies(main@, name) + #[trigger] copies(sideboard@, name) == copies_in_deck(
                    p.registered_main,
                    name,
                ) + copies_in_deck(p.registered_sideboard, name) by {
                lemma_named_in_list(main@, name);
                lemma_named_in_list(sideboard@, name);
                lemma_named_in_deck(p.registered_main, name);
                lemma_named_in_deck(p.registered_sideboard, name);
                if copies(main@, name) > 0 || copies(sideboard@, name) > 0 || copies_in_deck(
                    p.registered_main,
                    name,
                ) > 0 || copies_in_deck(p.registered_sideboard, name) > 0 {
                    assert(is_balanced(p, main@, sideboard@, name));
                }
            }
        } else if is_same_pool(p, main@, sideboard@) {
            assert forall|name: Seq<char>| #[trigger] is_balanced(p, main@, sideboard@, name) by {
                assert(copies(main@, name) + copies(sideboard@, name) == copies_in_deck(
                    p.registered_main,
                    name,
                ) + copies_in_deck(p.registered_sideboard, name));
            }
        }
    }
    r
}

// ---------------------------------------------------------------------------
// Sideboards
// ---------------------------------------------------------------------------

/// The cards that a player has registered.
pub open spec fn registered(pool: DeckPoolModel) -> Seq<DeckEntry> {
    pool.registered_main + pool.registered_sideboard + pool.registered_commander
}

/// Being an entry of a card with a name.
pub open spec fn entry_named(name: Seq<char>) -> spec_fn(DeckEntry) -> bool {
    |e: DeckEntry| e.card.name@ == name
}

/// The face of the first registered card with a name.
pub open spec fn registered_face(pool: DeckPoolModel, name: Seq<char>) -> Option<Arc<CardFace>> {
    match first_where(registered(pool), entry_named(name)) {
        Some(i) => Some(registered(pool)[i].card),
        None => None,
    }
}

/// The first `n` entries of a submitted list as entries of a deck.
pub open spec fn as_deck(pool: DeckPoolModel, list: Seq<DeckCardCount>, n: nat) -> Seq<DeckEntry>
    decreases n,
{
    if n == 0 || n > list.len() {
        Seq::empty()
    } else {
        let front = as_deck(pool, list, (n - 1) as nat);
        let card = list[n - 1];
        if card.count == 0 {
            front
        } else {
            front.push(
                DeckEntry { card: registered_face(pool, card.name@)->0, count: card.count },
            )
        }
    }
}

fn find_in_deck(list: &Vec<DeckEntry>, name: &str) -> (r: Option<usize>)
    ensures
        match r {
            Some(i) => i < list@.len() && is_first(list@, entry_named(name@), i as int),
            None => forall|j: int| 0 <= j < list@.len() ==> !entry_named(name@)(#[trigger] list@[j]),
        },
{
    let ghost p = entry_named(name@);
    let mut i: usize = 0;
    while i < list.len()
        invariant
            i <= list@.len(),
            p == entry_named(name@),
            forall|j: int| 0 <= j < i ==> !p(#[trigger] list@[j]),
        decreases list.len() - i,
    {
        if same_text(list[i].card.name.as_str(), name) {
            return Some(i);
        }
        i += 1;
    }
    None
}

proof fn lemma_first_in_parts(a: Seq<DeckEntry>, b: Seq<DeckEntry>, c: Seq<DeckEntry>, name: Seq<char>)
    ensures
        ({
            let p = entry_named(name);
            let all = a + b + c;
            &&& forall|i: int| is_first(a, p, i) ==> first_where(all, p) == Some(i) && all[i] == a[i]
            &&& forall|i: int|
                (forall|j: int| 0 <= j < a.len() ==> !p(#[trigger] a[j])) && #[trigger] is_first(
                    b,
                    p,
                    i,
                ) ==> first_where(all, p) == Some(a.len() + i) && all[a.len() + i] == b[i]
            &&& forall|i: int|
                (forall|j: int| 0 <= j < a.len() ==> !p(#[trigger] a[j])) && (forall|j: int|
                    0 <= j < b.len() ==> !p(#[trigger] b[j])) && #[trigger] is_first(c, p, i)
                    ==> first_where(all, p) == Some(a.len() + b.len() + i) && all[a.len() + b.len()
                    + i] == c[i]
            &&& (forall|j: int| 0 <= j < a.len() ==> !p(#[trigger] a[j])) && (forall|j: int|
                0 <= j < b.len() ==> !p(#[trigger] b[j])) && (forall|j: int|
                0 <= j < c.len() ==> !p(#[trigger] c[j])) ==> first_where(all, p) is None
        }),
{
    let p = entry_named(name);
    let all = a + b + c;
    assert forall|i: int| is_first(a, p, i) implies first_where(all, p) == Some(i) && all[i]
        == a[i] by {
        assert forall|j: int| 0 <= j < i implies !p(#[trigger] all[j]) by {
            assert(all[j] == a[j]);
        }
        lemma_first_where(all, p, i);
    }
    assert forall|i: int|
        (forall|j: int| 0 <= j < a.len() ==> !p(#[trigger] a[j])) && #[trigger] is_first(b, p, i) implies first_where(
        all,
        p,
    ) == Some(a.len() + i) && all[a.len() + i] == b[i] by {
        assert forall|j: int| 0 <= j < a.len() + i implies !p(#[trigger] all[j]) by {
            if j < a.len() {
                assert(all[j] == a[j]);
            } else {
                assert(all[j] == b[j - a.len()]);
            }
        }
        lemma_first_where(all, p, a.len() + i);
    }
    assert forall|i: int|
        (forall|j: int| 0 <= j < a.len() ==> !p(#[trigger] a[j])) && (forall|j: int|
            0 <= j < b.len() ==> !p(#[trigger] b[j])) && #[trigger] is_first(c, p, i) implies first_where(
        all,
        p,
    ) == Some(a.len() + b.len() + i) && all[a.len() + b.len() + i] == c[i] by {
        assert forall|j: int| 0 <= j < a.len() + b.len() + i implies !p(#[trigger] all[j]) by {
            if j < a.len() {
                assert(all[j] == a[j]);
            } else if j < a.len() + b.len() {
                assert(all[j] == b[j - a.len()]);
            } else {
                assert(all[j] == c[j - a.len() - b.len()]);
            }
        }
        lemma_first_where(all, p, a.len() + b.len() + i);
    }
    if (forall|j: int| 0 <= j < a.len() ==> !p(#[trigger] a[j])) && (forall|j: int|
        0 <= j < b.len() ==> !p(#[trigger] b[j])) && (forall|j: int|
        0 <= j < c.len() ==> !p(#[trigger] c[j])) {
        assert forall|j: int| 0 <= j < all.len() implies !p(#[trigger] all[j]) by {
            if j < a.len() {
                assert(all[j] == a[j]);
            } else if j < a.len() + b.len() {
                assert(all[j] == b[j - a.len()]);
            } else {
                assert(all[j] == c[j - a.len() - b.len()]);
            }
        }
        lemma_first_where_none(all, p);
    }
}

fn find_face(pool: &PlayerDeckPool, name: &str) -> (r: Option<Arc<CardFace>>)
    ensures
        r == registered_face(pool@, name@),
{
    proof {
        lemma_first_in_parts(
            pool@.registered_main,
            pool@.registered_sideboard,
            pool@.registered_commander,
            name@,
        );
    }
    if let Some(i) = find_in_deck(&*pool.registered_main, name) {
        return Some(pool.registered_main[i].card.clone());
    }
    if let Some(i) = find_in_deck(&*pool.registered_sideboard, name) {
        return Some(pool.registered_sideboard[i].card.clone());
    }
    if let Some(i) = find_in_deck(&*pool.registered_commander, name) {
        return Some(pool.registered_commander[i].card.clone());
    }
    None
}

proof fn lemma_submitted_is_registered(
    pool: DeckPoolModel,
    main: Seq<DeckCardCount>,
    sideboard: Seq<DeckCardCount>,
    card: DeckCardCount,
)
    requires
        is_same_pool(pool, main, sideboard),
        card.count > 0,
        main.contains(card) || sideboard.contains(card),
    ensures
        registered_face(pool, card.name@) is Some,
{
    let name = card.name@;
    lemma_named_in_list(main, name);
    lemma_named_in_list(sideboard, name);
    if main.contains(card) {
        let i = choose|i: int| 0 <= i < main.len() && main[i] == card;
        assert(main[i].name@ == name);
        assert(copies(main, name) > 0);
    } else {
        let i = choose|i: int| 0 <= i < sideboard.len() && sideboard[i] == card;
        assert(sideboard[i].name@ == name);
        assert(copies(sideboard, name) > 0);
    }
    assert(copies(main, name) + copies(sideboard, name) == copies_in_deck(
        pool.registered_main,
        name,
    ) + copies_in_deck(pool.registered_sideboard, name));
    lemma_named_in_deck(pool.registered_main, name);
    lemma_named_in_deck(pool.registered_sideboard, name);
    let all = registered(pool);
    let p = entry_named(name);
    if first_where(all, p) is None {
        assert(forall|i: int| !is_first(all, p, i));
        lemma_none_named(all, p, all.len());
        if copies_in_deck(pool.registered_main, name) > 0 {
            let i = choose|i: int|
                0 <= i < pool.registered_main.len() && (
                #[trigger] pool.registered_main[i]).card.name@ == name;
            assert(all[i] == pool.registered_main[i]);
        } else {
            let i = choose|i: int|
                0 <= i < pool.registered_sideboard.len() && (
                #[trigger] pool.registered_sideboard[i]).card.name@ == name;
            assert(all[pool.registered_main.len() + i] == pool.registered_sideboard[i]);
        }
    }
}

proof fn lemma_none_named(s: Seq<DeckEntry>, p: spec_fn(DeckEntry) -> bool, n: nat)
    requires
        forall|i: int| !is_first(s, p, i),
        n <= s.len(),
    ensures
        forall|j: int| 0 <= j < n ==> !p(#[trigger] s[j]),
    decreases n,
{
    if n > 0 {
        lemma_none_named(s, p, (n - 1) as nat);
        if p(s[n - 1]) {
            assert(is_first(s, p, n - 1));
        }
    }
}

fn counts_to_entries(
    pool: &PlayerDeckPool,
    list: &Vec<DeckCardCount>,
    main: &Vec<DeckCardCount>,
    sideboard: &Vec<DeckCardCount>,
) -> (r: Vec<DeckEntry>)
    requires
        is_same_pool(pool@, main@, sideboard@),
        list@ == main@ || list@ == sideboard@,
    ensures
        r@ == as_deck(pool@, list@, list@.len()),
{
    let mut out: Vec<DeckEntry> = Vec::new();
    let mut i: usize = 0;
    while i < list.len()
        invariant
            i <= list@.len(),
            is_same_pool(pool@, main@, sideboard@),
            list@ == main@ || list@ == sideboard@,
            out@ == as_deck(pool@, list@, i as nat),
        decreases list.len() - i,
    {
        if list[i].count > 0 {
            proof {
                assert(list@.contains(list@[i as int]));
                lemma_submitted_is_registered(pool@, main@, sideboard@, list@[i as int]);
            }
            if let Some(card) = find_face(pool, list[i].name.as_str()) {
                out.push(DeckEntry { card, count: list[i].count });
            }
        }
        i += 1;
    }
    out
}

/// Being the pool of a player.
pub open spec fn pool_for(p: PlayerId) -> spec_fn(DeckPoolModel) -> bool {
    |d: DeckPoolModel| d.player == p
}

/// The pool of a player with a submitted deck and sideboard.
pub open spec fn with_submission(
    pool: DeckPoolModel,
    main: Seq<DeckCardCount>,
    sideboard: Seq<DeckCardCount>,
) -> DeckPoolModel {
    DeckPoolModel {
        current_main: as_deck(pool, main, main.len()),
        current_sideboard: as_deck(pool, sideboard, sideboard.len()),
        ..pool
    }
}

/// What is said of a deck of the wrong size.
pub open spec fn wrong_size_text(expected: nat, got: nat) -> Seq<char> {
    "Main deck size mismatch: expected "@ + decimal(expected) + ", got "@ + decimal(got)
}

/// Why a submission is refused.
pub open spec fn submission_refusal(
    g: Game,
    player: PlayerId,
    main: Seq<DeckCardCount>,
    sideboard: Seq<DeckCardCount>,
) -> Option<Seq<char>> {
    if g.match_phase != MatchPhase::BetweenGames {
        Some("Cannot submit sideboard outside BetweenGames phase"@)
    } else {
        match first_where(g.deck_pools, pool_for(player)) {
            None => Some("Deck pool not found for player"@),
            Some(i) => {
                let pool = g.deck_pools[i];
                if total(main) != deck_size(pool.registered_main) {
                    Some(wrong_size_text(deck_size(pool.registered_main), total(main)))
                } else if !is_same_pool(pool, main, sideboard) {
                    Some("Submitted main+sideboard must match registered card pool"@)
                } else {
                    None
                }
            },
        }
    }
}

/// A list of players with one more, each once.
pub open spec fn with_submitter(list: Seq<PlayerId>, p: PlayerId) -> Seq<PlayerId> {
    if list.contains(p) {
        list
    } else {
        list.push(p)
    }
}

/// What a match waits for after a player has submitted: the other player's submission, or the
/// choice of who begins.
pub open spec fn after_submission(g: Game, player: PlayerId) -> WaitingModel {
    let list = with_submitter(g.sideboard_submitted, player);
    if list.contains(PlayerId(0)) && list.contains(PlayerId(1)) {
        WaitingModel::BetweenGamesChoosePlayDraw {
            player: match g.next_game_chooser {
                Some(c) => c,
                None => PlayerId(0),
            },
            game_number: g.game_number,
            score: g.match_score,
        }
    } else {
        WaitingModel::BetweenGamesSideboard {
            player: other_player(player),
            game_number: g.game_number,
            score: g.match_score,
        }
    }
}

/// The match after a player has submitted a deck and a sideboard.
pub open spec fn submitted(
    g: Game,
    player: PlayerId,
    main: Seq<DeckCardCount>,
    sideboard: Seq<DeckCardCount>,
) -> Game {
    let i = first_where(g.deck_pools, pool_for(player))->0;
    Game {
        deck_pools: g.deck_pools.update(i, with_submission(g.deck_pools[i], main, sideboard)),
        sideboard_submitted: with_submitter(g.sideboard_submitted, player),
        waiting_for: after_submission(g, player),
        ..g
    }
}

fn find_pool(state: &GameState, player: PlayerId) -> (r: Option<usize>)
    ensures
        match first_where(state@.deck_pools, pool_for(player)) {
            Some(i) => r is Some && r->0 == i && 0 <= i < state@.deck_pools.len(),
            None => r is None,
        },
{
    let ghost s = state@.deck_pools;
    let ghost p = pool_for(player);
    let mut i: usize = 0;
    while i < state.deck_pools.len()
        invariant
            i <= s.len(),
            s == state@.deck_pools,
            s.len() == state.deck_pools@.len(),
            p == pool_for(player),
            forall|j: int| 0 <= j < i ==> !p(#[trigger] s[j]),
        decreases s.len() - i,
    {
        assert(s[i as int] == state.deck_pools@[i as int]@);
        if state.deck_pools[i].player == player {
            proof {
                lemma_first_where(s, p, i as int);
            }
            return Some(i);
        }
        i += 1;
    }
    proof {
        lemma_first_where_none(s, p);
    }
    None
}

fn say_wrong_size(expected: u128, got: u128) -> (r: String)
    ensures
        r@ == wrong_size_text(expected as nat, got as nat),
{
    let mut s = "Main deck size mismatch: expected ".to_owned();
    push_number(&mut s, expected);
    s.append(", got ");
    push_number(&mut s, got);
    s
}

fn check_submission(
    state: &GameState,
    player: PlayerId,
    main: &Vec<DeckCardCount>,
    sideboard: &Vec<DeckCardCount>,
) -> (r: Result<usize, String>)
    ensures
        match submission_refusal(state@, player, main@, sideboard@) {
            Some(text) => r is Err && (r->Err_0)@ == text,
            None => r is Ok && first_where(state@.deck_pools, pool_for(player)) == Some(
                r->Ok_0 as int,
            ) && r->Ok_0 < state@.deck_pools.len() && is_same_pool(
                state@.deck_pools[r->Ok_0 as int],
                main@,
                sideboard@,
            ),
        },
{
    if state.match_phase != MatchPhase::BetweenGames {
        return Err("Cannot submit sideboard outside BetweenGames phase".to_owned());
    }
    let i = match find_pool(state, player) {
        Some(i) => i,
        None => {
            return Err("Deck pool not found for player".to_owned());
        },
    };
    let pool = &state.deck_pools[i];
    assert(state@.deck_pools[i as int] == pool@);
    let got: u128 = total_of(main);
    let expected: u128 = total_count(&*pool.registered_main);
    if got != expected {
        return Err(say_wrong_size(expected, got));
    }
    if !pool_is_same(pool, main, sideboard) {
        return Err("Submitted main+sideboard must match registered card pool".to_owned());
    }
    Ok(i)
}

fn submit_to_pool(pool: &mut PlayerDeckPool, main: &Vec<DeckCardCount>, sideboard: &Vec<DeckCardCount>)
    requires
        is_same_pool(old(pool)@, main@, sideboard@),
    ensures
        final(pool)@ == with_submission(old(pool)@, main@, sideboard@),
{
    let deck = counts_to_entries(pool, main, main, sideboard);
    let side = counts_to_entries(pool, sideboard, main, sideboard);
    pool.current_main = Arc::new(deck);
    pool.current_sideboard = Arc::new(side);
}

fn wait_after_submission(state: &GameState, player: PlayerId) -> (r: WaitingFor)
    requires
        state@.sideboard_submitted.contains(player),
    ensures
        r@ == after_submission(state@, player),
{
    let submitted = &state.sideboard_submitted;
    assert(seq_view(submitted@) =~= submitted@);
    if holds(submitted, &PlayerId(0)) && holds(submitted, &PlayerId(1)) {
        let chooser = match state.next_game_chooser {
            Some(c) => c,
            None => PlayerId(0),
        };
        WaitingFor::BetweenGamesChoosePlayDraw {
            player: chooser,
            game_number: state.game_number,
            score: state.match_score,
        }
    } else {
        WaitingFor::BetweenGamesSideboard {
            player: opponent(player),
            game_number: state.game_number,
            score: state.match_score,
        }
    }
}

/// Lets a player change the deck between games. The main deck keeps its size, and with the
/// sideboard it has just the cards that were registered.
pub fn handle_submit_sideboard(
    state: &mut GameState,
    player: PlayerId,
    main: Vec<DeckCardCount>,
    sideboard: Vec<DeckCardCount>,
) -> (r: Result<WaitingFor, String>)
    ensures
        match submission_refusal(old(state)@, player, main@, sideboard@) {
            Some(text) => r is Err && (r->Err_0)@ == text && final(state)@ == old(state)@,
            None => r is Ok && final(state)@ == submitted(old(state)@, player, main@, sideboard@)
                && (r->Ok_0)@ == final(state)@.waiting_for,
        },
{
    let ghost g = state@;
    let i = match check_submission(state, player, &main, &sideboard) {
        Ok(i) => i,
        Err(e) => {
            return Err(e);
        },
    };
    assert(g.deck_pools[i as int] == state.deck_pools@[i as int]@);
    submit_to_pool(&mut state.deck_pools[i], &main, &sideboard);
    assert(seq_view(state.sideboard_submitted@) =~= state.sideboard_submitted@);
    if !holds(&state.sideboard_submitted, &player) {
        state.sideboard_submitted.push(player);
        assert(state.sideboard_submitted@[state.sideboard_submitted@.len() - 1] == player);
    }
    let waiting_for = wait_after_submission(state, player);
    state.waiting_for = wait_after_submission(state, player);
    Ok(waiting_for)
}

// ---------------------------------------------------------------------------
// The next game
// ---------------------------------------------------------------------------

/// The cards that a player plays with.
pub open spec fn current_deck(pool: DeckPoolModel) -> DeckModel {
    DeckModel {
        main_deck: pool.current_main,
        sideboard: pool.current_sideboard,
        commander: pool.current_commander,
    }
}

/// The pool of a player, if there is one.
pub open spec fn pool_in(g: Game, p: PlayerId) -> Option<DeckPoolModel> {
    match first_where(g.deck_pools, pool_for(p)) {
        Some(i) => Some(g.deck_pools[i]),
        None => None,
    }
}

/// The player who has to choose who begins.
pub open spec fn chooser_of(g: Game) -> PlayerId {
    match g.next_game_chooser {
        Some(c) => c,
        None => PlayerId(0),
    }
}

/// Why a choice of who begins is refused.
pub open spec fn choice_refusal(g: Game, chooser: PlayerId) -> Option<Seq<char>> {
    if g.match_phase != MatchPhase::BetweenGames {
        Some("Cannot choose play/draw outside BetweenGames phase"@)
    } else if chooser != chooser_of(g) {
        Some("Only the designated chooser may choose play/draw"@)
    } else if pool_in(g, PlayerId(0)) is None {
        Some("Missing player 0 deck pool"@)
    } else if pool_in(g, PlayerId(1)) is None {
        Some("Missing player 1 deck pool"@)
    } else {
        None
    }
}

/// The player who begins after a choice.
pub open spec fn chosen_starter(chooser: PlayerId, play_first: bool) -> PlayerId {
    if play_first {
        chooser
    } else {
        other_player(chooser)
    }
}

/// The seed of the next game of a match.
pub open spec fn next_seed(g: Game) -> u64 {
    g.rng_seed.wrapping_add((g.game_number + 1) as u64)
}

/// The next game of a match, made of a game that has not begun.
#[verifier::opaque]
pub open spec fn carried_over(g: Game, fresh: Game, chooser: PlayerId, play_first: bool) -> Game {
    decks_loaded(
        Game {
            match_config: g.match_config,
            match_phase: MatchPhase::InGame,
            match_score: g.match_score,
            game_number: g.game_number,
            current_starting_player: chosen_starter(chooser, play_first),
            next_game_chooser: Some(chooser),
            ..fresh
        },
        current_deck(pool_in(g, PlayerId(0))->0),
        current_deck(pool_in(g, PlayerId(1))->0),
    )
}

fn payload_of(pool: &PlayerDeckPool) -> (r: PlayerDeckPayload)
    ensures
        r@ == current_deck(pool@),
{
    PlayerDeckPayload {
        main_deck: pool.current_main.clone(),
        sideboard: pool.current_sideboard.clone(),
        commander: pool.current_commander.clone(),
    }
}

fn deck_payload_from_current_pools(state: &GameState) -> (r: Result<DeckPayload, String>)
    ensures
        match (pool_in(state@, PlayerId(0)), pool_in(state@, PlayerId(1))) {
            (Some(a), Some(b)) => r is Ok && (r->Ok_0).player@ == current_deck(a) && (
            r->Ok_0).opponent@ == current_deck(b),
            (Some(_), None) => r is Err && (r->Err_0)@ == "Missing player 1 deck pool"@,
            (None, _) => r is Err && (r->Err_0)@ == "Missing player 0 deck pool"@,
        },
{
    let i = match find_pool(state, PlayerId(0)) {
        Some(i) => i,
        None => {
            return Err("Missing player 0 deck pool".to_owned());
        },
    };
    let j = match find_pool(state, PlayerId(1)) {
        Some(j) => j,
        None => {
            return Err("Missing player 1 deck pool".to_owned());
        },
    };
    assert(state@.deck_pools[i as int] == state.deck_pools@[i as int]@);
    assert(state@.deck_pools[j as int] == state.deck_pools@[j as int]@);
    Ok(
        DeckPayload {
            player: payload_of(&state.deck_pools[i]),
            opponent: payload_of(&state.deck_pools[j]),
        },
    )
}

proof fn lemma_new_seats(n: Game, config: crate::state::FormatConfig, count: u8, seed: u64)
    requires
        is_new_game(n, config, count, seed),
    ensures
        every_seat_is_taken(n),
{
    assert forall|i: int| 0 <= i < n.seat_order.len() implies player_of(
        n,
        #[trigger] n.seat_order[i],
    ) is Some by {
        assert(n.players[i].id == n.seat_order[i]);
        assert forall|j: int| 0 <= j < i implies (#[trigger] n.players[j]).id != n.seat_order[i] by {
            assert(n.players[j].id == PlayerId(j as u8));
        }
        lemma_seat(n.players, n.seat_order[i], i);
    }
}

proof fn lemma_loading_keeps_seats(g: Game, d: DeckModel, e: DeckModel)
    ensures
        same_seats(decks_loaded(g, d, e).players, g.players),
        decks_loaded(g, d, e).seat_order == g.seat_order,
{
    let a = crate::deck_loading::entries_loaded(g, PlayerId(0), d.main_deck, false, d.main_deck.len());
    lemma_entries_keep_seats(g, PlayerId(0), d.main_deck, false, d.main_deck.len());
    lemma_entries_keep_seats(a, PlayerId(0), d.commander, true, d.commander.len());
    let b = crate::deck_loading::deck_loaded(g, PlayerId(0), d);
    lemma_entries_keep_seats(b, PlayerId(1), e.main_deck, false, e.main_deck.len());
    let c = crate::deck_loading::entries_loaded(b, PlayerId(1), e.main_deck, false, e.main_deck.len());
    lemma_entries_keep_seats(c, PlayerId(1), e.commander, true, e.commander.len());
}

proof fn lemma_entries_keep_seats(
    g: Game,
    owner: PlayerId,
    list: Seq<DeckEntry>,
    as_commanders: bool,
    n: nat,
)
    ensures
        same_seats(
            crate::deck_loading::entries_loaded(g, owner, list, as_commanders, n).players,
            g.players,
        ),
        crate::deck_loading::entries_loaded(g, owner, list, as_commanders, n).seat_order
            == g.seat_order,
    decreases n,
{
    if 0 < n <= list.len() {
        lemma_entries_keep_seats(g, owner, list, as_commanders, (n - 1) as nat);
        let h = crate::deck_loading::entries_loaded(g, owner, list, as_commanders, (n - 1) as nat);
        let entry = list[n - 1];
        lemma_copies_keep_seats(h, entry.card@, owner, entry.count as nat);
    }
}

proof fn lemma_copies_keep_seats(
    g: Game,
    f: crate::object::CardFaceModel,
    owner: PlayerId,
    n: nat,
)
    ensures
        same_seats(crate::deck_loading::copies_created(g, f, owner, n).players, g.players),
        crate::deck_loading::copies_created(g, f, owner, n).seat_order == g.seat_order,
        same_seats(crate::deck_loading::commanders_created(g, f, owner, n).players, g.players),
        crate::deck_loading::commanders_created(g, f, owner, n).seat_order == g.seat_order,
    decreases n,
{
    if n > 0 {
        lemma_copies_keep_seats(g, f, owner, (n - 1) as nat);
    }
}

fn append_events(events: &mut Vec<GameEvent>, more: Vec<GameEvent>)
    ensures
        log(final(events)@) == log(old(events)@) + log(more@),
{
    let ghost start = log(events@);
    let mut more = more;
    let ghost added = log(more@);
    events.append(&mut more);
    assert(log(events@) =~= start + added);
}

/// Whether a match can have gone on to another state when a player has chosen who begins.
pub open spec fn is_next_game(
    g: Game,
    h: Game,
    told: Seq<EventModel>,
    waiting_for: WaitingModel,
    chooser: PlayerId,
    play_first: bool,
) -> bool {
    exists|fresh: Game| #[trigger]
        is_new_game(fresh, g.format_config, g.players.len() as u8, next_seed(g)) && is_started(
            opened_by(
                carried_over(g, fresh, chooser, play_first),
                chosen_starter(chooser, play_first),
            ),
            h,
            told,
            waiting_for,
        )
}

/// Whether a match can have gone on to another state, with more told, when a player has chosen who
/// begins.
pub open spec fn goes_on(
    g: Game,
    told: Seq<EventModel>,
    h: Game,
    told_now: Seq<EventModel>,
    waiting_for: WaitingModel,
    chooser: PlayerId,
    play_first: bool,
) -> bool {
    exists|more: Seq<EventModel>| #[trigger]
        is_next_game(g, h, more, waiting_for, chooser, play_first) && told_now == told + more
}

proof fn lemma_seats_of_next_game(
    fresh: Game,
    before: Game,
    config: crate::state::FormatConfig,
    count: u8,
    seed: u64,
    d: DeckModel,
    e: DeckModel,
)
    requires
        is_new_game(fresh, config, count, seed),
        before.players == fresh.players,
        before.seat_order == fresh.seat_order,
    ensures
        every_seat_is_taken(decks_loaded(before, d, e)),
{
    let loaded = decks_loaded(before, d, e);
    lemma_new_seats(fresh, config, count, seed);
    lemma_loading_keeps_seats(before, d, e);
    assert forall|i: int| 0 <= i < loaded.seat_order.len() implies player_of(
        loaded,
        #[trigger] loaded.seat_order[i],
    ) is Some by {
        assert(player_of(fresh, fresh.seat_order[i]) is Some);
        lemma_same_seats(loaded.players, fresh.players, loaded.seat_order[i]);
    }
}

fn prepare_next_game(
    state: &GameState,
    chooser: PlayerId,
    play_first: bool,
    payload: &DeckPayload,
) -> (r: GameState)
    requires
        pool_in(state@, PlayerId(0)) is Some,
        pool_in(state@, PlayerId(1)) is Some,
        payload.player@ == current_deck(pool_in(state@, PlayerId(0))->0),
        payload.opponent@ == current_deck(pool_in(state@, PlayerId(1))->0),
    ensures
        every_seat_is_taken(r@),
        exists|fresh: Game| #[trigger]
            is_new_game(
                fresh,
                state@.format_config,
                state@.players.len() as u8,
                next_seed(state@),
            ) && r@ == carried_over(state@, fresh, chooser, play_first),
{
    assert(state@.players.len() == state.players@.len());
    let player_count: u8 = #[verifier::truncate]
    (state.players.len() as u8);
    let mut next_state = GameState::new(
        state.format_config,
        player_count,
        state.rng_seed.wrapping_add(state.game_number as u64 + 1),
    );
    let ghost fresh = next_state@;
    next_state.match_config = state.match_config;
    next_state.match_phase = MatchPhase::InGame;
    next_state.match_score = state.match_score;
    next_state.game_number = state.game_number;
    next_state.current_starting_player = if play_first {
        chooser
    } else {
        opponent(chooser)
    };
    next_state.next_game_chooser = Some(chooser);
    let ghost before = next_state@;
    load_deck_into_state(&mut next_state, payload);
    proof {
        reveal(carried_over);
        lemma_seats_of_next_game(
            fresh,
            before,
            state@.format_config,
            player_count,
            next_seed(state@),
            payload.player@,
            payload.opponent@,
        );
        assert(is_new_game(
            fresh,
            state@.format_config,
            state@.players.len() as u8,
            next_seed(state@),
        ));
    }
    next_state
}

fn check_choice(state: &GameState, chooser: PlayerId) -> (r: Result<DeckPayload, String>)
    ensures
        match choice_refusal(state@, chooser) {
            Some(text) => r is Err && (r->Err_0)@ == text,
            None => r is Ok && pool_in(state@, PlayerId(0)) is Some && pool_in(
                state@,
                PlayerId(1),
            ) is Some && (r->Ok_0).player@ == current_deck(pool_in(state@, PlayerId(0))->0) && (
            r->Ok_0).opponent@ == current_deck(pool_in(state@, PlayerId(1))->0),
        },
{
    if state.match_phase != MatchPhase::BetweenGames {
        return Err("Cannot choose play/draw outside BetweenGames phase".to_owned());
    }
    let expected = match state.next_game_chooser {
        Some(c) => c,
        None => PlayerId(0),
    };
    if chooser != expected {
        return Err("Only the designated chooser may choose play/draw".to_owned());
    }
    deck_payload_from_current_pools(state)
}

/// Starts the next game of a match when a player has chosen who begins: the same match with the
/// decks that the players have now, in a game that has not begun.
pub fn handle_choose_play_draw(
    state: &mut GameState,
    chooser: PlayerId,
    play_first: bool,
    events: &mut Vec<GameEvent>,
) -> (r: Result<WaitingFor, String>)
    ensures
        match choice_refusal(old(state)@, chooser) {
            Some(text) => r is Err && (r->Err_0)@ == text && final(state)@ == old(state)@ && log(
                final(events)@,
            ) == log(old(events)@),
            None => r is Ok && (r->Ok_0)@ == final(state)@.waiting_for && goes_on(
                old(state)@,
                log(old(events)@),
                final(state)@,
                log(final(events)@),
                (r->Ok_0)@,
                chooser,
                play_first,
            ),
        },
{
    let payload = match check_choice(state, chooser) {
        Ok(p) => p,
        Err(e) => {
            return Err(e);
        },
    };
    let starting_player = if play_first {
        chooser
    } else {
        opponent(chooser)
    };
    let ghost g = state@;
    let mut next_state = prepare_next_game(state, chooser, play_first, &payload);
    let ghost loaded = next_state@;
    let start = start_game_with_starting_player(&mut next_state, starting_player);
    let ghost told = log(start.events@);
    append_events(events, start.events);
    *state = next_state;
    proof {
        let fresh = choose|fresh: Game| #[trigger]
            is_new_game(fresh, g.format_config, g.players.len() as u8, next_seed(g)) && loaded
                == carried_over(g, fresh, chooser, play_first);
        assert(is_new_game(fresh, g.format_config, g.players.len() as u8, next_seed(g)));
        assert(is_next_game(g, state@, told, start.waiting_for@, chooser, play_first));
    }
    assert(goes_on(
        g,
        log(old(events)@),
        state@,
        log(events@),
        start.waiting_for@,
        chooser,
        play_first,
    ));
    Ok(start.waiting_for)
}

// ---------------------------------------------------------------------------
// Laws
// ---------------------------------------------------------------------------

/// A match of three games goes on until a player has won two. Each game that is over counts for the
/// winner or as a draw, as long as the counters hold it, and the loser chooses next.
pub proof fn a_match_goes_on_until_two_games_are_won(g: Game, winner: Option<PlayerId>)
    requires
        g.match_phase == MatchPhase::InGame,
        g.match_config.match_type == MatchType::Bo3,
        g.players.len() == 2,
        g.waiting_for == (WaitingModel::GameOver { winner }),
    ensures
        after_game(g).match_phase == MatchPhase::Completed <==> is_won(after_game(g).match_score),
        after_game(g).match_score == scored(g.match_score, winner),
        !is_won(after_game(g).match_score) ==> after_game(g).match_phase
            == MatchPhase::BetweenGames && after_game(g).next_game_chooser == next_chooser(
            g,
            winner,
        ),
        (winner is Some ==> winner->0 == PlayerId(0) || winner->0 == PlayerId(1))
            && g.match_score.p0_wins < u8::MAX && g.match_score.p1_wins < u8::MAX
            && g.match_score.draws < u8::MAX ==> after_game(g).match_score.p0_wins + after_game(
            g,
        ).match_score.p1_wins + after_game(g).match_score.draws == g.match_score.p0_wins
            + g.match_score.p1_wins + g.match_score.draws + 1,
        after_game(g).match_phase == MatchPhase::BetweenGames && winner is Some
            ==> after_game(g).next_game_chooser == Some(other_player(winner->0)),
{
}

proof fn lemma_deck_total(pool: DeckPoolModel, list: Seq<DeckCardCount>, n: nat)
    requires
        n <= list.len(),
    ensures
        deck_size(as_deck(pool, list, n)) == total(list.take(n as int)),
    decreases n,
{
    if n > 0 {
        lemma_deck_total(pool, list, (n - 1) as nat);
        lemma_next_count(list, n - 1, Seq::empty());
        let front = as_deck(pool, list, (n - 1) as nat);
        let all = as_deck(pool, list, n);
        if list[n - 1].count > 0 {
            assert(all.drop_last() =~= front);
        }
    } else {
        assert(list.take(0) =~= Seq::empty());
    }
}

/// A deck that was accepted has as many cards as the one that was registered.
pub proof fn accepted_decks_keep_their_size(
    g: Game,
    player: PlayerId,
    main: Seq<DeckCardCount>,
    sideboard: Seq<DeckCardCount>,
)
    requires
        submission_refusal(g, player, main, sideboard) is None,
    ensures
        ({
            let i = first_where(g.deck_pools, pool_for(player))->0;
            0 <= i < g.deck_pools.len() && deck_size(
                submitted(g, player, main, sideboard).deck_pools[i].current_main,
            ) == deck_size(g.deck_pools[i].registered_main)
        }),
{
    let s = g.deck_pools;
    let p = pool_for(player);
    let i = choose|i: int| is_first(s, p, i);
    assert(exists|i: int| is_first(s, p, i));
    lemma_first_where(s, p, i);
    lemma_deck_total(s[i], main, main.len());
    assert(main.take(main.len() as int) =~= main);
}

} // verus!
