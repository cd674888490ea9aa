//! What a match of several games promises: the score, who chooses, which decks are accepted.

use vstd::prelude::*;
use crate::cards::Zone;
use crate::deck_loading::{
    commanders_created, copies_created, deck_loaded, decks_loaded, entries_loaded, DeckModel,
};
use crate::engine::{is_started, opened_by};
use crate::events::{EventModel, WaitingModel};
use crate::ids::{ObjectId, PlayerId};
use crate::match_flow::{
    after_game, as_deck, carried_over, choice_refusal, chosen_starter, copies, copies_in_deck,
    current_deck, deck_size, entry_named, goes_on, is_next_game, next_seed, pool_for,
    submission_refusal, submitted, total,
};
use crate::mulligan::{drawn, hands_dealt, libraries_shuffled, library_of, STARTING_HAND_SIZE};
use crate::object::CardFaceModel;
use crate::seqs::{first_where, is_first, lemma_first_where, lemma_first_where_none};
use crate::state::{
    is_new_game, DeckCardCount, DeckEntry, DeckPoolModel, Game, MatchPhase, MatchType,
};
use crate::zones::moved;

verus! {

/// The player of a duel who is not `p`.
pub open spec fn opponent(p: PlayerId) -> PlayerId {
    if p.0 == 0 {
        PlayerId(1)
    } else {
        PlayerId(0)
    }
}

/// One where something holds, else nothing.
pub open spec fn one_if(b: bool) -> int {
    if b {
        1
    } else {
        0
    }
}

/// A game of a match of three that is over counts once: for the player who won it, or as a draw.
/// The match is over as soon as a player has two wins. Else the next game follows, which the loser
/// chooses for, and after a draw the one who chose for the game before.
pub proof fn a_game_that_is_over_counts_once(g: Game, winner: Option<PlayerId>)
    requires
        g.match_phase == MatchPhase::InGame,
        g.match_config.match_type == MatchType::Bo3,
        g.players.len() == 2,
        g.waiting_for == (WaitingModel::GameOver { winner }),
        winner is Some ==> winner->0 == PlayerId(0) || winner->0 == PlayerId(1),
        g.match_score.p0_wins < u8::MAX,
        g.match_score.p1_wins < u8::MAX,
        g.match_score.draws < u8::MAX,
        g.game_number < u8::MAX,
    ensures
        ({
            let h = after_game(g);
            let s = g.match_score;
            let t = h.match_score;
            let over = t.p0_wins >= 2 || t.p1_wins >= 2;
            &&& t.p0_wins == s.p0_wins + one_if(winner == Some(PlayerId(0)))
            &&& t.p1_wins == s.p1_wins + one_if(winner == Some(PlayerId(1)))
            &&& t.draws == s.draws + one_if(winner is None)
            &&& over ==> h == (Game { match_score: t, match_phase: MatchPhase::Completed, ..g })
            &&& !over ==> {
                &&& h.match_phase == MatchPhase::BetweenGames
                &&& h.game_number == g.game_number + 1
                &&& h.sideboard_submitted.len() == 0
                &&& winner is Some ==> h.next_game_chooser == Some(opponent(winner->0))
                &&& winner is None && g.next_game_chooser is Some ==> h.next_game_chooser
                    == g.next_game_chooser
                &&& winner is None && g.next_game_chooser is None ==> h.next_game_chooser == Some(
                    g.current_starting_player,
                )
                &&& h.waiting_for == (WaitingModel::BetweenGamesSideboard {
                    player: PlayerId(0),
                    game_number: h.game_number,
                    score: t,
                })
                &&& h == Game {
                    match_score: t,
                    match_phase: h.match_phase,
                    game_number: h.game_number,
                    sideboard_submitted: h.sideboard_submitted,
                    next_game_chooser: h.next_game_chooser,
                    waiting_for: h.waiting_for,
                    ..g
                }
            }
        }),
{
}

/// A match of one game, or one that is no duel, is over with the game, and nothing is counted. While
/// a game goes on, and between games, nothing changes.
pub proof fn a_single_game_ends_the_match(g: Game)
    ensures
        g.match_phase != MatchPhase::InGame ==> after_game(g) == g,
        !(g.waiting_for is GameOver) ==> after_game(g) == g,
        g.match_phase == MatchPhase::InGame && g.waiting_for is GameOver && (
        g.match_config.match_type == MatchType::Bo1 || g.players.len() != 2) ==> after_game(g)
            == (Game { match_phase: MatchPhase::Completed, ..g }),
{
}

/// Counting cards of a list adds up the counts of its lines, all of them or those with a name.
pub proof fn lines_of_a_list_add_up(list: Seq<DeckCardCount>, line: DeckCardCount, name: Seq<char>)
    ensures
        total(Seq::empty()) == 0,
        copies(Seq::empty(), name) == 0,
        total(list.push(line)) == total(list) + line.count,
        copies(list.push(line), name) == copies(list, name) + (if line.name@ == name {
            line.count as int
        } else {
            0
        }),
{
    assert(list.push(line).drop_last() =~= list);
}

/// Counting cards of a deck adds up the counts of its entries, all of them or those with a name.
pub proof fn entries_of_a_deck_add_up(list: Seq<DeckEntry>, entry: DeckEntry, name: Seq<char>)
    ensures
        deck_size(Seq::empty()) == 0,
        copies_in_deck(Seq::empty(), name) == 0,
        deck_size(list.push(entry)) == deck_size(list) + entry.count,
        copies_in_deck(list.push(entry), name) == copies_in_deck(list, name) + (
        if entry.card.name@ == name {
            entry.count as int
        } else {
            0
        }),
{
    assert(list.push(entry).drop_last() =~= list);
}

/// A player with a pool of cards may submit a deck between games exactly when it is as large as the
/// one that was registered and both lists together hold each card as often as it was registered.
/// The deck that is played next, and nothing else of the pool, is then the one submitted.
pub proof fn decks_are_accepted_from_the_registered_cards(
    g: Game,
    player: PlayerId,
    main: Seq<DeckCardCount>,
    sideboard: Seq<DeckCardCount>,
    i: int,
)
    requires
        0 <= i < g.deck_pools.len(),
        g.deck_pools[i].player == player,
        forall|j: int| 0 <= j < i ==> (#[trigger] g.deck_pools[j]).player != player,
    ensures
        ({
            let pool = g.deck_pools[i];
            let h = submitted(g, player, main, sideboard);
            let now = h.deck_pools[i];
            &&& submission_refusal(g, player, main, sideboard) is None <==> g.match_phase
                == MatchPhase::BetweenGames && total(main) == deck_size(pool.registered_main) && (
            forall|name: Seq<char>|
                copies(main, name) + #[trigger] copies(sideboard, name) == copies_in_deck(
                    pool.registered_main,
                    name,
                ) + copies_in_deck(pool.registered_sideboard, name))
            &&& h.deck_pools == g.deck_pools.update(i, now)
            &&& now == (DeckPoolModel {
                current_main: now.current_main,
                current_sideboard: now.current_sideboard,
                ..pool
            })
            &&& now.current_main == as_deck(pool, main, main.len())
            &&& now.current_sideboard == as_deck(pool, sideboard, sideboard.len())
            &&& h.sideboard_submitted.contains(player)
            &&& forall|p: PlayerId|
                p != player ==> (h.sideboard_submitted.contains(p)
                    <==> #[trigger] g.sideboard_submitted.contains(p))
            &&& h == Game {
                deck_pools: h.deck_pools,
                sideboard_submitted: h.sideboard_submitted,
                waiting_for: h.waiting_for,
                ..g
            }
        }),
{
    lemma_first_where(g.deck_pools, pool_for(player), i);
    let list = g.sideboard_submitted;
    let now = submitted(g, player, main, sideboard).sideboard_submitted;
    if !list.contains(player) {
        assert(now == list.push(player));
        assert(now[list.len() as int] == player);
        assert forall|p: PlayerId| p != player implies (now.contains(p)
            <==> #[trigger] list.contains(p)) by {
            if list.contains(p) {
                let k = choose|k: int| 0 <= k < list.len() && list[k] == p;
                assert(now[k] == p);
            }
            if now.contains(p) {
                let k = choose|k: int| 0 <= k < now.len() && now[k] == p;
                assert(list[k] == p);
            }
        }
    }
}

/// Moving copies of a card from the deck to the sideboard leaves the cards that both hold together
/// as they are.
pub proof fn cards_may_change_sides(
    main: Seq<DeckCardCount>,
    sideboard: Seq<DeckCardCount>,
    line: DeckCardCount,
    name: Seq<char>,
)
    ensures
        copies(main.push(line), name) + copies(sideboard, name) == copies(main, name) + copies(
            sideboard.push(line),
            name,
        ),
        total(main.push(line)) + total(sideboard) == total(main) + total(sideboard.push(line)),
{
    lines_of_a_list_add_up(main, line, name);
    lines_of_a_list_add_up(sideboard, line, name);
}

/// A player without a pool of cards cannot submit a deck.
pub proof fn without_a_pool_no_deck_is_accepted(
    g: Game,
    player: PlayerId,
    main: Seq<DeckCardCount>,
    sideboard: Seq<DeckCardCount>,
)
    requires
        forall|j: int|
            0 <= j < g.deck_pools.len() ==> (#[trigger] g.deck_pools[j]).player != player,
    ensures
        submission_refusal(g, player, main, sideboard) is Some,
{
    lemma_first_where_none(g.deck_pools, pool_for(player));
}

/// A deck is read line by line: each line with cards in it becomes an entry with as many copies of
/// the first card of that name that was registered, and a line without cards becomes nothing.
pub proof fn lines_become_entries(
    pool: DeckPoolModel,
    list: Seq<DeckCardCount>,
    line: DeckCardCount,
    cards: Seq<DeckEntry>,
    i: int,
)
    requires
        cards == pool.registered_main + pool.registered_sideboard + pool.registered_commander,
        0 <= i < cards.len(),
        cards[i].card.name@ == line.name@,
        forall|j: int| 0 <= j < i ==> (#[trigger] cards[j]).card.name@ != line.name@,
    ensures
        as_deck(pool, Seq::empty(), 0).len() == 0,
        line.count > 0 ==> as_deck(pool, list.push(line), list.len() + 1) == as_deck(
            pool,
            list,
            list.len(),
        ).push(DeckEntry { card: cards[i].card, count: line.count }),
        line.count == 0 ==> as_deck(pool, list.push(line), list.len() + 1) == as_deck(
            pool,
            list,
            list.len(),
        ),
{
    lemma_first_where(cards, entry_named(line.name@), i);
    lemma_front(pool, list, line, list.len());
}

proof fn lemma_front(
    pool: DeckPoolModel,
    list: Seq<DeckCardCount>,
    line: DeckCardCount,
    n: nat,
)
    requires
        n <= list.len(),
    ensures
        as_deck(pool, list.push(line), n) == as_deck(pool, list, n),
    decreases n,
{
    if n > 0 {
        lemma_front(pool, list, line, (n - 1) as nat);
    }
}

/// When the second of two players has submitted a deck, the player who is to choose is asked who
/// goes first; before, the other player is asked for a deck.
pub proof fn both_players_submit_decks(
    g: Game,
    player: PlayerId,
    main: Seq<DeckCardCount>,
    sideboard: Seq<DeckCardCount>,
)
    requires
        player.0 <= 1,
    ensures
        ({
            let now = submitted(g, player, main, sideboard).waiting_for;
            let done = g.sideboard_submitted.contains(opponent(player));
            &&& done && g.next_game_chooser is Some ==> now
                == (WaitingModel::BetweenGamesChoosePlayDraw {
                player: g.next_game_chooser->0,
                game_number: g.game_number,
                score: g.match_score,
            })
            &&& done && g.next_game_chooser is None ==> now
                == (WaitingModel::BetweenGamesChoosePlayDraw {
                player: PlayerId(0),
                game_number: g.game_number,
                score: g.match_score,
            })
            &&& !done ==> now == (WaitingModel::BetweenGamesSideboard {
                player: opponent(player),
                game_number: g.game_number,
                score: g.match_score,
            })
        }),
{
    let list = g.sideboard_submitted;
    let now = submitted(g, player, main, sideboard).sideboard_submitted;
    let other = opponent(player);
    if !list.contains(player) {
        assert(now[list.len() as int] == player);
    }
    if list.contains(other) {
        let k = choose|k: int| 0 <= k < list.len() && list[k] == other;
        assert(now[k] == other);
    } else if now.contains(other) {
        let k = choose|k: int| 0 <= k < now.len() && now[k] == other;
        assert(list[k] == other);
    }
}

/// Between games, the player who is to choose may say who goes first, and no other player. Where
/// nobody is named, the first player chooses.
pub proof fn the_chooser_chooses(g: Game, chooser: PlayerId, i: int, j: int)
    requires
        0 <= i < g.deck_pools.len(),
        0 <= j < g.deck_pools.len(),
        g.deck_pools[i].player.0 == 0,
        g.deck_pools[j].player.0 == 1,
    ensures
        choice_refusal(g, chooser) is None <==> g.match_phase == MatchPhase::BetweenGames && (
        g.next_game_chooser == Some(chooser) || g.next_game_chooser is None && chooser.0 == 0),
{
    lemma_some_first(g.deck_pools, pool_for(PlayerId(0)), i);
    lemma_some_first(g.deck_pools, pool_for(PlayerId(1)), j);
}

proof fn lemma_some_first(s: Seq<DeckPoolModel>, p: spec_fn(DeckPoolModel) -> bool, i: int)
    requires
        0 <= i < s.len(),
        p(s[i]),
    ensures
        first_where(s, p) is Some,
    decreases i,
{
    if exists|j: int| 0 <= j < i && p(#[trigger] s[j]) {
        let j = choose|j: int| 0 <= j < i && p(#[trigger] s[j]);
        lemma_some_first(s, p, j);
    } else {
        assert(is_first(s, p, i));
    }
}

/// Whether two games are of one match, in one turn of one player.
pub open spec fn same_match(g: Game, h: Game) -> bool {
    &&& h.match_config == g.match_config && h.match_phase == g.match_phase
    &&& h.match_score == g.match_score && h.game_number == g.game_number
    &&& h.current_starting_player == g.current_starting_player
    &&& h.next_game_chooser == g.next_game_chooser
    &&& h.active_player == g.active_player && h.turn_number == g.turn_number
    &&& h.format_config == g.format_config && h.seat_order == g.seat_order
    &&& h.deck_pools == g.deck_pools && h.rng_seed == g.rng_seed
}

proof fn lemma_moved(g: Game, id: ObjectId, to: Zone)
    ensures
        same_match(g, moved(g, id, to)),
{
    reveal(moved);
}

proof fn lemma_drawn(g: Game, told: Seq<EventModel>, p: PlayerId, n: nat)
    ensures
        same_match(g, drawn(g, told, p, n).0),
    decreases n,
{
    if n > 0 {
        lemma_drawn(g, told, p, (n - 1) as nat);
        let h = drawn(g, told, p, (n - 1) as nat).0;
        let library = library_of(h, p);
        if library.len() > 0 {
            lemma_moved(h, library[0], Zone::Hand);
        }
    }
}

proof fn lemma_dealt(g: Game, told: Seq<EventModel>, seats: Seq<PlayerId>, n: nat)
    ensures
        same_match(g, hands_dealt(g, told, seats, n).0),
    decreases n,
{
    if n > 0 && n <= seats.len() {
        lemma_dealt(g, told, seats, (n - 1) as nat);
        let (h, t) = hands_dealt(g, told, seats, (n - 1) as nat);
        lemma_drawn(h, t, seats[n - 1], STARTING_HAND_SIZE as nat);
    }
}

proof fn lemma_copies(g: Game, f: CardFaceModel, owner: PlayerId, n: nat)
    ensures
        same_match(g, copies_created(g, f, owner, n)),
        same_match(g, commanders_created(g, f, owner, n)),
    decreases n,
{
    if n > 0 {
        lemma_copies(g, f, owner, (n - 1) as nat);
    }
}

proof fn lemma_loaded(
    g: Game,
    owner: PlayerId,
    list: Seq<DeckEntry>,
    as_commanders: bool,
    n: nat,
)
    ensures
        same_match(g, entries_loaded(g, owner, list, as_commanders, n)),
    decreases n,
{
    if n > 0 && n <= list.len() {
        lemma_loaded(g, owner, list, as_commanders, (n - 1) as nat);
        let h = entries_loaded(g, owner, list, as_commanders, (n - 1) as nat);
        let entry = list[n - 1];
        lemma_copies(h, entry.card@, owner, entry.count as nat);
    }
}

proof fn lemma_deck(g: Game, owner: PlayerId, d: DeckModel)
    ensures
        same_match(g, deck_loaded(g, owner, d)),
{
    lemma_loaded(g, owner, d.main_deck, false, d.main_deck.len());
    let h = entries_loaded(g, owner, d.main_deck, false, d.main_deck.len());
    lemma_loaded(h, owner, d.commander, true, d.commander.len());
}

proof fn lemma_started(o: Game, h: Game, more: Seq<EventModel>, waiting_for: WaitingModel)
    requires
        is_started(o, h, more, waiting_for),
        waiting_for is MulliganDecision,
    ensures
        same_match(o, h),
        h.waiting_for == waiting_for,
{
    reveal(is_started);
    let first = Seq::<EventModel>::empty().push(EventModel::MulliganStarted);
    let s = choose|s: Game|
        {
            let dealt = hands_dealt(s, first, s.seat_order, s.seat_order.len());
            #[trigger] libraries_shuffled(o, s) && h == (Game { waiting_for, ..dealt.0 }) && more
                == dealt.1
        };
    lemma_dealt(s, first, s.seat_order, s.seat_order.len());
}

proof fn lemma_carried(
    g: Game,
    fresh: Game,
    chooser: PlayerId,
    play_first: bool,
    i: int,
    j: int,
)
    requires
        0 <= i < g.deck_pools.len(),
        g.deck_pools[i].player == PlayerId(0),
        forall|k: int| 0 <= k < i ==> (#[trigger] g.deck_pools[k]).player != PlayerId(0),
        0 <= j < g.deck_pools.len(),
        g.deck_pools[j].player == PlayerId(1),
        forall|k: int| 0 <= k < j ==> (#[trigger] g.deck_pools[k]).player != PlayerId(1),
    ensures
        ({
            let c = carried_over(g, fresh, chooser, play_first);
            &&& c.match_score == g.match_score && c.game_number == g.game_number
            &&& c.match_config == g.match_config && c.format_config == fresh.format_config
            &&& c.match_phase is InGame && c.next_game_chooser == Some(chooser)
            &&& c.rng_seed == fresh.rng_seed
            &&& c.deck_pools.len() == 2
            &&& c.deck_pools[0].current_main == g.deck_pools[i].current_main
            &&& c.deck_pools[0].current_sideboard == g.deck_pools[i].current_sideboard
            &&& c.deck_pools[1].current_main == g.deck_pools[j].current_main
            &&& c.deck_pools[1].current_sideboard == g.deck_pools[j].current_sideboard
        }),
{
    lemma_first_where(g.deck_pools, pool_for(PlayerId(0)), i);
    lemma_first_where(g.deck_pools, pool_for(PlayerId(1)), j);
    let a = Game {
        match_config: g.match_config,
        match_phase: MatchPhase::InGame,
        match_score: g.match_score,
        game_number: g.game_number,
        current_starting_player: chosen_starter(chooser, play_first),
        next_game_chooser: Some(chooser),
        ..fresh
    };
    let d = current_deck(g.deck_pools[i]);
    let e = current_deck(g.deck_pools[j]);
    lemma_deck(a, PlayerId(0), d);
    lemma_deck(deck_loaded(a, PlayerId(0), d), PlayerId(1), e);
    reveal(carried_over);
    assert(carried_over(g, fresh, chooser, play_first) == decks_loaded(a, d, e));
}

/// The next game of a match keeps the score and the number of the game. The player who was to choose
/// goes first, or the other one, as chosen. It begins with the decks as they were submitted, and with
/// a decision on mulligans where there are cards.
pub proof fn the_next_game_of_a_match(
    g: Game,
    told: Seq<EventModel>,
    h: Game,
    told_now: Seq<EventModel>,
    waiting_for: WaitingModel,
    chooser: PlayerId,
    play_first: bool,
    i: int,
    j: int,
)
    requires
        goes_on(g, told, h, told_now, waiting_for, chooser, play_first),
        chooser.0 <= 1,
        0 <= i < g.deck_pools.len(),
        g.deck_pools[i].player == PlayerId(0),
        forall|k: int| 0 <= k < i ==> (#[trigger] g.deck_pools[k]).player != PlayerId(0),
        0 <= j < g.deck_pools.len(),
        g.deck_pools[j].player == PlayerId(1),
        forall|k: int| 0 <= k < j ==> (#[trigger] g.deck_pools[k]).player != PlayerId(1),
        waiting_for is MulliganDecision,
    ensures
        h.match_score == g.match_score && h.game_number == g.game_number,
        h.match_config == g.match_config && h.format_config == g.format_config,
        h.match_phase is InGame,
        h.turn_number == 1,
        play_first ==> h.active_player == chooser && h.current_starting_player == chooser,
        !play_first ==> h.active_player == opponent(chooser) && h.current_starting_player
            == opponent(chooser),
        h.next_game_chooser == Some(chooser),
        g.rng_seed + g.game_number + 1 <= u64::MAX ==> h.rng_seed == g.rng_seed + g.game_number + 1,
        h.waiting_for == waiting_for,
        h.deck_pools.len() == 2,
        h.deck_pools[0].current_main == g.deck_pools[i].current_main,
        h.deck_pools[0].current_sideboard == g.deck_pools[i].current_sideboard,
        h.deck_pools[1].current_main == g.deck_pools[j].current_main,
        h.deck_pools[1].current_sideboard == g.deck_pools[j].current_sideboard,
        told_now.len() >= told.len() && told_now.take(told.len() as int) == told,
{
    let more = choose|more: Seq<EventModel>| #[trigger]
        is_next_game(g, h, more, waiting_for, chooser, play_first) && told_now == told + more;
    assert(told_now.take(told.len() as int) =~= told);
    let starter = chosen_starter(chooser, play_first);
    let fresh = choose|fresh: Game| #[trigger]
        is_new_game(fresh, g.format_config, g.players.len() as u8, next_seed(g)) && is_started(
            opened_by(carried_over(g, fresh, chooser, play_first), starter),
            h,
            more,
            waiting_for,
        );
    let c = carried_over(g, fresh, chooser, play_first);
    lemma_carried(g, fresh, chooser, play_first, i, j);
    lemma_started(opened_by(c, starter), h, more, waiting_for);
}

} // verus!
