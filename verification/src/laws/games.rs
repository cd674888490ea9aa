//! What the start of a game promises: who sits where, which cards lie where, and who decides on
//! mulligans.

use std::sync::Arc;
use vstd::prelude::*;
use crate::cards::{Phase, Zone};
use crate::deck_loading::{
    commanders_created, copies_created, deck_loaded, decks_loaded, entries_loaded, DeckModel,
};
use crate::engine::{opened_by, seated_from};
use crate::events::{EventModel, WaitingModel};
use crate::ids::{CardId, ObjectId, PlayerId};
use crate::laws::faces::number_printed;
use crate::laws::zones::putting_into_a_zone;
use crate::match_flow::deck_size;
use crate::mulligan::{
    after_mulligan, begins_game, cards_are_drawn_from_the_top, cards_to_bottom, first_decision,
    hand_of, hands_dealt, is_stacked, library_of, next_decision, opened, openings_of_hand,
};
use crate::object::{blank, CardFaceModel};
use crate::phasing::untap_phased;
use crate::players::{being, lives, living_from, partner_of, player_after};
use crate::seqs::lemma_first_where;
use crate::state::{
    is_new_game, is_seat, DeckEntry, FormatConfig, Game,
};
use crate::turns::advanced;
use crate::zones::{created, with_entry};
use crate::effects::{acted_on, resolved};
use crate::ability::{Effect, TargetRef};

verus! {

/// A new game has as many players as asked for, in order, each with the starting life of the format
/// and without cards. The first of them is the active player, and nothing has happened yet.
pub proof fn a_new_game_starts_from_nothing(
    g: Game,
    config: FormatConfig,
    player_count: u8,
    seed: u64,
    i: int,
)
    requires
        is_new_game(g, config, player_count, seed),
    ensures
        g.players.len() == player_count && g.seat_order.len() == player_count,
        0 <= i < player_count ==> {
            let p = g.players[i];
            &&& p.id.0 == i && g.seat_order[i].0 == i
            &&& p.life == config.starting_life
            &&& p.hand.len() == 0 && p.library.len() == 0 && p.graveyard.len() == 0
            &&& p.mana.len() == 0 && p.poison_counters == 0 && !p.is_eliminated
            &&& !p.drew_from_empty_library && p.speed is None && p.turns_taken == 0
        },
        g.active_player.0 == 0 && g.priority_player.0 == 0,
        g.turn_number == 0 && g.phase is Untap,
        g.objects.dom() == Set::<ObjectId>::empty() && g.next_object_id == 1,
        g.battlefield.len() == 0 && g.exile.len() == 0 && g.stack.len() == 0,
        g.format_config == config && g.rng_seed == seed && g.game_number == 1,
        g.eliminated_players.len() == 0 && g.combat is None,
{
    assert(g.objects.dom() =~= Set::<ObjectId>::empty());
}

/// The game opens in the first turn of the player who goes first, and the seats are the same, in
/// the same order, counted from that player.
pub proof fn the_starting_player_sits_first(g: Game, p: PlayerId, i: int, k: int)
    requires
        0 <= i < g.seat_order.len(),
        g.seat_order[i] == p,
        forall|j: int| 0 <= j < i ==> #[trigger] g.seat_order[j] != p,
        0 <= k < g.seat_order.len(),
    ensures
        ({
            let h = opened_by(g, p);
            let n = g.seat_order.len();
            &&& h.turn_number == 1 && h.phase is Untap
            &&& h.active_player == p && h.priority_player == p && h.current_starting_player == p
            &&& h.seat_order.len() == n
            &&& h.seat_order[0] == p
            &&& i + k < n ==> h.seat_order[k] == g.seat_order[i + k]
            &&& i + k >= n ==> h.seat_order[k] == g.seat_order[i + k - n]
            &&& h.players == g.players && h.objects == g.objects
        }),
{
    lemma_first_where(g.seat_order, being(p), i);
    assert(seated_from(g.seat_order, p) == g.seat_order.skip(i) + g.seat_order.take(i));
}

/// A turn that begins goes on to the first main phase, each step on the way is told, and the active
/// player has priority. In any other phase only the priority changes.
pub proof fn the_first_main_phase_follows(g: Game, told: Seq<EventModel>)
    ensures
        ({
            let (h, t) = advanced(g, told);
            &&& h.priority_player == g.active_player
            &&& g.phase is Untap || g.phase is Upkeep || g.phase is Draw ==> h.phase
                is PreCombatMain && t.len() > 0 && t.last() == (EventModel::PhaseChanged {
                phase: Phase::PreCombatMain,
            })
            &&& g.phase is Upkeep ==> t.len() == told.len() + 2 && t[told.len() as int]
                == (EventModel::PhaseChanged { phase: Phase::Draw })
            &&& g.phase is Draw ==> t.len() == told.len() + 1
            &&& g.phase is Untap ==> {
                let n = untap_phased(g, told).1.len() as int;
                t.len() == n + 3 && t[n] == (EventModel::PhaseChanged { phase: Phase::Upkeep })
                    && t[n + 1] == (EventModel::PhaseChanged { phase: Phase::Draw })
            }
            &&& !(g.phase is Untap || g.phase is Upkeep || g.phase is Draw) ==> t == told && h == (
            Game { priority_player: g.active_player, ..g })
            &&& g.phase is Upkeep || g.phase is Draw ==> h == (Game {
                phase: Phase::PreCombatMain,
                priority_player: g.active_player,
                ..g
            })
        }),
{
}

/// A player who keeps a hand puts one card back for each mulligan taken; in games of more than two,
/// and in the formats with a commander, the first is free.
pub proof fn each_mulligan_costs_a_card(g: Game, n: u8)
    ensures
        ({
            let free = g.seat_order.len() > 2 || g.format_config.format is Commander
                || g.format_config.format is Brawl || g.format_config.format is HistoricBrawl;
            &&& cards_to_bottom(g, 0) == 0
            &&& !free ==> cards_to_bottom(g, n) == n
            &&& free && n > 0 ==> cards_to_bottom(g, n) == n - 1
        }),
{
}

/// After a mulligan the same player decides again, with one mulligan more. After the seventh there
/// is nothing left to decide but which cards to put back.
pub proof fn mulligans_end(g: Game, player: PlayerId, n: u8)
    ensures
        n < 6 ==> after_mulligan(g, player, n) == (WaitingModel::MulliganDecision {
            player,
            mulligan_count: (n + 1) as u8,
        }),
        n == 6 ==> after_mulligan(g, player, n) == (WaitingModel::MulliganBottomCards {
            player,
            count: cards_to_bottom(g, 7),
        }),
{
}

/// Players decide in the order of their seats: the first is asked first, and after each the next.
pub proof fn players_decide_in_order(g: Game, told: Seq<EventModel>, p: PlayerId, i: int)
    requires
        0 <= i < g.seat_order.len() - 1,
        g.seat_order[i] == p,
        forall|j: int| 0 <= j < i ==> #[trigger] g.seat_order[j] != p,
    ensures
        first_decision(g) == (WaitingModel::MulliganDecision {
            player: g.seat_order[0],
            mulligan_count: 0,
        }),
        next_decision(g, told, p) == (
            g,
            told,
            WaitingModel::MulliganDecision { player: g.seat_order[i + 1], mulligan_count: 0 },
        ),
{
    lemma_first_where(g.seat_order, being(p), i);
}

/// When the last player has decided, the game begins: somebody has priority, and no further
/// decision on a mulligan is asked for.
pub proof fn after_the_last_decision_the_game_begins(
    g: Game,
    told: Seq<EventModel>,
    p: PlayerId,
    i: int,
)
    requires
        0 <= i == g.seat_order.len() - 1,
        g.seat_order[i] == p,
        forall|j: int| 0 <= j < i ==> #[trigger] g.seat_order[j] != p,
    ensures
        next_decision(g, told, p).2 is Priority,
        next_decision(g, told, p).2->Priority_player == next_decision(g, told, p).0.priority_player,
{
    lemma_first_where(g.seat_order, being(p), i);
}

/// An opening hand has seven cards, if the library has as many: the first player is dealt them
/// before the others are.
pub proof fn opening_hands_have_seven_cards(g: Game, told: Seq<EventModel>, p: PlayerId)
    requires
        is_stacked(g, p),
        library_of(g, p).len() >= 7,
        hand_of(g, p).len() == 0,
    ensures
        ({
            let (h, t) = hands_dealt(g, told, seq![p], 1);
            &&& hand_of(h, p) == library_of(g, p).take(7)
            &&& library_of(h, p) == library_of(g, p).skip(7)
            &&& t.last() == (EventModel::CardsDrawn { player_id: p, count: 7 })
        }),
{
    reveal_with_fuel(hands_dealt, 2);
    cards_are_drawn_from_the_top(g, told, p, 7);
    assert(hand_of(g, p) + library_of(g, p).take(7) =~= library_of(g, p).take(7));
}

/// Cards that begin the game in play are found in the hand in order: one entry for each card whose
/// first such ability it is, in the name of the player.
pub proof fn cards_that_begin_the_game_are_found(
    g: Game,
    p: PlayerId,
    hand: Seq<ObjectId>,
    id: ObjectId,
    k: int,
)
    requires
        g.objects.dom().contains(id),
        0 <= k < g.objects[id].abilities.len(),
        g.objects[id].abilities[k].kind is BeginGame,
        forall|j: int|
            0 <= j < k ==> !((#[trigger] g.objects[id].abilities[j]).kind is BeginGame),
    ensures
        openings_of_hand(g, p, hand.push(id), hand.len() + 1) == openings_of_hand(
            g,
            p,
            hand,
            hand.len(),
        ).push((p, id, g.objects[id].abilities[k].effect)),
{
    lemma_first_where(g.objects[id].abilities, begins_game(), k);
    lemma_openings(g, p, hand, id, hand.len());
}

proof fn lemma_openings(g: Game, p: PlayerId, hand: Seq<ObjectId>, id: ObjectId, n: nat)
    requires
        n <= hand.len(),
    ensures
        openings_of_hand(g, p, hand.push(id), n) == openings_of_hand(g, p, hand, n),
    decreases n,
{
    if n > 0 {
        lemma_openings(g, p, hand, id, (n - 1) as nat);
    }
}

proof fn lemma_created(g: Game, f: CardFaceModel, owner: PlayerId, zone: Zone, i: int)
    requires
        is_seat(g.players, owner, i),
        zone is Library || zone is Command,
    ensures
        ({
            let id = ObjectId(g.next_object_id);
            let h = created(g, CardId(g.next_object_id), owner, f.name, zone);
            &&& is_seat(h.players, owner, i)
            &&& h.players.len() == g.players.len()
            &&& h.players[i].library == (if zone is Library {
                g.players[i].library.push(id)
            } else {
                g.players[i].library
            })
            &&& forall|j: int|
                0 <= j < g.players.len() && j != i ==> h.players[j] == #[trigger] g.players[j]
        }),
{
    let id = ObjectId(g.next_object_id);
    let o = blank(
        id,
        CardId(g.next_object_id),
        owner,
        f.name,
        zone,
    );
    let a = with_entry(Game { next_object_id: g.next_object_id.wrapping_add(1), ..g }, id, o);
    putting_into_a_zone(a, id, zone, owner, i);
    let h = created(g, CardId(g.next_object_id), owner, f.name, zone);
    assert forall|j: int| 0 <= j < i implies (#[trigger] h.players[j]).id != owner by {
        assert(g.players[j].id != owner);
    }
}

/// As many cards as an entry of a deck says go to the library of their owner; commanders do not.
pub proof fn each_copy_goes_to_the_library(
    g: Game,
    f: CardFaceModel,
    owner: PlayerId,
    n: nat,
    i: int,
)
    requires
        is_seat(g.players, owner, i),
    ensures
        ({
            let h = copies_created(g, f, owner, n);
            let c = commanders_created(g, f, owner, n);
            &&& is_seat(h.players, owner, i) && is_seat(c.players, owner, i)
            &&& h.players.len() == g.players.len() && c.players.len() == g.players.len()
            &&& h.players[i].library.len() == g.players[i].library.len() + n
            &&& c.players[i].library == g.players[i].library
            &&& forall|j: int|
                0 <= j < g.players.len() && j != i ==> h.players[j] == #[trigger] g.players[j]
                    && c.players[j] == g.players[j]
        }),
    decreases n,
{
    if n > 0 {
        let m = (n - 1) as nat;
        each_copy_goes_to_the_library(g, f, owner, m, i);
        lemma_created(copies_created(g, f, owner, m), f, owner, Zone::Library, i);
        lemma_created(commanders_created(g, f, owner, m), f, owner, Zone::Command, i);
    }
}

/// The last card made from an entry is what its face says, owned by the player, in the library, or
/// in the command zone and a commander.
pub proof fn copies_are_what_is_printed(g: Game, f: CardFaceModel, owner: PlayerId, n: nat)
    requires
        n > 0,
    ensures
        ({
            let a = copies_created(g, f, owner, (n - 1) as nat);
            let o = copies_created(g, f, owner, n).objects[ObjectId(a.next_object_id)];
            let b = commanders_created(g, f, owner, (n - 1) as nat);
            let c = commanders_created(g, f, owner, n).objects[ObjectId(b.next_object_id)];
            &&& o.owner == owner && o.controller == owner && o.name == f.name
            &&& o.zone is Library && !o.is_commander
            &&& o.card_types == f.card_type && o.mana_cost == f.mana_cost
            &&& o.power == number_printed(f.power) && o.toughness == number_printed(f.toughness)
            &&& c.owner == owner && c.controller == owner && c.name == f.name
            &&& c.zone is Command && c.is_commander
            &&& c.card_types == f.card_type && c.mana_cost == f.mana_cost
            &&& c.power == number_printed(f.power) && c.toughness == number_printed(f.toughness)
        }),
{
}

proof fn lemma_entries(
    g: Game,
    owner: PlayerId,
    list: Seq<DeckEntry>,
    as_commanders: bool,
    n: nat,
    i: int,
)
    requires
        is_seat(g.players, owner, i),
        n <= list.len(),
    ensures
        ({
            let h = entries_loaded(g, owner, list, as_commanders, n);
            &&& is_seat(h.players, owner, i)
            &&& h.players.len() == g.players.len()
            &&& h.players[i].library.len() == g.players[i].library.len() + (if as_commanders {
                0
            } else {
                deck_size(list.take(n as int)) as int
            })
            &&& forall|j: int|
                0 <= j < g.players.len() && j != i ==> h.players[j] == #[trigger] g.players[j]
        }),
    decreases n,
{
    if n > 0 {
        let m = (n - 1) as nat;
        lemma_entries(g, owner, list, as_commanders, m, i);
        let h = entries_loaded(g, owner, list, as_commanders, m);
        let entry = list[n - 1];
        each_copy_goes_to_the_library(h, entry.card@, owner, entry.count as nat, i);
        assert(list.take(n as int).drop_last() =~= list.take(m as int));
    }
}

/// A deck that is loaded fills the library of its player with as many cards as the main deck counts,
/// and touches no other player.
pub proof fn a_deck_fills_the_library(g: Game, owner: PlayerId, d: DeckModel, i: int, j: int)
    requires
        is_seat(g.players, owner, i),
        0 <= j < g.players.len(),
        j != i,
    ensures
        ({
            let h = deck_loaded(g, owner, d);
            &&& h.players[i].library.len() == g.players[i].library.len() + deck_size(d.main_deck)
            &&& h.players[j] == g.players[j]
        }),
{
    lemma_entries(g, owner, d.main_deck, false, d.main_deck.len(), i);
    let h = entries_loaded(g, owner, d.main_deck, false, d.main_deck.len());
    lemma_entries(h, owner, d.commander, true, d.commander.len(), i);
    assert(d.main_deck.take(d.main_deck.len() as int) =~= d.main_deck);
}

/// The decks of two players are loaded and remembered as registered and as current: the first for
/// the first player, the second for the second.
pub proof fn decks_are_registered(g: Game, d: DeckModel, e: DeckModel)
    ensures
        ({
            let pools = decks_loaded(g, d, e).deck_pools;
            &&& pools.len() == 2
            &&& pools[0].player.0 == 0 && pools[1].player.0 == 1
            &&& pools[0].registered_main == d.main_deck && pools[0].current_main == d.main_deck
            &&& pools[0].registered_sideboard == d.sideboard && pools[0].current_sideboard
                == d.sideboard
            &&& pools[0].registered_commander == d.commander && pools[0].current_commander
                == d.commander
            &&& pools[1].registered_main == e.main_deck && pools[1].current_main == e.main_deck
            &&& pools[1].registered_sideboard == e.sideboard && pools[1].current_sideboard
                == e.sideboard
            &&& pools[1].registered_commander == e.commander && pools[1].current_commander
                == e.commander
        }),
{
}

/// A player lives who is in the game and was not eliminated.
pub proof fn who_lives(g: Game, p: PlayerId, i: int)
    requires
        0 <= i < g.players.len(),
        g.players[i].id == p,
        forall|j: int|
            0 <= j < g.players.len() && j != i ==> (#[trigger] g.players[j]).id != p,
    ensures
        lives(g.players, p) <==> !g.players[i].is_eliminated,
{
}

/// The player in the next seat comes next, if that player lives; after the last seat comes the
/// first.
pub proof fn the_next_seat_comes_next(g: Game, p: PlayerId, i: int)
    requires
        0 <= i < g.seat_order.len(),
        g.seat_order[i] == p,
        forall|j: int| 0 <= j < i ==> #[trigger] g.seat_order[j] != p,
    ensures
        i + 1 < g.seat_order.len() && lives(g.players, g.seat_order[i + 1]) ==> player_after(g, p)
            == g.seat_order[i + 1],
        i + 1 == g.seat_order.len() && lives(g.players, g.seat_order[0]) ==> player_after(g, p)
            == g.seat_order[0],
        i + 2 < g.seat_order.len() && !lives(g.players, g.seat_order[i + 1]) && lives(
            g.players,
            g.seat_order[i + 2],
        ) ==> player_after(g, p) == g.seat_order[i + 2],
{
    lemma_first_where(g.seat_order, being(p), i);
    let n = g.seat_order.len() as int;
    reveal_with_fuel(living_from, 3);
    if i + 1 < n {
        vstd::arithmetic::div_mod::lemma_small_mod((i + 1) as nat, n as nat);
    }
    if i + 2 < n {
        vstd::arithmetic::div_mod::lemma_small_mod((i + 2) as nat, n as nat);
    }
    if i + 1 == n {
        vstd::arithmetic::div_mod::lemma_mod_self_0(n);
    }
}

/// In a team game the players sit in pairs: the first with the second, the third with the fourth.
pub proof fn players_sit_in_pairs(p: PlayerId)
    requires
        p.0 < u8::MAX,
        p.0 % 2 == 0,
    ensures
        partner_of(p).0 == p.0 + 1,
        partner_of(PlayerId((p.0 + 1) as u8)) == p,
{
}

/// Each card that begins the game in play does what it says, to itself, after those before it.
pub proof fn openings_happen_in_order(
    g: Game,
    told: Seq<EventModel>,
    list: Seq<(PlayerId, ObjectId, Arc<Effect>)>,
    p: PlayerId,
    id: ObjectId,
    e: Arc<Effect>,
)
    ensures
        opened(g, told, list, 0) == (g, told),
        ({
            let (h, t) = opened(g, told, list, list.len());
            opened(g, told, list.push((p, id, e)), list.len() + 1) == acted_on(*e, h, t, id)
        }),
{
    lemma_opened(g, told, list, (p, id, e), list.len());
    let (h, t) = opened(g, told, list, list.len());
    reveal_with_fuel(resolved, 2);
    assert(seq![TargetRef::Object(id)][0] == TargetRef::Object(id));
}

proof fn lemma_opened(
    g: Game,
    told: Seq<EventModel>,
    list: Seq<(PlayerId, ObjectId, Arc<Effect>)>,
    more: (PlayerId, ObjectId, Arc<Effect>),
    n: nat,
)
    requires
        n <= list.len(),
    ensures
        opened(g, told, list.push(more), n) == opened(g, told, list, n),
    decreases n,
{
    if n > 0 {
        lemma_opened(g, told, list, more, (n - 1) as nat);
    }
}

} // verus!
