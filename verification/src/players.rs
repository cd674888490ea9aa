//! Players: who is in the game, in what order they act, and what they own in exile.

use vstd::prelude::*;
use crate::cards::Zone;
use crate::events::{EventModel, GameEvent, LinkedExileSnapshot, ZoneChangeRecord};
use crate::ids::{ObjectId, PlayerId};
use crate::mana::mana_value_of;
use crate::seqs::{
    first_where, is_first, lemma_filter_members, lemma_filter_next, lemma_filter_start,
    lemma_first_where, lemma_first_where_none,
};
use crate::state::{object_at, ExileLink, Game, GameState, PlayerModel};

verus! {

/// Whether a player is in the game and not eliminated.
pub open spec fn lives(players: Seq<PlayerModel>, p: PlayerId) -> bool {
    exists|i: int|
        0 <= i < players.len() && (#[trigger] players[i]).id == p && !players[i].is_eliminated
}

/// Whether a player is in the game and not eliminated.
pub fn is_alive(state: &GameState, player: PlayerId) -> (r: bool)
    ensures
        r == lives(state@.players, player),
{
    let ghost ps = state@.players;
    let mut i: usize = 0;
    while i < state.players.len()
        invariant
            i <= state.players@.len(),
            ps == state@.players,
            forall|j: int| 0 <= j < i ==> (#[trigger] ps[j]).id != player || ps[j].is_eliminated,
        decreases state.players.len() - i,
    {
        assert(ps[i as int] == state.players@[i as int]@);
        if state.players[i].id == player && !state.players[i].is_eliminated {
            return true;
        }
        i += 1;
    }
    false
}

/// Being one player.
pub open spec fn being(p: PlayerId) -> spec_fn(PlayerId) -> bool {
    |q: PlayerId| q == p
}

/// Being a living player.
pub open spec fn living(players: Seq<PlayerModel>) -> spec_fn(PlayerId) -> bool {
    |q: PlayerId| lives(players, q)
}

/// Being a living player other than one.
pub open spec fn living_other(players: Seq<PlayerModel>, p: PlayerId) -> spec_fn(PlayerId) -> bool {
    |q: PlayerId| q != p && lives(players, q)
}

/// The place of a player in a list of seats; the first place where the player has none.
pub open spec fn place_in(seats: Seq<PlayerId>, p: PlayerId) -> int {
    match first_where(seats, being(p)) {
        Some(i) => i,
        None => 0,
    }
}

fn place_of(seats: &Vec<PlayerId>, p: PlayerId) -> (r: usize)
    requires
        seats@.len() > 0,
    ensures
        r == place_in(seats@, p),
        r < seats@.len(),
{
    let ghost is_p = being(p);
    let mut i: usize = 0;
    while i < seats.len()
        invariant
            i <= seats@.len(),
            is_p == being(p),
            forall|j: int| 0 <= j < i ==> !is_p(#[trigger] seats@[j]),
        decreases seats.len() - i,
    {
        if seats[i] == p {
            proof {
                lemma_first_where(seats@, is_p, i as int);
            }
            return i;
        }
        i += 1;
    }
    proof {
        lemma_first_where_none(seats@, is_p);
    }
    0
}

/// The first living player at least `offset` seats after `from`, going round at most once.
pub open spec fn living_from(g: Game, from: int, offset: int) -> Option<PlayerId>
    decreases g.seat_order.len() - offset + 1,
{
    let n = g.seat_order.len();
    if n == 0 || offset > n {
        None
    } else {
        let p = g.seat_order[(from + offset) % n as int];
        if lives(g.players, p) {
            Some(p)
        } else {
            living_from(g, from, offset + 1)
        }
    }
}

/// The next living player after one in seat order; that one where there is no other.
pub open spec fn player_after(g: Game, current: PlayerId) -> PlayerId {
    match living_from(g, place_in(g.seat_order, current), 1) {
        Some(p) => p,
        None => current,
    }
}

fn round(a: usize, b: usize, n: usize) -> (r: usize)
    requires
        a < n,
        b <= n,
    ensures
        r == (a + b) % n as int,
        r < n,
{
    if b == n {
        assert((a + n) % n as int == a) by (nonlinear_arith)
            requires
                a < n,
        ;
        a
    } else if b < n - a {
        assert((a + b) % n as int == a + b) by (nonlinear_arith)
            requires
                a + b < n,
        ;
        a + b
    } else {
        assert((a + b) % n as int == a + b - n) by (nonlinear_arith)
            requires
                n <= a + b < 2 * n,
        ;
        b - (n - a)
    }
}

/// The next living player in seat order after `current`, going round; `current` where there is no
/// living player.
pub fn next_player(state: &GameState, current: PlayerId) -> (r: PlayerId)
    ensures
        r == player_after(state@, current),
{
    let len: usize = state.seat_order.len();
    if len == 0 {
        return current;
    }
    let current_idx: usize = place_of(&state.seat_order, current);
    let mut offset: usize = 1;
    while offset <= len
        invariant
            1 <= offset <= len + 1,
            len == state.seat_order@.len(),
            current_idx < len,
            living_from(state@, current_idx as int, 1) == living_from(
                state@,
                current_idx as int,
                offset as int,
            ),
            current_idx == place_in(state@.seat_order, current),
        decreases len + 1 - offset,
    {
        let idx: usize = round(current_idx, offset, len);
        let candidate = state.seat_order[idx];
        if is_alive(state, candidate) {
            return candidate;
        }
        if offset == len {
            assert(living_from(state@, current_idx as int, offset + 1) is None);
            return current;
        }
        offset += 1;
    }
    current
}

/// The opponents of a player: every other living player in seat order.
pub open spec fn opponents_of(g: Game, player: PlayerId) -> Seq<PlayerId> {
    g.seat_order.filter(living_other(g.players, player))
}

/// Every living player but the given one, in seat order.
pub fn opponents(state: &GameState, player: PlayerId) -> (r: Vec<PlayerId>)
    ensures
        r@ == opponents_of(state@, player),
{
    let ghost keep = living_other(state@.players, player);
    let ghost s = state@.seat_order;
    let mut out: Vec<PlayerId> = Vec::new();
    let mut i: usize = 0;
    proof {
        lemma_filter_start(s, keep);
    }
    while i < state.seat_order.len()
        invariant
            i <= s.len(),
            s == state.seat_order@,
            keep == living_other(state@.players, player),
            out@ == s.take(i as int).filter(keep),
            s.take(s.len() as int) == s,
        decreases s.len() - i,
    {
        proof {
            lemma_filter_next(s, i as int, keep);
        }
        let p = state.seat_order[i];
        if p != player && is_alive(state, p) {
            out.push(p);
        }
        i += 1;
    }
    out
}

/// A list of seats read from a place on, going round once.
pub open spec fn turned(seats: Seq<PlayerId>, from: int) -> Seq<PlayerId> {
    Seq::new(seats.len(), |i: int| seats[(from + i) % seats.len() as int])
}

/// The living players in seat order, beginning with the active player.
pub open spec fn apnap(g: Game) -> Seq<PlayerId> {
    turned(g.seat_order, place_in(g.seat_order, g.active_player)).filter(living(g.players))
}

/// The living players, beginning with the active player and going on in seat order.
pub fn apnap_order(state: &GameState) -> (r: Vec<PlayerId>)
    ensures
        r@ == apnap(state@),
{
    let ghost keep = living(state@.players);
    let len: usize = state.seat_order.len();
    let ghost from = place_in(state@.seat_order, state@.active_player);
    let ghost s = turned(state@.seat_order, from);
    proof {
        lemma_filter_start(s, keep);
    }
    if len == 0 {
        assert(s.take(0) =~= s);
        return Vec::new();
    }
    let active_idx: usize = place_of(&state.seat_order, state.active_player);
    let mut out: Vec<PlayerId> = Vec::new();
    let mut offset: usize = 0;
    while offset < len
        invariant
            offset <= len,
            len == state.seat_order@.len(),
            active_idx < len,
            active_idx == from,
            s == turned(state@.seat_order, from),
            keep == living(state@.players),
            out@ == s.take(offset as int).filter(keep),
            s.take(s.len() as int) == s,
        decreases len - offset,
    {
        proof {
            lemma_filter_next(s, offset as int, keep);
        }
        let idx: usize = round(active_idx, offset, len);
        let candidate = state.seat_order[idx];
        assert(candidate == s[offset as int]);
        if is_alive(state, candidate) {
            out.push(candidate);
        }
        offset += 1;
    }
    out
}

/// The card at the other end of a link, where it is linked to the source and still in exile.
pub open spec fn linked_card(g: Game, source: ObjectId, link: ExileLink) -> Option<
    LinkedExileSnapshot,
> {
    match object_at(g, link.exiled_id) {
        Some(o) => if link.source_id == source && o.zone == Zone::Exile {
            Some(
                LinkedExileSnapshot {
                    exiled_id: link.exiled_id,
                    owner: o.owner,
                    mana_value: mana_value_of(o.mana_cost),
                },
            )
        } else {
            None
        },
        None => None,
    }
}

/// The cards at the other ends of the first `n` links.
pub open spec fn linked_cards(g: Game, source: ObjectId, n: nat) -> Seq<LinkedExileSnapshot>
    decreases n,
{
    if n == 0 || n > g.exile_links.len() {
        Seq::empty()
    } else {
        match linked_card(g, source, g.exile_links[n - 1]) {
            Some(c) => linked_cards(g, source, (n - 1) as nat).push(c),
            None => linked_cards(g, source, (n - 1) as nat),
        }
    }
}

/// The cards exiled with a source: those that were when it left the battlefield, where that is
/// what triggered and there were any; else those that are now.
pub open spec fn exiled_with(g: Game, source: ObjectId) -> Seq<LinkedExileSnapshot> {
    match g.current_trigger_event {
        Some(EventModel::ZoneChanged { object_id, from, to, record }) => if from == Some(
            Zone::Battlefield,
        ) && object_id == source && record.linked_exile_snapshot.len() > 0 {
            record.linked_exile_snapshot
        } else {
            linked_cards(g, source, g.exile_links.len())
        },
        _ => linked_cards(g, source, g.exile_links.len()),
    }
}

fn snapshot_of(state: &GameState, source_id: ObjectId) -> (r: Option<&ZoneChangeRecord>)
    ensures
        match r {
            Some(rec) => exiled_with(state@, source_id) == rec@.linked_exile_snapshot,
            None => exiled_with(state@, source_id) == linked_cards(
                state@,
                source_id,
                state@.exile_links.len(),
            ),
        },
{
    match &state.current_trigger_event {
        Some(GameEvent::ZoneChanged { object_id, from, to: _, record }) => {
            let left: bool = match from {
                Some(z) => *z == Zone::Battlefield,
                None => false,
            };
            if left && *object_id == source_id && record.linked_exile_snapshot.len() > 0 {
                Some(record)
            } else {
                None
            }
        },
        _ => None,
    }
}

/// The cards exiled with `source_id`.
pub fn linked_exile_cards_for_source(state: &GameState, source_id: ObjectId) -> (r: Vec<
    LinkedExileSnapshot,
>)
    ensures
        r@ == exiled_with(state@, source_id),
{
    if let Some(record) = snapshot_of(state, source_id) {
        let r = record.linked_exile_snapshot.clone();
        assert(r@ =~= record@.linked_exile_snapshot);
        return r;
    }
    let ghost g = state@;
    let mut out: Vec<LinkedExileSnapshot> = Vec::new();
    let mut i: usize = 0;
    while i < state.exile_links.len()
        invariant
            i <= state.exile_links@.len(),
            g == state@,
            out@ == linked_cards(g, source_id, i as nat),
        decreases state.exile_links.len() - i,
    {
        let link = state.exile_links[i];
        if link.source_id == source_id {
            if let Some(obj) = state.object(link.exiled_id) {
                if obj.zone == Zone::Exile {
                    out.push(
                        LinkedExileSnapshot {
                            exiled_id: link.exiled_id,
                            owner: obj.owner,
                            mana_value: obj.mana_cost.mana_value(),
                        },
                    );
                }
            }
        }
        i += 1;
    }
    out
}

/// Whether a player owns a card of a list.
pub open spec fn owns_one(cards: Seq<LinkedExileSnapshot>, player: PlayerId) -> bool {
    exists|i: int| 0 <= i < cards.len() && (#[trigger] cards[i]).owner == player
}

/// Whether a player owns a card exiled with `source_id`.
pub fn owns_card_exiled_by_source(state: &GameState, player: PlayerId, source_id: ObjectId) -> (r:
    bool)
    ensures
        r == owns_one(exiled_with(state@, source_id), player),
{
    let cards = linked_exile_cards_for_source(state, source_id);
    let mut i: usize = 0;
    while i < cards.len()
        invariant
            i <= cards@.len(),
            cards@ == exiled_with(state@, source_id),
            forall|j: int| 0 <= j < i ==> (#[trigger] cards@[j]).owner != player,
        decreases cards.len() - i,
    {
        if cards[i].owner == player {
            return true;
        }
        i += 1;
    }
    false
}

/// The player with whom a player would share a team: seats are paired from the first on.
pub open spec fn partner_of(player: PlayerId) -> PlayerId {
    if player.0 % 2 == 0 {
        PlayerId((player.0 + 1) as u8)
    } else {
        PlayerId((player.0 - 1) as u8)
    }
}

/// The living teammates of a player: the partner in a team format, nobody in another.
pub fn teammates(state: &GameState, player: PlayerId) -> (r: Vec<PlayerId>)
    ensures
        r@ == (if state@.format_config.team_based && lives(state@.players, partner_of(player)) {
            seq![partner_of(player)]
        } else {
            Seq::<PlayerId>::empty()
        }),
{
    let mut out: Vec<PlayerId> = Vec::new();
    if !state.format_config.team_based {
        return out;
    }
    let player_idx: u8 = player.0;
    let team_base: u8 = (player_idx / 2) * 2;
    let partner_idx: u8 = if player_idx == team_base {
        team_base + 1
    } else {
        team_base
    };
    let partner = PlayerId(partner_idx);
    if is_alive(state, partner) {
        out.push(partner);
    }
    out
}

// ---------------------------------------------------------------------------
// What holds of seats and turns
// ---------------------------------------------------------------------------

proof fn lemma_living_from(g: Game, from: int, offset: int)
    requires
        0 <= from < g.seat_order.len(),
        1 <= offset,
    ensures
        match living_from(g, from, offset) {
            Some(p) => lives(g.players, p) && g.seat_order.contains(p),
            None => forall|k: int|
                offset <= k <= g.seat_order.len() ==> !lives(
                    g.players,
                    #[trigger] g.seat_order[(from + k) % g.seat_order.len() as int],
                ),
        },
    decreases g.seat_order.len() - offset + 1,
{
    let n = g.seat_order.len();
    if offset <= n {
        let i = (from + offset) % n as int;
        assert(0 <= i < n) by (nonlinear_arith)
            requires
                i == (from + offset) % n as int,
                n > 0,
        ;
        assert(g.seat_order.contains(g.seat_order[i]));
        if !lives(g.players, g.seat_order[i]) {
            lemma_living_from(g, from, offset + 1);
        }
    }
}

/// While anybody with a seat lives, the next player is a living player with a seat.
pub proof fn next_player_is_living(g: Game, current: PlayerId)
    requires
        exists|i: int| 0 <= i < g.seat_order.len() && lives(g.players, #[trigger] g.seat_order[i]),
    ensures
        lives(g.players, player_after(g, current)),
        g.seat_order.contains(player_after(g, current)),
{
    let n = g.seat_order.len();
    let from = place_in(g.seat_order, current);
    let is_p = being(current);
    if exists|i: int| is_first(g.seat_order, is_p, i) {
        let c = choose|c: int| is_first(g.seat_order, is_p, c);
        assert(is_first(g.seat_order, is_p, c));
    }
    lemma_living_from(g, from, 1);
    if living_from(g, from, 1) is None {
        let i = choose|i: int|
            0 <= i < g.seat_order.len() && lives(g.players, #[trigger] g.seat_order[i]);
        let k: int = if i > from {
            i - from
        } else {
            i - from + n
        };
        assert((from + k) % n as int == i) by (nonlinear_arith)
            requires
                from + k == i || from + k == i + n,
                0 <= i < n,
        ;
        assert(!lives(g.players, g.seat_order[(from + k) % n as int]));
    }
}

/// A player who is the only one living with a seat is followed by no other.
pub proof fn next_player_of_the_last(g: Game, current: PlayerId)
    requires
        forall|i: int|
            0 <= i < g.seat_order.len() && lives(g.players, #[trigger] g.seat_order[i])
                ==> g.seat_order[i] == current,
    ensures
        player_after(g, current) == current,
{
    let from = place_in(g.seat_order, current);
    let is_p = being(current);
    if exists|i: int| is_first(g.seat_order, is_p, i) {
        let c = choose|c: int| is_first(g.seat_order, is_p, c);
        assert(is_first(g.seat_order, is_p, c));
    }
    if g.seat_order.len() > 0 {
        lemma_living_from(g, from, 1);
    }
}

/// No player is an opponent of that same player, and every opponent lives.
pub proof fn opponents_are_living_others(g: Game, player: PlayerId)
    ensures
        forall|p: PlayerId| #[trigger]
            opponents_of(g, player).contains(p) <==> p != player && lives(g.players, p)
                && g.seat_order.contains(p),
{
    lemma_filter_members(g.seat_order, living_other(g.players, player));
}

/// A living active player with a seat acts first.
pub proof fn active_player_acts_first(g: Game)
    requires
        g.seat_order.contains(g.active_player),
        lives(g.players, g.active_player),
    ensures
        apnap(g).len() > 0,
        apnap(g)[0] == g.active_player,
{
    let is_a = being(g.active_player);
    let k = choose|k: int| 0 <= k < g.seat_order.len() && g.seat_order[k] == g.active_player;
    assert(is_a(g.seat_order[k]));
    lemma_some_first_place(g.seat_order, is_a, k);
    let from = place_in(g.seat_order, g.active_player);
    let n = g.seat_order.len();
    assert((from + 0) % n as int == from) by (nonlinear_arith)
        requires
            0 <= from < n,
    ;
    let s = turned(g.seat_order, from);
    let keep = living(g.players);
    assert(s[0] == g.active_player);
    lemma_filter_head(s, keep);
}

proof fn lemma_some_first_place(s: Seq<PlayerId>, p: spec_fn(PlayerId) -> bool, k: int)
    requires
        0 <= k < s.len(),
        p(s[k]),
    ensures
        first_where(s, p) is Some,
        is_first(s, p, first_where(s, p)->0),
    decreases k,
{
    if forall|j: int| 0 <= j < k ==> !p(#[trigger] s[j]) {
        assert(is_first(s, p, k));
        lemma_first_where(s, p, k);
    } else {
        let j = choose|j: int| 0 <= j < k && p(#[trigger] s[j]);
        lemma_some_first_place(s, p, j);
    }
}

proof fn lemma_filter_head(s: Seq<PlayerId>, p: spec_fn(PlayerId) -> bool)
    requires
        s.len() > 0,
        p(s[0]),
    ensures
        s.filter(p).len() > 0,
        s.filter(p)[0] == s[0],
    decreases s.len(),
{
    reveal(Seq::filter);
    if s.len() > 1 {
        lemma_filter_head(s.drop_last(), p);
    } else {
        assert(s.drop_last().filter(p).len() == 0);
    }
}

/// How many players are kept of those before a place.
spec fn rank(s: Seq<PlayerId>, p: spec_fn(PlayerId) -> bool, x: int) -> nat {
    s.take(x).filter(p).len()
}

proof fn lemma_rank(s: Seq<PlayerId>, p: spec_fn(PlayerId) -> bool, x: int)
    requires
        0 <= x < s.len(),
        p(s[x]),
    ensures
        rank(s, p, x) < s.filter(p).len(),
        s.filter(p)[rank(s, p, x) as int] == s[x],
    decreases s.len(),
{
    reveal(Seq::filter);
    let t = s.drop_last();
    if x == s.len() - 1 {
        assert(s.take(x) =~= t);
    } else {
        lemma_rank(t, p, x);
        assert(t.take(x) =~= s.take(x));
    }
}

proof fn lemma_rank_grows(s: Seq<PlayerId>, p: spec_fn(PlayerId) -> bool, x: int, y: int)
    requires
        0 <= x < y <= s.len(),
    ensures
        rank(s, p, x) + (if p(s[x]) {
            1int
        } else {
            0
        }) <= rank(s, p, y),
    decreases y,
{
    lemma_filter_next(s, y - 1, p);
    if x < y - 1 {
        lemma_rank_grows(s, p, x, y - 1);
    }
}

proof fn lemma_place_of_rank(s: Seq<PlayerId>, p: spec_fn(PlayerId) -> bool, i: int) -> (x: int)
    requires
        0 <= i < s.filter(p).len(),
    ensures
        0 <= x < s.len(),
        p(s[x]),
        rank(s, p, x) == i,
        s[x] == s.filter(p)[i],
    decreases s.len(),
{
    reveal(Seq::filter);
    let t = s.drop_last();
    if i < t.filter(p).len() {
        let x = lemma_place_of_rank(t, p, i);
        assert(t.take(x) =~= s.take(x));
        x
    } else {
        assert(s.take(s.len() - 1) =~= t);
        s.len() - 1
    }
}

proof fn lemma_first_living(g: Game, from: int, offset: int, k: int)
    requires
        1 <= offset <= k <= g.seat_order.len(),
        lives(g.players, g.seat_order[(from + k) % g.seat_order.len() as int]),
        forall|j: int|
            offset <= j < k ==> !lives(
                g.players,
                #[trigger] g.seat_order[(from + j) % g.seat_order.len() as int],
            ),
    ensures
        living_from(g, from, offset) == Some(g.seat_order[(from + k) % g.seat_order.len() as int]),
    decreases k - offset,
{
    if offset < k {
        assert(!lives(g.players, g.seat_order[(from + offset) % g.seat_order.len() as int]));
        lemma_first_living(g, from, offset + 1, k);
    }
}

/// The seat some seats after another one is that of the list of seats turned round.
proof fn lemma_turned(seats: Seq<PlayerId>, from: int, a: int, k: int)
    requires
        0 <= from < seats.len(),
        0 <= a < seats.len(),
        0 <= k <= seats.len(),
    ensures
        ({
            let n = seats.len() as int;
            let y = if a + k < n {
                a + k
            } else {
                a + k - n
            };
            seats[((from + a) % n + k) % n] == turned(seats, from)[y]
        }),
{
    let n = seats.len() as int;
    let y = if a + k < n {
        a + k
    } else {
        a + k - n
    };
    vstd::arithmetic::div_mod::lemma_add_mod_noop(from + a, k, n);
    vstd::arithmetic::div_mod::lemma_mod_add_multiples_vanish(from + y, n);
    vstd::arithmetic::div_mod::lemma_mod_twice(k, n);
    vstd::arithmetic::div_mod::lemma_add_mod_noop_right(k, from + a, n);
    assert(((from + a) % n + k) % n == (from + a + k) % n);
    assert(turned(seats, from)[y] == seats[(from + y) % n]);
}

/// Going from each living player to the next one runs through the order in which they act and then
/// begins again: every living player comes once before any comes again.
pub proof fn the_next_player_acts_next(g: Game, i: int)
    requires
        g.seat_order.no_duplicates(),
        0 <= i < apnap(g).len(),
    ensures
        player_after(g, apnap(g)[i]) == apnap(g)[(i + 1) % apnap(g).len() as int],
{
    let seats = g.seat_order;
    let n = seats.len() as int;
    let is_a = being(g.active_player);
    if exists|c: int| is_first(seats, is_a, c) {
        let c = choose|c: int| is_first(seats, is_a, c);
        assert(is_first(seats, is_a, c));
    }
    let from = place_in(seats, g.active_player);
    let s = turned(seats, from);
    let keep = living(g.players);
    let all = apnap(g);
    let a = lemma_place_of_rank(s, keep, i);
    assert(0 <= from < n);
    let next = if i + 1 < all.len() {
        i + 1
    } else {
        0
    };
    if i + 1 < all.len() {
        vstd::arithmetic::div_mod::lemma_small_mod((i + 1) as nat, all.len());
    } else {
        vstd::arithmetic::div_mod::lemma_mod_self_0(all.len() as int);
    }
    let b = lemma_place_of_rank(s, keep, next);
    let who = all[i];
    // The seat of the player.
    lemma_turned(seats, from, a, 0);
    let q = (from + a) % n;
    assert(0 <= q < n) by (nonlinear_arith)
        requires
            q == (from + a) % n,
            n > 0,
    ;
    assert(seats[q] == who);
    assert(is_first(seats, being(who), q));
    lemma_first_where(seats, being(who), q);
    assert(place_in(seats, who) == q);
    // The steps to the next one.
    if next > i {
        if b <= a {
            if b < a {
                lemma_rank_grows(s, keep, b, a);
            }
        }
    } else if b > a {
        lemma_rank_grows(s, keep, a, b);
    }
    let k = if b > a {
        b - a
    } else {
        b - a + n
    };
    lemma_turned(seats, from, a, k);
    assert forall|j: int| 1 <= j < k implies !lives(g.players, #[trigger] seats[(q + j) % n]) by {
        lemma_turned(seats, from, a, j);
        let y = if a + j < n {
            a + j
        } else {
            a + j - n
        };
        if keep(s[y]) {
            lemma_rank(s, keep, y);
            if y > a {
                lemma_rank_grows(s, keep, a, y);
                if next > i {
                    lemma_rank_grows(s, keep, y, b);
                }
            } else {
                lemma_rank_grows(s, keep, y, b);
            }
        }
    }
    lemma_first_living(g, q, 1, k);
}

/// Being teammates is mutual: the partner of a player's partner is that player.
pub proof fn partners_are_mutual(player: PlayerId)
    ensures
        partner_of(partner_of(player)) == player,
        partner_of(player) != player,
{
}

} // verus!
