//! What state-based actions do, and when there is nothing for them to do.

use vstd::prelude::*;
use crate::ability::ControllerRef;
use crate::cards::{CoreType, CounterKind, Keyword, KeywordKind, Supertype, Zone};
use crate::elimination::{eliminated, is_decided, survivor, without_player, without_team};
use crate::events::{EventModel, WaitingModel};
use crate::ids::{ObjectId, PlayerId};
use crate::object::ObjectModel;
use crate::replacement::{event_replaced, token_nesting, what_is_asked_can_be_continued};
use crate::registry::full_registry;
use crate::sba::{
    actions_performed, all_buried, all_destroyed, all_detached, all_lost, all_sacrificed,
    all_started, called, cannot_lose, ceased, counters_checked, creatures_checked, defeated,
    destroyed_by_damage, equipment_checked, finished_saga, flaw_buried, flawed, has_flaw,
    has_namesake, is_over, legend_choice, legend_of, legends, losers,
    nothing_happens_to_a_game_at_rest, pairs_removed, players_checked, reason_checked, rest_checked,
    starters, stray_tokens, swept, tokens_checked, without_pairs, Flaw, Reason, Sweep,
};
use crate::seqs::{is_first, lemma_filter_members};
use crate::speed::has_engines;
use crate::state::{is_seat, lemma_seat, Game, PlayerModel};
use crate::zones::moved;

verus! {

/// Whether nothing makes a player lose: life above zero, fewer than ten poison counters, and no
/// draw from an empty library; or a permanent that keeps the player from losing.
pub open spec fn is_safe(g: Game, p: PlayerModel) -> bool {
    p.is_eliminated || cannot_lose(g, p.id) || (p.life > 0 && p.poison_counters < 10
        && !p.drew_from_empty_library)
}

/// Whether an object is attached to something that is not on the battlefield.
pub open spec fn hangs_in_the_air(g: Game, o: ObjectModel) -> bool {
    match o.attached_to {
        Some(host) => !(g.objects.dom().contains(host) && g.objects[host].zone is Battlefield),
        None => false,
    }
}

/// Whether an object has counters of a kind.
pub open spec fn has_any(o: ObjectModel, k: CounterKind) -> bool {
    o.counters.dom().contains(k) && o.counters[k] > 0
}

/// Whether nothing makes a permanent leave or change: a creature has toughness above zero and less
/// damage than that, and none from deathtouch, unless it is indestructible; an attached Aura or
/// Equipment is attached to a permanent; a planeswalker has loyalty; and there is no pair of a
/// +1/+1 and a -1/-1 counter.
pub open spec fn is_sound(g: Game, o: ObjectModel) -> bool {
    let creature = o.card_types.core_types.contains(CoreType::Creature);
    &&& creature && o.toughness is Some ==> o.toughness->0 > 0
    &&& creature && o.toughness is Some && !o.keywords.contains(Keyword::Indestructible)
        ==> o.damage_marked < o.toughness->0
    &&& creature && o.dealt_deathtouch_damage && !o.keywords.contains(Keyword::Indestructible)
        ==> o.damage_marked == 0
    &&& o.card_types.core_types.contains(CoreType::Enchantment) ==> !hangs_in_the_air(g, o)
    &&& (exists|i: int|
        0 <= i < o.card_types.subtypes.len() && (#[trigger] o.card_types.subtypes[i])@
            == "Equipment"@) ==> !hangs_in_the_air(g, o)
    &&& o.card_types.core_types.contains(CoreType::Planeswalker) ==> o.loyalty != Some(0u32)
    &&& !(has_any(o, CounterKind::Plus1Plus1) && has_any(o, CounterKind::Minus1Minus1))
}

/// Whether two permanents are legendary, of one name and of one controller.
pub open spec fn are_rival_legends(g: Game, a: ObjectId, b: ObjectId) -> bool {
    &&& g.objects.dom().contains(a) && g.objects.dom().contains(b)
    &&& g.objects[a].controller == g.objects[b].controller
    &&& g.objects[a].name@ == g.objects[b].name@
    &&& g.objects[a].card_types.supertypes.contains(Supertype::Legendary)
    &&& g.objects[b].card_types.supertypes.contains(Supertype::Legendary)
}

/// Whether a token is in a zone where no token can be.
pub open spec fn is_misplaced_token(o: ObjectModel) -> bool {
    o.is_token && !(o.zone is Battlefield) && !(o.zone is Stack)
}

/// Whether nothing is left to do for players, permanents and tokens, legends aside.
pub open spec fn is_quiet(g: Game, told: Seq<EventModel>) -> bool {
    &&& forall|i: int| 0 <= i < g.players.len() ==> is_safe(g, #[trigger] g.players[i])
    &&& forall|i: int|
        0 <= i < g.players.len() ==> (#[trigger] g.players[i]).speed is Some || !has_engines(
            g,
            g.players[i].id,
        )
    &&& g.format_config.commander_damage_threshold is Some ==> forall|i: int|
        0 <= i < g.commander_damage.len() ==> (#[trigger] g.commander_damage[i]).damage
            < g.format_config.commander_damage_threshold->0 || g.eliminated_players.contains(
            g.commander_damage[i].player,
        ) || cannot_lose(g, g.commander_damage[i].player)
    &&& forall|i: int|
        0 <= i < g.battlefield.len() && g.objects.dom().contains(#[trigger] g.battlefield[i])
            ==> is_sound(g, g.objects[g.battlefield[i]])
    &&& forall|i: int|
        0 <= i < g.battlefield.len() ==> !finished_saga(g, told)(#[trigger] g.battlefield[i])
    &&& forall|i: int|
        0 <= i < g.object_ids.len() ==> !is_misplaced_token(g.objects[#[trigger] g.object_ids[i]])
}

/// Whether no two permanents are legendary, of one name and of one controller.
pub open spec fn has_no_rival_legends(g: Game) -> bool {
    forall|i: int, j: int|
        0 <= i < j < g.battlefield.len() ==> !are_rival_legends(
            g,
            #[trigger] g.battlefield[i],
            #[trigger] g.battlefield[j],
        )
}

proof fn lemma_indestructible(o: ObjectModel)
    ensures
        crate::cards::has_kind(o.keywords, KeywordKind::Indestructible) <==> o.keywords.contains(
            Keyword::Indestructible,
        ),
{
    let list = o.keywords;
    if list.contains(Keyword::Indestructible) {
        let i = choose|i: int| 0 <= i < list.len() && list[i] == Keyword::Indestructible;
        assert(crate::cards::kind_of(list[i]) == KeywordKind::Indestructible);
    }
    if crate::cards::has_kind(list, KeywordKind::Indestructible) {
        let i = choose|i: int|
            0 <= i < list.len() && crate::cards::kind_of(#[trigger] list[i])
                == KeywordKind::Indestructible;
        assert(list[i] == Keyword::Indestructible);
    }
}

/// A permanent is sound exactly when it has none of the flaws and no pair of counters.
proof fn lemma_sound(g: Game, o: ObjectModel)
    ensures
        is_sound(g, o) <==> (forall|flaw: Flaw| !#[trigger] has_flaw(g, o, flaw))
            && !crate::sba::has_pair(o),
{
    lemma_indestructible(o);
    assert(!is_sound(g, o) ==> crate::sba::has_pair(o) || has_flaw(g, o, Flaw::ZeroToughness)
        || has_flaw(g, o, Flaw::LethalDamage) || has_flaw(g, o, Flaw::IllegalAura) || has_flaw(
        g,
        o,
        Flaw::IllegalEquipment,
    ) || has_flaw(g, o, Flaw::ZeroLoyalty));
    assert forall|flaw: Flaw| is_sound(g, o) implies !#[trigger] has_flaw(g, o, flaw) by {
        match flaw {
            Flaw::ZeroToughness => {},
            Flaw::LethalDamage => {},
            Flaw::IllegalAura => {},
            Flaw::IllegalEquipment => {},
            Flaw::ZeroLoyalty => {},
        }
    }
}

proof fn lemma_two_kept<T>(s: Seq<T>, p: spec_fn(T) -> bool) -> (r: (int, int))
    requires
        s.filter(p).len() >= 2,
    ensures
        0 <= r.0 < r.1 < s.len(),
        p(s[r.0]),
        p(s[r.1]),
    decreases s.len(),
{
    reveal(Seq::filter);
    let front = s.drop_last();
    if front.filter(p).len() >= 2 {
        lemma_two_kept(front, p)
    } else {
        let i = lemma_one_kept(front, p);
        (i, s.len() - 1)
    }
}

proof fn lemma_one_kept<T>(s: Seq<T>, p: spec_fn(T) -> bool) -> (i: int)
    requires
        s.filter(p).len() >= 1,
    ensures
        0 <= i < s.len(),
        p(s[i]),
    decreases s.len(),
{
    reveal(Seq::filter);
    if p(s.last()) {
        s.len() - 1
    } else {
        lemma_one_kept(s.drop_last(), p)
    }
}

proof fn lemma_no_rivals(g: Game, p: PlayerId)
    requires
        has_no_rival_legends(g),
    ensures
        legend_choice(g, p) is None,
{
    let ids = legends(g, p);
    if legend_choice(g, p) is Some {
        let k = choose|k: int| is_first(ids, has_namesake(g, ids), k);
        assert(is_first(ids, has_namesake(g, ids), k));
        let name = g.objects[ids[k]].name@;
        let f = called(g, name);
        let both = |id: ObjectId| legend_of(g, p)(id) && f(id);
        lemma_filter_twice(g.battlefield, legend_of(g, p), f);
        assert(g.battlefield.filter(both).len() >= 2);
        let (i, j) = lemma_two_kept(g.battlefield, both);
        assert(are_rival_legends(g, g.battlefield[i], g.battlefield[j]));
    }
}

proof fn lemma_filter_twice<T>(s: Seq<T>, p: spec_fn(T) -> bool, q: spec_fn(T) -> bool)
    ensures
        s.filter(p).filter(q) == s.filter(|x: T| p(x) && q(x)),
    decreases s.len(),
{
    reveal(Seq::filter);
    if s.len() > 0 {
        lemma_filter_twice(s.drop_last(), p, q);
        let a = s.drop_last().filter(p);
        if p(s.last()) {
            crate::keyed::lemma_filter_push(a, s.last(), q);
        }
    }
}

/// Where every player is safe, every permanent sound, and no legends rival each other, state-based
/// actions change nothing and tell nothing.
pub proof fn a_quiet_game_stays_as_it_is(g: Game, told: Seq<EventModel>)
    requires
        is_quiet(g, told),
        has_no_rival_legends(g),
        !g.layers_dirty,
    ensures
        actions_performed(g, told) == (g, told),
{
    assert forall|i: int| 0 <= i < g.players.len() implies crate::sba::is_player_at_rest(
        g,
        #[trigger] g.players[i],
    ) by {
        lemma_no_rivals(g, g.players[i].id);
        assert(is_safe(g, g.players[i]));
        assert forall|why: Reason| #[trigger]
            crate::sba::has_reason(g.players[i], why) implies cannot_lose(g, g.players[i].id) by {
            match why {
                Reason::NoLife => {},
                Reason::EmptyLibrary => {},
                Reason::Poison => {},
            }
        }
    }
    assert forall|i: int| 0 <= i < g.commander_damage.len() implies crate::sba::is_damage_at_rest(
        g,
        #[trigger] g.commander_damage[i],
    ) by {}
    assert forall|i: int| 0 <= i < g.battlefield.len() implies crate::sba::is_permanent_at_rest(
        g,
        told,
        #[trigger] g.battlefield[i],
    ) by {
        let id = g.battlefield[i];
        if g.objects.dom().contains(id) {
            lemma_sound(g, g.objects[id]);
        }
        assert forall|flaw: Flaw| !(#[trigger] flawed(g, flaw))(id) by {
            if g.objects.dom().contains(id) {
                assert(!has_flaw(g, g.objects[id], flaw));
            }
        }
    }
    assert forall|i: int| 0 <= i < g.object_ids.len() implies !crate::sba::is_stray_token(
        g.objects[#[trigger] g.object_ids[i]],
    ) by {
        assert(!is_misplaced_token(g.objects[g.object_ids[i]]));
    }
    assert(crate::sba::is_at_rest(g, told));
    nothing_happens_to_a_game_at_rest(g, told);
}

proof fn lemma_lost_any(s: Sweep, ids: Seq<PlayerId>, is_told: bool, n: nat)
    requires
        n <= ids.len(),
    ensures
        all_lost(s, ids, is_told, n).any == (s.any || n > 0),
        n == 0 ==> all_lost(s, ids, is_told, n) == s,
    decreases n,
{
    if n > 0 {
        lemma_lost_any(s, ids, is_told, (n - 1) as nat);
    }
}

proof fn lemma_buried_any(s: Sweep, ids: Seq<ObjectId>, n: nat)
    requires
        n <= ids.len(),
    ensures
        all_buried(s, ids, n).any == (s.any || n > 0),
        n == 0 ==> all_buried(s, ids, n) == s,
    decreases n,
{
    if n > 0 {
        lemma_buried_any(s, ids, (n - 1) as nat);
    }
}

proof fn lemma_sacrificed_any(s: Sweep, ids: Seq<ObjectId>, n: nat)
    requires
        n <= ids.len(),
    ensures
        all_sacrificed(s, ids, n).any == (s.any || n > 0),
        n == 0 ==> all_sacrificed(s, ids, n) == s,
    decreases n,
{
    if n > 0 {
        lemma_sacrificed_any(s, ids, (n - 1) as nat);
    }
}

proof fn lemma_started_any(s: Sweep, ids: Seq<PlayerId>, n: nat)
    requires
        n <= ids.len(),
    ensures
        all_started(s, ids, n).any == (s.any || n > 0),
        n == 0 ==> all_started(s, ids, n) == s,
    decreases n,
{
    if n > 0 {
        lemma_started_any(s, ids, (n - 1) as nat);
    }
}

proof fn lemma_pairs_any(s: Sweep, ids: Seq<ObjectId>, n: nat)
    requires
        n <= ids.len(),
    ensures
        s.any ==> pairs_removed(s, ids, n).any,
        !pairs_removed(s, ids, n).any ==> pairs_removed(s, ids, n) == s && forall|i: int|
            0 <= i < n && s.game.objects.dom().contains(#[trigger] ids[i]) ==> !crate::sba::has_pair(
                s.game.objects[ids[i]],
            ),
    decreases n,
{
    if n > 0 {
        lemma_pairs_any(s, ids, (n - 1) as nat);
    }
}

proof fn lemma_destroyed_any(s: Sweep, ids: Seq<ObjectId>, from: int)
    requires
        s.any,
    ensures
        all_destroyed(s, ids, from).any,
    decreases ids.len() - from,
{
    if 0 <= from < ids.len() {
        let (t, is_put_off) = destroyed_by_damage(s, ids[from]);
        assert(t.any);
        if !is_put_off {
            lemma_destroyed_any(t, ids, from + 1);
        }
    }
}

proof fn lemma_put_off(s: Sweep, id: ObjectId)
    ensures
        destroyed_by_damage(s, id).1 ==> destroyed_by_damage(s, id).0.game.pending_replacement
            is Some,
        !destroyed_by_damage(s, id).1 ==> destroyed_by_damage(s, id).0.any,
{
    reveal(event_replaced);
    let e = crate::sba::destruction(id);
    let p = event_replaced(s.game, e, s.told);
    what_is_asked_can_be_continued(s.game, e, s.told, 0, full_registry(), token_nesting(s.game));
    if let crate::replacement::ResultModel::Execute(n) = p.result {
        if let crate::events::ProposedModel::Destroy { object_id, source, .. } = n {
            let m = crate::proposals::plain_move(
                object_id,
                Zone::Battlefield,
                Zone::Graveyard,
                source,
                Set::empty(),
            );
            what_is_asked_can_be_continued(
                p.game,
                m,
                p.told,
                0,
                full_registry(),
                token_nesting(p.game),
            );
        }
    }
}

proof fn lemma_lethal_any(s: Sweep, ids: Seq<ObjectId>)
    requires
        !all_destroyed(s, ids, 0).any,
        all_destroyed(s, ids, 0).game.pending_replacement is None,
    ensures
        ids.len() == 0,
        all_destroyed(s, ids, 0) == s,
{
    if ids.len() > 0 {
        lemma_put_off(s, ids[0]);
        let (t, is_put_off) = destroyed_by_damage(s, ids[0]);
        if !is_put_off {
            lemma_destroyed_any(t, ids, 1);
        }
    }
}

proof fn lemma_nobody_loses(g: Game, why: Reason, n: nat)
    requires
        n <= g.players.len(),
        losers(g, why, n).len() == 0,
    ensures
        forall|i: int|
            0 <= i < n ==> !crate::sba::has_reason(#[trigger] g.players[i], why) || cannot_lose(
                g,
                g.players[i].id,
            ),
    decreases n,
{
    if n > 0 {
        lemma_nobody_loses(g, why, (n - 1) as nat);
    }
}

proof fn lemma_nobody_defeated(g: Game, t: u32, n: nat)
    requires
        n <= g.commander_damage.len(),
        defeated(g, t, n).len() == 0,
    ensures
        forall|i: int|
            0 <= i < n ==> (#[trigger] g.commander_damage[i]).damage < t
                || g.eliminated_players.contains(g.commander_damage[i].player) || cannot_lose(
                g,
                g.commander_damage[i].player,
            ),
    decreases n,
{
    if n > 0 {
        lemma_nobody_defeated(g, t, (n - 1) as nat);
    }
}

proof fn lemma_nobody_starts(g: Game, n: nat)
    requires
        n <= g.players.len(),
        starters(g, n).len() == 0,
    ensures
        forall|i: int|
            0 <= i < n ==> (#[trigger] g.players[i]).speed is Some || !has_engines(
                g,
                g.players[i].id,
            ),
    decreases n,
{
    if n > 0 {
        lemma_nobody_starts(g, (n - 1) as nat);
    }
}

proof fn lemma_no_token_is_stray(g: Game, n: nat)
    requires
        n <= g.object_ids.len(),
        stray_tokens(g, n).len() == 0,
    ensures
        forall|i: int|
            0 <= i < n ==> !is_misplaced_token(g.objects[#[trigger] g.object_ids[i]]),
    decreases n,
{
    if n > 0 {
        lemma_no_token_is_stray(g, (n - 1) as nat);
    }
}

proof fn lemma_none_kept<T>(s: Seq<T>, p: spec_fn(T) -> bool)
    requires
        s.filter(p).len() == 0,
    ensures
        forall|i: int| 0 <= i < s.len() ==> !p(#[trigger] s[i]),
{
    lemma_filter_members(s, p);
    assert forall|i: int| 0 <= i < s.len() implies !p(#[trigger] s[i]) by {
        if p(s[i]) {
            assert(s.contains(s[i]));
            assert(s.filter(p).contains(s[i]));
        }
    }
}

/// A check that performs nothing, while the game goes on and no choice is pending, leaves nothing
/// to do: nobody is left who should have lost, no creature that should have died, no Aura or
/// Equipment on nothing, no planeswalker without loyalty, no pair of opposite counters, no token
/// where no token can be.
pub proof fn a_check_that_does_nothing_leaves_nothing_to_do(g: Game, told: Seq<EventModel>)
    requires
        !swept(Sweep { game: g, told, any: false }).1,
        !swept(Sweep { game: g, told, any: false }).0.any,
        has_no_rival_legends(g),
    ensures
        is_quiet(g, told),
        swept(Sweep { game: g, told, any: false }).0.game == g,
{
    let s = Sweep { game: g, told, any: false };
    let n = g.players.len();
    let a = players_checked(s);
    let b = creatures_checked(a);
    let r = rest_checked(b);
    assert(swept(s) == (r, false));
    // the steps that come last, from the back
    let l = Sweep { game: crate::sba::legends_checked(b.game, 0), ..b };
    let m = flaw_buried(l, Flaw::IllegalAura);
    let q = equipment_checked(m);
    let d = flaw_buried(q, Flaw::ZeroLoyalty);
    let e = crate::sba::sagas_checked(d);
    let f = counters_checked(e);
    let h = tokens_checked(f);
    let ids = starters(h.game, h.game.players.len());
    lemma_started_any(h, ids, ids.len());
    assert(!h.any && r == h && ids.len() == 0);
    let stray = stray_tokens(f.game, f.game.object_ids.len());
    assert(!f.any && stray.len() == 0);
    assert(crate::sba::all_ceased(f.game, f.game, stray, stray.len()) == f.game);
    assert(h == f);
    lemma_pairs_any(e, e.game.battlefield, e.game.battlefield.len());
    assert(!e.any && f == e);
    let sagas = d.game.battlefield.filter(finished_saga(d.game, d.told));
    lemma_sacrificed_any(d, sagas, sagas.len());
    assert(!d.any && e == d && sagas.len() == 0);
    let walkers = q.game.battlefield.filter(flawed(q.game, Flaw::ZeroLoyalty));
    lemma_buried_any(q, walkers, walkers.len());
    assert(!q.any && d == q && walkers.len() == 0);
    let gear = m.game.battlefield.filter(flawed(m.game, Flaw::IllegalEquipment));
    assert(!m.any && gear.len() == 0);
    assert(all_detached(m.game, gear, gear.len()) == m.game);
    assert(q == m);
    let auras = l.game.battlefield.filter(flawed(l.game, Flaw::IllegalAura));
    lemma_buried_any(l, auras, auras.len());
    assert(!l.any && m == l && auras.len() == 0);
    assert(!b.any);
    // creatures
    let z = flaw_buried(a, Flaw::ZeroToughness);
    let dying = z.game.battlefield.filter(flawed(z.game, Flaw::LethalDamage));
    lemma_lethal_any(z, dying);
    assert(b == z && !z.any && dying.len() == 0);
    let small = a.game.battlefield.filter(flawed(a.game, Flaw::ZeroToughness));
    lemma_buried_any(a, small, small.len());
    assert(!a.any && z == a && small.len() == 0);
    // players
    lemma_players_quiet(s);
    assert(a == s);
    assert(l.game == g) by {
        lemma_no_legend_choice(g, 0);
    }
    lemma_nobody_starts(g, n);
    lemma_no_token_is_stray(g, g.object_ids.len());
    lemma_none_kept(g.battlefield, finished_saga(g, told));
    assert forall|i: int|
        0 <= i < g.battlefield.len() && g.objects.dom().contains(
            #[trigger] g.battlefield[i],
        ) implies is_sound(g, g.objects[g.battlefield[i]]) by {
        let id = g.battlefield[i];
        lemma_none_kept(g.battlefield, flawed(g, Flaw::ZeroToughness));
        lemma_none_kept(g.battlefield, flawed(g, Flaw::LethalDamage));
        lemma_none_kept(g.battlefield, flawed(g, Flaw::IllegalAura));
        lemma_none_kept(g.battlefield, flawed(g, Flaw::IllegalEquipment));
        lemma_none_kept(g.battlefield, flawed(g, Flaw::ZeroLoyalty));
        lemma_sound(g, g.objects[id]);
        assert forall|flaw: Flaw| !#[trigger] has_flaw(g, g.objects[id], flaw) by {
            match flaw {
                Flaw::ZeroToughness => {},
                Flaw::LethalDamage => {},
                Flaw::IllegalAura => {},
                Flaw::IllegalEquipment => {},
                Flaw::ZeroLoyalty => {},
            }
        }
    }
}

proof fn lemma_no_legend_choice(g: Game, from: int)
    requires
        has_no_rival_legends(g),
    ensures
        crate::sba::legends_checked(g, from) == g,
    decreases g.players.len() - from,
{
    if 0 <= from < g.players.len() {
        lemma_no_rivals(g, g.players[from].id);
        lemma_no_legend_choice(g, from + 1);
    }
}

proof fn lemma_players_quiet(s: Sweep)
    requires
        !s.any,
        !players_checked(s).any,
        !is_over(players_checked(s).game),
    ensures
        players_checked(s) == s,
        forall|i: int|
            0 <= i < s.game.players.len() ==> is_safe(s.game, #[trigger] s.game.players[i]),
        s.game.format_config.commander_damage_threshold is Some ==> forall|i: int|
            0 <= i < s.game.commander_damage.len() ==> (
            #[trigger] s.game.commander_damage[i]).damage
                < s.game.format_config.commander_damage_threshold->0
                || s.game.eliminated_players.contains(s.game.commander_damage[i].player)
                || cannot_lose(s.game, s.game.commander_damage[i].player),
{
    let a = reason_checked(s, Reason::NoLife);
    let b = reason_checked(a, Reason::EmptyLibrary);
    let c = reason_checked(b, Reason::Poison);
    let x = losers(s.game, Reason::NoLife, s.game.players.len());
    let y = losers(a.game, Reason::EmptyLibrary, a.game.players.len());
    let z = losers(b.game, Reason::Poison, b.game.players.len());
    lemma_lost_any(s, x, true, x.len());
    lemma_lost_any(a, y, true, y.len());
    lemma_lost_any(b, z, true, z.len());
    if c.game.format_config.commander_damage_threshold is Some {
        let t = c.game.format_config.commander_damage_threshold->0 as u32;
        let ids = defeated(c.game, t, c.game.commander_damage.len());
        lemma_lost_any(c, ids, false, ids.len());
        if ids.len() == 0 {
            lemma_nobody_defeated(c.game, t, c.game.commander_damage.len());
        }
    }
    assert(x.len() == 0 && a == s);
    assert(y.len() == 0 && b == s);
    assert(z.len() == 0 && c == s);
    lemma_nobody_loses(s.game, Reason::NoLife, s.game.players.len());
    lemma_nobody_loses(s.game, Reason::EmptyLibrary, s.game.players.len());
    lemma_nobody_loses(s.game, Reason::Poison, s.game.players.len());
    assert forall|i: int| 0 <= i < s.game.players.len() implies is_safe(
        s.game,
        #[trigger] s.game.players[i],
    ) by {
        let p = s.game.players[i];
        assert(!crate::sba::has_reason(p, Reason::NoLife) || cannot_lose(s.game, p.id));
        assert(!crate::sba::has_reason(p, Reason::EmptyLibrary) || cannot_lose(s.game, p.id));
        assert(!crate::sba::has_reason(p, Reason::Poison) || cannot_lose(s.game, p.id));
    }
}

/// A permanent with an ability that its controller cannot lose keeps its controller in the game, one
/// about opponents the opponents, and one about everyone everyone.
pub proof fn who_cannot_lose(g: Game, p: PlayerId, i: int, k: int)
    requires
        0 <= i < g.battlefield.len(),
        g.objects.dom().contains(g.battlefield[i]),
        0 <= k < g.objects[g.battlefield[i]].static_definitions.len(),
        g.objects[g.battlefield[i]].static_definitions[k].mode is CantLoseTheGame,
    ensures
        ({
            let o = g.objects[g.battlefield[i]];
            let d = o.static_definitions[k];
            &&& d.affected is None ==> cannot_lose(g, p)
            &&& d.affected is Some && *d.affected->0 is Typed ==> {
                let whose = (*d.affected->0)->Typed_0.controller;
                &&& whose == Some(ControllerRef::You) && o.controller == p ==> cannot_lose(g, p)
                &&& whose == Some(ControllerRef::Opponent) && o.controller != p ==> cannot_lose(
                    g,
                    p,
                )
                &&& whose is None ==> cannot_lose(g, p)
            }
        }),
{
    let o = g.objects[g.battlefield[i]];
    let d = o.static_definitions[k];
    if crate::sba::protects(o.controller, d, p) {
        assert(crate::sba::object_protects(g, g.battlefield[i], p));
    }
}

/// Without a permanent with such an ability everyone can lose.
pub proof fn without_protection_everyone_can_lose(g: Game, p: PlayerId)
    requires
        forall|i: int, k: int|
            0 <= i < g.battlefield.len() && g.objects.dom().contains(g.battlefield[i]) && 0 <= k
                < g.objects[g.battlefield[i]].static_definitions.len()
                ==> !((#[trigger] g.objects[g.battlefield[i]].static_definitions[k]).mode
                is CantLoseTheGame),
    ensures
        !cannot_lose(g, p),
{
    if cannot_lose(g, p) {
        let i = choose|i: int|
            0 <= i < g.battlefield.len() && crate::sba::object_protects(
                g,
                #[trigger] g.battlefield[i],
                p,
            );
        let o = g.objects[g.battlefield[i]];
        let k = choose|k: int|
            0 <= k < o.static_definitions.len() && crate::sba::protects(
                o.controller,
                #[trigger] o.static_definitions[k],
                p,
            );
        assert(g.objects[g.battlefield[i]].static_definitions[k].mode is CantLoseTheGame);
    }
}

/// A player who loses is out of the game, and nobody else where players have no teams.
pub proof fn a_player_who_loses_is_out(g: Game, p: PlayerId, i: int)
    requires
        is_seat(g.players, p, i),
        !g.players[i].is_eliminated,
        !g.format_config.team_based,
    ensures
        eliminated(g, p).players == g.players.update(
            i,
            PlayerModel { is_eliminated: true, ..g.players[i] },
        ),
        eliminated(g, p).eliminated_players == g.eliminated_players.push(p),
        eliminated(g, p).objects == g.objects,
{
    reveal(eliminated);
    lemma_seat(g.players, p, i);
}

/// With two players the other one wins when one loses.
pub proof fn of_two_players_the_other_wins(g: Game, i: int)
    requires
        g.players.len() == 2,
        0 <= i < 2,
        g.players[0].id != g.players[1].id,
        !g.players[0].is_eliminated && !g.players[1].is_eliminated,
        !g.format_config.team_based,
    ensures
        eliminated(g, g.players[i].id).waiting_for == (WaitingModel::GameOver {
            winner: Some(g.players[1 - i].id),
        }),
{
    reveal(eliminated);
    let p = g.players[i].id;
    assert(is_seat(g.players, p, i));
    lemma_seat(g.players, p, i);
    let h = without_player(g, p);
    assert(without_team(g, p) == h);
    assert(h.players[i].is_eliminated);
    assert(h.players[1 - i] == g.players[1 - i]);
    assert(is_first(h.players, crate::elimination::still_in(), 1 - i));
    crate::seqs::lemma_first_where(h.players, crate::elimination::still_in(), 1 - i);
    assert(survivor(h.players) == Some(g.players[1 - i].id));
    assert(is_decided(h));
}

/// The game goes on while two players who are no teammates are left.
pub proof fn the_game_goes_on_with_two_players_left(g: Game, p: PlayerId, i: int, j: int)
    requires
        !g.format_config.team_based,
        0 <= i < g.players.len(),
        0 <= j < g.players.len(),
        g.players[i].id != g.players[j].id,
        g.players[i].id != p && g.players[j].id != p,
        !g.players[i].is_eliminated && !g.players[j].is_eliminated,
    ensures
        eliminated(g, p).waiting_for == g.waiting_for,
{
    reveal(eliminated);
    let h = without_team(g, p);
    if let Some(k) = crate::state::seat_of(g.players, p) {
        let c = choose|c: int| is_seat(g.players, p, c);
        assert(is_seat(g.players, p, c));
    }
    assert(h.players[i] == g.players[i]);
    assert(h.players[j] == g.players[j]);
    if is_decided(h) {
        assert(h.players[i].id == survivor(h.players)->0);
        assert(h.players[j].id == survivor(h.players)->0);
    }
}

/// A creature with toughness zero or less is put into its owner's graveyard, where it is the only
/// one.
pub proof fn a_creature_without_toughness_goes_to_the_graveyard(s: Sweep, i: int)
    requires
        s.game.battlefield.len() == 1,
        i == 0,
        s.game.objects.dom().contains(s.game.battlefield[i]),
        s.game.objects[s.game.battlefield[i]].card_types.core_types.contains(CoreType::Creature),
        s.game.objects[s.game.battlefield[i]].toughness is Some,
        s.game.objects[s.game.battlefield[i]].toughness->0 <= 0,
    ensures
        flaw_buried(s, Flaw::ZeroToughness).game == moved(
            s.game,
            s.game.battlefield[i],
            Zone::Graveyard,
        ),
        flaw_buried(s, Flaw::ZeroToughness).any,
{
    let f = flawed(s.game, Flaw::ZeroToughness);
    let ids = s.game.battlefield.filter(f);
    reveal(Seq::filter);
    assert(s.game.battlefield.drop_last().len() == 0);
    assert(ids =~= seq![s.game.battlefield[0]]) by {
        assert(s.game.battlefield.drop_last().filter(f).len() == 0);
    }
    reveal_with_fuel(all_buried, 2);
}

/// Of +1/+1 and -1/-1 counters as many of each are removed as there are pairs.
pub proof fn pairs_of_counters_are_removed(m: Map<CounterKind, u32>, p: u32, n: u32)
    requires
        m.dom().contains(CounterKind::Plus1Plus1) && m[CounterKind::Plus1Plus1] == p,
        m.dom().contains(CounterKind::Minus1Minus1) && m[CounterKind::Minus1Minus1] == n,
        p > 0 && n > 0,
    ensures
        ({
            let r = without_pairs(m);
            &&& p > n ==> r.dom().contains(CounterKind::Plus1Plus1)
                && r[CounterKind::Plus1Plus1] == p - n && !r.dom().contains(
                CounterKind::Minus1Minus1,
            )
            &&& n > p ==> r.dom().contains(CounterKind::Minus1Minus1)
                && r[CounterKind::Minus1Minus1] == n - p && !r.dom().contains(
                CounterKind::Plus1Plus1,
            )
            &&& n == p ==> !r.dom().contains(CounterKind::Plus1Plus1) && !r.dom().contains(
                CounterKind::Minus1Minus1,
            )
        }),
{
}

/// A token that ceases to exist is no object any more, and all others are as before.
pub proof fn a_token_that_ceases_to_exist_is_gone(
    g: Game,
    id: ObjectId,
    zone: Zone,
    owner: PlayerId,
    other: ObjectId,
)
    ensures
        !ceased(g, id, zone, owner).objects.dom().contains(id),
        other != id ==> (ceased(g, id, zone, owner).objects.dom().contains(other)
            <==> g.objects.dom().contains(other)),
        other != id ==> ceased(g, id, zone, owner).objects[other] == g.objects[other],
{
}

} // verus!
