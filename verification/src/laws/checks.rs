//! What state-based actions do to players and permanents, one by one.

use vstd::prelude::*;
use crate::ability::TriggerDefinition;
use crate::applicability::candidates;
use crate::cards::{CoreType, CounterKind, Supertype, Zone};
use crate::elimination::{eliminated, elimination_told, is_decided, without_player, without_team};
use crate::events::{EventModel, WaitingModel};
use crate::ids::{ObjectId, PlayerId};
use crate::keyed::unlike;
use crate::laws::actions::{a_player_who_loses_is_out, of_two_players_the_other_wins};
use crate::object::ObjectModel;
use crate::proposals::plain_move;
use crate::registry::full_registry;
use crate::replacement::{event_replaced, processed};
use crate::sba::{
    all_buried, all_lost, all_sacrificed, all_started, called, cannot_lose, ceased, changes_told,
    defeated, destroyed_by_damage, destruction, detached, finished_saga, flaw_buried, flawed,
    got_lore, has_namesake, is_stray_token, last_chapter, legend_choice, legend_of, legends, losers,
    reason_checked, starters, Flaw, Reason, Sweep,
};
use crate::seqs::{lemma_filter_members, lemma_first_where, lemma_first_where_none};
use crate::speed::has_engines;
use crate::state::{is_seat, lemma_seat, Game};
use crate::zones::{move_told, moved_objects_lie_where_they_were_put};

verus! {

/// The players who lose are those still in the game with no life, ten poison counters or more, or a
/// draw from an empty library, unless they cannot lose.
pub proof fn who_loses(g: Game, why: Reason, n: nat)
    requires
        n < g.players.len(),
    ensures
        ({
            let p = g.players[n as int];
            let loses = !p.is_eliminated && !cannot_lose(g, p.id) && match why {
                Reason::NoLife => p.life <= 0,
                Reason::Poison => p.poison_counters >= 10,
                Reason::EmptyLibrary => p.drew_from_empty_library,
            };
            &&& losers(g, why, 0).len() == 0
            &&& loses ==> losers(g, why, n + 1) == losers(g, why, n).push(p.id)
            &&& !loses ==> losers(g, why, n + 1) == losers(g, why, n)
        }),
{
}

/// In a duel, the player without life loses, it is told, and the other player wins.
pub proof fn without_life_a_player_loses(s: Sweep, i: int)
    requires
        0 <= i < 2,
        s.game.players.len() == 2,
        s.game.players[0].id != s.game.players[1].id,
        !s.game.players[0].is_eliminated && !s.game.players[1].is_eliminated,
        !s.game.format_config.team_based,
        !(s.game.waiting_for is GameOver),
        s.game.players[i].life <= 0 && s.game.players[1 - i].life > 0,
        !cannot_lose(s.game, s.game.players[i].id),
    ensures
        ({
            let t = reason_checked(s, Reason::NoLife);
            &&& t.any
            &&& t.game.players[i].is_eliminated && !t.game.players[1 - i].is_eliminated
            &&& t.game.waiting_for == (WaitingModel::GameOver {
                winner: Some(s.game.players[1 - i].id),
            })
            &&& t.told == s.told.push(
                EventModel::PlayerLost { player_id: s.game.players[i].id },
            ).push(EventModel::GameOver { winner: Some(s.game.players[1 - i].id) })
        }),
{
    let g = s.game;
    let p = g.players[i].id;
    reveal_with_fuel(losers, 3);
    assert(losers(g, Reason::NoLife, 2) =~= seq![p]);
    reveal_with_fuel(all_lost, 2);
    assert(is_seat(g.players, p, i));
    a_player_who_loses_is_out(g, p, i);
    of_two_players_the_other_wins(g, i);
    reveal(eliminated);
    reveal(elimination_told);
    let h = without_team(g, p);
    assert(h.waiting_for == g.waiting_for);
    assert(is_decided(h));
}

/// Players lose to the damage of one commander, as much as the format says or more, once each.
pub proof fn who_is_defeated_by_a_commander(g: Game, threshold: u32, n: nat)
    requires
        n < g.commander_damage.len(),
    ensures
        ({
            let c = g.commander_damage[n as int];
            let loses = c.damage >= threshold && !g.eliminated_players.contains(c.player)
                && !cannot_lose(g, c.player);
            &&& defeated(g, threshold, 0).len() == 0
            &&& loses ==> defeated(g, threshold, n + 1) == defeated(g, threshold, n).push(c.player)
            &&& !loses ==> defeated(g, threshold, n + 1) == defeated(g, threshold, n)
        }),
{
}

/// A permanent that is attached to something it cannot be attached to comes off it: it is attached
/// to nothing, and nothing else about either changes.
pub proof fn what_comes_off_is_attached_to_nothing(g: Game, id: ObjectId, host: ObjectId)
    requires
        g.objects.dom().contains(id),
        g.objects[id].attached_to == Some(host),
        host != id,
    ensures
        ({
            let h = detached(g, id);
            &&& h.objects[id] == (ObjectModel { attached_to: None, ..g.objects[id] })
            &&& g.objects.dom().contains(host) ==> h.objects[host] == (ObjectModel {
                attachments: h.objects[host].attachments,
                ..g.objects[host]
            })
            &&& g.objects.dom().contains(host) ==> !h.objects[host].attachments.contains(id)
            &&& h == (Game { objects: h.objects, ..g })
        }),
{
    if g.objects.dom().contains(host) {
        let list = g.objects[host].attachments;
        lemma_filter_members(list, unlike(id));
    }
}

/// The final chapter of a Saga is the greatest that its triggers name.
pub proof fn the_greatest_chapter_is_the_last(
    defs: Seq<TriggerDefinition>,
    d: TriggerDefinition,
    t: u32,
)
    requires
        d.counter_filter is Some,
        d.counter_filter->0.counter_type@ is Lore,
        d.counter_filter->0.threshold == Some(t),
    ensures
        ({
            let before = last_chapter(defs, defs.len());
            let now = last_chapter(defs.push(d), defs.len() + 1);
            &&& before is None ==> now == Some(t)
            &&& before is Some && before->0 <= t ==> now == Some(t)
            &&& before is Some && before->0 > t ==> now == before
        }),
{
    lemma_chapters(defs, d, defs.len());
}

proof fn lemma_chapters(defs: Seq<TriggerDefinition>, d: TriggerDefinition, n: nat)
    requires
        n <= defs.len(),
    ensures
        last_chapter(defs.push(d), n) == last_chapter(defs, n),
    decreases n,
{
    if n > 0 {
        lemma_chapters(defs, d, (n - 1) as nat);
    }
}

/// A Saga is finished when it has as many lore counters as its final chapter says, no ability of it
/// waits on the stack, and it did not just get a counter.
pub proof fn when_a_saga_is_finished(g: Game, id: ObjectId, t: u32, k: int)
    requires
        g.objects.dom().contains(id),
        0 <= k < g.objects[id].card_types.subtypes.len(),
        g.objects[id].card_types.subtypes[k]@ == "Saga"@,
        g.objects[id].trigger_definitions.len() == 1,
        g.objects[id].trigger_definitions[0].counter_filter is Some,
        g.objects[id].trigger_definitions[0].counter_filter->0.counter_type@ is Lore,
        g.objects[id].trigger_definitions[0].counter_filter->0.threshold == Some(t),
        t > 0,
        g.stack.len() == 0,
    ensures
        finished_saga(g, Seq::empty())(id) <==> g.objects[id].counters.dom().contains(
            CounterKind::Lore,
        ) && g.objects[id].counters[CounterKind::Lore] >= t,
        !finished_saga(
            g,
            seq![
                EventModel::CounterAdded {
                    object_id: id,
                    counter_type: CounterKind::Lore,
                    count: 1,
                },
            ],
        )(id),
{
    reveal_with_fuel(last_chapter, 2);
    let told = seq![
        EventModel::CounterAdded { object_id: id, counter_type: CounterKind::Lore, count: 1 },
    ];
    assert(told[0] is CounterAdded);
    assert(got_lore(told, id));
}

/// A Saga that is finished goes to the graveyard as a sacrifice of its owner.
pub proof fn finished_sagas_are_sacrificed(s: Sweep, id: ObjectId)
    requires
        s.game.objects.dom().contains(id),
    ensures
        ({
            let t = all_sacrificed(s, seq![id], 1);
            &&& t.any
            &&& t.game.objects[id].zone is Graveyard
            &&& t.told.len() > s.told.len()
            &&& t.told[s.told.len() as int] == (EventModel::PermanentSacrificed {
                object_id: id,
                player_id: s.game.objects[id].owner,
            })
        }),
{
    reveal_with_fuel(all_sacrificed, 2);
    moved_objects_lie_where_they_were_put(s.game, id, Zone::Graveyard);
    reveal(move_told);
}

/// A planeswalker without loyalty, like an aura without a permanent to be on, goes to the
/// graveyard.
pub proof fn flawed_permanents_go_to_the_graveyard(s: Sweep, id: ObjectId)
    requires
        s.game.battlefield == seq![id],
        s.game.objects.dom().contains(id),
    ensures
        ({
            let o = s.game.objects[id];
            let hanging = o.attached_to is Some && !(s.game.objects.dom().contains(
                o.attached_to->0,
            ) && s.game.objects[o.attached_to->0].zone is Battlefield);
            &&& o.card_types.core_types.contains(CoreType::Planeswalker) && o.loyalty == Some(0u32)
                ==> flaw_buried(s, Flaw::ZeroLoyalty).game.objects[id].zone is Graveyard
            &&& !(o.card_types.core_types.contains(CoreType::Planeswalker) && o.loyalty == Some(
                0u32,
            )) ==> flaw_buried(s, Flaw::ZeroLoyalty) == s
            &&& o.card_types.core_types.contains(CoreType::Enchantment) && hanging ==> flaw_buried(
                s,
                Flaw::IllegalAura,
            ).game.objects[id].zone is Graveyard
            &&& !(o.card_types.core_types.contains(CoreType::Enchantment) && hanging)
                ==> flaw_buried(s, Flaw::IllegalAura) == s
        }),
{
    lemma_buried(s, id, Flaw::ZeroLoyalty);
    lemma_buried(s, id, Flaw::IllegalAura);
}

proof fn lemma_buried(s: Sweep, id: ObjectId, flaw: Flaw)
    requires
        s.game.battlefield == seq![id],
        s.game.objects.dom().contains(id),
    ensures
        flawed(s.game, flaw)(id) ==> flaw_buried(s, flaw).game.objects[id].zone is Graveyard,
        !flawed(s.game, flaw)(id) ==> flaw_buried(s, flaw) == s,
{
    let f = flawed(s.game, flaw);
    let list = s.game.battlefield;
    reveal(Seq::filter);
    assert(list.drop_last() =~= Seq::empty());
    assert(list.drop_last().filter(f) =~= Seq::empty());
    assert(list.last() == id);
    if f(id) {
        assert(list.filter(f) =~= seq![id]);
        reveal_with_fuel(all_buried, 2);
        moved_objects_lie_where_they_were_put(s.game, id, Zone::Graveyard);
    } else {
        assert(list.filter(f) =~= Seq::empty());
    }
}

/// A creature that is destroyed goes to the graveyard where nothing replaces that, and its
/// destruction is told last.
pub proof fn the_destroyed_go_to_the_graveyard(s: Sweep, id: ObjectId)
    requires
        s.game.objects.dom().contains(id),
        candidates(s.game, destruction(id), full_registry()).len() == 0,
        candidates(
            s.game,
            plain_move(id, Zone::Battlefield, Zone::Graveyard, None, Set::empty()),
            full_registry(),
        ).len() == 0,
    ensures
        ({
            let (t, put_off) = destroyed_by_damage(s, id);
            &&& !put_off && t.any
            &&& t.game.objects[id].zone is Graveyard
            &&& t.told.last() == (EventModel::CreatureDestroyed { object_id: id })
        }),
{
    reveal(event_replaced);
    reveal_with_fuel(processed, 2);
    moved_objects_lie_where_they_were_put(s.game, id, Zone::Graveyard);
}

/// Of two legendary permanents of one name that a player controls, that player chooses one.
pub proof fn players_choose_among_legends(g: Game, p: PlayerId, a: ObjectId, b: ObjectId)
    requires
        g.battlefield == seq![a, b],
        g.objects.dom().contains(a) && g.objects.dom().contains(b),
        g.objects[a].controller == p && g.objects[b].controller == p,
        g.objects[a].card_types.supertypes.contains(Supertype::Legendary),
        g.objects[b].card_types.supertypes.contains(Supertype::Legendary),
    ensures
        g.objects[a].name@ == g.objects[b].name@ ==> legend_choice(g, p) == Some(
            WaitingModel::ChooseLegend {
                player: p,
                legend_name: g.objects[a].name@,
                candidates: seq![a, b],
            },
        ),
        g.objects[a].name@ != g.objects[b].name@ && a != b ==> legend_choice(g, p) is None,
{
    let f = legend_of(g, p);
    lemma_pair(a, b, f);
    let ids = legends(g, p);
    assert(ids == seq![a, b]);
    let ca = called(g, g.objects[a].name@);
    let cb = called(g, g.objects[b].name@);
    lemma_pair(a, b, ca);
    lemma_pair(a, b, cb);
    let h = has_namesake(g, ids);
    if g.objects[a].name@ == g.objects[b].name@ {
        assert(h(ids[0]));
        lemma_first_where(ids, h, 0);
    } else {
        assert forall|j: int| 0 <= j < ids.len() implies !h(#[trigger] ids[j]) by {
            if j == 0 {
                assert(ids[j] == a);
            } else {
                assert(ids[j] == b);
            }
        }
        lemma_first_where_none(ids, h);
    }
}

proof fn lemma_pair(a: ObjectId, b: ObjectId, p: spec_fn(ObjectId) -> bool)
    ensures
        p(a) && p(b) ==> seq![a, b].filter(p) == seq![a, b],
        p(a) && !p(b) ==> seq![a, b].filter(p) == seq![a],
        !p(a) && p(b) ==> seq![a, b].filter(p) == seq![b],
        !p(a) && !p(b) ==> seq![a, b].filter(p).len() == 0,
{
    reveal_with_fuel(Seq::filter, 3);
    let s = seq![a, b];
    assert(s.drop_last() =~= seq![a]);
    assert(s.drop_last().drop_last() =~= Seq::empty());
    assert(s.drop_last().drop_last().filter(p) =~= Seq::empty());
    if p(a) {
        assert(s.drop_last().filter(p) =~= seq![a]);
    } else {
        assert(s.drop_last().filter(p) =~= Seq::empty());
    }
    if p(b) {
        assert(s.filter(p) =~= s.drop_last().filter(p).push(b));
    } else {
        assert(s.filter(p) =~= s.drop_last().filter(p));
    }
}

/// Players without speed who have started engines get a speed of one, and it is told.
pub proof fn engines_start_at_speed_one(s: Sweep, n: nat, i: int)
    requires
        n < s.game.players.len(),
        is_seat(s.game.players, s.game.players[n as int].id, i),
    ensures
        ({
            let p = s.game.players[n as int];
            let starts = p.speed is None && has_engines(s.game, p.id);
            let t = all_started(s, seq![p.id], 1);
            &&& starts ==> starters(s.game, n + 1) == starters(s.game, n).push(p.id)
            &&& !starts ==> starters(s.game, n + 1) == starters(s.game, n)
            &&& t.game.players[i].speed == Some(1u8)
            &&& t.told == s.told.push(
                EventModel::SpeedChanged { player_id: p.id, speed: Some(1) },
            )
        }),
{
    lemma_seat(s.game.players, s.game.players[n as int].id, i);
    reveal_with_fuel(all_started, 2);
}

/// A change of power or toughness is told with the new numbers and by how much they changed.
pub proof fn changes_of_power_are_told(
    told: Seq<EventModel>,
    before: Game,
    after: Game,
    n: nat,
    p: i32,
    t: i32,
    x: i32,
    y: i32,
)
    requires
        n < before.battlefield.len(),
        before.objects.dom().contains(before.battlefield[n as int]),
        after.objects.dom().contains(before.battlefield[n as int]),
        before.objects[before.battlefield[n as int]].power == Some(p),
        before.objects[before.battlefield[n as int]].toughness == Some(t),
        after.objects[before.battlefield[n as int]].power == Some(x),
        after.objects[before.battlefield[n as int]].toughness == Some(y),
        i32::MIN <= x - p <= i32::MAX,
        i32::MIN <= y - t <= i32::MAX,
    ensures
        x == p && y == t ==> changes_told(told, before, after, n + 1) == changes_told(
            told,
            before,
            after,
            n,
        ),
        x != p || y != t ==> changes_told(told, before, after, n + 1) == changes_told(
            told,
            before,
            after,
            n,
        ).push(
            EventModel::PowerToughnessChanged {
                object_id: before.battlefield[n as int],
                power: x,
                toughness: y,
                power_delta: (x - p) as i32,
                toughness_delta: (y - t) as i32,
            },
        ),
{
}

/// In a game of teams the teammate leaves with the player.
pub proof fn teammates_leave_together(g: Game, p: PlayerId, i: int, j: int)
    requires
        g.format_config.team_based,
        p.0 % 2 == 0,
        p.0 < u8::MAX,
        is_seat(g.players, p, i),
        is_seat(g.players, PlayerId((p.0 + 1) as u8), j),
        !g.players[i].is_eliminated && !g.players[j].is_eliminated,
    ensures
        eliminated(g, p).players[i].is_eliminated,
        eliminated(g, p).players[j].is_eliminated,
        eliminated(g, p).eliminated_players == g.eliminated_players.push(p).push(
            PlayerId((p.0 + 1) as u8),
        ),
{
    reveal(eliminated);
    let q = PlayerId((p.0 + 1) as u8);
    lemma_seat(g.players, p, i);
    assert(i != j);
    let h = without_player(g, p);
    assert forall|k: int| 0 <= k < j implies (#[trigger] h.players[k]).id != q by {
        assert(g.players[k].id != q);
    }
    assert(is_seat(h.players, q, j));
    lemma_seat(h.players, q, j);
}

/// A token that ceases to exist is taken out of the zone in which it was.
pub proof fn tokens_are_taken_out_of_their_zone(g: Game, id: ObjectId, owner: PlayerId)
    ensures
        !ceased(g, id, Zone::Exile, owner).exile.contains(id),
        !ceased(g, id, Zone::Exile, owner).object_ids.contains(id),
        ceased(g, id, Zone::Exile, owner).players == g.players,
{
    lemma_filter_members(g.exile, unlike(id));
    lemma_filter_members(g.object_ids, unlike(id));
}

/// A token is out of place anywhere but on the battlefield or the stack, and nothing else is.
pub proof fn which_tokens_are_out_of_place(o: ObjectModel)
    ensures
        is_stray_token(o) <==> o.is_token && !(o.zone is Battlefield) && !(o.zone is Stack),
{
}

} // verus!
