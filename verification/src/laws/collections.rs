//! What numbers and conditions over several objects or players come to.

use vstd::prelude::*;
use crate::ability::{
    ControllerRef, CountScope, PlayerFilter, QuantityRef, ReplacementCondition, TargetFilter,
    TargetRef, ZoneRef,
};
use crate::applicability::condition_met;
use crate::cards::{counter_named, CoreType};
use crate::conditions::{
    card_with, creatures_of, holds_for, known_powers, land_of_any, lands_of, most_frequent,
    names_of, this_name, wanted_of, ConditionModel, WantedModel,
};
use crate::devotion::{commander_colors_among, devotion_of};
use crate::events::{EventModel, ProposedModel};
use crate::filter::{filter_scope, matches_filter, matching, seen_from, ScopeModel};
use crate::ids::{ObjectId, PlayerId};
use crate::laws::quantities::{number, up_to_most};
use crate::mana::ManaColor;
use crate::players::exiled_with;
use crate::quantity::{
    came_in, colors_among, counted_player, counters_of, exiled_ids, found, named, newcomers,
    newest_set, owned_by, piles, printed_names, ref_value, types_among, value_of,
};
use crate::seqs::{count_where, distinct, wrapped_sum};
use crate::speed::speed_of;
use crate::state::{is_seat, lemma_seat, DamageRecord, Game};
use crate::targeting::event_player;
use crate::text::{lowercase, same_ignoring_case};

verus! {

proof fn lemma_number(g: Game, q: QuantityRef, sc: ScopeModel)
    ensures
        number(g, q, sc) == ref_value(g, q, sc),
{
    reveal_with_fuel(value_of, 2);
}

proof fn lemma_types(g: Game, ids: Seq<ObjectId>, n: nat, t: CoreType)
    requires
        n <= ids.len(),
    ensures
        types_among(g, ids, n).contains(t) <==> exists|k: int|
            0 <= k < n && has_type(g, #[trigger] ids[k], t),
    decreases n,
{
    if n > 0 {
        lemma_types(g, ids, (n - 1) as nat, t);
        let front = types_among(g, ids, (n - 1) as nat);
        let all = types_among(g, ids, n);
        let id = ids[n - 1];
        if g.objects.dom().contains(id) {
            let own = g.objects[id].card_types.core_types;
            assert(all == front + own);
            if front.contains(t) {
                let x = choose|x: int| 0 <= x < front.len() && front[x] == t;
                assert(all[x] == t);
            }
            if own.contains(t) {
                let x = choose|x: int| 0 <= x < own.len() && own[x] == t;
                assert(all[front.len() + x] == t);
                assert(has_type(g, ids[n - 1], t));
            }
            if all.contains(t) {
                let x = choose|x: int| 0 <= x < all.len() && all[x] == t;
                if x < front.len() {
                    assert(front[x] == t);
                } else {
                    assert(own[x - front.len()] == t);
                    assert(has_type(g, ids[n - 1], t));
                }
            }
        }
    }
}

/// Whether an object is of a card type.
pub open spec fn has_type(g: Game, id: ObjectId, t: CoreType) -> bool {
    g.objects.dom().contains(id) && g.objects[id].card_types.core_types.contains(t)
}

/// Whether an object is of a colour.
pub open spec fn has_color(g: Game, id: ObjectId, c: ManaColor) -> bool {
    g.objects.dom().contains(id) && g.objects[id].color.contains(c)
}

proof fn lemma_colors(g: Game, ids: Seq<ObjectId>, n: nat, c: ManaColor)
    requires
        n <= ids.len(),
    ensures
        colors_among(g, ids, n).contains(c) <==> exists|k: int|
            0 <= k < n && has_color(g, #[trigger] ids[k], c),
    decreases n,
{
    if n > 0 {
        lemma_colors(g, ids, (n - 1) as nat, c);
        let front = colors_among(g, ids, (n - 1) as nat);
        let all = colors_among(g, ids, n);
        let id = ids[n - 1];
        if g.objects.dom().contains(id) {
            let own = g.objects[id].color;
            assert(all == front + own);
            if front.contains(c) {
                let x = choose|x: int| 0 <= x < front.len() && front[x] == c;
                assert(all[x] == c);
            }
            if own.contains(c) {
                let x = choose|x: int| 0 <= x < own.len() && own[x] == c;
                assert(all[front.len() + x] == c);
                assert(has_color(g, ids[n - 1], c));
            }
            if all.contains(c) {
                let x = choose|x: int| 0 <= x < all.len() && all[x] == c;
                if x < front.len() {
                    assert(front[x] == c);
                } else {
                    assert(own[x - front.len()] == c);
                    assert(has_color(g, ids[n - 1], c));
                }
            }
        }
    }
}

proof fn lemma_type_set(g: Game, ids: Seq<ObjectId>, s: Set<CoreType>)
    requires
        forall|t: CoreType| #[trigger]
            s.contains(t) <==> exists|k: int| 0 <= k < ids.len() && has_type(g, #[trigger] ids[k], t),
    ensures
        distinct(types_among(g, ids, ids.len())) == s.len(),
{
    let list = types_among(g, ids, ids.len());
    assert forall|t: CoreType| #[trigger] list.to_set().contains(t) <==> s.contains(t) by {
        lemma_types(g, ids, ids.len(), t);
    }
    assert(list.to_set() =~= s);
}

/// Card types among the cards of a player's graveyard, or in another pile, count once each.
pub proof fn each_card_type_counts_once(g: Game, sc: ScopeModel, zone: ZoneRef, s: Set<CoreType>)
    requires
        g.players.len() == 1,
        g.players[0].id == sc.controller,
        zone is Graveyard || zone is Hand || zone is Library,
        forall|t: CoreType| #[trigger]
            s.contains(t) <==> exists|k: int|
                0 <= k < pile(g, zone).len() && has_type(g, #[trigger] pile(g, zone)[k], t),
    ensures
        number(
            g,
            QuantityRef::DistinctCardTypesInZone { zone, scope: CountScope::Controller },
            sc,
        ) == up_to_most(s.len() as int),
        zone is Graveyard && s.len() <= usize::MAX ==> (holds_for(
            g,
            sc.controller,
            sc.source,
            ConditionModel::GraveyardCardTypeCountAtLeast { count: s.len() as usize },
        )),
        zone is Graveyard && s.len() < usize::MAX ==> !holds_for(
            g,
            sc.controller,
            sc.source,
            ConditionModel::GraveyardCardTypeCountAtLeast { count: (s.len() + 1) as usize },
        ),
{
    lemma_number(
        g,
        QuantityRef::DistinctCardTypesInZone { zone, scope: CountScope::Controller },
        sc,
    );
    reveal_with_fuel(piles, 2);
    let list = piles(g.players, 1, zone, CountScope::Controller, sc.controller);
    assert(list =~= pile(g, zone));
    lemma_type_set(g, pile(g, zone), s);
    assert(is_seat(g.players, sc.controller, 0));
    lemma_seat(g.players, sc.controller, 0);
}

/// A pile of the first player.
pub open spec fn pile(g: Game, zone: ZoneRef) -> Seq<ObjectId> {
    match zone {
        ZoneRef::Graveyard => g.players[0].graveyard,
        ZoneRef::Hand => g.players[0].hand,
        ZoneRef::Library => g.players[0].library,
        ZoneRef::Exile => Seq::empty(),
    }
}

/// Colours among permanents count once each.
pub proof fn each_color_counts_once(
    g: Game,
    sc: ScopeModel,
    filter: TargetFilter,
    s: Set<ManaColor>,
)
    requires
        forall|c: ManaColor| #[trigger]
            s.contains(c) <==> exists|k: int|
                0 <= k < found(g, filter, sc).len() && has_color(
                    g,
                    #[trigger] found(g, filter, sc)[k],
                    c,
                ),
    ensures
        number(g, QuantityRef::DistinctColorsAmongPermanents { filter }, sc) == up_to_most(
            s.len() as int,
        ),
{
    lemma_number(g, QuantityRef::DistinctColorsAmongPermanents { filter }, sc);
    let ids = found(g, filter, sc);
    let list = colors_among(g, ids, ids.len());
    assert forall|c: ManaColor| #[trigger] list.to_set().contains(c) <==> s.contains(c) by {
        lemma_colors(g, ids, ids.len(), c);
    }
    assert(list.to_set() =~= s);
}

/// Cards exiled with the source count one by one, and card types among them once each.
pub proof fn cards_exiled_with_the_source(g: Game, sc: ScopeModel, s: Set<CoreType>)
    requires
        forall|t: CoreType| #[trigger]
            s.contains(t) <==> exists|k: int|
                0 <= k < exiled_ids(g, sc.source).len() && has_type(
                    g,
                    #[trigger] exiled_ids(g, sc.source)[k],
                    t,
                ),
    ensures
        number(g, QuantityRef::CardsExiledBySource, sc) == up_to_most(
            exiled_with(g, sc.source).len() as int,
        ),
        number(g, QuantityRef::DistinctCardTypesExiledBySource, sc) == up_to_most(s.len() as int),
{
    lemma_number(g, QuantityRef::CardsExiledBySource, sc);
    lemma_number(g, QuantityRef::DistinctCardTypesExiledBySource, sc);
    lemma_type_set(g, exiled_ids(g, sc.source), s);
}

/// The colours of a commander are those that it has and those of its cost; a card that is no
/// commander, or another player's, has no part in it.
pub proof fn colors_of_commanders(g: Game, n: nat, p: PlayerId, c: ManaColor)
    requires
        n < g.object_ids.len(),
        g.objects.dom().contains(g.object_ids[n as int]),
    ensures
        ({
            let o = g.objects[g.object_ids[n as int]];
            let before = commander_colors_among(g, n, p);
            let now = commander_colors_among(g, n + 1, p);
            &&& o.is_commander && o.owner == p && o.color.contains(c) ==> now.contains(c)
            &&& before.contains(c) ==> now.contains(c)
            &&& !(o.is_commander && o.owner == p) ==> now == before
        }),
{
    let o = g.objects[g.object_ids[n as int]];
    let before = commander_colors_among(g, n, p);
    let now = commander_colors_among(g, n + 1, p);
    if before.contains(c) {
        let x = choose|x: int| 0 <= x < before.len() && before[x] == c;
        assert(now[x] == c);
    }
    if o.is_commander && o.owner == p && o.color.contains(c) {
        let x = choose|x: int| 0 <= x < o.color.len() && o.color[x] == c;
        assert(now[before.len() + x] == c);
    }
}

/// Of the one object that is meant, the counters of the kind are counted.
pub proof fn counters_on_the_one_that_is_meant(
    g: Game,
    sc: ScopeModel,
    filter: TargetFilter,
    name: String,
    id: ObjectId,
)
    requires
        found(g, filter, sc) == seq![id],
    ensures
        ({
            let kind = counter_named(name@);
            let m = g.objects[id].counters;
            number(g, QuantityRef::CountersOnObjects { counter_type: Some(name), filter }, sc)
                == up_to_most(
                if m.dom().contains(kind) {
                    m[kind] as int
                } else {
                    0
                },
            )
        }),
{
    lemma_number(g, QuantityRef::CountersOnObjects { counter_type: Some(name), filter }, sc);
    let list = counters_of(g, found(g, filter, sc), Some(counter_named(name@)));
    reveal_with_fuel(wrapped_sum, 2);
    assert(list.len() == 1);
    assert(list.drop_last() =~= Seq::empty());
}

/// Two objects of one name count once, two of different names twice, and objects without a name
/// each for itself.
pub proof fn names_count_once(
    g: Game,
    sc: ScopeModel,
    filter: TargetFilter,
    a: ObjectId,
    b: ObjectId,
)
    requires
        found(g, filter, sc) == seq![a, b],
    ensures
        ({
            let x = g.objects[a].base_name@;
            let y = g.objects[b].base_name@;
            let n = number(g, QuantityRef::ObjectCountDistinctNames { filter }, sc);
            &&& x.len() > 0 && x == y ==> n == 1
            &&& x != y ==> n == 2
            &&& x.len() == 0 && y.len() == 0 ==> n == 2
        }),
{
    lemma_number(g, QuantityRef::ObjectCountDistinctNames { filter }, sc);
    let names = printed_names(g, found(g, filter, sc));
    let x = g.objects[a].base_name@;
    let y = g.objects[b].base_name@;
    assert(names =~= seq![x, y]);
    reveal_with_fuel(count_where, 3);
    reveal_with_fuel(Seq::filter, 3);
    assert(names.drop_last() =~= seq![x]);
    assert(names.drop_last().drop_last() =~= Seq::empty());
    let kept = names.filter(named());
    if x.len() > 0 && y.len() > 0 {
        assert(kept =~= seq![x, y]);
        assert(kept.to_set() =~= set![x, y]) by {
            assert(kept[0] == x && kept[1] == y);
        }
        if x == y {
            assert(set![x, y] =~= set![x]);
        }
    } else if x.len() > 0 {
        assert(kept =~= seq![x]);
        assert(kept.to_set() =~= set![x]) by {
            assert(kept[0] == x);
        }
    } else if y.len() > 0 {
        assert(kept =~= seq![y]);
        assert(kept.to_set() =~= set![y]) by {
            assert(kept[0] == y);
        }
    } else {
        assert(kept =~= Seq::empty());
        assert(kept.to_set() =~= Set::empty());
        if x != y {
            assert(x =~= y);
        }
    }
}

/// A permanent that came in this turn counts, if it is still there and is meant.
pub proof fn permanents_that_came_in_are_counted(
    g: Game,
    sc: ScopeModel,
    filter: TargetFilter,
    id: ObjectId,
)
    requires
        g.object_ids == seq![id],
        g.objects.dom().contains(id),
        g.objects[id].id == id,
    ensures
        number(g, QuantityRef::EnteredThisTurn { filter }, sc) == (if g.objects[id].zone
            is Battlefield && g.objects[id].entered_battlefield_turn == Some(g.turn_number)
            && matches_filter(g, id, filter, filter_scope(sc)) {
            1int
        } else {
            0
        }),
{
    lemma_number(g, QuantityRef::EnteredThisTurn { filter }, sc);
    reveal(Seq::filter);
    let keys = g.object_ids.filter(came_in(g));
    assert(g.object_ids.drop_last() =~= Seq::empty());
    assert(g.object_ids.drop_last().filter(came_in(g)) =~= Seq::empty());
    if came_in(g)(id) {
        assert(keys =~= seq![id]);
        assert(newcomers(g) =~= seq![id]);
    } else {
        assert(keys =~= Seq::empty());
        assert(newcomers(g) =~= Seq::empty());
    }
    reveal_with_fuel(matching, 2);
}

/// The set that was made last is the one that is counted.
pub proof fn the_newest_set_is_counted(g: Game, sc: ScopeModel, k: int)
    ensures
        g.tracked_object_sets.seq().len() == 0 ==> number(g, QuantityRef::TrackedSetSize, sc) == 0,
        0 <= k < g.tracked_object_sets.seq().len() && (forall|j: int|
            0 <= j < g.tracked_object_sets.seq().len() && j != k ==> (
            #[trigger] g.tracked_object_sets.seq()[j]).0.0 < g.tracked_object_sets.seq()[k].0.0)
            ==> number(g, QuantityRef::TrackedSetSize, sc) == up_to_most(
            g.tracked_object_sets.seq()[k].1@.len() as int,
        ),
{
    lemma_number(g, QuantityRef::TrackedSetSize, sc);
    let s = g.tracked_object_sets.seq();
    if 0 <= k < s.len() && (forall|j: int|
        0 <= j < s.len() && j != k ==> (#[trigger] s[j]).0.0 < s[k].0.0) {
        lemma_newest(g, k, s.len());
    }
}

proof fn lemma_newest(g: Game, k: int, n: nat)
    requires
        ({
            let s = g.tracked_object_sets.seq();
            &&& 0 <= k < s.len()
            &&& forall|j: int| 0 <= j < s.len() && j != k ==> (#[trigger] s[j]).0.0 < s[k].0.0
            &&& n <= s.len()
        }),
    ensures
        ({
            let s = g.tracked_object_sets.seq();
            &&& n > k ==> newest_set(s, n) == Some(s[k])
            &&& 0 < n <= k ==> newest_set(s, n) is Some && (newest_set(s, n)->0).0.0 < s[k].0.0
        }),
    decreases n,
{
    if n > 0 {
        lemma_newest(g, k, (n - 1) as nat);
        let s = g.tracked_object_sets.seq();
        assert(n - 1 != k ==> s[n - 1].0.0 < s[k].0.0);
    }
}

/// Devotion is what it is, or the greatest number of 32 bits.
pub proof fn devotion_is_a_number(g: Game, sc: ScopeModel, colors: Vec<ManaColor>)
    ensures
        number(g, QuantityRef::Devotion { colors }, sc) == up_to_most(
            devotion_of(g, sc.controller, colors@) as int,
        ),
{
    lemma_number(g, QuantityRef::Devotion { colors }, sc);
}

/// An attachment of an object that left counts, if it is of the kind and its controller is as asked.
pub proof fn attachments_of_what_left(
    g: Game,
    sc: ScopeModel,
    q: QuantityRef,
    e: EventModel,
)
    requires
        q is AttachmentsOnLeavingObject,
        g.current_trigger_event == Some(e),
        e is ZoneChanged,
        e->ZoneChanged_record.attachments.len() == 1,
        q->AttachmentsOnLeavingObject_controller != Some(ControllerRef::TargetPlayer),
    ensures
        ({
            let a = e->ZoneChanged_record.attachments[0];
            let whose = q->AttachmentsOnLeavingObject_controller;
            number(g, q, sc) == (if a.kind == q->AttachmentsOnLeavingObject_kind && (whose is None
                || (whose == Some(ControllerRef::You) && a.controller == sc.controller) || (whose
                == Some(ControllerRef::Opponent) && a.controller != sc.controller)) {
                1int
            } else {
                0
            })
        }),
{
    lemma_number(g, q, sc);
    reveal_with_fuel(count_where, 2);
    let list = e->ZoneChanged_record.attachments;
    assert(list.drop_last() =~= Seq::empty());
}

/// Of two players the faster one has the highest speed, both where they are equally fast. Players
/// count too whose cards just moved, or whom the event is about.
pub proof fn players_are_counted_by_what_they_did(g: Game, sc: ScopeModel)
    requires
        g.players.len() == 2,
        g.players[0].id != g.players[1].id,
        !g.players[0].is_eliminated && !g.players[1].is_eliminated,
    ensures
        ({
            let a = g.players[0].id;
            let b = g.players[1].id;
            let fast = number(g, QuantityRef::PlayerCount { filter: PlayerFilter::HighestSpeed }, sc);
            &&& speed_of(g, a) != speed_of(g, b) ==> fast == 1
            &&& speed_of(g, a) == speed_of(g, b) ==> fast == 2
        }),
{
    let f = PlayerFilter::HighestSpeed;
    lemma_number(g, QuantityRef::PlayerCount { filter: f }, sc);
    reveal_with_fuel(count_where, 3);
    let list = g.players;
    let c = counted_player(g, f, sc.controller, sc.source);
    assert(list.drop_last().drop_last() =~= Seq::empty());
    let x = speed_of(g, list[0].id);
    let y = speed_of(g, list[1].id);
    assert(c(list[0]) <==> y <= x) by {
        if y <= x {
            assert forall|i: int| 0 <= i < list.len() implies speed_of(
                g,
                (#[trigger] list[i]).id,
            ) <= x by {
                assert(i == 0 || i == 1);
            }
        } else {
            assert(speed_of(g, list[1].id) > x);
        }
    }
    assert(c(list[1]) <==> x <= y) by {
        if x <= y {
            assert forall|i: int| 0 <= i < list.len() implies speed_of(
                g,
                (#[trigger] list[i]).id,
            ) <= y by {
                assert(i == 0 || i == 1);
            }
        } else {
            assert(speed_of(g, list[0].id) > y);
        }
    }
}

/// A single player counts whose card just moved, or whom the event is about.
pub proof fn a_player_is_counted(g: Game, sc: ScopeModel, e: EventModel, id: ObjectId)
    requires
        g.players.len() == 1,
        !g.players[0].is_eliminated,
        g.current_trigger_event == Some(e),
        g.last_zone_changed_ids == seq![id],
        g.objects.dom().contains(id),
    ensures
        number(g, QuantityRef::PlayerCount { filter: PlayerFilter::TriggeringPlayer }, sc) == (
        if event_player(e) == Some(g.players[0].id) {
            1int
        } else {
            0
        }),
        number(g, QuantityRef::PlayerCount { filter: PlayerFilter::ZoneChangedThisWay }, sc) == (
        if g.objects[id].owner == g.players[0].id {
            1int
        } else {
            0
        }),
{
    let p = g.players[0];
    lemma_number(g, QuantityRef::PlayerCount { filter: PlayerFilter::TriggeringPlayer }, sc);
    lemma_number(g, QuantityRef::PlayerCount { filter: PlayerFilter::ZoneChangedThisWay }, sc);
    reveal_with_fuel(count_where, 2);
    assert(g.players.drop_last() =~= Seq::empty());
    assert(g.last_zone_changed_ids[0] == id);
    let c = counted_player(g, PlayerFilter::ZoneChangedThisWay, sc.controller, sc.source);
    assert(c(p) <==> g.objects[id].owner == p.id) by {
        if g.objects[id].owner == p.id {
            assert(owned_by(g, p.id)(g.last_zone_changed_ids[0]));
        }
    }
}

/// Whether an object has a subtype, whatever the case of its letters.
pub open spec fn is_of_subtype(g: Game, id: ObjectId, subtype: Seq<char>) -> bool {
    g.objects.dom().contains(id) && exists|k: int|
        0 <= k < g.objects[id].card_types.subtypes.len() && same_ignoring_case(
            (#[trigger] g.objects[id].card_types.subtypes[k])@,
            subtype,
        )
}

/// Cards of a subtype in the graveyard count one by one, and a permanent of the subtype does as
/// well as one such card.
pub proof fn cards_of_a_subtype_in_the_graveyard(
    g: Game,
    p: PlayerId,
    source: ObjectId,
    subtype: Seq<char>,
    id: ObjectId,
    i: int,
)
    requires
        is_seat(g.players, p, i),
        g.players[i].graveyard == seq![id],
    ensures
        holds_for(
            g,
            p,
            source,
            ConditionModel::GraveyardSubtypeCardCountAtLeast { subtype, count: 1 },
        ) <==> is_of_subtype(g, id, subtype),
        !holds_for(
            g,
            p,
            source,
            ConditionModel::GraveyardSubtypeCardCountAtLeast { subtype, count: 2 },
        ),
        g.battlefield.len() == 0 ==> (holds_for(
            g,
            p,
            source,
            ConditionModel::YouControlSubtypeOrGraveyardCardSubtype { subtype },
        ) <==> is_of_subtype(g, id, subtype)),
{
    lemma_seat(g.players, p, i);
    let list = g.players[i].graveyard;
    reveal_with_fuel(count_where, 2);
    assert(list.drop_last() =~= Seq::empty());
    assert(card_with(g, subtype)(id) <==> is_of_subtype(g, id, subtype));
}

/// A permanent of the subtype that the player controls is enough.
pub proof fn a_permanent_of_the_subtype_is_enough(
    g: Game,
    p: PlayerId,
    source: ObjectId,
    subtype: Seq<char>,
    id: ObjectId,
    i: int,
)
    requires
        is_seat(g.players, p, i),
        g.players[i].graveyard.len() == 0,
        g.battlefield == seq![id],
    ensures
        holds_for(
            g,
            p,
            source,
            ConditionModel::YouControlSubtypeOrGraveyardCardSubtype { subtype },
        ) <==> is_of_subtype(g, id, subtype) && g.objects[id].controller == p,
{
    lemma_seat(g.players, p, i);
    reveal_with_fuel(count_where, 2);
    assert(g.battlefield.drop_last() =~= Seq::empty());
    assert(wanted_of(g, p, WantedModel::Subtype { subtype }, source)(id) <==> is_of_subtype(
        g,
        id,
        subtype,
    ) && g.objects[id].controller == p);
}

/// A land of one of the subtypes is enough, if the player controls it.
pub proof fn a_land_of_one_of_the_subtypes_is_enough(
    g: Game,
    p: PlayerId,
    source: ObjectId,
    subtypes: Seq<Seq<char>>,
    i: int,
    k: int,
)
    requires
        0 <= i < g.battlefield.len(),
        g.objects.dom().contains(g.battlefield[i]),
        g.objects[g.battlefield[i]].controller == p,
        g.objects[g.battlefield[i]].card_types.core_types.contains(CoreType::Land),
        0 <= k < g.objects[g.battlefield[i]].card_types.subtypes.len(),
        subtypes.contains(lowercase(g.objects[g.battlefield[i]].card_types.subtypes[k]@)),
    ensures
        holds_for(g, p, source, ConditionModel::YouControlLandSubtypeAny { subtypes }),
{
    assert(land_of_any(g, p, subtypes)(g.battlefield[i]));
}

/// Without such a land the condition does not hold.
pub proof fn without_such_a_land_it_does_not_hold(
    g: Game,
    p: PlayerId,
    source: ObjectId,
    subtypes: Seq<Seq<char>>,
)
    requires
        forall|i: int|
            0 <= i < g.battlefield.len() && g.objects.dom().contains(
                #[trigger] g.battlefield[i],
            ) ==> g.objects[g.battlefield[i]].controller != p
                || !g.objects[g.battlefield[i]].card_types.core_types.contains(CoreType::Land),
    ensures
        !holds_for(g, p, source, ConditionModel::YouControlLandSubtypeAny { subtypes }),
{
}

proof fn lemma_pair(a: ObjectId, b: ObjectId, f: spec_fn(ObjectId) -> bool)
    requires
        f(a),
        f(b),
    ensures
        seq![a, b].filter(f) == seq![a, b],
{
    reveal_with_fuel(Seq::filter, 3);
    let s = seq![a, b];
    assert(s.drop_last() =~= seq![a]);
    assert(s.drop_last().drop_last() =~= Seq::empty());
    assert(s.drop_last().filter(f) =~= seq![a]);
    assert(s.filter(f) =~= seq![a, b]);
}

/// Two creatures of different powers are two, of one power one.
pub proof fn creatures_with_different_powers(
    g: Game,
    p: PlayerId,
    source: ObjectId,
    a: ObjectId,
    b: ObjectId,
    x: i32,
    y: i32,
)
    requires
        g.battlefield == seq![a, b],
        has_type(g, a, CoreType::Creature) && has_type(g, b, CoreType::Creature),
        g.objects[a].controller == p && g.objects[b].controller == p,
        g.objects[a].power == Some(x) && g.objects[b].power == Some(y),
    ensures
        holds_for(
            g,
            p,
            source,
            ConditionModel::YouControlDifferentPowerCreatureCountAtLeast { count: 1 },
        ),
        holds_for(
            g,
            p,
            source,
            ConditionModel::YouControlDifferentPowerCreatureCountAtLeast { count: 2 },
        ) <==> x != y,
{
    let f = wanted_of(
        g,
        p,
        WantedModel::Core { core_type: CoreType::Creature },
        ObjectId(0),
    );
    lemma_pair(a, b, f);
    let ids = creatures_of(g, p);
    assert(ids == seq![a, b]);
    reveal_with_fuel(known_powers, 3);
    let list = known_powers(g, ids, 2);
    assert(list =~= seq![x, y]);
    assert(list.to_set() =~= set![x, y]) by {
        assert(list[0] == x && list[1] == y);
    }
    if x == y {
        assert(set![x, y] =~= set![x]);
    }
}

/// Two lands of one name are two of it, of different names one of each.
pub proof fn lands_with_the_same_name(
    g: Game,
    p: PlayerId,
    source: ObjectId,
    a: ObjectId,
    b: ObjectId,
)
    requires
        g.battlefield == seq![a, b],
        has_type(g, a, CoreType::Land) && has_type(g, b, CoreType::Land),
        g.objects[a].controller == p && g.objects[b].controller == p,
    ensures
        holds_for(g, p, source, ConditionModel::YouControlLandsWithSameNameAtLeast { count: 1 }),
        holds_for(g, p, source, ConditionModel::YouControlLandsWithSameNameAtLeast { count: 2 })
            <==> g.objects[a].name@ == g.objects[b].name@,
{
    let f = wanted_of(g, p, WantedModel::Core { core_type: CoreType::Land }, ObjectId(0));
    lemma_pair(a, b, f);
    let ids = lands_of(g, p);
    let names = names_of(g, ids);
    let x = g.objects[a].name@;
    let y = g.objects[b].name@;
    assert(names =~= seq![x, y]);
    reveal_with_fuel(most_frequent, 3);
    reveal_with_fuel(count_where, 3);
    assert(names.drop_last() =~= seq![x]);
    assert(names.drop_last().drop_last() =~= Seq::empty());
    assert(this_name(x)(x) && this_name(y)(y));
}

/// With three players, there are several opponents exactly when both others are still in the game.
pub proof fn several_opponents(
    g: Game,
    p: PlayerId,
    source: ObjectId,
    affected: Option<ObjectId>,
    e: ProposedModel,
)
    requires
        g.players.len() == 3,
        g.players[0].id == p && g.players[1].id != p && g.players[2].id != p,
    ensures
        condition_met(
            g,
            ReplacementCondition::UnlessMultipleOpponents,
            p,
            source,
            affected,
            e,
        ) <==> g.players[1].is_eliminated || g.players[2].is_eliminated,
{
    reveal_with_fuel(count_where, 4);
    let s = g.players;
    assert(s.drop_last().last() == s[1]);
    assert(s.drop_last().drop_last().last() == s[0]);
    assert(s.drop_last().drop_last().drop_last().len() == 0);
}

/// Conditions on what else is on the battlefield hold as long as there is no permanent that is
/// meant; the source itself does not count where another is asked for.
pub proof fn conditions_on_other_permanents(
    g: Game,
    p: PlayerId,
    source: ObjectId,
    affected: Option<ObjectId>,
    e: ProposedModel,
    id: ObjectId,
    c: ReplacementCondition,
)
    requires
        g.object_ids == seq![id],
    ensures
        match c {
            ReplacementCondition::UnlessControlsMatching { filter } => condition_met(
                g,
                c,
                p,
                source,
                affected,
                e,
            ) <==> !(g.objects[id].zone is Battlefield && id != source && matches_filter(
                g,
                id,
                filter,
                seen_from(source, p),
            )),
            ReplacementCondition::UnlessControlsCountMatching { minimum, filter } => minimum == 1
                ==> (condition_met(g, c, p, source, affected, e) <==> !(g.objects[id].zone
                is Battlefield && id != source && matches_filter(
                g,
                id,
                filter,
                seen_from(source, p),
            ))),
            ReplacementCondition::UnlessControlsOtherLeq { count, filter } => count == 0
                && g.objects.dom().contains(source) ==> (condition_met(
                g,
                c,
                p,
                source,
                affected,
                e,
            ) <==> g.objects[id].zone is Battlefield && matches_filter(
                g,
                id,
                TargetFilter::Typed(filter),
                seen_from(source, g.objects[source].controller),
            )),
            _ => true,
        },
{
    reveal_with_fuel(count_where, 2);
    assert(g.object_ids.drop_last() =~= Seq::empty());
    assert(g.object_ids[0] == id);
}

/// A condition on damage holds exactly when a source that the player controls, or controlled last,
/// dealt damage to the object this turn.
pub proof fn conditions_on_damage_dealt(
    g: Game,
    p: PlayerId,
    source: ObjectId,
    e: ProposedModel,
    id: ObjectId,
)
    ensures
        condition_met(
            g,
            ReplacementCondition::DealtDamageThisTurnBySourceControlledBy {
                controller: ControllerRef::You,
            },
            p,
            source,
            Some(id),
            e,
        ) <==> exists|i: int|
            0 <= i < g.damage_dealt_this_turn.len() && is_damage_by(
                g,
                #[trigger] g.damage_dealt_this_turn[i],
                id,
                p,
            ),
        !condition_met(
            g,
            ReplacementCondition::DealtDamageThisTurnBySourceControlledBy {
                controller: ControllerRef::You,
            },
            p,
            source,
            None,
            e,
        ),
{
    if exists|i: int|
        0 <= i < g.damage_dealt_this_turn.len() && is_damage_by(
            g,
            #[trigger] g.damage_dealt_this_turn[i],
            id,
            p,
        ) {
        let i = choose|i: int|
            0 <= i < g.damage_dealt_this_turn.len() && is_damage_by(
                g,
                #[trigger] g.damage_dealt_this_turn[i],
                id,
                p,
            );
        assert(g.damage_dealt_this_turn[i].target == TargetRef::Object(id));
    }
}

/// Whether damage was dealt to an object by a source of a player.
pub open spec fn is_damage_by(g: Game, d: DamageRecord, id: ObjectId, p: PlayerId) -> bool {
    &&& d.target == TargetRef::Object(id)
    &&& if g.objects.dom().contains(d.source_id) {
        g.objects[d.source_id].controller == p
    } else {
        g.lki_cache.dom().contains(d.source_id) && g.lki_cache[d.source_id].controller == p
    }
}

} // verus!
