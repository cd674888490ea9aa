//! What moves of objects between zones do, and what new objects and tokens are like.

use vstd::prelude::*;
use crate::ability::TokenModel;
use crate::cards::{counter_named, CounterKind, Zone};
use crate::events::EventModel;
use crate::ids::{CardId, ObjectId, PlayerId};
use crate::mana::mana_value_of;
use crate::state::{is_seat, lemma_seat, Game, PlayerModel};
use crate::tokens::{counters_from, token_made, tokens_created, tokens_made, tokens_told};
use crate::zones::{created, move_told, moved, put_into, taken_out};

verus! {

/// A list without an object.
pub open spec fn others(list: Seq<ObjectId>, id: ObjectId) -> Seq<ObjectId> {
    list.filter(|x: ObjectId| x != id)
}

proof fn lemma_others(list: Seq<ObjectId>, id: ObjectId)
    ensures
        crate::zones::gone_from(list, id) == others(list, id),
{
    let p = |x: ObjectId| x != id;
    assert(p =~= crate::keyed::unlike(id)) by {
        assert forall|x: ObjectId| #[trigger] p(x) == crate::keyed::unlike(id)(x) by {}
    }
}

/// An object that is taken out of a zone is taken out of the list of that zone, and no other list
/// changes.
pub proof fn taking_out_of_a_zone(g: Game, id: ObjectId, zone: Zone, owner: PlayerId, i: int)
    requires
        is_seat(g.players, owner, i),
    ensures
        ({
            let h = taken_out(g, id, zone, owner);
            let p = g.players[i];
            let q = h.players[i];
            &&& h.battlefield == (if zone is Battlefield {
                others(g.battlefield, id)
            } else {
                g.battlefield
            })
            &&& h.exile == (if zone is Exile {
                others(g.exile, id)
            } else {
                g.exile
            })
            &&& h.stack == (if zone is Stack {
                g.stack.filter(|e: crate::state::StackEntry| e.id != id)
            } else {
                g.stack
            })
            &&& q.hand == (if zone is Hand {
                others(p.hand, id)
            } else {
                p.hand
            })
            &&& q.library == (if zone is Library {
                others(p.library, id)
            } else {
                p.library
            })
            &&& q.graveyard == (if zone is Graveyard {
                others(p.graveyard, id)
            } else {
                p.graveyard
            })
            &&& h.players == g.players.update(
                i,
                PlayerModel { hand: q.hand, library: q.library, graveyard: q.graveyard, ..p },
            )
            &&& h.objects == g.objects
        }),
{
    lemma_seat(g.players, owner, i);
    let p = g.players[i];
    lemma_others(g.battlefield, id);
    lemma_others(g.exile, id);
    lemma_others(p.hand, id);
    lemma_others(p.library, id);
    lemma_others(p.graveyard, id);
    let f = |e: crate::state::StackEntry| e.id != id;
    assert(f =~= crate::zones::entry_unlike(id)) by {
        assert forall|e: crate::state::StackEntry| #[trigger]
            f(e) == crate::zones::entry_unlike(id)(e) by {}
    }
    let h = taken_out(g, id, zone, owner);
    let q = h.players[i];
    assert(h.players =~= g.players.update(
        i,
        PlayerModel { hand: q.hand, library: q.library, graveyard: q.graveyard, ..p },
    ));
}

/// An object that is put into a zone comes last in the list of that zone, and no other list
/// changes.
pub proof fn putting_into_a_zone(g: Game, id: ObjectId, zone: Zone, owner: PlayerId, i: int)
    requires
        is_seat(g.players, owner, i),
    ensures
        ({
            let h = put_into(g, id, zone, owner);
            let p = g.players[i];
            let q = h.players[i];
            &&& h.battlefield == (if zone is Battlefield {
                g.battlefield.push(id)
            } else {
                g.battlefield
            })
            &&& h.exile == (if zone is Exile {
                g.exile.push(id)
            } else {
                g.exile
            })
            &&& h.stack == g.stack
            &&& q.hand == (if zone is Hand {
                p.hand.push(id)
            } else {
                p.hand
            })
            &&& q.library == (if zone is Library {
                p.library.push(id)
            } else {
                p.library
            })
            &&& q.graveyard == (if zone is Graveyard {
                p.graveyard.push(id)
            } else {
                p.graveyard
            })
            &&& h.players == g.players.update(
                i,
                PlayerModel { hand: q.hand, library: q.library, graveyard: q.graveyard, ..p },
            )
            &&& h.objects == g.objects
        }),
{
    lemma_seat(g.players, owner, i);
    let h = put_into(g, id, zone, owner);
    let q = h.players[i];
    let p = g.players[i];
    assert(h.players =~= g.players.update(
        i,
        PlayerModel { hand: q.hand, library: q.library, graveyard: q.graveyard, ..p },
    ));
}

/// An object that leaves the battlefield is untapped, undamaged, without counters and attached to
/// nothing, under the control of its owner, and what it was is remembered. One that enters the
/// battlefield is noted with the turn. Nothing else of it changes.
pub proof fn moved_objects_are_as_new(g: Game, id: ObjectId, to: Zone)
    requires
        g.objects.dom().contains(id),
    ensures
        ({
            let h = moved(g, id, to);
            let o = g.objects[id];
            let q = h.objects[id];
            let leaves = o.zone is Battlefield && !(to is Battlefield);
            &&& h.objects.dom().contains(id)
            &&& q.zone == to
            &&& q.owner == o.owner
            &&& q.name == o.name && q.card_types == o.card_types && q.mana_cost == o.mana_cost
            &&& q.power == o.power && q.toughness == o.toughness && q.keywords == o.keywords
            &&& q.is_token == o.is_token && q.is_commander == o.is_commander
            &&& leaves ==> {
                &&& !q.tapped
                &&& q.damage_marked == 0
                &&& !q.dealt_deathtouch_damage
                &&& q.attached_to is None
                &&& q.counters == Map::<CounterKind, u32>::empty()
                &&& q.controller == o.owner
                &&& h.lki_cache.dom().contains(id)
                &&& h.lki_cache[id].power == o.power
                &&& h.lki_cache[id].toughness == o.toughness
                &&& h.lki_cache[id].controller == o.controller
                &&& h.lki_cache[id].owner == o.owner
                &&& h.lki_cache[id].name == o.name
                &&& h.lki_cache[id].mana_value == mana_value_of(o.mana_cost)
            }
            &&& !leaves ==> {
                &&& q.tapped == o.tapped
                &&& q.damage_marked == o.damage_marked
                &&& q.attached_to == o.attached_to
                &&& q.counters == o.counters
                &&& q.controller == o.controller
                &&& h.lki_cache == g.lki_cache
            }
            &&& to is Battlefield ==> q.entered_battlefield_turn == Some(g.turn_number)
            &&& !(to is Battlefield) ==> q.entered_battlefield_turn == o.entered_battlefield_turn
            &&& h.layers_dirty <==> g.layers_dirty || o.zone is Battlefield || to is Battlefield
        }),
{
    reveal(moved);
}

/// A move is recorded once: what moved, from where to where, who owned and controlled it, and what
/// types it had.
pub proof fn moves_leave_a_record(g: Game, id: ObjectId, to: Zone, told: Seq<EventModel>)
    requires
        g.objects.dom().contains(id),
    ensures
        ({
            let h = moved(g, id, to);
            let o = g.objects[id];
            let r = h.zone_changes_this_turn.last();
            &&& h.zone_changes_this_turn.len() == g.zone_changes_this_turn.len() + 1
            &&& h.zone_changes_this_turn.drop_last() == g.zone_changes_this_turn
            &&& r.object_id == id
            &&& r.from_zone == Some(o.zone)
            &&& r.to_zone == to
            &&& r.controller == o.controller
            &&& r.owner == o.owner
            &&& r.core_types == o.card_types.core_types
            &&& move_told(told, g, id, to).len() == told.len() + 1
            &&& move_told(told, g, id, to).last() matches EventModel::ZoneChanged {
                object_id,
                from,
                to: t,
                record,
            } && object_id == id && from == Some(o.zone) && t == to && record == r
        }),
{
    reveal(moved);
    reveal(move_told);
    let h = moved(g, id, to);
    assert(h.zone_changes_this_turn.drop_last() =~= g.zone_changes_this_turn);
}

/// A card that is moved is taken out of its zone and comes last in the other: the lists of hand,
/// library, graveyard, battlefield and exile show it there and nowhere else.
pub proof fn a_move_between_lists(g: Game, id: ObjectId, to: Zone, i: int)
    requires
        g.objects.dom().contains(id),
        is_seat(g.players, g.objects[id].owner, i),
        g.objects[id].zone != to,
    ensures
        ({
            let h = moved(g, id, to);
            let from = g.objects[id].zone;
            let p = g.players[i];
            let q = h.players[i];
            &&& from is Hand ==> q.hand == others(p.hand, id)
            &&& to is Hand ==> q.hand == p.hand.push(id)
            &&& !(from is Hand) && !(to is Hand) ==> q.hand == p.hand
            &&& from is Library ==> q.library == others(p.library, id)
            &&& to is Library ==> q.library == p.library.push(id)
            &&& !(from is Library) && !(to is Library) ==> q.library == p.library
            &&& from is Graveyard ==> q.graveyard == others(p.graveyard, id)
            &&& to is Graveyard ==> q.graveyard == p.graveyard.push(id)
            &&& !(from is Graveyard) && !(to is Graveyard) ==> q.graveyard == p.graveyard
            &&& from is Battlefield ==> h.battlefield == others(g.battlefield, id)
            &&& to is Battlefield ==> h.battlefield == g.battlefield.push(id)
            &&& !(from is Battlefield) && !(to is Battlefield) ==> h.battlefield == g.battlefield
            &&& from is Exile ==> h.exile == others(g.exile, id)
            &&& to is Exile ==> h.exile == g.exile.push(id)
            &&& !(from is Exile) && !(to is Exile) ==> h.exile == g.exile
            &&& q.life == p.life && q.id == p.id
        }),
{
    reveal(moved);
    let o = g.objects[id];
    let a = crate::zones::remembering(g, id, o, to);
    assert(a.players == g.players && a.battlefield == g.battlefield && a.exile == g.exile);
    taking_out_of_a_zone(a, id, o.zone, o.owner, i);
    let b = taken_out(a, id, o.zone, o.owner);
    assert forall|j: int| 0 <= j < b.players.len() implies (#[trigger] b.players[j]).id
        == g.players[j].id by {}
    assert(is_seat(b.players, o.owner, i)) by {
        assert forall|j: int| 0 <= j < i implies (#[trigger] b.players[j]).id != o.owner by {
            assert(g.players[j].id != o.owner);
        }
    }
    putting_into_a_zone(b, id, to, o.owner, i);
    let c = put_into(b, id, to, o.owner);
    let h = moved(g, id, to);
    assert(h.players == c.players);
    assert(h.battlefield == c.battlefield);
    assert(h.exile == c.exile);
}

/// A new object has the next number, belongs to its owner who controls it, lies in its zone, and is
/// blank: no power, no types, no counters, untapped.
pub proof fn new_objects_are_blank(
    g: Game,
    card_id: CardId,
    owner: PlayerId,
    name: String,
    zone: Zone,
)
    ensures
        ({
            let h = created(g, card_id, owner, name, zone);
            let id = ObjectId(g.next_object_id);
            let o = h.objects[id];
            &&& g.next_object_id < u64::MAX ==> h.next_object_id == g.next_object_id + 1
            &&& h.objects.dom() == g.objects.dom().insert(id)
            &&& o.id == id && o.card_id == card_id
            &&& o.owner == owner && o.controller == owner
            &&& o.zone == zone && o.name == name && o.base_name == name
            &&& o.power is None && o.toughness is None && o.loyalty is None
            &&& o.card_types.core_types.len() == 0 && o.card_types.subtypes.len() == 0
            &&& o.keywords.len() == 0 && o.abilities.len() == 0 && o.color.len() == 0
            &&& o.counters == Map::<CounterKind, u32>::empty()
            &&& !o.tapped && !o.face_down && !o.is_token && !o.is_commander && !o.is_emblem
            &&& o.damage_marked == 0 && o.attached_to is None && o.attachments.len() == 0
            &&& o.phase_status is PhasedIn
            &&& o.replacement_definitions.len() == 0
            &&& zone is Battlefield ==> h.battlefield == g.battlefield.push(id)
            &&& zone is Exile ==> h.exile == g.exile.push(id)
        }),
{
    let h = created(g, card_id, owner, name, zone);
    assert(h.objects.dom() =~= g.objects.dom().insert(ObjectId(g.next_object_id)));
}

/// A token is on the battlefield with the characteristics of its description, now and as printed,
/// under the control of its owner, and came in this turn.
pub proof fn tokens_are_as_described(g: Game, owner: PlayerId, spec: TokenModel, tapped: bool)
    ensures
        ({
            let h = token_made(g, owner, spec, tapped);
            let id = ObjectId(g.next_object_id);
            let o = h.objects[id];
            &&& h.objects.dom().contains(id)
            &&& o.is_token
            &&& o.zone is Battlefield
            &&& o.owner == owner && o.controller == owner
            &&& o.name == spec.display_name
            &&& o.power == spec.power && o.base_power == spec.power
            &&& o.toughness == spec.toughness && o.base_toughness == spec.toughness
            &&& o.card_types.core_types == spec.core_types@ && o.card_types.subtypes
                == spec.subtypes@ && o.card_types.supertypes == spec.supertypes@
            &&& o.base_card_types == o.card_types
            &&& o.color == spec.colors@ && o.base_color == spec.colors@
            &&& o.keywords == spec.keywords@ && o.base_keywords == spec.keywords@
            &&& o.static_definitions == spec.static_abilities@ && o.base_static_definitions
                == spec.static_abilities@
            &&& o.tapped == tapped
            &&& o.entered_battlefield_turn == Some(g.turn_number)
            &&& h.battlefield == g.battlefield.push(id)
            &&& h.layers_dirty
            &&& h.players_who_created_token_this_turn
                == g.players_who_created_token_this_turn.insert(owner)
        }),
{
}

/// Each token of a batch is one more permanent.
pub proof fn as_many_tokens_as_are_made(
    g: Game,
    owner: PlayerId,
    spec: TokenModel,
    tapped: bool,
    n: nat,
)
    ensures
        tokens_made(g, owner, spec, tapped, n).battlefield.len() == g.battlefield.len() + n,
        tokens_made(g, owner, spec, tapped, n).turn_number == g.turn_number,
    decreases n,
{
    if n > 0 {
        as_many_tokens_as_are_made(g, owner, spec, tapped, (n - 1) as nat);
        tokens_are_as_described(
            tokens_made(g, owner, spec, tapped, (n - 1) as nat),
            owner,
            spec,
            tapped,
        );
    }
}

/// The tokens of an event are made for its owner, as many as it says; they come in tapped where an
/// effect says so, or where their description does and no effect says otherwise.
pub proof fn tokens_of_an_event(
    g: Game,
    owner: PlayerId,
    spec: TokenModel,
    enter_tapped: crate::events::EtbTapState,
    count: u32,
    applied: Set<crate::ids::ReplacementId>,
)
    ensures
        ({
            let e = crate::events::ProposedModel::CreateToken {
                owner,
                spec,
                enter_tapped,
                count,
                applied,
            };
            let tapped = enter_tapped is Tapped || (enter_tapped is Unspecified && spec.tapped);
            tokens_created(g, e) == tokens_made(g, owner, spec, tapped, count as nat)
        }),
{
    reveal(tokens_created);
}

/// What is remembered of a permanent that leaves is what it was: name, power, toughness, mana value,
/// controller and owner. Of what comes in or moves elsewhere nothing is remembered.
pub proof fn what_is_remembered_of_a_permanent(g: Game, id: ObjectId, to: Zone)
    requires
        g.objects.dom().contains(id),
    ensures
        ({
            let o = g.objects[id];
            let h = moved(g, id, to);
            let k = h.lki_cache[id];
            &&& o.zone is Battlefield && !(to is Battlefield) ==> {
                &&& h.lki_cache.dom().contains(id)
                &&& k.name == o.name && k.power == o.power && k.toughness == o.toughness
                &&& k.mana_value == mana_value_of(o.mana_cost)
                &&& k.controller == o.controller && k.owner == o.owner
            }
            &&& !(o.zone is Battlefield) || to is Battlefield ==> h.lki_cache == g.lki_cache
        }),
{
    reveal(moved);
}

/// Tokens come in with the counters that their description says, added up for each kind.
pub proof fn counters_of_tokens_add_up(
    start: Map<CounterKind, u32>,
    list: Seq<(String, u32)>,
    more: (String, u32),
)
    ensures
        ({
            let before = counters_from(start, list, list.len());
            let now = counters_from(start, list.push(more), list.len() + 1);
            let kind = counter_named(more.0@);
            let had: int = if before.dom().contains(kind) {
                before[kind] as int
            } else {
                0
            };
            &&& counters_from(start, list, 0) == start
            &&& now == before.insert(kind, now[kind])
            &&& had + more.1 <= u32::MAX ==> now[kind] == had + more.1
            &&& had + more.1 > u32::MAX ==> now[kind] == u32::MAX
        }),
{
    lemma_counters(start, list, more, list.len());
    let before = counters_from(start, list, list.len());
    let now = counters_from(start, list.push(more), list.len() + 1);
    assert(now =~= before.insert(counter_named(more.0@), now[counter_named(more.0@)]));
}

proof fn lemma_counters(
    start: Map<CounterKind, u32>,
    list: Seq<(String, u32)>,
    more: (String, u32),
    n: nat,
)
    requires
        n <= list.len(),
    ensures
        counters_from(start, list.push(more), n) == counters_from(start, list, n),
    decreases n,
{
    if n > 0 {
        lemma_counters(start, list, more, (n - 1) as nat);
    }
}

/// Each token that is made is told, in order.
pub proof fn tokens_are_told(
    told: Seq<EventModel>,
    g: Game,
    owner: PlayerId,
    spec: TokenModel,
    tapped: bool,
    n: nat,
)
    ensures
        tokens_told(told, g, owner, spec, tapped, 0) == told,
        tokens_told(told, g, owner, spec, tapped, n + 1) == tokens_told(
            told,
            g,
            owner,
            spec,
            tapped,
            n,
        ).push(
            EventModel::TokenCreated {
                object_id: ObjectId(tokens_made(g, owner, spec, tapped, n).next_object_id),
            },
        ),
{
}

} // verus!
