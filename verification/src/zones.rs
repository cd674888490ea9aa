//! How objects come into a game and move between its zones.

use vstd::prelude::*;
use crate::cards::{CounterKind, Zone};
use crate::events::{emit, log, EventModel, GameEvent, ZoneChangeRecord, ZoneRecordModel};
use crate::ids::{CardId, ObjectId, PlayerId};
use crate::keyed::{lemma_filter_all, lemma_filter_drop, unlike, Table};
use crate::mana::mana_value_of;
use crate::object::{blank, GameObject, ObjectModel};
use crate::restrictions::{record_zone_change, zone_change_recorded};
use crate::seqs::{lemma_filter_next, lemma_filter_start};
use crate::state::{
    object_at, seat_of, with_object, with_player_at, Game, GameState, LKISnapshot, PlayerModel,
    StackEntry,
};

verus! {

broadcast use crate::views::group_views;

/// A list without one of its objects.
pub open spec fn gone_from(list: Seq<ObjectId>, id: ObjectId) -> Seq<ObjectId> {
    list.filter(unlike(id))
}

/// Takes an object out of a list.
pub fn retain_others(list: &mut Vec<ObjectId>, id: ObjectId)
    ensures
        final(list)@ == gone_from(old(list)@, id),
{
    let ghost s = list@;
    let ghost keep = unlike(id);
    proof {
        lemma_filter_start(s, keep);
    }
    let mut out: Vec<ObjectId> = Vec::new();
    let mut i: usize = 0;
    while i < list.len()
        invariant
            i <= s.len(),
            s == list@,
            keep == unlike(id),
            out@ == s.take(i as int).filter(keep),
            s.take(s.len() as int) == s,
        decreases s.len() - i,
    {
        proof {
            lemma_filter_next(s, i as int, keep);
        }
        if list[i] != id {
            out.push(list[i]);
        }
        i += 1;
    }
    *list = out;
}

/// Being an entry of the stack for something else than an object.
pub open spec fn entry_unlike(id: ObjectId) -> spec_fn(StackEntry) -> bool {
    |e: StackEntry| e.id != id
}

fn retain_other_entries(list: &mut Vec<StackEntry>, id: ObjectId)
    ensures
        final(list)@ == old(list)@.filter(entry_unlike(id)),
{
    let ghost s0 = list@;
    let ghost keep = entry_unlike(id);
    let mut i: usize = 0;
    while i < list.len()
        invariant
            i <= list@.len(),
            keep == entry_unlike(id),
            list@.filter(keep) == s0.filter(keep),
            forall|j: int| 0 <= j < i ==> keep(#[trigger] list@[j]),
        decreases list.len() - i,
    {
        if list[i].id == id {
            proof {
                lemma_filter_drop(list@, i as int, keep);
            }
            let _ = list.remove(i);
        } else {
            i += 1;
        }
    }
    proof {
        lemma_filter_all(list@, keep);
    }
}

/// A player's own zone with other contents; a player has no part in the other zones.
pub open spec fn with_pile(p: PlayerModel, zone: Zone, list: Seq<ObjectId>) -> PlayerModel {
    match zone {
        Zone::Hand => PlayerModel { hand: list, ..p },
        Zone::Library => PlayerModel { library: list, ..p },
        Zone::Graveyard => PlayerModel { graveyard: list, ..p },
        _ => p,
    }
}

/// The contents of a player's own zone.
pub open spec fn pile(p: PlayerModel, zone: Zone) -> Seq<ObjectId> {
    match zone {
        Zone::Hand => p.hand,
        Zone::Library => p.library,
        Zone::Graveyard => p.graveyard,
        _ => Seq::empty(),
    }
}

/// The game with other contents of a zone that its owner has alone.
pub open spec fn with_own_pile(g: Game, owner: PlayerId, zone: Zone, list: Seq<ObjectId>) -> Game {
    match seat_of(g.players, owner) {
        Some(i) => with_player_at(g, i, with_pile(g.players[i], zone, list)),
        None => g,
    }
}

/// The contents of a zone that its owner has alone.
pub open spec fn own_pile(g: Game, owner: PlayerId, zone: Zone) -> Seq<ObjectId> {
    match seat_of(g.players, owner) {
        Some(i) => pile(g.players[i], zone),
        None => Seq::empty(),
    }
}

/// The game with an object taken out of the contents of a zone.
pub open spec fn taken_out(g: Game, id: ObjectId, zone: Zone, owner: PlayerId) -> Game {
    match zone {
        Zone::Battlefield => Game { battlefield: gone_from(g.battlefield, id), ..g },
        Zone::Exile => Game { exile: gone_from(g.exile, id), ..g },
        Zone::Stack => Game { stack: g.stack.filter(entry_unlike(id)), ..g },
        Zone::Command => g,
        _ => with_own_pile(g, owner, zone, gone_from(own_pile(g, owner, zone), id)),
    }
}

/// Takes an object out of the contents of a zone. The command zone has no contents of its own.
pub fn remove_from_zone(state: &mut GameState, object_id: ObjectId, zone: Zone, owner: PlayerId)
    ensures
        final(state)@ == taken_out(old(state)@, object_id, zone, owner),
{
    match zone {
        Zone::Battlefield => retain_others(&mut state.battlefield, object_id),
        Zone::Exile => retain_others(&mut state.exile, object_id),
        Zone::Stack => retain_other_entries(&mut state.stack, object_id),
        Zone::Command => {},
        Zone::Hand | Zone::Library | Zone::Graveyard => {
            if let Some(i) = state.seat(owner) {
                let p = state.player_mut_at(i);
                match zone {
                    Zone::Hand => retain_others(&mut p.hand, object_id),
                    Zone::Library => retain_others(&mut p.library, object_id),
                    _ => retain_others(&mut p.graveyard, object_id),
                }
            }
        },
    }
}

/// The game with an object put last among the contents of a zone.
pub open spec fn put_into(g: Game, id: ObjectId, zone: Zone, owner: PlayerId) -> Game {
    match zone {
        Zone::Battlefield => Game { battlefield: g.battlefield.push(id), ..g },
        Zone::Exile => Game { exile: g.exile.push(id), ..g },
        Zone::Stack => g,
        Zone::Command => g,
        _ => with_own_pile(g, owner, zone, own_pile(g, owner, zone).push(id)),
    }
}

/// Puts an object last among the contents of a zone. What is on the stack is put there as an
/// entry, and the command zone has no contents of its own.
pub fn add_to_zone(state: &mut GameState, object_id: ObjectId, zone: Zone, owner: PlayerId)
    ensures
        final(state)@ == put_into(old(state)@, object_id, zone, owner),
{
    match zone {
        Zone::Battlefield => state.battlefield.push(object_id),
        Zone::Exile => state.exile.push(object_id),
        Zone::Stack | Zone::Command => {},
        Zone::Hand | Zone::Library | Zone::Graveyard => {
            if let Some(i) = state.seat(owner) {
                let p = state.player_mut_at(i);
                match zone {
                    Zone::Hand => p.hand.push(object_id),
                    Zone::Library => p.library.push(object_id),
                    _ => p.graveyard.push(object_id),
                }
            }
        },
    }
}

/// The game with an object under an identifier, new or in place of another.
pub open spec fn with_entry(g: Game, id: ObjectId, o: ObjectModel) -> Game {
    Game {
        objects: g.objects.insert(id, o),
        object_ids: if g.objects.dom().contains(id) {
            g.object_ids
        } else {
            g.object_ids.push(id)
        },
        ..g
    }
}

/// The identifier that the next object gets.
pub open spec fn next_id(g: Game) -> ObjectId {
    ObjectId(g.next_object_id)
}

/// The game with a new object in a zone.
pub open spec fn created(
    g: Game,
    card_id: CardId,
    owner: PlayerId,
    name: String,
    zone: Zone,
) -> Game {
    put_into(
        with_entry(
            Game { next_object_id: g.next_object_id.wrapping_add(1), ..g },
            next_id(g),
            blank(next_id(g), card_id, owner, name, zone),
        ),
        next_id(g),
        zone,
        owner,
    )
}

/// Makes a new object in a zone.
pub fn create_object(
    state: &mut GameState,
    card_id: CardId,
    owner: PlayerId,
    name: String,
    zone: Zone,
) -> (r: ObjectId)
    ensures
        r == next_id(old(state)@),
        final(state)@ == created(old(state)@, card_id, owner, name, zone),
{
    let id = ObjectId(state.next_object_id);
    state.next_object_id = state.next_object_id.wrapping_add(1);
    state.objects.insert(id, GameObject::new(id, card_id, owner, name, zone));
    add_to_zone(state, id, zone, owner);
    id
}

/// The record of a move of an object.
pub open spec fn move_record(o: ObjectModel, id: ObjectId, to: Zone) -> ZoneRecordModel {
    ZoneRecordModel {
        object_id: id,
        from_zone: Some(o.zone),
        to_zone: to,
        controller: o.controller,
        owner: o.owner,
        core_types: o.card_types.core_types,
        attachments: Seq::empty(),
        linked_exile_snapshot: Seq::empty(),
    }
}

/// The record of a move of an object: who owned and controlled it and what types it had.
pub fn record_of_move(o: &GameObject, id: ObjectId, to: Zone) -> (r: ZoneChangeRecord)
    ensures
        r@ == move_record(o@, id, to),
{
    let types = o.card_types.clone();
    ZoneChangeRecord {
        object_id: id,
        from_zone: Some(o.zone),
        to_zone: to,
        controller: o.controller,
        owner: o.owner,
        core_types: types.core_types,
        attachments: Vec::new(),
        linked_exile_snapshot: Vec::new(),
    }
}

/// What is remembered of an object that leaves the battlefield.
pub open spec fn last_known(o: ObjectModel) -> LKISnapshot {
    LKISnapshot {
        name: o.name,
        power: o.power,
        toughness: o.toughness,
        mana_value: mana_value_of(o.mana_cost),
        controller: o.controller,
        owner: o.owner,
    }
}

fn snapshot_of(o: &GameObject) -> (r: LKISnapshot)
    ensures
        r == last_known(o@),
{
    LKISnapshot {
        name: o.name.clone(),
        power: o.power,
        toughness: o.toughness,
        mana_value: o.mana_cost.mana_value(),
        controller: o.controller,
        owner: o.owner,
    }
}

/// An object after a move. One that leaves the battlefield is a new object that remembers nothing
/// of what was done to it there.
pub open spec fn after_move(o: ObjectModel, to: Zone, turn: u32) -> ObjectModel {
    if to == Zone::Battlefield {
        ObjectModel { zone: to, entered_battlefield_turn: Some(turn), ..o }
    } else if o.zone == Zone::Battlefield {
        ObjectModel {
            zone: to,
            controller: o.owner,
            tapped: false,
            damage_marked: 0,
            dealt_deathtouch_damage: false,
            attached_to: None,
            counters: Map::<CounterKind, u32>::empty(),
            ..o
        }
    } else {
        ObjectModel { zone: to, ..o }
    }
}

/// The game with what is remembered of an object that leaves the battlefield.
pub open spec fn remembering(g: Game, id: ObjectId, o: ObjectModel, to: Zone) -> Game {
    if o.zone == Zone::Battlefield && to != Zone::Battlefield {
        Game { lki_cache: g.lki_cache.insert(id, last_known(o)), ..g }
    } else {
        g
    }
}

/// The game with an object moved to the end of a zone, but for the history of the turn.
pub open spec fn carried(g: Game, id: ObjectId, o: ObjectModel, to: Zone) -> Game {
    noted(
        settled(
            put_into(taken_out(remembering(g, id, o, to), id, o.zone, o.owner), id, to, o.owner),
            id,
            to,
        ),
        move_record(o, id, to),
        o.zone,
        to,
    )
}

/// The game with an object moved to the end of a zone.
#[verifier::opaque]
pub open spec fn moved(g: Game, id: ObjectId, to: Zone) -> Game {
    match object_at(g, id) {
        Some(o) => zone_change_recorded(carried(g, id, o, to), id, o.zone, to),
        None => g,
    }
}

/// What is told of a move.
#[verifier::opaque]
pub open spec fn move_told(
    told: Seq<EventModel>,
    g: Game,
    id: ObjectId,
    to: Zone,
) -> Seq<EventModel> {
    match object_at(g, id) {
        Some(o) => told.push(
            EventModel::ZoneChanged {
                object_id: id,
                from: Some(o.zone),
                to,
                record: move_record(o, id, to),
            },
        ),
        None => told,
    }
}

fn remember(state: &mut GameState, id: ObjectId, to: Zone)
    requires
        object_at(old(state)@, id) is Some,
    ensures
        final(state)@ == remembering(old(state)@, id, object_at(old(state)@, id)->0, to),
{
    let known = match state.object(id) {
        Some(o) => if o.zone == Zone::Battlefield && to != Zone::Battlefield {
            snapshot_of(o)
        } else {
            return;
        },
        None => {
            return;
        },
    };
    state.lki_cache.insert(id, known);
}

/// The game with an object changed as its move demands.
pub open spec fn settled(g: Game, id: ObjectId, to: Zone) -> Game {
    with_object(g, id, after_move(object_at(g, id)->0, to, g.turn_number))
}

fn settle(state: &mut GameState, id: ObjectId, to: Zone)
    requires
        object_at(old(state)@, id) is Some,
    ensures
        final(state)@ == settled(old(state)@, id, to),
{
    let turn: u32 = state.turn_number;
    if let Some(obj) = state.object_mut(id) {
        if to == Zone::Battlefield {
            obj.entered_battlefield_turn = Some(turn);
        } else if obj.zone == Zone::Battlefield {
            obj.controller = obj.owner;
            obj.tapped = false;
            obj.damage_marked = 0;
            obj.dealt_deathtouch_damage = false;
            obj.attached_to = None;
            obj.counters = Table::new();
        }
        obj.zone = to;
    }
}

/// The game with a move noted.
pub open spec fn noted(g: Game, record: ZoneRecordModel, from: Zone, to: Zone) -> Game {
    Game {
        zone_changes_this_turn: g.zone_changes_this_turn.push(record),
        layers_dirty: g.layers_dirty || from == Zone::Battlefield || to == Zone::Battlefield,
        ..g
    }
}

fn note(state: &mut GameState, record: ZoneChangeRecord, from: Zone, to: Zone)
    ensures
        final(state)@ == noted(old(state)@, record@, from, to),
{
    if from == Zone::Battlefield || to == Zone::Battlefield {
        state.layers_dirty = true;
    }
    state.zone_changes_this_turn.push(record);
}

/// Moves an object to the end of a zone of its owner. Nothing happens without such an object.
pub fn move_to_zone(state: &mut GameState, object_id: ObjectId, to: Zone, events: &mut Vec<GameEvent>)
    ensures
        final(state)@ == moved(old(state)@, object_id, to),
        log(final(events)@) == move_told(log(old(events)@), old(state)@, object_id, to),
{
    proof {
        reveal(moved);
        reveal(move_told);
    }
    let from;
    let owner;
    let record;
    let told;
    match state.object(object_id) {
        Some(o) => {
            from = o.zone;
            owner = o.owner;
            record = record_of_move(o, object_id, to);
            told = record_of_move(o, object_id, to);
        },
        None => {
            return;
        },
    }
    remember(state, object_id, to);
    remove_from_zone(state, object_id, from, owner);
    add_to_zone(state, object_id, to, owner);
    settle(state, object_id, to);
    note(state, record, from, to);
    record_zone_change(state, object_id, from, to);
    emit(
        events,
        GameEvent::ZoneChanged { object_id, from: Some(from), to, record: Box::new(told) },
    );
}

/// An object lies where it was moved to, and in a list of its own zone.
pub proof fn moved_objects_lie_where_they_were_put(g: Game, id: ObjectId, to: Zone)
    requires
        object_at(g, id) is Some,
    ensures
        object_at(moved(g, id, to), id) is Some,
        object_at(moved(g, id, to), id)->0.zone == to,
        object_at(moved(g, id, to), id)->0.owner == object_at(g, id)->0.owner,
        to == Zone::Battlefield ==> moved(g, id, to).battlefield.contains(id),
        to == Zone::Exile ==> moved(g, id, to).exile.contains(id),
{
    reveal(moved);
    let o = object_at(g, id)->0;
    let h = taken_out(remembering(g, id, o, to), id, o.zone, o.owner);
    if to == Zone::Battlefield {
        assert(h.battlefield.push(id)[h.battlefield.len() as int] == id);
    }
    if to == Zone::Exile {
        assert(h.exile.push(id)[h.exile.len() as int] == id);
    }
}

/// No other object is changed by a move.
pub proof fn a_move_changes_no_other_object(g: Game, id: ObjectId, to: Zone, other: ObjectId)
    requires
        other != id,
    ensures
        object_at(moved(g, id, to), other) == object_at(g, other),
{
    reveal(moved);
}

} // verus!
