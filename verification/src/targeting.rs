//! What an event is about, and which objects are in a zone.

use vstd::prelude::*;
use crate::ability::TargetRef;
use crate::cards::Zone;
use crate::events::{EventModel, GameEvent};
use crate::ids::{ObjectId, PlayerId};
use crate::seqs::{
    lemma_filter_next, lemma_filter_start, lemma_take_next, signed, u32_to_i32_saturating,
};
use crate::state::{object_at, Game, GameState, PlayerModel};

verus! {

/// The object that an event is about.
pub open spec fn event_source(e: EventModel) -> Option<ObjectId> {
    match e {
        EventModel::ZoneChanged { object_id, .. } => Some(object_id),
        EventModel::SpellCast { object_id, .. } => Some(object_id),
        EventModel::DamageDealt { source_id, .. } => Some(source_id),
        EventModel::DamagePrevented { source_id, .. } => Some(source_id),
        EventModel::CounterAdded { object_id, .. } => Some(object_id),
        EventModel::CreatureDestroyed { object_id } => Some(object_id),
        EventModel::Regenerated { object_id } => Some(object_id),
        EventModel::PermanentSacrificed { object_id, .. } => Some(object_id),
        EventModel::TurnedFaceUp { object_id } => Some(object_id),
        EventModel::AbilityActivated { source_id } => Some(source_id),
        EventModel::ManaAdded { source_id, .. } => Some(source_id),
        EventModel::TokenCreated { object_id } => Some(object_id),
        _ => None,
    }
}

/// The object that an event is about.
pub fn extract_source_from_event(e: &GameEvent) -> (r: Option<ObjectId>)
    ensures
        r == event_source(e@),
{
    match e {
        GameEvent::ZoneChanged { object_id, .. } => Some(*object_id),
        GameEvent::SpellCast { object_id, .. } => Some(*object_id),
        GameEvent::DamageDealt { source_id, .. } => Some(*source_id),
        GameEvent::DamagePrevented { source_id, .. } => Some(*source_id),
        GameEvent::CounterAdded { object_id, .. } => Some(*object_id),
        GameEvent::CreatureDestroyed { object_id } => Some(*object_id),
        GameEvent::Regenerated { object_id } => Some(*object_id),
        GameEvent::PermanentSacrificed { object_id, .. } => Some(*object_id),
        GameEvent::TurnedFaceUp { object_id } => Some(*object_id),
        GameEvent::AbilityActivated { source_id } => Some(*source_id),
        GameEvent::ManaAdded { source_id, .. } => Some(*source_id),
        GameEvent::TokenCreated { object_id } => Some(*object_id),
        _ => None,
    }
}

/// The number that an event carries.
pub open spec fn event_amount(e: EventModel) -> Option<i32> {
    match e {
        EventModel::DamageDealt { amount, .. } => Some(signed(amount)),
        EventModel::DamagePrevented { amount, .. } => Some(signed(amount)),
        EventModel::CounterAdded { count, .. } => Some(signed(count)),
        EventModel::CardsDrawn { count, .. } => Some(signed(count)),
        _ => None,
    }
}

/// The number that an event carries.
pub fn extract_amount_from_event(e: &GameEvent) -> (r: Option<i32>)
    ensures
        r == event_amount(e@),
{
    match e {
        GameEvent::DamageDealt { amount, .. } => Some(u32_to_i32_saturating(*amount)),
        GameEvent::DamagePrevented { amount, .. } => Some(u32_to_i32_saturating(*amount)),
        GameEvent::CounterAdded { count, .. } => Some(u32_to_i32_saturating(*count)),
        GameEvent::CardsDrawn { count, .. } => Some(u32_to_i32_saturating(*count)),
        _ => None,
    }
}

/// The player that an event is about.
pub open spec fn event_player(e: EventModel) -> Option<PlayerId> {
    match e {
        EventModel::CardsDrawn { player_id, .. } => Some(player_id),
        EventModel::ManaAdded { player_id, .. } => Some(player_id),
        EventModel::PermanentSacrificed { player_id, .. } => Some(player_id),
        EventModel::PlayerLost { player_id } => Some(player_id),
        EventModel::SpellCast { controller, .. } => Some(controller),
        EventModel::ZoneChanged { record, .. } => Some(record.controller),
        EventModel::DamageDealt { target: TargetRef::Player(p), .. } => Some(p),
        _ => None,
    }
}

/// The player that an event is about.
pub fn extract_player_from_event(e: &GameEvent) -> (r: Option<PlayerId>)
    ensures
        r == event_player(e@),
{
    match e {
        GameEvent::CardsDrawn { player_id, .. } => Some(*player_id),
        GameEvent::ManaAdded { player_id, .. } => Some(*player_id),
        GameEvent::PermanentSacrificed { player_id, .. } => Some(*player_id),
        GameEvent::PlayerLost { player_id } => Some(*player_id),
        GameEvent::SpellCast { controller, .. } => Some(*controller),
        GameEvent::ZoneChanged { record, .. } => Some(record.controller),
        GameEvent::DamageDealt { target, .. } => match target {
            TargetRef::Player(p) => Some(*p),
            TargetRef::Object(_) => None,
        },
        _ => None,
    }
}

/// Being an object that is phased in.
pub open spec fn present(g: Game) -> spec_fn(ObjectId) -> bool {
    |id: ObjectId| object_at(g, id) is Some && object_at(g, id)->0.phase_status is PhasedIn
}

/// Being an object in a zone.
pub open spec fn lying_in(g: Game, zone: Zone) -> spec_fn(ObjectId) -> bool {
    |id: ObjectId| object_at(g, id) is Some && object_at(g, id)->0.zone == zone
}

/// The cards that a player has in a zone of the player's own.
pub open spec fn own_zone(p: PlayerModel, zone: Zone) -> Seq<ObjectId> {
    match zone {
        Zone::Library => p.library,
        Zone::Hand => p.hand,
        Zone::Graveyard => p.graveyard,
        _ => Seq::empty(),
    }
}

/// The cards that the first `n` players have in such a zone.
pub open spec fn own_zones(players: Seq<PlayerModel>, zone: Zone, n: nat) -> Seq<ObjectId>
    decreases n,
{
    if n == 0 || n > players.len() {
        Seq::empty()
    } else {
        own_zones(players, zone, (n - 1) as nat) + own_zone(players[n - 1], zone)
    }
}

/// The objects in a zone. A permanent that is phased out is left out.
pub open spec fn zone_ids(g: Game, zone: Zone) -> Seq<ObjectId> {
    match zone {
        Zone::Battlefield => g.battlefield.filter(present(g)),
        Zone::Exile => g.exile,
        Zone::Stack => Seq::new(g.stack.len(), |i: int| g.stack[i].id),
        Zone::Command => g.object_ids.filter(lying_in(g, Zone::Command)),
        Zone::Library | Zone::Hand | Zone::Graveyard => own_zones(
            g.players,
            zone,
            g.players.len(),
        ),
    }
}

/// A copy of a list of objects.
pub fn copy_ids(list: &Vec<ObjectId>) -> (r: Vec<ObjectId>)
    ensures
        r@ == list@,
{
    let r = list.clone();
    assert(r@ =~= list@);
    r
}

/// Appends one list of objects to another.
pub fn append_ids(out: &mut Vec<ObjectId>, list: &Vec<ObjectId>)
    ensures
        final(out)@ == old(out)@ + list@,
{
    let ghost start = out@;
    let mut i: usize = 0;
    assert(start + list@.take(0) =~= start);
    while i < list.len()
        invariant
            i <= list@.len(),
            out@ == start + list@.take(i as int),
        decreases list.len() - i,
    {
        out.push(list[i]);
        proof {
            lemma_take_next(list@, i as int);
            assert(start + list@.take(i as int).push(list@[i as int]) =~= (start + list@.take(
                i as int,
            )).push(list@[i as int]));
        }
        i += 1;
    }
    assert(list@.take(i as int) =~= list@);
}

/// The objects in a zone. A permanent that is phased out is left out.
pub fn zone_object_ids(state: &GameState, zone: Zone) -> (r: Vec<ObjectId>)
    ensures
        r@ == zone_ids(state@, zone),
{
    let ghost g = state@;
    let mut out: Vec<ObjectId> = Vec::new();
    match zone {
        Zone::Battlefield => {
            let ghost keep = present(g);
            let ghost s = g.battlefield;
            proof {
                lemma_filter_start(s, keep);
            }
            let mut i: usize = 0;
            while i < state.battlefield.len()
                invariant
                    i <= s.len(),
                    s == state.battlefield@,
                    g == state@,
                    keep == present(g),
                    out@ == s.take(i as int).filter(keep),
                    s.take(s.len() as int) == s,
                decreases s.len() - i,
            {
                proof {
                    lemma_filter_next(s, i as int, keep);
                }
                if let Some(obj) = state.object(state.battlefield[i]) {
                    if obj.is_phased_in() {
                        out.push(state.battlefield[i]);
                    }
                }
                i += 1;
            }
            out
        },
        Zone::Exile => copy_ids(&state.exile),
        Zone::Stack => {
            let mut i: usize = 0;
            while i < state.stack.len()
                invariant
                    i <= state.stack@.len(),
                    g == state@,
                    out@ == Seq::new(i as nat, |k: int| g.stack[k].id),
                decreases state.stack.len() - i,
            {
                out.push(state.stack[i].id);
                assert(out@ =~= Seq::new((i + 1) as nat, |k: int| g.stack[k].id));
                i += 1;
            }
            assert(out@ =~= zone_ids(g, zone));
            out
        },
        Zone::Command => {
            let ghost keep = lying_in(g, Zone::Command);
            let ghost s = g.object_ids;
            proof {
                lemma_filter_start(s, keep);
            }
            let mut i: usize = 0;
            while i < state.objects.len()
                invariant
                    i <= s.len(),
                    g == state@,
                    s == g.object_ids,
                    s.len() == state.objects.seq().len(),
                    keep == lying_in(g, Zone::Command),
                    out@ == s.take(i as int).filter(keep),
                    s.take(s.len() as int) == s,
                decreases s.len() - i,
            {
                proof {
                    lemma_filter_next(s, i as int, keep);
                }
                let id = *state.objects.key_at(i);
                assert(id == s[i as int]);
                if let Some(obj) = state.object(id) {
                    if obj.zone == Zone::Command {
                        out.push(id);
                    }
                }
                i += 1;
            }
            out
        },
        Zone::Library | Zone::Hand | Zone::Graveyard => {
            let mut i: usize = 0;
            while i < state.players.len()
                invariant
                    i <= state.players@.len(),
                    g == state@,
                    zone == Zone::Library || zone == Zone::Hand || zone == Zone::Graveyard,
                    out@ == own_zones(g.players, zone, i as nat),
                decreases state.players.len() - i,
            {
                let p = &state.players[i];
                assert(g.players[i as int] == p@);
                match zone {
                    Zone::Library => append_ids(&mut out, &p.library),
                    Zone::Hand => append_ids(&mut out, &p.hand),
                    _ => append_ids(&mut out, &p.graveyard),
                }
                i += 1;
            }
            out
        },
    }
}

} // verus!
