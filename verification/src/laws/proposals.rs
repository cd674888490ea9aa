//! Whom and what events that are about to happen concern, and how permanents come in.

use vstd::prelude::*;
use crate::ability::{TargetRef, TokenModel};
use crate::cards::{CounterKind, Zone};
use crate::events::{EtbTapState, ProposedModel};
use crate::ids::{ObjectId, PlayerId};
use crate::object::ObjectModel;
use crate::proposals::{
    affected_object, affected_person, enters_tapped, entry_tap_state, plain_move,
    with_entry_tap_state,
};
use crate::state::Game;
use crate::tokens::{on_entry, token_on_entry};

verus! {

/// The object that an event is about.
pub proof fn objects_concerned(e: ProposedModel)
    ensures
        match e {
            ProposedModel::ZoneChange { object_id, .. }
            | ProposedModel::AddCounter { object_id, .. }
            | ProposedModel::RemoveCounter { object_id, .. }
            | ProposedModel::Tap { object_id, .. }
            | ProposedModel::Untap { object_id, .. }
            | ProposedModel::Destroy { object_id, .. }
            | ProposedModel::Discard { object_id, .. }
            | ProposedModel::Sacrifice { object_id, .. } => affected_object(e) == Some(object_id),
            ProposedModel::ProduceMana { source_id, .. } => affected_object(e) == Some(source_id),
            ProposedModel::Damage { target, .. } => match target {
                TargetRef::Object(id) => affected_object(e) == Some(id),
                TargetRef::Player(_) => affected_object(e) is None,
            },
            _ => affected_object(e) is None,
        },
{
}

/// The player whom an event is about: the one named, or the one who controls the object.
pub proof fn players_concerned(g: Game, e: ProposedModel)
    ensures
        e is Draw ==> affected_person(g, e) == e->Draw_player_id,
        e is LifeGain ==> affected_person(g, e) == e->LifeGain_player_id,
        e is LifeLoss ==> affected_person(g, e) == e->LifeLoss_player_id,
        e is Discard ==> affected_person(g, e) == e->Discard_player_id,
        e is Sacrifice ==> affected_person(g, e) == e->Sacrifice_player_id,
        e is ProduceMana ==> affected_person(g, e) == e->ProduceMana_player_id,
        e is BeginTurn ==> affected_person(g, e) == e->BeginTurn_player_id,
        e is BeginPhase ==> affected_person(g, e) == e->BeginPhase_player_id,
        e is CreateToken ==> affected_person(g, e) == e->owner,
        e is ZoneChange && g.objects.dom().contains(e->ZoneChange_object_id) ==> affected_person(g, e)
            == g.objects[e->ZoneChange_object_id].controller,
        e is AddCounter && g.objects.dom().contains(e->AddCounter_object_id) ==> affected_person(g, e)
            == g.objects[e->AddCounter_object_id].controller,
        e is RemoveCounter && g.objects.dom().contains(e->RemoveCounter_object_id) ==> affected_person(g, e)
            == g.objects[e->RemoveCounter_object_id].controller,
        e is Tap && g.objects.dom().contains(e->Tap_object_id) ==> affected_person(g, e)
            == g.objects[e->Tap_object_id].controller,
        e is Untap && g.objects.dom().contains(e->Untap_object_id) ==> affected_person(g, e)
            == g.objects[e->Untap_object_id].controller,
        e is Destroy && g.objects.dom().contains(e->Destroy_object_id) ==> affected_person(g, e)
            == g.objects[e->Destroy_object_id].controller,
        e is Damage && e->target is Player ==> affected_person(g, e) == e->target->Player_0,
        e is Damage && e->target is Object && g.objects.dom().contains(e->target->Object_0)
            ==> affected_person(g, e) == g.objects[e->target->Object_0].controller,
{
    reveal(affected_person);
}

/// A permanent comes in tapped or untapped as the event says, and as it would by itself where the
/// event says nothing.
pub proof fn how_permanents_come_in(default_tapped: bool, t: EtbTapState)
    ensures
        t is Tapped ==> enters_tapped(t, default_tapped),
        t is Untapped ==> !enters_tapped(t, default_tapped),
        t is Unspecified ==> enters_tapped(t, default_tapped) == default_tapped,
{
}

/// What is said last of how a permanent comes in is what the event says; events that bring nothing
/// in do not change.
pub proof fn what_is_said_of_coming_in(e: ProposedModel, t: EtbTapState)
    ensures
        e is ZoneChange || e is CreateToken ==> entry_tap_state(with_entry_tap_state(e, t)) == Some(
            t,
        ),
        !(e is ZoneChange) && !(e is CreateToken) ==> with_entry_tap_state(e, t) == e
            && entry_tap_state(e) is None,
        affected_object(with_entry_tap_state(e, t)) == affected_object(e),
        e is ZoneChange ==> {
            let f = with_entry_tap_state(e, t);
            &&& f is ZoneChange
            &&& f->ZoneChange_to == e->ZoneChange_to && f->ZoneChange_from == e->ZoneChange_from
            &&& f->ZoneChange_applied == e->ZoneChange_applied
            &&& f->enter_with_counters == e->enter_with_counters
            &&& f->controller_override == e->controller_override
            &&& f->enter_transformed == e->enter_transformed
        },
        e is CreateToken ==> {
            let f = with_entry_tap_state(e, t);
            &&& f is CreateToken
            &&& f->owner == e->owner && f->spec == e->spec
            &&& f->CreateToken_count == e->CreateToken_count
        },
{
}

/// A plain move takes the object from one zone to the other, and says nothing else.
pub proof fn plain_moves(id: ObjectId, from: Zone, to: Zone, cause: Option<ObjectId>)
    ensures
        ({
            let e = plain_move(id, from, to, cause, Set::empty());
            &&& e is ZoneChange
            &&& affected_object(e) == Some(id)
            &&& e->ZoneChange_from == from && e->ZoneChange_to == to && e->cause == cause
            &&& e->enter_with_counters.len() == 0 && e->controller_override is None
            &&& !e->enter_transformed
            &&& e->ZoneChange_enter_tapped is Unspecified
        }),
{
}

/// As a card comes in it is looked at as it would be on the battlefield: with its own
/// characteristics, under the control of the one who gets it, untapped and without counters.
pub proof fn cards_are_looked_at_as_they_come_in(o: ObjectModel, p: PlayerId)
    ensures
        ({
            let q = on_entry(o, p);
            &&& q.id == o.id && q.owner == o.owner && q.controller == p && q.name == o.name
            &&& q.zone is Battlefield
            &&& q.card_types == o.card_types && q.mana_cost == o.mana_cost
            &&& q.keywords == o.keywords && q.color == o.color
            &&& q.power == o.power && q.toughness == o.toughness
            &&& !q.tapped && !q.face_down && !q.is_token
            &&& q.counters == Map::<CounterKind, u32>::empty()
            &&& q.attached_to is None && q.damage_marked == 0
        }),
{
}

/// A token as it comes in is what its description says.
pub proof fn tokens_are_looked_at_as_they_come_in(
    p: PlayerId,
    spec: TokenModel,
    turn: u32,
)
    ensures
        ({
            let q = token_on_entry(p, spec, turn);
            &&& q.owner == p && q.controller == p && q.zone is Battlefield && q.is_token
            &&& q.power == spec.power && q.toughness == spec.toughness
            &&& q.card_types.core_types == spec.core_types@
            &&& q.card_types.subtypes == spec.subtypes@
            &&& q.tapped == spec.tapped
            &&& q.name == spec.display_name
        }),
{
}

} // verus!
