//! Events that are about to happen: how they are proposed and whom they are about.

use vstd::prelude::*;
use crate::ability::TargetRef;
use crate::cards::{Phase, Zone};
use crate::events::{EtbTapState, ProposedEvent, ProposedModel};
use crate::filter::controller_of;
use crate::ids::{ObjectId, PlayerId, ReplacementId};
use crate::keyed::KeySet;
use crate::state::{Game, GameState};

verus! {

/// A move of an object that nothing has changed yet.
pub open spec fn plain_move(
    object_id: ObjectId,
    from: Zone,
    to: Zone,
    cause: Option<ObjectId>,
    applied: Set<ReplacementId>,
) -> ProposedModel {
    ProposedModel::ZoneChange {
        object_id,
        from,
        to,
        cause,
        enter_tapped: EtbTapState::Unspecified,
        enter_with_counters: Seq::empty(),
        controller_override: None,
        enter_transformed: false,
        applied,
    }
}

/// The object that an event is about, if it is about one.
pub open spec fn affected_object(e: ProposedModel) -> Option<ObjectId> {
    match e {
        ProposedModel::ZoneChange { object_id, .. } => Some(object_id),
        ProposedModel::Damage { target: TargetRef::Object(id), .. } => Some(id),
        ProposedModel::AddCounter { object_id, .. } => Some(object_id),
        ProposedModel::RemoveCounter { object_id, .. } => Some(object_id),
        ProposedModel::Tap { object_id, .. } => Some(object_id),
        ProposedModel::Untap { object_id, .. } => Some(object_id),
        ProposedModel::Destroy { object_id, .. } => Some(object_id),
        ProposedModel::Discard { object_id, .. } => Some(object_id),
        ProposedModel::Sacrifice { object_id, .. } => Some(object_id),
        ProposedModel::ProduceMana { source_id, .. } => Some(source_id),
        _ => None,
    }
}

/// The player who decides among the replacements of an event.
#[verifier::opaque]
pub open spec fn affected_person(g: Game, e: ProposedModel) -> PlayerId {
    match e {
        ProposedModel::Damage { target: TargetRef::Player(p), .. } => p,
        ProposedModel::Draw { player_id, .. } => player_id,
        ProposedModel::LifeGain { player_id, .. } => player_id,
        ProposedModel::LifeLoss { player_id, .. } => player_id,
        ProposedModel::Discard { player_id, .. } => player_id,
        ProposedModel::CreateToken { owner, .. } => owner,
        ProposedModel::Sacrifice { player_id, .. } => player_id,
        ProposedModel::ProduceMana { player_id, .. } => player_id,
        ProposedModel::BeginTurn { player_id, .. } => player_id,
        ProposedModel::BeginPhase { player_id, .. } => player_id,
        ProposedModel::Damage { target: TargetRef::Object(id), .. } => controller_of(g, id),
        ProposedModel::ZoneChange { object_id, .. } => controller_of(g, object_id),
        ProposedModel::AddCounter { object_id, .. } => controller_of(g, object_id),
        ProposedModel::RemoveCounter { object_id, .. } => controller_of(g, object_id),
        ProposedModel::Tap { object_id, .. } => controller_of(g, object_id),
        ProposedModel::Untap { object_id, .. } => controller_of(g, object_id),
        ProposedModel::Destroy { object_id, .. } => controller_of(g, object_id),
    }
}

/// How what enters is to be tapped, where something enters.
pub open spec fn entry_tap_state(e: ProposedModel) -> Option<EtbTapState> {
    match e {
        ProposedModel::ZoneChange { enter_tapped, .. } => Some(enter_tapped),
        ProposedModel::CreateToken { enter_tapped, .. } => Some(enter_tapped),
        _ => None,
    }
}

/// The event with another way for what enters to be tapped.
pub open spec fn with_entry_tap_state(e: ProposedModel, t: EtbTapState) -> ProposedModel {
    match e {
        ProposedModel::ZoneChange {
            object_id,
            from,
            to,
            cause,
            enter_tapped,
            enter_with_counters,
            controller_override,
            enter_transformed,
            applied,
        } => ProposedModel::ZoneChange {
            object_id,
            from,
            to,
            cause,
            enter_tapped: t,
            enter_with_counters,
            controller_override,
            enter_transformed,
            applied,
        },
        ProposedModel::CreateToken { owner, spec, enter_tapped, count, applied } =>
            ProposedModel::CreateToken { owner, spec, enter_tapped: t, count, applied },
        _ => e,
    }
}

fn controller_or_first(state: &GameState, id: ObjectId) -> (r: PlayerId)
    ensures
        r == controller_of(state@, id),
{
    match state.object(id) {
        Some(o) => o.controller,
        None => PlayerId(0),
    }
}

impl EtbTapState {
    /// Whether what enters is tapped, where the default says so unless an effect decides.
    pub fn resolve(&self, default_tapped: bool) -> (r: bool)
        ensures
            r == enters_tapped(*self, default_tapped),
    {
        match self {
            EtbTapState::Unspecified => default_tapped,
            EtbTapState::Tapped => true,
            EtbTapState::Untapped => false,
        }
    }
}

/// Whether what enters is tapped, where the default says so unless an effect decides.
pub open spec fn enters_tapped(t: EtbTapState, default_tapped: bool) -> bool {
    match t {
        EtbTapState::Unspecified => default_tapped,
        EtbTapState::Tapped => true,
        EtbTapState::Untapped => false,
    }
}

impl ProposedEvent {
    /// A move of an object.
    pub fn zone_change(object_id: ObjectId, from: Zone, to: Zone, cause: Option<ObjectId>) -> (r:
        Self)
        ensures
            r@ == plain_move(object_id, from, to, cause, Set::empty()),
    {
        ProposedEvent::ZoneChange {
            object_id,
            from,
            to,
            cause,
            enter_tapped: EtbTapState::Unspecified,
            enter_with_counters: Vec::new(),
            controller_override: None,
            enter_transformed: false,
            applied: KeySet::new(),
        }
    }

    /// The beginning of a turn.
    pub fn begin_turn(player_id: PlayerId, is_extra_turn: bool) -> (r: Self)
        ensures
            r@ == (ProposedModel::BeginTurn { player_id, is_extra_turn, applied: Set::empty() }),
    {
        ProposedEvent::BeginTurn { player_id, is_extra_turn, applied: KeySet::new() }
    }

    /// The beginning of a phase.
    pub fn begin_phase(player_id: PlayerId, phase: Phase) -> (r: Self)
        ensures
            r@ == (ProposedModel::BeginPhase { player_id, phase, applied: Set::empty() }),
    {
        ProposedEvent::BeginPhase { player_id, phase, applied: KeySet::new() }
    }

    /// The replacements that were applied.
    pub fn applied_set(&self) -> (r: &KeySet<ReplacementId>)
        ensures
            r@ == crate::events::applied_to(self@),
    {
        self.applied()
    }

    /// The object that the event is about, if it is about one.
    pub fn affected_object_id(&self) -> (r: Option<ObjectId>)
        ensures
            r == affected_object(self@),
    {
        match self {
            ProposedEvent::ZoneChange { object_id, .. } => Some(*object_id),
            ProposedEvent::Damage { target, .. } => match target {
                TargetRef::Object(id) => Some(*id),
                TargetRef::Player(_) => None,
            },
            ProposedEvent::AddCounter { object_id, .. } => Some(*object_id),
            ProposedEvent::RemoveCounter { object_id, .. } => Some(*object_id),
            ProposedEvent::Tap { object_id, .. } => Some(*object_id),
            ProposedEvent::Untap { object_id, .. } => Some(*object_id),
            ProposedEvent::Destroy { object_id, .. } => Some(*object_id),
            ProposedEvent::Discard { object_id, .. } => Some(*object_id),
            ProposedEvent::Sacrifice { object_id, .. } => Some(*object_id),
            ProposedEvent::ProduceMana { source_id, .. } => Some(*source_id),
            _ => None,
        }
    }

    /// The player who decides among the replacements of the event: the player it happens to, or
    /// the controller of the object it happens to.
    pub fn affected_player(&self, state: &GameState) -> (r: PlayerId)
        ensures
            r == affected_person(state@, self@),
    {
        proof {
            reveal(affected_person);
        }
        match self {
            ProposedEvent::Damage { target, .. } => match target {
                TargetRef::Player(p) => *p,
                TargetRef::Object(id) => controller_or_first(state, *id),
            },
            ProposedEvent::Draw { player_id, .. } => *player_id,
            ProposedEvent::LifeGain { player_id, .. } => *player_id,
            ProposedEvent::LifeLoss { player_id, .. } => *player_id,
            ProposedEvent::Discard { player_id, .. } => *player_id,
            ProposedEvent::CreateToken { owner, .. } => *owner,
            ProposedEvent::Sacrifice { player_id, .. } => *player_id,
            ProposedEvent::ProduceMana { player_id, .. } => *player_id,
            ProposedEvent::BeginTurn { player_id, .. } => *player_id,
            ProposedEvent::BeginPhase { player_id, .. } => *player_id,
            ProposedEvent::ZoneChange { object_id, .. } => controller_or_first(state, *object_id),
            ProposedEvent::AddCounter { object_id, .. } => controller_or_first(state, *object_id),
            ProposedEvent::RemoveCounter { object_id, .. } => controller_or_first(
                state,
                *object_id,
            ),
            ProposedEvent::Tap { object_id, .. } => controller_or_first(state, *object_id),
            ProposedEvent::Untap { object_id, .. } => controller_or_first(state, *object_id),
            ProposedEvent::Destroy { object_id, .. } => controller_or_first(state, *object_id),
        }
    }

    /// How what enters is to be tapped, where something enters.
    pub fn battlefield_entry_tap_state(&self) -> (r: Option<EtbTapState>)
        ensures
            r == entry_tap_state(self@),
    {
        match self {
            ProposedEvent::ZoneChange { enter_tapped, .. } => Some(*enter_tapped),
            ProposedEvent::CreateToken { enter_tapped, .. } => Some(*enter_tapped),
            _ => None,
        }
    }

    /// Says how what enters is to be tapped, where something enters.
    pub fn set_battlefield_entry_tap_state(&mut self, t: EtbTapState)
        ensures
            final(self)@ == with_entry_tap_state(old(self)@, t),
    {
        match self {
            ProposedEvent::ZoneChange { enter_tapped, .. } => {
                *enter_tapped = t;
            },
            ProposedEvent::CreateToken { enter_tapped, .. } => {
                *enter_tapped = t;
            },
            _ => {},
        }
    }
}

} // verus!
