//! Which replacements apply to an event that is about to happen.

use std::sync::Arc;
use vstd::prelude::*;
use crate::ability::{
    compares, AbilityDefinition, CombatDamageScope, Comparator, ControllerRef, DamageTargetFilter,
    Effect, GameRestriction, QuantityExpr, ReplacementCondition, ReplacementDefinition,
    ReplacementEvent, ReplacementMode, RestrictionScope, ShieldKind, TargetFilter, TargetRef,
    TypedFilter,
};
use crate::cards::{has_core_type, CoreType, Zone};
use crate::conditions::{contains_subtype, has_subtype};
use crate::events::{applied_to, EtbTapState, ProposedEvent, ProposedModel};
use crate::filter::{
    controller_of, matches_filter, matches_target_filter, matches_typed_filter, seen_from, Scope,
    ScopeModel,
};
use crate::ids::{ObjectId, PlayerId, ReplacementId};
use crate::object::{GameObject, ObjectModel};
use crate::proposals::{affected_object, enters_tapped};
use crate::quantity::{
    resolve_quantity, resolve_quantity_with_ctx, value_of, QuantityContext,
};
use crate::registry::{
    contents, handler_in, registered_handler, Handler, ReplacementRegistry,
};
use crate::seqs::{
    count_where, first_where, lemma_count_next, lemma_filter_start, lemma_first_where,
    lemma_first_where_none,
};
use crate::state::{object_at, Game, GameState, PlayerModel};
use crate::text::{contains_piece, has_text, lowercase, same_text, to_lowercase};
use crate::tokens::{matches_target_filter_on_battlefield_entry, means_entry};

verus! {

broadcast use crate::views::group_views;

// ---------------------------------------------------------------------------
// Definitions
// ---------------------------------------------------------------------------

/// A replacement definition of an object.
pub open spec fn own_definition(g: Game, rid: ReplacementId) -> Option<ReplacementDefinition> {
    match object_at(g, rid.source) {
        Some(o) => if rid.index < o.replacement_definitions.len() {
            Some(o.replacement_definitions[rid.index as int])
        } else {
            None
        },
        None => None,
    }
}

/// A replacement definition: of an object, or of the game where the source is the object with
/// identifier zero.
pub open spec fn definition_of(g: Game, rid: ReplacementId) -> Option<ReplacementDefinition> {
    if rid.source == ObjectId(0) {
        if rid.index < g.pending_damage_prevention.len() {
            Some(g.pending_damage_prevention[rid.index as int])
        } else {
            None
        }
    } else {
        own_definition(g, rid)
    }
}

/// A replacement definition of an object.
pub fn find_own_definition(state: &GameState, rid: ReplacementId) -> (r: Option<
    &ReplacementDefinition,
>)
    ensures
        match r {
            Some(d) => own_definition(state@, rid) == Some(*d),
            None => own_definition(state@, rid) is None,
        },
{
    match state.object(rid.source) {
        Some(o) => if rid.index < o.replacement_definitions.len() {
            Some(&o.replacement_definitions[rid.index])
        } else {
            None
        },
        None => None,
    }
}

/// A replacement definition: of an object, or of the game where the source is the object with
/// identifier zero.
pub fn find_definition(state: &GameState, rid: ReplacementId) -> (r: Option<&ReplacementDefinition>)
    ensures
        match r {
            Some(d) => definition_of(state@, rid) == Some(*d),
            None => definition_of(state@, rid) is None,
        },
{
    if rid.source == ObjectId(0) {
        if rid.index < state.pending_damage_prevention.len() {
            Some(&state.pending_damage_prevention[rid.index])
        } else {
            None
        }
    } else {
        find_own_definition(state, rid)
    }
}

// ---------------------------------------------------------------------------
// What kinds of events handlers are for
// ---------------------------------------------------------------------------

/// Whether an object is an Aura or an Equipment.
pub open spec fn is_attachment(o: ObjectModel) -> bool {
    exists|i: int|
        0 <= i < o.card_types.subtypes.len() && ((#[trigger] o.card_types.subtypes[i])@ == "Aura"@
            || o.card_types.subtypes[i]@ == "Equipment"@)
}

fn has_attachment_subtype(list: &Vec<String>) -> (r: bool)
    ensures
        r == (exists|i: int|
            0 <= i < list@.len() && ((#[trigger] list@[i])@ == "Aura"@ || list@[i]@
                == "Equipment"@)),
{
    let mut i: usize = 0;
    while i < list.len()
        invariant
            i <= list@.len(),
            forall|j: int|
                0 <= j < i ==> (#[trigger] list@[j])@ != "Aura"@ && list@[j]@ != "Equipment"@,
        decreases list.len() - i,
    {
        if same_text(list[i].as_str(), "Aura") || same_text(list[i].as_str(), "Equipment") {
            return true;
        }
        i += 1;
    }
    false
}

/// Whether an event is of the kind that a handler is for, seen from a source.
pub open spec fn is_handled(h: Handler, e: ProposedModel, source: ObjectId, g: Game) -> bool {
    match h {
        Handler::Stub | Handler::Placeholder => false,
        Handler::DamageDone => e is Damage,
        Handler::ChangeZone => match e {
            ProposedModel::ZoneChange { to, .. } => to == Zone::Battlefield,
            ProposedModel::CreateToken { .. } => true,
            _ => false,
        },
        Handler::Moved => e is ZoneChange,
        Handler::Discard => e is Discard,
        Handler::Destroy => e is Destroy,
        Handler::Draw => match e {
            ProposedModel::Draw { count, .. } => count > 0,
            _ => false,
        },
        Handler::GainLife => e is LifeGain,
        Handler::LifeReduced | Handler::PayLife => e is LifeLoss,
        Handler::LoseLife => match e {
            ProposedModel::LifeLoss { player_id, .. } => object_at(g, source) is Some && player_id
                != object_at(g, source)->0.controller && g.active_player == object_at(
                g,
                source,
            )->0.controller,
            _ => false,
        },
        Handler::AddCounter => e is AddCounter,
        Handler::RemoveCounter => e is RemoveCounter,
        Handler::Tap => e is Tap,
        Handler::Untap => e is Untap,
        Handler::Counter => match e {
            ProposedModel::ZoneChange { from, .. } => from == Zone::Stack,
            _ => false,
        },
        Handler::CreateToken => e is CreateToken,
        Handler::Attached => match e {
            ProposedModel::ZoneChange { object_id, to, .. } => to == Zone::Battlefield
                && object_at(g, object_id) is Some && is_attachment(object_at(g, object_id)->0),
            _ => false,
        },
        Handler::DealtDamage => match e {
            ProposedModel::Damage { target: TargetRef::Object(id), .. } => id == source,
            ProposedModel::Damage { target: TargetRef::Player(p), .. } => object_at(g, source)
                is Some && object_at(g, source)->0.controller == p,
            _ => false,
        },
        Handler::Mill => match e {
            ProposedModel::ZoneChange { from, to, .. } => from == Zone::Library && to
                == Zone::Graveyard,
            _ => false,
        },
        Handler::ProduceMana => e is ProduceMana,
        Handler::BeginTurn => e is BeginTurn,
        Handler::BeginPhase => e is BeginPhase,
    }
}

/// Whether an event is of the kind that a handler is for, seen from a source.
#[verifier::spinoff_prover]
pub fn handler_matches(h: Handler, event: &ProposedEvent, source: ObjectId, state: &GameState) -> (r:
    bool)
    ensures
        r == is_handled(h, event@, source, state@),
{
    match h {
        Handler::Stub | Handler::Placeholder => false,
        Handler::DamageDone => matches!(event, ProposedEvent::Damage { .. }),
        Handler::ChangeZone => match event {
            ProposedEvent::ZoneChange { to, .. } => *to == Zone::Battlefield,
            ProposedEvent::CreateToken { .. } => true,
            _ => false,
        },
        Handler::Moved => matches!(event, ProposedEvent::ZoneChange { .. }),
        Handler::Discard => matches!(event, ProposedEvent::Discard { .. }),
        Handler::Destroy => matches!(event, ProposedEvent::Destroy { .. }),
        Handler::Draw => match event {
            ProposedEvent::Draw { count, .. } => *count > 0,
            _ => false,
        },
        Handler::GainLife => matches!(event, ProposedEvent::LifeGain { .. }),
        Handler::LifeReduced | Handler::PayLife => matches!(event, ProposedEvent::LifeLoss { .. }),
        Handler::LoseLife => match event {
            ProposedEvent::LifeLoss { player_id, .. } => match state.object(source) {
                Some(o) => *player_id != o.controller && state.active_player == o.controller,
                None => false,
            },
            _ => false,
        },
        Handler::AddCounter => matches!(event, ProposedEvent::AddCounter { .. }),
        Handler::RemoveCounter => matches!(event, ProposedEvent::RemoveCounter { .. }),
        Handler::Tap => matches!(event, ProposedEvent::Tap { .. }),
        Handler::Untap => matches!(event, ProposedEvent::Untap { .. }),
        Handler::Counter => match event {
            ProposedEvent::ZoneChange { from, .. } => *from == Zone::Stack,
            _ => false,
        },
        Handler::CreateToken => matches!(event, ProposedEvent::CreateToken { .. }),
        Handler::Attached => match event {
            ProposedEvent::ZoneChange { object_id, to, .. } => *to == Zone::Battlefield
                && match state.object(*object_id) {
                Some(o) => has_attachment_subtype(&o.card_types.subtypes),
                None => false,
            },
            _ => false,
        },
        Handler::DealtDamage => match event {
            ProposedEvent::Damage { target, .. } => match target {
                TargetRef::Object(id) => *id == source,
                TargetRef::Player(p) => match state.object(source) {
                    Some(o) => o.controller == *p,
                    None => false,
                },
            },
            _ => false,
        },
        Handler::Mill => match event {
            ProposedEvent::ZoneChange { from, to, .. } => *from == Zone::Library && *to
                == Zone::Graveyard,
            _ => false,
        },
        Handler::ProduceMana => matches!(event, ProposedEvent::ProduceMana { .. }),
        Handler::BeginTurn => matches!(event, ProposedEvent::BeginTurn { .. }),
        Handler::BeginPhase => matches!(event, ProposedEvent::BeginPhase { .. }),
    }
}

// ---------------------------------------------------------------------------
// Prevention of damage
// ---------------------------------------------------------------------------

/// Whether a rule of the game forbids to prevent the damage of an event.
pub open spec fn forbids_prevention(g: Game, r: GameRestriction, e: ProposedModel) -> bool {
    match (r, e) {
        (
            GameRestriction::DamagePreventionDisabled { scope, .. },
            ProposedModel::Damage { source_id, target, .. },
        ) => match scope {
            None => true,
            Some(RestrictionScope::SpecificSource(id)) => source_id == id,
            Some(RestrictionScope::SourcesControlledBy(p)) => object_at(g, source_id) is Some
                && object_at(g, source_id)->0.controller == p,
            Some(RestrictionScope::DamageToTarget(id)) => target == TargetRef::Object(id),
        },
        _ => false,
    }
}

/// Whether some rule of the game forbids to prevent the damage of an event.
pub open spec fn prevention_is_forbidden(g: Game, e: ProposedModel) -> bool {
    exists|i: int|
        0 <= i < g.restrictions.len() && forbids_prevention(g, #[trigger] g.restrictions[i], e)
}

fn restriction_forbids(state: &GameState, r: &GameRestriction, event: &ProposedEvent) -> (b: bool)
    ensures
        b == forbids_prevention(state@, *r, event@),
{
    match r {
        GameRestriction::DamagePreventionDisabled { scope, .. } => match event {
            ProposedEvent::Damage { source_id, target, .. } => match scope {
                None => true,
                Some(RestrictionScope::SpecificSource(id)) => *source_id == *id,
                Some(RestrictionScope::SourcesControlledBy(p)) => match state.object(*source_id) {
                    Some(o) => o.controller == *p,
                    None => false,
                },
                Some(RestrictionScope::DamageToTarget(id)) => match target {
                    TargetRef::Object(t) => *t == *id,
                    TargetRef::Player(_) => false,
                },
            },
            _ => false,
        },
        _ => false,
    }
}

fn is_prevention_disabled(state: &GameState, event: &ProposedEvent) -> (r: bool)
    ensures
        r == prevention_is_forbidden(state@, event@),
{
    let ghost list = state@.restrictions;
    let mut i: usize = 0;
    while i < state.restrictions.len()
        invariant
            i <= list.len(),
            list == state@.restrictions,
            list == state.restrictions@,
            forall|j: int| 0 <= j < i ==> !forbids_prevention(state@, #[trigger] list[j], event@),
        decreases list.len() - i,
    {
        if restriction_forbids(state, &state.restrictions[i], event) {
            assert(forbids_prevention(state@, list[i as int], event@));
            return true;
        }
        i += 1;
    }
    false
}

/// Whether a definition prevents damage.
pub open spec fn prevents_damage(d: ReplacementDefinition, event: ReplacementEvent) -> bool {
    (event == ReplacementEvent::DamageDone || event == ReplacementEvent::DealtDamage)
        && d.damage_modification is None && (d.shield_kind is Prevention || (d.description is Some
        && has_text(lowercase(d.description->0@), "prevent"@) && has_text(
        lowercase(d.description->0@),
        "damage"@,
    )))
}

/// Whether the replacement with an identifier prevents damage.
pub open spec fn is_prevention(g: Game, rid: ReplacementId, event: ReplacementEvent) -> bool {
    match definition_of(g, rid) {
        Some(d) => prevents_damage(d, event),
        None => false,
    }
}

/// Whether a definition prevents damage, where `lower` is its description in small letters.
pub fn lowered_prevents_damage(
    repl: &ReplacementDefinition,
    lower: Option<&str>,
    event: ReplacementEvent,
) -> (r: bool)
    ensures
        r == ((event == ReplacementEvent::DamageDone || event == ReplacementEvent::DealtDamage)
            && repl.damage_modification is None && (repl.shield_kind is Prevention || (lower is Some
            && has_text(lower->0@, "prevent"@) && has_text(lower->0@, "damage"@)))),
{
    if event != ReplacementEvent::DamageDone && event != ReplacementEvent::DealtDamage {
        return false;
    }
    if repl.damage_modification.is_some() {
        return false;
    }
    matches!(repl.shield_kind, ShieldKind::Prevention { .. }) || match lower {
        Some(d) => contains_piece(d, "prevent") && contains_piece(d, "damage"),
        None => false,
    }
}

fn is_damage_prevention_replacement(
    state: &GameState,
    rid: ReplacementId,
    event: ReplacementEvent,
) -> (r: bool)
    ensures
        r == is_prevention(state@, rid, event),
{
    match find_definition(state, rid) {
        Some(repl) => match &repl.description {
            Some(d) => {
                let lower = to_lowercase(d.as_str());
                lowered_prevents_damage(repl, Some(lower.as_str()), event)
            },
            None => lowered_prevents_damage(repl, None, event),
        },
        None => false,
    }
}

/// Whether damage is dealt to what a definition asks for.
pub open spec fn damage_hits(
    g: Game,
    f: DamageTargetFilter,
    target: TargetRef,
    controller: PlayerId,
) -> bool {
    match (f, target) {
        (DamageTargetFilter::OpponentOrTheirPermanents, TargetRef::Player(p)) => p != controller,
        (DamageTargetFilter::OpponentOrTheirPermanents, TargetRef::Object(id)) => object_at(g, id)
            is Some && object_at(g, id)->0.controller != controller,
        (DamageTargetFilter::CreatureOnly, TargetRef::Player(_)) => false,
        (DamageTargetFilter::CreatureOnly, TargetRef::Object(id)) => object_at(g, id) is Some
            && object_at(g, id)->0.card_types.core_types.contains(CoreType::Creature),
        (DamageTargetFilter::PlayerOnly, t) => t is Player,
        (DamageTargetFilter::OpponentOnly, TargetRef::Player(p)) => p != controller,
        (DamageTargetFilter::OpponentOnly, TargetRef::Object(_)) => false,
    }
}

fn matches_damage_target_filter(
    filter: DamageTargetFilter,
    target: TargetRef,
    repl_controller: PlayerId,
    state: &GameState,
) -> (r: bool)
    ensures
        r == damage_hits(state@, filter, target, repl_controller),
{
    match filter {
        DamageTargetFilter::OpponentOrTheirPermanents => match target {
            TargetRef::Player(p) => p != repl_controller,
            TargetRef::Object(id) => match state.object(id) {
                Some(o) => o.controller != repl_controller,
                None => false,
            },
        },
        DamageTargetFilter::CreatureOnly => match target {
            TargetRef::Player(_) => false,
            TargetRef::Object(id) => match state.object(id) {
                Some(o) => has_core_type(&o.card_types.core_types, CoreType::Creature),
                None => false,
            },
        },
        DamageTargetFilter::PlayerOnly => matches!(target, TargetRef::Player(_)),
        DamageTargetFilter::OpponentOnly => match target {
            TargetRef::Player(p) => p != repl_controller,
            TargetRef::Object(_) => false,
        },
    }
}

// ---------------------------------------------------------------------------
// Conditions
// ---------------------------------------------------------------------------

/// Whether a list of subtypes holds one of some, whatever the case of their letters.
pub open spec fn has_one_of(list: Seq<String>, wanted: Seq<String>) -> bool {
    exists|i: int| 0 <= i < wanted.len() && has_subtype(list, (#[trigger] wanted[i])@)
}

fn contains_one_of(list: &Vec<String>, wanted: &Vec<String>) -> (r: bool)
    ensures
        r == has_one_of(list@, wanted@),
{
    let mut i: usize = 0;
    while i < wanted.len()
        invariant
            i <= wanted@.len(),
            forall|j: int| 0 <= j < i ==> !has_subtype(list@, (#[trigger] wanted@[j])@),
        decreases wanted.len() - i,
    {
        if contains_subtype(list, wanted[i].as_str()) {
            assert(has_subtype(list@, wanted@[i as int]@));
            return true;
        }
        i += 1;
    }
    false
}

/// Being a permanent of a player, other than the source, with one of some subtypes.
pub open spec fn other_with_subtype(
    g: Game,
    controller: PlayerId,
    source: ObjectId,
    subtypes: Seq<String>,
) -> spec_fn(ObjectId) -> bool {
    |id: ObjectId|
        {
            let o = g.objects[id];
            o.zone == Zone::Battlefield && o.controller == controller && id != source && has_one_of(
                o.card_types.subtypes,
                subtypes,
            )
        }
}

/// Being a permanent that a filter means.
pub open spec fn permanent_meant(g: Game, f: TargetFilter, sc: ScopeModel) -> spec_fn(
    ObjectId,
) -> bool {
    |id: ObjectId| g.objects[id].zone == Zone::Battlefield && matches_filter(g, id, f, sc)
}

/// Being a permanent other than the source that a filter means.
pub open spec fn other_meant(g: Game, f: TargetFilter, sc: ScopeModel) -> spec_fn(
    ObjectId,
) -> bool {
    |id: ObjectId|
        g.objects[id].zone == Zone::Battlefield && id != sc.source && matches_filter(g, id, f, sc)
}

/// Being a player other than one who is still in the game.
pub open spec fn other_in_play(controller: PlayerId) -> spec_fn(PlayerModel) -> bool {
    |p: PlayerModel| p.id != controller && !p.is_eliminated
}

/// Whether it is the turn that a condition asks for.
pub open spec fn is_turn_of(g: Game, controller: PlayerId, req: Option<ControllerRef>) -> bool {
    match req {
        Some(ControllerRef::You) => g.active_player == controller,
        Some(ControllerRef::Opponent) => g.active_player != controller,
        Some(ControllerRef::TargetPlayer) => false,
        None => true,
    }
}

fn turn_fits(state: &GameState, controller: PlayerId, req: Option<ControllerRef>) -> (r: bool)
    ensures
        r == is_turn_of(state@, controller, req),
{
    match req {
        Some(ControllerRef::You) => state.active_player == controller,
        Some(ControllerRef::Opponent) => state.active_player != controller,
        Some(ControllerRef::TargetPlayer) => false,
        None => true,
    }
}

/// How two numbers compare for the controller and the source of a replacement.
pub open spec fn numbers_compare(
    g: Game,
    lhs: QuantityExpr,
    c: Comparator,
    rhs: QuantityExpr,
    controller: PlayerId,
    source: ObjectId,
) -> bool {
    compares(
        c,
        value_of(g, lhs, seen_from(source, controller)) as int,
        value_of(g, rhs, seen_from(source, controller)) as int,
    )
}

/// The player whose damage a condition asks about.
pub open spec fn damage_dealer(g: Game, controller: PlayerId, c: ControllerRef) -> PlayerId {
    match c {
        ControllerRef::Opponent => match first_where(g.players, other_in_play(controller)) {
            Some(i) => g.players[i].id,
            None => controller,
        },
        _ => controller,
    }
}

/// The controller of a source of damage, as last known where it is gone.
pub open spec fn dealer_of(g: Game, source: ObjectId) -> Option<PlayerId> {
    match object_at(g, source) {
        Some(o) => Some(o.controller),
        None => if g.lki_cache.dom().contains(source) {
            Some(g.lki_cache[source].controller)
        } else {
            None
        },
    }
}

/// Whether an object was dealt damage this turn by a source that a player controls.
pub open spec fn was_damaged_by(g: Game, id: ObjectId, dealer: PlayerId) -> bool {
    exists|i: int|
        0 <= i < g.damage_dealt_this_turn.len() && (#[trigger] g.damage_dealt_this_turn[i]).target
            == TargetRef::Object(id) && dealer_of(g, g.damage_dealt_this_turn[i].source_id) == Some(
            dealer,
        )
}

/// Whether the condition of a replacement is met.
pub open spec fn condition_met(
    g: Game,
    c: ReplacementCondition,
    controller: PlayerId,
    source: ObjectId,
    affected: Option<ObjectId>,
    e: ProposedModel,
) -> bool {
    match c {
        ReplacementCondition::UnlessControlsSubtype { subtypes } => !exists|i: int|
            0 <= i < g.object_ids.len() && other_with_subtype(g, controller, source, subtypes@)(
                #[trigger] g.object_ids[i],
            ),
        ReplacementCondition::UnlessControlsOtherLeq { count, filter } => count_where(
            g.object_ids,
            permanent_meant(
                g,
                TargetFilter::Typed(filter),
                seen_from(source, controller_of(g, source)),
            ),
        ) > count,
        ReplacementCondition::UnlessControlsMatching { filter } => !exists|i: int|
            0 <= i < g.object_ids.len() && other_meant(g, filter, seen_from(source, controller))(
                #[trigger] g.object_ids[i],
            ),
        ReplacementCondition::UnlessPlayerLifeAtMost { amount } => !exists|i: int|
            0 <= i < g.players.len() && (#[trigger] g.players[i]).life <= amount as i32,
        ReplacementCondition::UnlessMultipleOpponents => count_where(
            g.players,
            other_in_play(controller),
        ) < 2,
        ReplacementCondition::UnlessControlsCountMatching { minimum, filter } => count_where(
            g.object_ids,
            other_meant(g, filter, seen_from(source, controller)),
        ) < minimum,
        ReplacementCondition::UnlessYourTurn => g.active_player != controller,
        ReplacementCondition::UnlessQuantity { lhs, comparator, rhs, active_player_req } =>
            !is_turn_of(g, controller, active_player_req) || !numbers_compare(
            g,
            lhs,
            comparator,
            rhs,
            controller,
            source,
        ),
        ReplacementCondition::OnlyIfQuantity { lhs, comparator, rhs, active_player_req } =>
            is_turn_of(g, controller, active_player_req) && numbers_compare(
            g,
            lhs,
            comparator,
            rhs,
            controller,
            source,
        ),
        ReplacementCondition::CastViaEscape => object_at(g, source) is Some && object_at(
            g,
            source,
        )->0.cast_from_zone == Some(Zone::Graveyard),
        ReplacementCondition::CastViaKicker { .. } => true,
        ReplacementCondition::SourceTappedState { tapped } => object_at(g, source) is Some
            && object_at(g, source)->0.tapped == tapped,
        ReplacementCondition::DealtDamageThisTurnBySourceControlledBy { controller: whose } =>
            affected is Some && was_damaged_by(
            g,
            affected->0,
            damage_dealer(g, controller, whose),
        ),
        ReplacementCondition::OnlyExtraTurn => match e {
            ProposedModel::BeginTurn { is_extra_turn, .. } => is_extra_turn,
            _ => false,
        },
        ReplacementCondition::Unrecognized { .. } => true,
    }
}

fn controls_other_with_subtype(
    state: &GameState,
    controller: PlayerId,
    source: ObjectId,
    subtypes: &Vec<String>,
) -> (r: bool)
    ensures
        r == (exists|i: int|
            0 <= i < state@.object_ids.len() && other_with_subtype(
                state@,
                controller,
                source,
                subtypes@,
            )(#[trigger] state@.object_ids[i])),
{
    let ghost ids = state@.object_ids;
    let ghost keep = other_with_subtype(state@, controller, source, subtypes@);
    proof {
        state.objects.lemma_order();
    }
    let mut i: usize = 0;
    while i < state.objects.len()
        invariant
            i <= ids.len(),
            ids == state@.object_ids,
            ids == state.objects.order(),
            ids.len() == state.objects.seq().len(),
            keep == other_with_subtype(state@, controller, source, subtypes@),
            forall|k: ObjectId| #[trigger]
                state.objects@.dom().contains(k) <==> exists|i: int|
                    0 <= i < ids.len() && #[trigger] ids[i] == k,
            forall|j: int| 0 <= j < i ==> !keep(#[trigger] ids[j]),
        decreases ids.len() - i,
    {
        let id = *state.objects.key_at(i);
        assert(ids[i as int] == id);
        assert(state.objects@.dom().contains(id));
        if let Some(o) = state.object(id) {
            if o.zone == Zone::Battlefield && o.controller == controller && id != source
                && contains_one_of(&o.card_types.subtypes, subtypes) {
                assert(keep(ids[i as int]));
                return true;
            }
        }
        i += 1;
    }
    false
}

fn count_permanents_meant<'a>(state: &GameState, f: &TypedFilter, sc: Scope<'a>) -> (r: usize)
    ensures
        r == count_where(
            state@.object_ids,
            permanent_meant(state@, TargetFilter::Typed(*f), sc@),
        ),
{
    let ghost ids = state@.object_ids;
    let ghost keep = permanent_meant(state@, TargetFilter::Typed(*f), sc@);
    proof {
        lemma_filter_start(ids, keep);
        state.objects.lemma_order();
    }
    let mut n: usize = 0;
    let mut i: usize = 0;
    while i < state.objects.len()
        invariant
            i <= ids.len(),
            ids == state@.object_ids,
            ids == state.objects.order(),
            ids.len() == state.objects.seq().len(),
            keep == permanent_meant(state@, TargetFilter::Typed(*f), sc@),
            forall|k: ObjectId| #[trigger]
                state.objects@.dom().contains(k) <==> exists|i: int|
                    0 <= i < ids.len() && #[trigger] ids[i] == k,
            n <= i,
            n == count_where(ids.take(i as int), keep),
            ids.take(ids.len() as int) == ids,
        decreases ids.len() - i,
    {
        let id = *state.objects.key_at(i);
        assert(ids[i as int] == id);
        assert(state.objects@.dom().contains(id));
        proof {
            lemma_count_next(ids, i as int, keep);
        }
        if let Some(o) = state.object(id) {
            if o.zone == Zone::Battlefield && matches_typed_filter(state, id, f, sc) {
                n += 1;
            }
        }
        i += 1;
    }
    n
}

fn count_others_meant<'a>(state: &GameState, f: &TargetFilter, sc: Scope<'a>) -> (r: usize)
    ensures
        r == count_where(state@.object_ids, other_meant(state@, *f, sc@)),
{
    let ghost ids = state@.object_ids;
    let ghost keep = other_meant(state@, *f, sc@);
    proof {
        lemma_filter_start(ids, keep);
        state.objects.lemma_order();
    }
    let mut n: usize = 0;
    let mut i: usize = 0;
    while i < state.objects.len()
        invariant
            i <= ids.len(),
            ids == state@.object_ids,
            ids == state.objects.order(),
            ids.len() == state.objects.seq().len(),
            keep == other_meant(state@, *f, sc@),
            forall|k: ObjectId| #[trigger]
                state.objects@.dom().contains(k) <==> exists|i: int|
                    0 <= i < ids.len() && #[trigger] ids[i] == k,
            n <= i,
            n == count_where(ids.take(i as int), keep),
            ids.take(ids.len() as int) == ids,
        decreases ids.len() - i,
    {
        let id = *state.objects.key_at(i);
        assert(ids[i as int] == id);
        assert(state.objects@.dom().contains(id));
        proof {
            lemma_count_next(ids, i as int, keep);
        }
        if let Some(o) = state.object(id) {
            if o.zone == Zone::Battlefield && id != sc.source && matches_target_filter(
                state,
                id,
                f,
                sc,
            ) {
                n += 1;
            }
        }
        i += 1;
    }
    n
}

fn someone_has_life_at_most(state: &GameState, amount: u32) -> (r: bool)
    ensures
        r == (exists|i: int|
            0 <= i < state@.players.len() && (#[trigger] state@.players[i]).life <= amount as i32),
{
    let ghost ps = state@.players;
    let limit: i32 = #[verifier::truncate] (amount as i32);
    let mut i: usize = 0;
    while i < state.players.len()
        invariant
            i <= ps.len(),
            ps == state@.players,
            ps.len() == state.players@.len(),
            limit == amount as i32,
            forall|j: int| 0 <= j < i ==> (#[trigger] ps[j]).life > limit,
        decreases ps.len() - i,
    {
        assert(ps[i as int] == state.players@[i as int]@);
        if state.players[i].life <= limit {
            return true;
        }
        i += 1;
    }
    false
}

fn count_others_in_play(state: &GameState, controller: PlayerId) -> (r: usize)
    ensures
        r == count_where(state@.players, other_in_play(controller)),
{
    let ghost ps = state@.players;
    let ghost keep = other_in_play(controller);
    proof {
        lemma_filter_start(ps, keep);
    }
    let mut n: usize = 0;
    let mut i: usize = 0;
    while i < state.players.len()
        invariant
            i <= ps.len(),
            ps == state@.players,
            ps.len() == state.players@.len(),
            keep == other_in_play(controller),
            n <= i,
            n == count_where(ps.take(i as int), keep),
            ps.take(ps.len() as int) == ps,
        decreases ps.len() - i,
    {
        assert(ps[i as int] == state.players@[i as int]@);
        proof {
            lemma_count_next(ps, i as int, keep);
        }
        if state.players[i].id != controller && !state.players[i].is_eliminated {
            n += 1;
        }
        i += 1;
    }
    n
}

fn find_damage_dealer(state: &GameState, controller: PlayerId, c: ControllerRef) -> (r: PlayerId)
    ensures
        r == damage_dealer(state@, controller, c),
{
    match c {
        ControllerRef::Opponent => {
            let ghost ps = state@.players;
            let ghost keep = other_in_play(controller);
            let mut i: usize = 0;
            while i < state.players.len()
                invariant
                    i <= ps.len(),
                    ps == state@.players,
                    ps.len() == state.players@.len(),
                    keep == other_in_play(controller),
                    c == ControllerRef::Opponent,
                    forall|j: int| 0 <= j < i ==> !keep(#[trigger] ps[j]),
                decreases ps.len() - i,
            {
                assert(ps[i as int] == state.players@[i as int]@);
                if state.players[i].id != controller && !state.players[i].is_eliminated {
                    proof {
                        lemma_first_where(ps, keep, i as int);
                    }
                    return state.players[i].id;
                }
                i += 1;
            }
            proof {
                lemma_first_where_none(ps, keep);
            }
            controller
        },
        _ => controller,
    }
}

fn find_dealer_of(state: &GameState, source: ObjectId) -> (r: Option<PlayerId>)
    ensures
        r == dealer_of(state@, source),
{
    match state.object(source) {
        Some(o) => Some(o.controller),
        None => match state.lki_cache.get(&source) {
            Some(known) => Some(known.controller),
            None => None,
        },
    }
}

fn damaged_by(state: &GameState, id: ObjectId, dealer: PlayerId) -> (r: bool)
    ensures
        r == was_damaged_by(state@, id, dealer),
{
    let ghost list = state@.damage_dealt_this_turn;
    let mut i: usize = 0;
    while i < state.damage_dealt_this_turn.len()
        invariant
            i <= list.len(),
            list == state@.damage_dealt_this_turn,
            list == state.damage_dealt_this_turn@,
            forall|j: int|
                0 <= j < i ==> (#[trigger] list[j]).target != TargetRef::Object(id) || dealer_of(
                    state@,
                    list[j].source_id,
                ) != Some(dealer),
        decreases list.len() - i,
    {
        let record = state.damage_dealt_this_turn[i];
        let is_hit = match record.target {
            TargetRef::Object(t) => t == id,
            TargetRef::Player(_) => false,
        };
        if is_hit {
            if let Some(p) = find_dealer_of(state, record.source_id) {
                if p == dealer {
                    assert(list[i as int].target == TargetRef::Object(id));
                    return true;
                }
            }
        }
        i += 1;
    }
    false
}

/// Whether the condition of a replacement is met.
pub fn evaluate_replacement_condition(
    condition: &ReplacementCondition,
    controller: PlayerId,
    source_id: ObjectId,
    state: &GameState,
    affected_object_id: Option<ObjectId>,
    event: &ProposedEvent,
) -> (r: bool)
    ensures
        r == condition_met(
            state@,
            *condition,
            controller,
            source_id,
            affected_object_id,
            event@,
        ),
{
    match condition {
        ReplacementCondition::UnlessControlsSubtype { subtypes } => !controls_other_with_subtype(
            state,
            controller,
            source_id,
            subtypes,
        ),
        ReplacementCondition::UnlessControlsOtherLeq { count, filter } => count_permanents_meant(
            state,
            filter,
            Scope::from_source(state, source_id),
        ) > *count as usize,
        ReplacementCondition::UnlessControlsMatching { filter } => {
            let sc = Scope::from_source_with_controller(source_id, controller);
            let n: usize = count_others_meant(state, filter, sc);
            proof {
                crate::seqs::lemma_count_positive_where(
                    state@.object_ids,
                    other_meant(state@, *filter, sc@),
                );
            }
            n == 0
        },
        ReplacementCondition::UnlessPlayerLifeAtMost { amount } => !someone_has_life_at_most(
            state,
            *amount,
        ),
        ReplacementCondition::UnlessMultipleOpponents => count_others_in_play(state, controller)
            < 2,
        ReplacementCondition::UnlessControlsCountMatching { minimum, filter } => {
            let sc = Scope::from_source_with_controller(source_id, controller);
            count_others_meant(state, filter, sc) < *minimum as usize
        },
        ReplacementCondition::UnlessYourTurn => state.active_player != controller,
        ReplacementCondition::UnlessQuantity { lhs, comparator, rhs, active_player_req } => {
            if !turn_fits(state, controller, *active_player_req) {
                return true;
            }
            let l: i32 = resolve_quantity(state, lhs, controller, source_id);
            let r: i32 = resolve_quantity(state, rhs, controller, source_id);
            !comparator.evaluate(l, r)
        },
        ReplacementCondition::OnlyIfQuantity { lhs, comparator, rhs, active_player_req } => {
            if !turn_fits(state, controller, *active_player_req) {
                return false;
            }
            let l: i32 = resolve_quantity(state, lhs, controller, source_id);
            let r: i32 = resolve_quantity(state, rhs, controller, source_id);
            comparator.evaluate(l, r)
        },
        ReplacementCondition::CastViaEscape => match state.object(source_id) {
            Some(o) => match o.cast_from_zone {
                Some(z) => z == Zone::Graveyard,
                None => false,
            },
            None => false,
        },
        ReplacementCondition::CastViaKicker { .. } => true,
        ReplacementCondition::SourceTappedState { tapped } => match state.object(source_id) {
            Some(o) => o.tapped == *tapped,
            None => false,
        },
        ReplacementCondition::DealtDamageThisTurnBySourceControlledBy { controller: whose } => {
            let dealer = find_damage_dealer(state, controller, *whose);
            match affected_object_id {
                Some(id) => damaged_by(state, id, dealer),
                None => false,
            }
        },
        ReplacementCondition::OnlyExtraTurn => match event {
            ProposedEvent::BeginTurn { is_extra_turn, .. } => *is_extra_turn,
            _ => false,
        },
        ReplacementCondition::Unrecognized { .. } => true,
    }
}

// ---------------------------------------------------------------------------
// What the ability of a replacement changes of an event
// ---------------------------------------------------------------------------

/// What an ability changes of an event that lets something enter.
#[derive(Debug)]
pub struct EventModifiers {
    pub etb_tap_state: EtbTapState,
    pub etb_counters: Vec<(String, u32)>,
    pub redirect_zone: Option<Zone>,
}

/// What an ability changes of an event that lets something enter.
#[verifier::ext_equal]
pub struct ModifiersModel {
    pub etb_tap_state: EtbTapState,
    pub etb_counters: Seq<(String, u32)>,
    pub redirect_zone: Option<Zone>,
}

impl View for EventModifiers {
    type V = ModifiersModel;

    open spec fn view(&self) -> ModifiersModel {
        ModifiersModel {
            etb_tap_state: self.etb_tap_state,
            etb_counters: self.etb_counters@,
            redirect_zone: self.redirect_zone,
        }
    }
}

/// A number, or zero where it is below zero.
pub open spec fn at_least_zero(n: i32) -> u32 {
    if n > 0 {
        n as u32
    } else {
        0
    }
}

/// A number, or zero where it is below zero.
pub fn zero_or_more(n: i32) -> (r: u32)
    ensures
        r == at_least_zero(n),
{
    if n > 0 {
        n as u32
    } else {
        0
    }
}

/// The object that an event lets enter the battlefield.
pub open spec fn entering_object_of(e: ProposedModel) -> Option<ObjectId> {
    match e {
        ProposedModel::ZoneChange { object_id, to, .. } => if to == Zone::Battlefield {
            Some(object_id)
        } else {
            None
        },
        _ => None,
    }
}

fn entering_of(event: &ProposedEvent) -> (r: Option<ObjectId>)
    ensures
        r == entering_object_of(event@),
{
    match event {
        ProposedEvent::ZoneChange { object_id, to, .. } => if *to == Zone::Battlefield {
            Some(*object_id)
        } else {
            None
        },
        _ => None,
    }
}

/// The number of counters that an ability says, computed for what enters.
pub open spec fn counters_said(g: Game, count: QuantityExpr, source: ObjectId, e: ProposedModel) -> u32 {
    at_least_zero(
        value_of(
            g,
            count,
            ScopeModel {
                entering: entering_object_of(e),
                ..seen_from(source, controller_of(g, source))
            },
        ),
    )
}

/// The counters that an ability puts on what enters.
pub open spec fn entry_counters(
    a: Option<AbilityDefinition>,
    g: Game,
    source: ObjectId,
    e: ProposedModel,
) -> Seq<(String, u32)> {
    match a {
        Some(def) => match *def.effect {
            Effect::PutCounter { counter_type, count, .. } => seq![
                (counter_type, counters_said(g, count, source, e)),
            ],
            Effect::AddCounter { counter_type, count, .. } => seq![
                (counter_type, counters_said(g, count, source, e)),
            ],
            _ => Seq::empty(),
        },
        None => Seq::empty(),
    }
}

/// Whether an ability does nothing but change an event that lets something enter.
pub open spec fn only_modifies(a: Option<AbilityDefinition>) -> bool {
    match a {
        Some(def) => match *def.effect {
            Effect::Tap { target } => target is SelfRef,
            Effect::Untap { target } => target is SelfRef,
            Effect::PutCounter { target, .. } => target is SelfRef,
            Effect::AddCounter { target, .. } => target is SelfRef,
            Effect::ChangeZone { .. } => true,
            _ => false,
        },
        None => false,
    }
}

/// How an ability says that what enters is to be tapped.
pub open spec fn tap_state_said(a: Option<AbilityDefinition>) -> EtbTapState {
    match a {
        Some(def) => match *def.effect {
            Effect::Tap { target } => if target is SelfRef {
                EtbTapState::Tapped
            } else {
                EtbTapState::Unspecified
            },
            Effect::Untap { target } => if target is SelfRef {
                EtbTapState::Untapped
            } else {
                EtbTapState::Unspecified
            },
            _ => EtbTapState::Unspecified,
        },
        None => EtbTapState::Unspecified,
    }
}

/// The zone that an ability sends an object to instead.
pub open spec fn redirected_to(a: Option<AbilityDefinition>) -> Option<Zone> {
    match a {
        Some(def) => match *def.effect {
            Effect::ChangeZone { destination, .. } => Some(destination),
            _ => None,
        },
        None => None,
    }
}

/// What an ability changes of an event that lets something enter.
#[verifier::opaque]
pub open spec fn modifiers_of(
    a: Option<AbilityDefinition>,
    g: Game,
    source: ObjectId,
    e: ProposedModel,
) -> ModifiersModel {
    ModifiersModel {
        etb_tap_state: tap_state_said(a),
        etb_counters: entry_counters(a, g, source, e),
        redirect_zone: redirected_to(a),
    }
}

/// What an optional reference refers to.
pub open spec fn referred<T>(o: Option<&T>) -> Option<T> {
    match o {
        Some(t) => Some(*t),
        None => None,
    }
}

impl EventModifiers {
    /// Whether an ability does nothing but change an event that lets something enter.
    pub fn has_only_event_modifier(ability: Option<&AbilityDefinition>) -> (r: bool)
        ensures
            r == only_modifies(referred(ability)),
    {
        match ability {
            Some(def) => match &*def.effect {
                Effect::Tap { target } => matches!(target, TargetFilter::SelfRef),
                Effect::Untap { target } => matches!(target, TargetFilter::SelfRef),
                Effect::PutCounter { target, .. } => matches!(target, TargetFilter::SelfRef),
                Effect::AddCounter { target, .. } => matches!(target, TargetFilter::SelfRef),
                Effect::ChangeZone { .. } => true,
                _ => false,
            },
            None => false,
        }
    }
}

fn count_counters(state: &GameState, count: &QuantityExpr, source_id: ObjectId, event: &ProposedEvent) -> (r:
    u32)
    ensures
        r == counters_said(state@, *count, source_id, event@),
{
    let controller = match state.object(source_id) {
        Some(o) => o.controller,
        None => PlayerId(0),
    };
    let ctx = QuantityContext { entering: entering_of(event), source: source_id };
    zero_or_more(resolve_quantity_with_ctx(state, count, controller, ctx))
}

/// The counters that an ability puts on what enters.
pub fn extract_etb_counters(
    ability: Option<&AbilityDefinition>,
    state: &GameState,
    source_id: ObjectId,
    event: &ProposedEvent,
) -> (r: Vec<(String, u32)>)
    ensures
        r@ == entry_counters(referred(ability), state@, source_id, event@),
{
    let mut out: Vec<(String, u32)> = Vec::new();
    if let Some(def) = ability {
        match &*def.effect {
            Effect::PutCounter { counter_type, count, .. } => {
                let n: u32 = count_counters(state, count, source_id, event);
                out.push((counter_type.clone(), n));
            },
            Effect::AddCounter { counter_type, count, .. } => {
                let n: u32 = count_counters(state, count, source_id, event);
                out.push((counter_type.clone(), n));
            },
            _ => {},
        }
    }
    assert(out@ =~= entry_counters(referred(ability), state@, source_id, event@));
    out
}

/// What an ability changes of an event that lets something enter.
pub fn event_modifiers_for_ability(
    ability: Option<&AbilityDefinition>,
    state: &GameState,
    source_id: ObjectId,
    event: &ProposedEvent,
) -> (r: EventModifiers)
    ensures
        r@ == modifiers_of(referred(ability), state@, source_id, event@),
{
    proof {
        reveal(modifiers_of);
    }
    let etb_tap_state = match ability {
        Some(def) => match &*def.effect {
            Effect::Tap { target } => if matches!(target, TargetFilter::SelfRef) {
                EtbTapState::Tapped
            } else {
                EtbTapState::Unspecified
            },
            Effect::Untap { target } => if matches!(target, TargetFilter::SelfRef) {
                EtbTapState::Untapped
            } else {
                EtbTapState::Unspecified
            },
            _ => EtbTapState::Unspecified,
        },
        None => EtbTapState::Unspecified,
    };
    let redirect_zone = match ability {
        Some(def) => match &*def.effect {
            Effect::ChangeZone { destination, .. } => Some(*destination),
            _ => None,
        },
        None => None,
    };
    let etb_counters = extract_etb_counters(ability, state, source_id, event);
    EventModifiers { etb_tap_state, etb_counters, redirect_zone }
}

/// Whether what an event lets enter is tapped as things stand.
pub open spec fn currently_tapped(e: ProposedModel) -> Option<bool> {
    match e {
        ProposedModel::ZoneChange { enter_tapped, .. } => Some(enters_tapped(enter_tapped, false)),
        ProposedModel::CreateToken { spec, enter_tapped, .. } => Some(
            enters_tapped(enter_tapped, spec.tapped),
        ),
        _ => None,
    }
}

/// The counters that what an event lets enter has as things stand.
pub open spec fn current_counters(e: ProposedModel) -> Seq<(String, u32)> {
    match e {
        ProposedModel::ZoneChange { enter_with_counters, .. } => enter_with_counters,
        ProposedModel::CreateToken { spec, .. } => spec.enter_with_counters,
        _ => Seq::empty(),
    }
}

/// Whether a list has at least as many counters of a kind as asked for.
pub open spec fn has_counters(list: Seq<(String, u32)>, asked: (String, u32)) -> bool {
    exists|i: int|
        0 <= i < list.len() && (#[trigger] list[i]).0@ == asked.0@ && list[i].1 >= asked.1
}

/// Whether declining an optional replacement would change nothing of an event.
pub open spec fn decline_is_noop(
    e: ProposedModel,
    decline: Option<AbilityDefinition>,
    g: Game,
    source: ObjectId,
) -> bool {
    let mods = modifiers_of(decline, g, source, e);
    currently_tapped(e) is Some && only_modifies(decline) && (match mods.etb_tap_state {
        EtbTapState::Unspecified => true,
        EtbTapState::Tapped => currently_tapped(e)->0,
        EtbTapState::Untapped => !currently_tapped(e)->0,
    }) && (forall|i: int|
        0 <= i < mods.etb_counters.len() ==> has_counters(
            current_counters(e),
            #[trigger] mods.etb_counters[i],
        )) && mods.redirect_zone is None
}

fn covers_counters(list: &Vec<(String, u32)>, asked: &(String, u32)) -> (r: bool)
    ensures
        r == has_counters(list@, *asked),
{
    let mut i: usize = 0;
    while i < list.len()
        invariant
            i <= list@.len(),
            forall|j: int|
                0 <= j < i ==> (#[trigger] list@[j]).0@ != asked.0@ || list@[j].1 < asked.1,
        decreases list.len() - i,
    {
        if same_text(list[i].0.as_str(), asked.0.as_str()) && list[i].1 >= asked.1 {
            return true;
        }
        i += 1;
    }
    false
}

/// Whether declining an optional replacement would change nothing of an event: the player is then
/// not asked.
pub fn optional_decline_is_noop(
    event: &ProposedEvent,
    decline: Option<&AbilityDefinition>,
    state: &GameState,
    source_id: ObjectId,
) -> (r: bool)
    ensures
        r == decline_is_noop(event@, referred(decline), state@, source_id),
{
    proof {
        reveal(modifiers_of);
    }
    let is_tapped;
    let counters;
    match event {
        ProposedEvent::ZoneChange { enter_tapped, enter_with_counters, .. } => {
            is_tapped = enter_tapped.resolve(false);
            counters = enter_with_counters;
        },
        ProposedEvent::CreateToken { spec, enter_tapped, .. } => {
            is_tapped = enter_tapped.resolve(spec.tapped);
            counters = &spec.enter_with_counters;
        },
        _ => {
            return false;
        },
    }
    if !EventModifiers::has_only_event_modifier(decline) {
        return false;
    }
    let mods = event_modifiers_for_ability(decline, state, source_id, event);
    let tap_already = match mods.etb_tap_state {
        EtbTapState::Unspecified => true,
        EtbTapState::Tapped => is_tapped,
        EtbTapState::Untapped => !is_tapped,
    };
    let ghost asked = mods.etb_counters@;
    let mut i: usize = 0;
    while i < mods.etb_counters.len()
        invariant
            i <= asked.len(),
            asked == mods.etb_counters@,
            asked == modifiers_of(referred(decline), state@, source_id, event@).etb_counters,
            counters@ == current_counters(event@),
            forall|j: int| 0 <= j < i ==> has_counters(counters@, #[trigger] asked[j]),
        decreases asked.len() - i,
    {
        if !covers_counters(counters, &mods.etb_counters[i]) {
            return false;
        }
        i += 1;
    }
    tap_already && mods.redirect_zone.is_none()
}

// ---------------------------------------------------------------------------
// Candidates
// ---------------------------------------------------------------------------

/// Whether the replacements of an object work: not while it is phased out, and in the command
/// zone only those of an emblem.
pub open spec fn is_working(o: ObjectModel) -> bool {
    o.phase_status is PhasedIn && (o.zone == Zone::Command ==> o.is_emblem)
}

/// Whether an object is where its replacements are looked for.
pub open spec fn is_scanned(o: ObjectModel) -> bool {
    o.zone == Zone::Battlefield || o.zone == Zone::Command
}

/// Whether an event is about an object entering the battlefield or being discarded.
pub open spec fn is_on_the_move(e: ProposedModel, id: ObjectId) -> bool {
    entering_object_of(e) == Some(id) || match e {
        ProposedModel::Discard { object_id, .. } => object_id == id,
        _ => false,
    }
}

/// Whether a definition is about the object that has it.
pub open spec fn is_about_itself(d: ReplacementDefinition) -> bool {
    d.valid_card is Some && *d.valid_card->0 is SelfRef
}

/// Whether an event happens to what a definition asks for.
pub open spec fn happens_to(
    g: Game,
    e: ProposedModel,
    d: ReplacementDefinition,
    source: ObjectId,
) -> bool {
    let sc = seen_from(source, controller_of(g, source));
    d.valid_card is Some ==> if d.event == ReplacementEvent::ChangeZone {
        means_entry(g, e, *d.valid_card->0, sc)
    } else {
        affected_object(e) is Some && matches_filter(
            g,
            affected_object(e)->0,
            *d.valid_card->0,
            sc,
        )
    }
}

/// Whether an event leads to the zone that a definition asks for.
pub open spec fn leads_to(e: ProposedModel, d: ReplacementDefinition) -> bool {
    d.destination_zone is Some ==> match e {
        ProposedModel::ZoneChange { to, .. } => to == d.destination_zone->0,
        ProposedModel::CreateToken { .. } => d.event == ReplacementEvent::ChangeZone
            && d.destination_zone->0 == Zone::Battlefield,
        _ => false,
    }
}

/// Whether the source of damage is one that a definition asks for.
pub open spec fn comes_from(g: Game, e: ProposedModel, d: ReplacementDefinition, sc: ScopeModel) -> bool {
    match e {
        ProposedModel::Damage { source_id, .. } => d.damage_source_filter is Some
            ==> matches_filter(g, source_id, *d.damage_source_filter->0, sc),
        _ => true,
    }
}

/// Whether damage is combat damage or not, as a definition asks for.
pub open spec fn is_in_scope(e: ProposedModel, d: ReplacementDefinition) -> bool {
    match e {
        ProposedModel::Damage { is_combat, .. } => match d.combat_scope {
            Some(CombatDamageScope::CombatOnly) => is_combat,
            Some(CombatDamageScope::NoncombatOnly) => !is_combat,
            None => true,
        },
        _ => true,
    }
}

/// Whether damage is dealt to what a definition of a player asks for.
pub open spec fn hits(g: Game, e: ProposedModel, d: ReplacementDefinition, controller: PlayerId) -> bool {
    match e {
        ProposedModel::Damage { target, .. } => d.damage_target_filter is Some ==> damage_hits(
            g,
            d.damage_target_filter->0,
            target,
            controller,
        ),
        _ => true,
    }
}

/// Whether tokens are created under the control that a definition asks for.
pub open spec fn is_owned_as_asked(e: ProposedModel, d: ReplacementDefinition, controller: PlayerId) -> bool {
    match e {
        ProposedModel::CreateToken { owner, .. } => match d.token_owner_scope {
            Some(ControllerRef::You) => owner == controller,
            Some(ControllerRef::Opponent) => owner != controller,
            Some(ControllerRef::TargetPlayer) => false,
            None => true,
        },
        _ => true,
    }
}

/// Whether a player gains life or draws whom a definition asks for, which is its controller
/// unless it says otherwise.
pub open spec fn is_player_asked(e: ProposedModel, d: ReplacementDefinition, controller: PlayerId) -> bool {
    match e {
        ProposedModel::LifeGain { player_id, .. } => is_valid_player(player_id, d, controller),
        ProposedModel::Draw { player_id, .. } => is_valid_player(player_id, d, controller),
        _ => true,
    }
}

/// Whether a player is one whom a definition asks for, which is its controller unless it says
/// otherwise.
pub open spec fn is_valid_player(p: PlayerId, d: ReplacementDefinition, controller: PlayerId) -> bool {
    match d.valid_player {
        Some(ControllerRef::Opponent) => p != controller,
        Some(ControllerRef::You) => p == controller,
        Some(ControllerRef::TargetPlayer) => false,
        None => p == controller,
    }
}

/// Whether a definition of an object demands to be considered, its condition and its optional
/// part included.
pub open spec fn is_demanded(
    g: Game,
    e: ProposedModel,
    o: ObjectModel,
    d: ReplacementDefinition,
    rid: ReplacementId,
) -> bool {
    &&& happens_to(g, e, d, rid.source)
    &&& leads_to(e, d)
    &&& d.condition is Some ==> condition_met(
        g,
        *d.condition->0,
        o.controller,
        rid.source,
        affected_object(e),
        e,
    )
    &&& comes_from(g, e, d, seen_from(rid.source, controller_of(g, rid.source)))
    &&& is_in_scope(e, d)
    &&& hits(g, e, d, o.controller)
    &&& !(is_prevention(g, rid, d.event) && prevention_is_forbidden(g, e))
    &&& is_owned_as_asked(e, d, o.controller)
    &&& is_player_asked(e, d, o.controller)
    &&& match d.mode {
        ReplacementMode::Optional { decline } => !decline_is_noop(
            e,
            shared(decline),
            g,
            rid.source,
        ),
        ReplacementMode::Mandatory => true,
    }
}

/// What an optional shared value holds.
pub open spec fn shared<T>(o: Option<Arc<T>>) -> Option<T> {
    match o {
        Some(a) => Some(*a),
        None => None,
    }
}

/// Whether a definition of an object applies to an event.
pub open spec fn is_candidate(
    g: Game,
    e: ProposedModel,
    reg: Map<u32, u32>,
    id: ObjectId,
    index: usize,
) -> bool {
    let o = g.objects[id];
    let d = o.replacement_definitions[index as int];
    let rid = ReplacementId { source: id, index };
    &&& is_working(o)
    &&& is_scanned(o) || (is_on_the_move(e, id) && is_about_itself(d))
    &&& !d.is_consumed
    &&& !applied_to(e).contains(rid)
    &&& handler_in(reg, d.event) is Some
    &&& is_handled(handler_in(reg, d.event)->0.matcher, e, id, g)
    &&& is_demanded(g, e, o, d, rid)
}

/// The replacements among the first `n` definitions of an object that apply to an event.
pub open spec fn candidates_of_object(
    g: Game,
    e: ProposedModel,
    reg: Map<u32, u32>,
    id: ObjectId,
    n: nat,
) -> Seq<ReplacementId>
    decreases n,
{
    if n == 0 {
        Seq::empty()
    } else {
        let front = candidates_of_object(g, e, reg, id, (n - 1) as nat);
        if is_candidate(g, e, reg, id, (n - 1) as usize) {
            front.push(ReplacementId { source: id, index: (n - 1) as usize })
        } else {
            front
        }
    }
}

/// The replacements of the first `n` objects that apply to an event.
pub open spec fn candidates_of_objects(
    g: Game,
    e: ProposedModel,
    reg: Map<u32, u32>,
    n: nat,
) -> Seq<ReplacementId>
    decreases n,
{
    if n == 0 || n > g.object_ids.len() {
        Seq::empty()
    } else {
        let id = g.object_ids[n - 1];
        candidates_of_objects(g, e, reg, (n - 1) as nat) + candidates_of_object(
            g,
            e,
            reg,
            id,
            g.objects[id].replacement_definitions.len(),
        )
    }
}

/// Whether a shield of the game applies to an event.
pub open spec fn is_shield(g: Game, e: ProposedModel, reg: Map<u32, u32>, index: usize) -> bool {
    let d = g.pending_damage_prevention[index as int];
    &&& !d.is_consumed
    &&& !applied_to(e).contains(ReplacementId { source: ObjectId(0), index })
    &&& handler_in(reg, d.event) is Some
    &&& comes_from(g, e, d, seen_from(ObjectId(0), controller_of(g, ObjectId(0))))
    &&& is_in_scope(e, d)
    &&& hits(g, e, d, PlayerId(0))
    &&& !prevention_is_forbidden(g, e)
    &&& is_handled(handler_in(reg, d.event)->0.matcher, e, ObjectId(0), g)
}

/// The first `n` shields of the game that apply to an event.
pub open spec fn shields(g: Game, e: ProposedModel, reg: Map<u32, u32>, n: nat) -> Seq<ReplacementId>
    decreases n,
{
    if n == 0 {
        Seq::empty()
    } else {
        let front = shields(g, e, reg, (n - 1) as nat);
        if is_shield(g, e, reg, (n - 1) as usize) {
            front.push(ReplacementId { source: ObjectId(0), index: (n - 1) as usize })
        } else {
            front
        }
    }
}

/// The replacements that apply to an event: those of objects, and for damage the shields of the
/// game.
#[verifier::opaque]
pub open spec fn candidates(g: Game, e: ProposedModel, reg: Map<u32, u32>) -> Seq<ReplacementId> {
    candidates_of_objects(g, e, reg, g.object_ids.len()) + if e is Damage {
        shields(g, e, reg, g.pending_damage_prevention.len())
    } else {
        Seq::empty()
    }
}

fn event_happens_to(state: &GameState, event: &ProposedEvent, d: &ReplacementDefinition, source: ObjectId) -> (r:
    bool)
    ensures
        r == happens_to(state@, event@, *d, source),
{
    match &d.valid_card {
        Some(filter) => {
            let sc = Scope::from_source(state, source);
            if d.event == ReplacementEvent::ChangeZone {
                matches_target_filter_on_battlefield_entry(state, event, filter, sc)
            } else {
                match event.affected_object_id() {
                    Some(id) => matches_target_filter(state, id, filter, sc),
                    None => false,
                }
            }
        },
        None => true,
    }
}

fn event_leads_to(event: &ProposedEvent, d: &ReplacementDefinition) -> (r: bool)
    ensures
        r == leads_to(event@, *d),
{
    match d.destination_zone {
        Some(zone) => match event {
            ProposedEvent::ZoneChange { to, .. } => *to == zone,
            ProposedEvent::CreateToken { .. } => d.event == ReplacementEvent::ChangeZone && zone
                == Zone::Battlefield,
            _ => false,
        },
        None => true,
    }
}

fn damage_comes_from<'a>(
    state: &GameState,
    event: &ProposedEvent,
    d: &ReplacementDefinition,
    sc: Scope<'a>,
) -> (r: bool)
    ensures
        r == comes_from(state@, event@, *d, sc@),
{
    match event {
        ProposedEvent::Damage { source_id, .. } => match &d.damage_source_filter {
            Some(filter) => matches_target_filter(state, *source_id, filter, sc),
            None => true,
        },
        _ => true,
    }
}

fn damage_is_in_scope(event: &ProposedEvent, d: &ReplacementDefinition) -> (r: bool)
    ensures
        r == is_in_scope(event@, *d),
{
    match event {
        ProposedEvent::Damage { is_combat, .. } => match d.combat_scope {
            Some(CombatDamageScope::CombatOnly) => *is_combat,
            Some(CombatDamageScope::NoncombatOnly) => !*is_combat,
            None => true,
        },
        _ => true,
    }
}

fn damage_hits_as_asked(
    state: &GameState,
    event: &ProposedEvent,
    d: &ReplacementDefinition,
    controller: PlayerId,
) -> (r: bool)
    ensures
        r == hits(state@, event@, *d, controller),
{
    match event {
        ProposedEvent::Damage { target, .. } => match d.damage_target_filter {
            Some(f) => matches_damage_target_filter(f, *target, controller, state),
            None => true,
        },
        _ => true,
    }
}

fn token_owner_fits(event: &ProposedEvent, d: &ReplacementDefinition, controller: PlayerId) -> (r:
    bool)
    ensures
        r == is_owned_as_asked(event@, *d, controller),
{
    match event {
        ProposedEvent::CreateToken { owner, .. } => match d.token_owner_scope {
            Some(ControllerRef::You) => *owner == controller,
            Some(ControllerRef::Opponent) => *owner != controller,
            Some(ControllerRef::TargetPlayer) => false,
            None => true,
        },
        _ => true,
    }
}

fn valid_player_fits(p: PlayerId, d: &ReplacementDefinition, controller: PlayerId) -> (r: bool)
    ensures
        r == is_valid_player(p, *d, controller),
{
    match d.valid_player {
        Some(ControllerRef::Opponent) => p != controller,
        Some(ControllerRef::You) => p == controller,
        Some(ControllerRef::TargetPlayer) => false,
        None => p == controller,
    }
}

fn player_fits(event: &ProposedEvent, d: &ReplacementDefinition, controller: PlayerId) -> (r: bool)
    ensures
        r == is_player_asked(event@, *d, controller),
{
    match event {
        ProposedEvent::LifeGain { player_id, .. } => valid_player_fits(*player_id, d, controller),
        ProposedEvent::Draw { player_id, .. } => valid_player_fits(*player_id, d, controller),
        _ => true,
    }
}

/// A reference to what an optional shared value holds.
pub fn refer<T>(o: &Option<Arc<T>>) -> (r: Option<&T>)
    ensures
        referred(r) == shared(*o),
        r is Some == *o is Some,
        r is Some ==> *r->0 == *(*o)->0,
{
    match o {
        Some(a) => Some(&**a),
        None => None,
    }
}

fn demands(
    state: &GameState,
    event: &ProposedEvent,
    controller: PlayerId,
    d: &ReplacementDefinition,
    rid: ReplacementId,
    Ghost(o): Ghost<ObjectModel>,
) -> (r: bool)
    requires
        o.controller == controller,
    ensures
        r == is_demanded(state@, event@, o, *d, rid),
{
    if !event_happens_to(state, event, d, rid.source) || !event_leads_to(event, d) {
        return false;
    }
    if let Some(cond) = &d.condition {
        if !evaluate_replacement_condition(
            cond,
            controller,
            rid.source,
            state,
            event.affected_object_id(),
            event,
        ) {
            return false;
        }
    }
    if !damage_comes_from(state, event, d, Scope::from_source(state, rid.source))
        || !damage_is_in_scope(event, d) || !damage_hits_as_asked(state, event, d, controller) {
        return false;
    }
    if is_damage_prevention_replacement(state, rid, d.event) && is_prevention_disabled(
        state,
        event,
    ) {
        return false;
    }
    if !token_owner_fits(event, d, controller) || !player_fits(event, d, controller) {
        return false;
    }
    match &d.mode {
        ReplacementMode::Optional { decline } => !optional_decline_is_noop(
            event,
            refer(decline),
            state,
            rid.source,
        ),
        ReplacementMode::Mandatory => true,
    }
}

fn applies(
    state: &GameState,
    event: &ProposedEvent,
    registry: &ReplacementRegistry,
    id: ObjectId,
    obj: &GameObject,
    index: usize,
) -> (r: bool)
    requires
        index < obj@.replacement_definitions.len(),
        object_at(state@, id) == Some(obj@),
    ensures
        r == is_candidate(state@, event@, contents(*registry), id, index),
{
    let d = &obj.replacement_definitions[index];
    if !obj.is_phased_in() || (obj.zone == Zone::Command && !obj.is_emblem) {
        return false;
    }
    if obj.zone != Zone::Battlefield && obj.zone != Zone::Command {
        let is_entering = match entering_of(event) {
            Some(e) => e == id,
            None => false,
        };
        let is_discarded = match event {
            ProposedEvent::Discard { object_id, .. } => *object_id == id,
            _ => false,
        };
        let is_own = match &d.valid_card {
            Some(f) => matches!(**f, TargetFilter::SelfRef),
            None => false,
        };
        if !(is_entering || is_discarded) || !is_own {
            return false;
        }
    }
    if d.is_consumed {
        return false;
    }
    let rid = ReplacementId { source: id, index };
    if event.already_applied(&rid) {
        return false;
    }
    match registered_handler(registry, d.event) {
        Some(handler) => handler_matches(handler.matcher, event, id, state) && demands(
            state,
            event,
            obj.controller,
            d,
            rid,
            Ghost(obj@),
        ),
        None => false,
    }
}

fn shield_applies(
    state: &GameState,
    event: &ProposedEvent,
    registry: &ReplacementRegistry,
    index: usize,
) -> (r: bool)
    requires
        index < state@.pending_damage_prevention.len(),
    ensures
        r == is_shield(state@, event@, contents(*registry), index),
{
    let d = &state.pending_damage_prevention[index];
    let rid = ReplacementId { source: ObjectId(0), index };
    if d.is_consumed || event.already_applied(&rid) {
        return false;
    }
    match registered_handler(registry, d.event) {
        Some(handler) => damage_comes_from(
            state,
            event,
            d,
            Scope::from_source(state, ObjectId(0)),
        ) && damage_is_in_scope(event, d) && damage_hits_as_asked(state, event, d, PlayerId(0))
            && !is_prevention_disabled(state, event) && handler_matches(
            handler.matcher,
            event,
            ObjectId(0),
            state,
        ),
        None => false,
    }
}

fn add_candidates_of_object(
    state: &GameState,
    event: &ProposedEvent,
    registry: &ReplacementRegistry,
    id: ObjectId,
    out: &mut Vec<ReplacementId>,
)
    requires
        object_at(state@, id) is Some,
    ensures
        final(out)@ == old(out)@ + candidates_of_object(
            state@,
            event@,
            contents(*registry),
            id,
            state@.objects[id].replacement_definitions.len(),
        ),
{
    let ghost start = out@;
    let ghost g = state@;
    let ghost reg = contents(*registry);
    if let Some(obj) = state.object(id) {
        let ghost n = obj@.replacement_definitions.len();
        assert(out@ =~= start + candidates_of_object(g, event@, reg, id, 0));
        let mut k: usize = 0;
        while k < obj.replacement_definitions.len()
            invariant
                k <= n,
                n == obj@.replacement_definitions.len(),
                g == state@,
                reg == contents(*registry),
                object_at(state@, id) == Some(obj@),
                out@ == start + candidates_of_object(g, event@, reg, id, k as nat),
            decreases n - k,
        {
            if applies(state, event, registry, id, obj, k) {
                out.push(ReplacementId { source: id, index: k });
            }
            assert(out@ =~= start + candidates_of_object(g, event@, reg, id, (k + 1) as nat));
            k += 1;
        }
    }
}

/// The replacements that apply to an event: those of objects in the order in which the objects
/// came into the game, then for damage the shields of the game.
pub fn find_applicable_replacements(
    state: &GameState,
    event: &ProposedEvent,
    registry: &ReplacementRegistry,
) -> (r: Vec<ReplacementId>)
    ensures
        r@ == candidates(state@, event@, contents(*registry)),
        object_at(state@, ObjectId(0)) is None ==> r@.no_duplicates(),
{
    proof {
        reveal(candidates);
    }
    let ghost g = state@;
    let ghost reg = contents(*registry);
    let ghost ids = state@.object_ids;
    let mut out: Vec<ReplacementId> = Vec::new();
    proof {
        state.objects.lemma_order();
    }
    let mut i: usize = 0;
    while i < state.objects.len()
        invariant
            i <= ids.len(),
            ids == state@.object_ids,
            ids == state.objects.order(),
            ids.len() == state.objects.seq().len(),
            g == state@,
            reg == contents(*registry),
            forall|k: ObjectId| #[trigger]
                state.objects@.dom().contains(k) <==> exists|i: int|
                    0 <= i < ids.len() && #[trigger] ids[i] == k,
            out@ == candidates_of_objects(g, event@, reg, i as nat),
        decreases ids.len() - i,
    {
        let id = *state.objects.key_at(i);
        assert(ids[i as int] == id);
        assert(state.objects@.dom().contains(id));
        add_candidates_of_object(state, event, registry, id, &mut out);
        i += 1;
    }
    let ghost found = out@;
    if matches!(event, ProposedEvent::Damage { .. }) {
        assert(out@ =~= found + shields(g, event@, reg, 0));
        let mut k: usize = 0;
        while k < state.pending_damage_prevention.len()
            invariant
                k <= g.pending_damage_prevention.len(),
                g == state@,
                g.pending_damage_prevention == state.pending_damage_prevention@,
                reg == contents(*registry),
                out@ == found + shields(g, event@, reg, k as nat),
            decreases g.pending_damage_prevention.len() - k,
        {
            if shield_applies(state, event, registry, k) {
                out.push(ReplacementId { source: ObjectId(0), index: k });
            }
            assert(out@ =~= found + shields(g, event@, reg, (k + 1) as nat));
            k += 1;
        }
    } else {
        assert(out@ =~= found + Seq::<ReplacementId>::empty());
    }
    let _ = state.objects.len();
    proof {
        assert(g.object_ids.no_duplicates());
        if object_at(g, ObjectId(0)) is None {
            assert forall|i: int| 0 <= i < ids.len() implies #[trigger] ids[i] != ObjectId(0) by {
                assert(state.objects@.dom().contains(ids[i]));
            }
            assert(g.pending_damage_prevention.len() == state.pending_damage_prevention.len());
            assert forall|i: int| 0 <= i < ids.len() implies g.objects[#[trigger] ids[i]].replacement_definitions.len()
                <= usize::MAX by {
                let o = state.objects@[ids[i]];
                assert(state.objects@.dom().contains(ids[i]));
                assert(g.objects[ids[i]] == o@);
                assert(o@.replacement_definitions.len() == o.replacement_definitions.len());
            }
            no_replacement_is_found_twice(g, event@, reg);
        }
    }
    out
}

// ---------------------------------------------------------------------------
// Laws
// ---------------------------------------------------------------------------

/// Whether the places of all definitions of a game fit in a machine word.
pub open spec fn places_fit(g: Game) -> bool {
    &&& g.pending_damage_prevention.len() <= usize::MAX
    &&& forall|i: int|
        0 <= i < g.object_ids.len()
            ==> g.objects[#[trigger] g.object_ids[i]].replacement_definitions.len() <= usize::MAX
}

proof fn lemma_candidates_of_object(
    g: Game,
    e: ProposedModel,
    reg: Map<u32, u32>,
    id: ObjectId,
    n: nat,
)
    requires
        n <= usize::MAX,
    ensures
        ({
            let all = candidates_of_object(g, e, reg, id, n);
            &&& all.no_duplicates()
            &&& forall|i: int|
                0 <= i < all.len() ==> (#[trigger] all[i]).source == id && all[i].index < n
        }),
    decreases n,
{
    if n > 0 {
        lemma_candidates_of_object(g, e, reg, id, (n - 1) as nat);
        let front = candidates_of_object(g, e, reg, id, (n - 1) as nat);
        let all = candidates_of_object(g, e, reg, id, n);
        assert(forall|i: int| 0 <= i < front.len() ==> #[trigger] all[i] == front[i]);
    }
}

proof fn lemma_candidates_of_objects(g: Game, e: ProposedModel, reg: Map<u32, u32>, n: nat)
    requires
        n <= g.object_ids.len(),
        g.object_ids.no_duplicates(),
        places_fit(g),
    ensures
        ({
            let all = candidates_of_objects(g, e, reg, n);
            &&& all.no_duplicates()
            &&& forall|i: int|
                0 <= i < all.len() ==> g.object_ids.take(n as int).contains((#[trigger] all[i]).source)
        }),
    decreases n,
{
    if n > 0 {
        lemma_candidates_of_objects(g, e, reg, (n - 1) as nat);
        let id = g.object_ids[n - 1];
        let k = g.objects[id].replacement_definitions.len();
        lemma_candidates_of_object(g, e, reg, id, k);
        let ids = g.object_ids.take(n - 1);
        let front = candidates_of_objects(g, e, reg, (n - 1) as nat);
        let back = candidates_of_object(g, e, reg, id, k);
        let all = candidates_of_objects(g, e, reg, n);
        assert(forall|i: int| 0 <= i < front.len() ==> #[trigger] all[i] == front[i]);
        assert(forall|i: int|
            front.len() <= i < all.len() ==> #[trigger] all[i] == back[i - front.len()]);
        assert forall|i: int| 0 <= i < all.len() implies g.object_ids.take(n as int).contains(
            (#[trigger] all[i]).source,
        ) by {
            if i < front.len() {
                let j = choose|j: int| 0 <= j < ids.len() && ids[j] == front[i].source;
                assert(g.object_ids.take(n as int)[j] == front[i].source);
            } else {
                assert(g.object_ids.take(n as int)[n - 1] == id);
            }
        }
        assert forall|i: int, j: int| 0 <= i < j < all.len() implies all[i] != all[j] by {
            if i < front.len() && j >= front.len() {
                let m = choose|m: int| 0 <= m < ids.len() && ids[m] == front[i].source;
                assert(g.object_ids[m] != g.object_ids[n - 1]);
            }
        }
    }
}

proof fn lemma_shields(g: Game, e: ProposedModel, reg: Map<u32, u32>, n: nat)
    requires
        n <= usize::MAX,
    ensures
        ({
            let all = shields(g, e, reg, n);
            &&& all.no_duplicates()
            &&& forall|i: int|
                0 <= i < all.len() ==> (#[trigger] all[i]).source == ObjectId(0) && all[i].index < n
        }),
    decreases n,
{
    if n > 0 {
        lemma_shields(g, e, reg, (n - 1) as nat);
        let front = shields(g, e, reg, (n - 1) as nat);
        let all = shields(g, e, reg, n);
        assert(forall|i: int| 0 <= i < front.len() ==> #[trigger] all[i] == front[i]);
    }
}

/// No replacement is found twice. The number zero names the game as the source of its shields; no
/// object may have it.
pub proof fn no_replacement_is_found_twice(g: Game, e: ProposedModel, reg: Map<u32, u32>)
    requires
        g.object_ids.no_duplicates(),
        places_fit(g),
        forall|i: int| 0 <= i < g.object_ids.len() ==> #[trigger] g.object_ids[i] != ObjectId(0),
    ensures
        candidates(g, e, reg).no_duplicates(),
{
    reveal(candidates);
    let n = g.object_ids.len();
    lemma_candidates_of_objects(g, e, reg, n);
    lemma_shields(g, e, reg, g.pending_damage_prevention.len());
    let front = candidates_of_objects(g, e, reg, n);
    let back = shields(g, e, reg, g.pending_damage_prevention.len());
    let all = candidates(g, e, reg);
    assert(g.object_ids.take(n as int) =~= g.object_ids);
    assert(forall|i: int| 0 <= i < front.len() ==> #[trigger] all[i] == front[i]);
    assert(forall|i: int|
        front.len() <= i < all.len() ==> #[trigger] all[i] == back[i - front.len()]);
    assert forall|i: int, j: int| 0 <= i < j < all.len() implies all[i] != all[j] by {
        if i < front.len() && j >= front.len() {
            let m = choose|m: int| 0 <= m < n && g.object_ids[m] == front[i].source;
            assert(g.object_ids[m] != ObjectId(0));
        }
    }
}

} // verus!
