//! What replacements change of a permanent that comes in, and what players are asked about them.

use vstd::prelude::*;
use crate::ability::{
    AbilityDefinition, CombatDamageScope, Effect, GameRestriction, PreventionAmount,
    ReplacementDefinition, ReplacementEvent, RestrictionScope, ShieldKind, TargetRef, TokenModel,
};
use crate::applicability::{
    candidates, candidates_of_object, candidates_of_objects, decline_is_noop, definition_of,
    forbids_prevention, is_candidate, is_shield, modifiers_of, own_definition,
    prevention_is_forbidden, shields,
};
use crate::events::{applied_to, EventModel, ProposedModel};
use crate::filter::{seen_from, ScopeModel};
use crate::ids::{ObjectId, PlayerId, ReplacementId};
use crate::proposals::affected_person;
use crate::quantity::value_of;
use crate::registry::{every_event_has_its_handler, full_registry, handler_in};
use crate::replacement::{
    appended_batch, choice_asked, continued, damage_replaced, descriptions, event_replaced, marked,
    processed, replaced_once, token_nesting, with_modifiers, with_work, work_left,
    ReplacementBranch, ResultModel,
};
use crate::state::Game;

verus! {

/// An ability that taps or untaps the permanent itself makes it come in so, one that moves it
/// elsewhere makes it go there, and one that puts counters on it makes it come in with as many as
/// it says, none where the number is negative.
pub proof fn permanents_come_in_as_abilities_say(
    a: AbilityDefinition,
    g: Game,
    source: ObjectId,
    e: ProposedModel,
)
    requires
        e is ZoneChange,
    ensures
        ({
            let f = with_modifiers(e, modifiers_of(Some(a), g, source, e));
            &&& f is ZoneChange && f->ZoneChange_object_id == e->ZoneChange_object_id
            &&& f->ZoneChange_from == e->ZoneChange_from && f->ZoneChange_applied
                == e->ZoneChange_applied
            &&& match *a.effect {
                Effect::Tap { target } => target is SelfRef ==> f->ZoneChange_enter_tapped
                    is Tapped && f->ZoneChange_to == e->ZoneChange_to && f->enter_with_counters
                    == e->enter_with_counters,
                Effect::Untap { target } => target is SelfRef ==> f->ZoneChange_enter_tapped
                    is Untapped && f->ZoneChange_to == e->ZoneChange_to && f->enter_with_counters
                    == e->enter_with_counters,
                Effect::ChangeZone { destination, .. } => f->ZoneChange_to == destination
                    && f->ZoneChange_enter_tapped == e->ZoneChange_enter_tapped
                    && f->enter_with_counters == e->enter_with_counters,
                _ => f->ZoneChange_to == e->ZoneChange_to && f->ZoneChange_enter_tapped
                    == e->ZoneChange_enter_tapped,
            }
        }),
{
    reveal(with_modifiers);
    reveal(modifiers_of);
    assert(e->enter_with_counters + Seq::<(String, u32)>::empty() =~= e->enter_with_counters);
}

/// A permanent comes in with the counters that an ability says, after those that it would have had.
pub proof fn permanents_come_in_with_counters(
    a: AbilityDefinition,
    g: Game,
    source: ObjectId,
    e: ProposedModel,
)
    requires
        e is ZoneChange,
        *a.effect is PutCounter,
        g.objects.dom().contains(source),
    ensures
        ({
            let f = with_modifiers(e, modifiers_of(Some(a), g, source, e));
            let n = value_of(
                g,
                (*a.effect)->PutCounter_count,
                ScopeModel {
                    entering: if e->ZoneChange_to is Battlefield {
                        Some(e->ZoneChange_object_id)
                    } else {
                        None
                    },
                    ..seen_from(source, g.objects[source].controller)
                },
            );
            let last = f->enter_with_counters.last();
            &&& f->enter_with_counters.len() == e->enter_with_counters.len() + 1
            &&& f->enter_with_counters.drop_last() == e->enter_with_counters
            &&& last.0 == (*a.effect)->PutCounter_counter_type
            &&& n >= 0 ==> last.1 == n
            &&& n < 0 ==> last.1 == 0
        }),
{
    reveal(with_modifiers);
    reveal(modifiers_of);
    let f = with_modifiers(e, modifiers_of(Some(a), g, source, e));
    assert(f->enter_with_counters.drop_last() =~= e->enter_with_counters);
}

/// Without an ability nothing changes.
pub proof fn without_an_ability_nothing_changes(g: Game, source: ObjectId, e: ProposedModel)
    ensures
        with_modifiers(e, modifiers_of(None, g, source, e)) == e,
{
    reveal(with_modifiers);
    reveal(modifiers_of);
    match e {
        ProposedModel::ZoneChange { enter_with_counters, .. } => {
            assert(enter_with_counters + Seq::<(String, u32)>::empty() =~= enter_with_counters);
        },
        ProposedModel::CreateToken { spec, .. } => {
            assert(spec.enter_with_counters + Seq::<(String, u32)>::empty()
                =~= spec.enter_with_counters);
        },
        _ => {},
    }
}

/// Declining a choice to come in untapped changes nothing exactly when the permanent comes in
/// tapped anyway.
pub proof fn declining_may_change_nothing(
    e: ProposedModel,
    a: AbilityDefinition,
    g: Game,
    source: ObjectId,
)
    requires
        e is ZoneChange,
        *a.effect is Tap,
        (*a.effect)->Tap_target is SelfRef,
    ensures
        decline_is_noop(e, Some(a), g, source) <==> e->ZoneChange_enter_tapped is Tapped,
{
    reveal(modifiers_of);
}

/// Where more than one replacement applies, or the only one may be declined, the player concerned
/// is asked, and the event waits with what applies to it.
pub proof fn players_choose_among_replacements(g: Game, e: ProposedModel, told: Seq<EventModel>)
    ensures
        ({
            let rids = candidates(g, e, full_registry());
            let r = event_replaced(g, e, told);
            let d = own_definition(g, rids[0]);
            &&& rids.len() == 0 ==> r.result == ResultModel::Execute(e) && r.game == g && r.told
                == told
            &&& rids.len() > 1 || (rids.len() == 1 && d is Some && d->0.mode is Optional) ==> {
                &&& r.result == ResultModel::NeedsChoice(affected_person(g, e))
                &&& r.told == told
                &&& r.game.pending_replacement is Some
                &&& r.game.pending_replacement->0.proposed == e
                &&& r.game.pending_replacement->0.candidates == rids
                &&& r.game.pending_replacement->0.depth == 0
                &&& r.game.pending_replacement->0.is_optional == (rids.len() == 1)
                &&& r.game == (Game { pending_replacement: r.game.pending_replacement, ..g })
            }
        }),
{
    reveal(event_replaced);
    reveal_with_fuel(processed, 2);
}

/// The choice of what may be declined is between accepting and declining; the choice among several
/// is between as many as there are.
pub proof fn what_is_asked(g: Game, player: PlayerId)
    requires
        g.pending_replacement is Some,
    ensures
        ({
            let p = g.pending_replacement->0;
            let w = choice_asked(g, player);
            let d = own_definition(g, p.candidates[0]);
            &&& w is ReplacementChoice && w->ReplacementChoice_player == player
            &&& p.is_optional ==> {
                &&& w->candidate_count == 2
                &&& w->candidate_descriptions.len() == 2
                &&& w->candidate_descriptions[1] == "Decline"@
                &&& p.candidates.len() > 0 && d is Some && d->0.description is Some
                    ==> w->candidate_descriptions[0] == d->0.description->0@
                &&& p.candidates.len() == 0 || d is None || d->0.description is None
                    ==> w->candidate_descriptions[0] == "Accept"@
            }
            &&& !p.is_optional && p.candidates.len() <= usize::MAX ==> w->candidate_count
                == p.candidates.len()
        }),
{
}

/// Each replacement with a description is described, in order.
pub proof fn replacements_are_described(g: Game, rids: Seq<ReplacementId>, rid: ReplacementId)
    ensures
        ({
            let before = descriptions(g, rids, rids.len());
            let now = descriptions(g, rids.push(rid), rids.len() + 1);
            let d = own_definition(g, rid);
            &&& d is Some && d->0.description is Some ==> now == before.push(
                d->0.description->0@,
            )
            &&& d is None || d->0.description is None ==> now == before
        }),
{
    lemma_described(g, rids, rid, rids.len());
}

proof fn lemma_described(g: Game, rids: Seq<ReplacementId>, rid: ReplacementId, n: nat)
    requires
        n <= rids.len(),
    ensures
        descriptions(g, rids.push(rid), n) == descriptions(g, rids, n),
    decreases n,
{
    if n > 0 {
        lemma_described(g, rids, rid, (n - 1) as nat);
    }
}

/// Where nothing waits, continuing draws nothing. Where one of several is to be chosen and the
/// choice is none of them, the event happens as it was.
pub proof fn choices_that_are_none(g: Game, chosen: usize, told: Seq<EventModel>)
    ensures
        g.pending_replacement is None ==> continued(g, chosen, told).game == g && continued(
            g,
            chosen,
            told,
        ).told == told,
        g.pending_replacement is Some && !g.pending_replacement->0.is_optional && chosen
            >= g.pending_replacement->0.candidates.len() ==> {
            let r = continued(g, chosen, told);
            &&& r.game == (Game { pending_replacement: None, ..g })
            &&& r.told == told
            &&& r.result == ResultModel::Execute(g.pending_replacement->0.proposed)
        },
{
}

/// The replacement that was chosen is applied to the event that waited, and is marked as applied.
/// What may be declined is applied in the way that it says for the answer: the first answer
/// accepts it, any other declines.
pub proof fn what_was_chosen_is_applied(g: Game, chosen: usize, told: Seq<EventModel>)
    requires
        g.pending_replacement is Some,
        g.pending_replacement->0.candidates.len() > 0,
    ensures
        ({
            let p = g.pending_replacement->0;
            let h = Game { pending_replacement: None, ..g };
            let r = continued(g, chosen, told);
            let rid = if p.is_optional {
                p.candidates[0]
            } else {
                p.candidates[chosen as int]
            };
            let branch = if p.is_optional && chosen != 0 {
                ReplacementBranch::Decline
            } else {
                ReplacementBranch::Execute
            };
            let out = replaced_once(
                h,
                marked(p.proposed, rid),
                rid,
                branch,
                full_registry(),
                told,
                token_nesting(h),
            );
            (p.is_optional || chosen < p.candidates.len()) && out.event is None ==> r.result
                is Prevented && r.told == out.told && r.game == out.game
        }),
{
}

/// Damage that is prevented is noted: how much it was, from which source and to which target.
pub proof fn prevented_damage_is_noted(
    g: Game,
    rid: ReplacementId,
    d: ReplacementDefinition,
    told: Seq<EventModel>,
    e: ProposedModel,
    part: u32,
)
    requires
        definition_of(g, rid) == Some(d),
        d.damage_modification is None,
        e is Damage,
        0 < part <= e->Damage_amount,
        part <= i32::MAX,
        d.shield_kind == (ShieldKind::Prevention { amount: PreventionAmount::All }) ==> part
            == e->Damage_amount,
        d.shield_kind is Prevention,
        d.shield_kind->amount is Next ==> part == (if e->Damage_amount <= d.shield_kind->amount->0 {
            e->Damage_amount
        } else {
            d.shield_kind->amount->0
        }),
    ensures
        ({
            let out = damage_replaced(e, rid, g, told);
            &&& out.game.last_effect_count == Some(part as i32)
            &&& out.told == told.push(
                EventModel::DamagePrevented {
                    source_id: e->Damage_source_id,
                    target: e->target,
                    amount: part,
                },
            )
            &&& part == e->Damage_amount ==> out.event is None
            &&& part < e->Damage_amount ==> out.event is Some && out.event->0 is Damage
                && out.event->0->Damage_amount == e->Damage_amount - part
                && out.event->0->target == e->target && out.event->0->Damage_source_id
                == e->Damage_source_id
        }),
{
    reveal(damage_replaced);
}

/// Preventing damage may be forbidden: all of it, that of one source, that of the sources of one
/// player, or that to one permanent.
pub proof fn where_prevention_is_forbidden(g: Game, e: ProposedModel, r: GameRestriction)
    requires
        e is Damage,
        g.restrictions.len() == 1,
        g.restrictions[0] == r,
        r is DamagePreventionDisabled,
    ensures
        ({
            let from = e->Damage_source_id;
            match r->scope {
                None => prevention_is_forbidden(g, e),
                Some(RestrictionScope::SpecificSource(id)) => prevention_is_forbidden(g, e) <==> from
                    == id,
                Some(RestrictionScope::SourcesControlledBy(p)) => prevention_is_forbidden(g, e)
                    <==> g.objects.dom().contains(from) && g.objects[from].controller == p,
                Some(RestrictionScope::DamageToTarget(id)) => prevention_is_forbidden(g, e)
                    <==> e->target == TargetRef::Object(id),
            }
        }),
{
    if forbids_prevention(g, r, e) {
        assert(forbids_prevention(g, g.restrictions[0], e));
    }
}

/// A shield that waits applies only to damage, only while it is not used up, only once to an event,
/// and not where prevention is forbidden; its filters ask for the source, the target and combat.
pub proof fn shields_that_wait(g: Game, e: ProposedModel, index: usize)
    requires
        index < g.pending_damage_prevention.len(),
        e is Damage,
        g.pending_damage_prevention[index as int].event == ReplacementEvent::DamageDone,
        g.pending_damage_prevention[index as int].damage_source_filter is None,
        g.pending_damage_prevention[index as int].damage_target_filter is None,
    ensures
        ({
            let d = g.pending_damage_prevention[index as int];
            is_shield(g, e, full_registry(), index) <==> !d.is_consumed && !applied_to(e).contains(
                ReplacementId { source: ObjectId(0), index },
            ) && !prevention_is_forbidden(g, e) && (d.combat_scope
                == Some(CombatDamageScope::CombatOnly) ==> e->is_combat) && (d.combat_scope
                == Some(CombatDamageScope::NoncombatOnly) ==> !e->is_combat)
        }),
{
    every_event_has_its_handler(ReplacementEvent::DamageDone);
}

/// Each shield that applies is found after those before it, and for damage the shields come after
/// the replacements of objects.
pub proof fn shields_are_found_in_order(g: Game, e: ProposedModel, n: nat)
    requires
        n < usize::MAX,
    ensures
        shields(g, e, full_registry(), 0).len() == 0,
        is_shield(g, e, full_registry(), n as usize) ==> shields(g, e, full_registry(), n + 1)
            == shields(g, e, full_registry(), n).push(
            ReplacementId { source: ObjectId(0), index: n as usize },
        ),
        !is_shield(g, e, full_registry(), n as usize) ==> shields(g, e, full_registry(), n + 1)
            == shields(g, e, full_registry(), n),
        g.object_ids.len() == 0 && e is Damage ==> candidates(g, e, full_registry()) == shields(
            g,
            e,
            full_registry(),
            g.pending_damage_prevention.len(),
        ),
        g.object_ids.len() == 0 && !(e is Damage) ==> candidates(g, e, full_registry()).len() == 0,
{
    reveal(candidates);
    let list = shields(g, e, full_registry(), g.pending_damage_prevention.len());
    assert(Seq::<ReplacementId>::empty() + list =~= list);
}

/// The one replacement of the one object is found exactly when it applies.
pub proof fn the_one_replacement_is_found(g: Game, e: ProposedModel, id: ObjectId)
    requires
        g.object_ids == seq![id],
        g.objects[id].replacement_definitions.len() == 1,
        !(e is Damage),
    ensures
        is_candidate(g, e, full_registry(), id, 0) ==> candidates(g, e, full_registry()) == seq![
            ReplacementId { source: id, index: 0 },
        ],
        !is_candidate(g, e, full_registry(), id, 0) ==> candidates(g, e, full_registry()).len()
            == 0,
{
    reveal(candidates);
    reveal_with_fuel(candidates_of_objects, 2);
    reveal_with_fuel(candidates_of_object, 2);
    if is_candidate(g, e, full_registry(), id, 0) {
        assert(candidates(g, e, full_registry()) =~= seq![ReplacementId { source: id, index: 0 }]);
    }
}

/// That a replacement was applied is told last, with its source and the name of what it replaces.
pub proof fn applied_replacements_are_told(
    g: Game,
    e: ProposedModel,
    rid: ReplacementId,
    b: ReplacementBranch,
    told: Seq<EventModel>,
    d: ReplacementDefinition,
    nesting: nat,
)
    requires
        definition_of(g, rid) == Some(d),
    ensures
        handler_in(full_registry(), d.event) is Some ==> replaced_once(
            g,
            e,
            rid,
            b,
            full_registry(),
            told,
            nesting,
        ).told.last() == (EventModel::ReplacementApplied {
            source_id: rid.source,
            event_type: name_of_event(d.event),
        }),
{
}

/// The name of what a replacement replaces.
pub open spec fn name_of_event(e: ReplacementEvent) -> Seq<char> {
    match e {
        ReplacementEvent::DamageDone => "DamageDone"@,
        ReplacementEvent::ChangeZone => "ChangeZone"@,
        ReplacementEvent::Moved => "Moved"@,
        ReplacementEvent::Discard => "Discard"@,
        ReplacementEvent::Destroy => "Destroy"@,
        ReplacementEvent::Draw => "Draw"@,
        ReplacementEvent::DrawCards => "DrawCards"@,
        ReplacementEvent::GainLife => "GainLife"@,
        ReplacementEvent::LifeReduced => "LifeReduced"@,
        ReplacementEvent::LoseLife => "LoseLife"@,
        ReplacementEvent::AddCounter => "AddCounter"@,
        ReplacementEvent::RemoveCounter => "RemoveCounter"@,
        ReplacementEvent::Tap => "Tap"@,
        ReplacementEvent::Untap => "Untap"@,
        ReplacementEvent::Counter => "Counter"@,
        ReplacementEvent::CreateToken => "CreateToken"@,
        ReplacementEvent::Attached => "Attached"@,
        ReplacementEvent::DealtDamage => "DealtDamage"@,
        ReplacementEvent::Mill => "Mill"@,
        ReplacementEvent::PayLife => "PayLife"@,
        ReplacementEvent::ProduceMana => "ProduceMana"@,
        ReplacementEvent::TurnFaceUp => "TurnFaceUp"@,
        ReplacementEvent::BeginTurn => "BeginTurn"@,
        ReplacementEvent::BeginPhase => "BeginPhase"@,
        ReplacementEvent::GameLoss => "GameLoss"@,
        ReplacementEvent::GameWin => "GameWin"@,
    }
}

/// A mandatory replacement with an ability that does more than change how a permanent comes in
/// leaves that ability to be done, for its source, unless something waits already. One without an
/// ability leaves nothing.
pub proof fn what_is_left_to_be_done(
    g: Game,
    d: ReplacementDefinition,
    e: ProposedModel,
    source: ObjectId,
)
    requires
        d.mode is Mandatory,
    ensures
        ({
            let work = work_left(d, ReplacementBranch::Execute, e);
            let h = with_work(g, work, source);
            &&& d.execute is None ==> h == g
            &&& d.execute is Some && *d.execute->0.effect is Draw ==> work == d.execute
            &&& d.execute is Some && *d.execute->0.effect is GainLife ==> work == d.execute
            &&& d.execute is Some && *d.execute->0.effect is ChangeZone ==> work
                == d.execute->0.sub_ability
            &&& work is Some && g.post_replacement_effect is None ==> h.post_replacement_effect
                == work && h.post_replacement_source == Some(source)
            &&& g.post_replacement_effect is Some ==> h == g
            &&& work_left(d, ReplacementBranch::Decline, e) is None
        }),
{
}

/// More tokens that a replacement adds are made for the same player, as many as the others, by the
/// source of the replacement, which does not apply to them again.
pub proof fn tokens_that_are_added(
    g: Game,
    rid: ReplacementId,
    extra: TokenModel,
    owner: PlayerId,
    count: u32,
)
    requires
        g.objects.dom().contains(rid.source),
    ensures
        ({
            let e = appended_batch(g, rid, extra, owner, count);
            &&& e is CreateToken
            &&& e->owner == owner && e->CreateToken_count == count
            &&& e->spec.source_id == rid.source
            &&& e->spec.controller == g.objects[rid.source].controller
            &&& e->spec.display_name == extra.display_name && e->spec.power == extra.power
            &&& e->spec.toughness == extra.toughness
            &&& applied_to(e).contains(rid)
            &&& e->CreateToken_enter_tapped is Unspecified
        }),
{
    reveal(appended_batch);
}

} // verus!
