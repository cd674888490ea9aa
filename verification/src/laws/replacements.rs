//! What replacements make of events, and to which events they apply.

use vstd::prelude::*;
use crate::ability::{
    CombatDamageScope, ControllerRef, DamageModification, DamageTargetFilter, Effect,
    ManaModification, PreventionAmount, QuantityExpr, QuantityModification, QuantityRef,
    ReplacementCondition, ReplacementDefinition, ReplacementEvent, ShieldKind, TargetRef,
};
use crate::applicability::{candidates, condition_met, is_candidate, modifiers_of, own_definition};
use crate::cards::{CoreType, Zone};
use crate::events::{applied_to, EtbTapState, EventModel, ProposedModel};
use crate::ids::{ObjectId, PlayerId, ReplacementId};
use crate::proposals::affected_person;
use crate::registry::{every_event_has_its_handler, full_registry};
use crate::replacement::{
    counters_replaced, damage_replaced, destruction_replaced, discard_as_move, draw_replaced,
    event_replaced, life_gain_replaced, life_loss_doubled, mana_replaced, marked, processed,
    replaced_once, token_nesting, with_modifiers, Outcome, ReplacementBranch, ResultModel,
};
use crate::state::Game;

verus! {

/// A number, or the greatest of 32 bits.
pub open spec fn within_u32(n: int) -> int {
    if n < 0xffff_ffff {
        n
    } else {
        0xffff_ffff
    }
}

/// Whether an object has a definition at a place that is mandatory and does nothing else than its
/// kind of event says.
pub open spec fn is_plain(g: Game, rid: ReplacementId, d: ReplacementDefinition) -> bool {
    &&& rid.source != ObjectId(0)
    &&& own_definition(g, rid) == Some(d)
    &&& d.mode is Mandatory
    &&& d.execute is None
}

/// What one replacement makes of an event.
pub open spec fn made_of(
    g: Game,
    e: ProposedModel,
    rid: ReplacementId,
    told: Seq<EventModel>,
) -> Outcome {
    replaced_once(
        g,
        e,
        rid,
        ReplacementBranch::Execute,
        full_registry(),
        told,
        token_nesting(g),
    )
}

proof fn lemma_nothing_modified(
    g: Game,
    d: ReplacementDefinition,
    source: ObjectId,
    e: ProposedModel,
    n: ProposedModel,
)
    requires
        d.execute is None,
    ensures
        with_modifiers(
            n,
            modifiers_of(
                crate::replacement::branch_ability(d, ReplacementBranch::Execute),
                g,
                source,
                e,
            ),
        ) == n,
{
    reveal(with_modifiers);
    reveal(modifiers_of);
    match n {
        ProposedModel::ZoneChange { enter_with_counters, .. } => {
            assert(enter_with_counters + Seq::<(String, u32)>::empty() =~= enter_with_counters);
        },
        ProposedModel::CreateToken { spec, .. } => {
            assert(spec.enter_with_counters + Seq::<(String, u32)>::empty()
                =~= spec.enter_with_counters);
        },
        _ => {},
    }
}

proof fn lemma_handled_once(
    g: Game,
    e: ProposedModel,
    rid: ReplacementId,
    d: ReplacementDefinition,
    told: Seq<EventModel>,
)
    requires
        is_plain(g, rid, d),
    ensures
        ({
            let h = crate::replacement::handled(
                crate::registry::handler_for(d.event),
                e,
                rid,
                g,
                told,
                token_nesting(g),
            );
            made_of(g, e, rid, told).event == h.event && made_of(g, e, rid, told).game == h.game
        }),
{
    every_event_has_its_handler(d.event);
    let h = crate::replacement::handled(
        crate::registry::handler_for(d.event),
        e,
        rid,
        g,
        told,
        token_nesting(g),
    );
    if let Some(n) = h.event {
        lemma_nothing_modified(g, d, rid.source, e, n);
    }
    reveal_with_fuel(replaced_once, 2);
}

/// A loss of life is doubled, for the same player.
pub proof fn losses_of_life_are_doubled(
    g: Game,
    rid: ReplacementId,
    d: ReplacementDefinition,
    told: Seq<EventModel>,
    player_id: PlayerId,
    amount: u32,
    applied: Set<ReplacementId>,
)
    requires
        is_plain(g, rid, d),
        d.event is LoseLife,
    ensures
        made_of(g, ProposedModel::LifeLoss { player_id, amount, applied }, rid, told).event
            == Some(
            ProposedModel::LifeLoss {
                player_id,
                amount: within_u32(amount + amount) as u32,
                applied,
            },
        ),
{
    lemma_handled_once(g, ProposedModel::LifeLoss { player_id, amount, applied }, rid, d, told);
    reveal(life_loss_doubled);
}

proof fn lemma_one_then_none(
    g: Game,
    e: ProposedModel,
    rid: ReplacementId,
    d: ReplacementDefinition,
    told: Seq<EventModel>,
)
    requires
        candidates(g, e, full_registry()) == seq![rid],
        is_plain(g, rid, d),
        made_of(g, marked(e, rid), rid, told).event is Some ==> candidates(
            made_of(g, marked(e, rid), rid, told).game,
            made_of(g, marked(e, rid), rid, told).event->0,
            full_registry(),
        ).len() == 0,
    ensures
        event_replaced(g, e, told).result == (match made_of(g, marked(e, rid), rid, told).event {
            Some(n) => ResultModel::Execute(n),
            None => ResultModel::Prevented,
        }),
{
    reveal(event_replaced);
    let rids = candidates(g, e, full_registry());
    assert(rids.len() == 1 && rids[0] == rid);
    let out = made_of(g, marked(e, rid), rid, told);
    reveal_with_fuel(processed, 3);
}

/// A loss of life to which exactly one replacement applies that doubles it, and to which nothing
/// applies then, comes out of the replacements as twice the loss for the same player.
pub proof fn a_doubled_loss_of_life_happens(
    g: Game,
    rid: ReplacementId,
    d: ReplacementDefinition,
    told: Seq<EventModel>,
    player_id: PlayerId,
    amount: u32,
    applied: Set<ReplacementId>,
)
    requires
        is_plain(g, rid, d),
        d.event is LoseLife,
        amount + amount <= u32::MAX,
        candidates(g, ProposedModel::LifeLoss { player_id, amount, applied }, full_registry())
            == seq![rid],
        candidates(
            g,
            ProposedModel::LifeLoss {
                player_id,
                amount: (amount + amount) as u32,
                applied: applied.insert(rid),
            },
            full_registry(),
        ).len() == 0,
    ensures
        event_replaced(g, ProposedModel::LifeLoss { player_id, amount, applied }, told).result
            == ResultModel::Execute(
            ProposedModel::LifeLoss {
                player_id,
                amount: (amount + amount) as u32,
                applied: applied.insert(rid),
            },
        ),
{
    let e = ProposedModel::LifeLoss { player_id, amount, applied };
    reveal(marked);
    let m = ProposedModel::LifeLoss { player_id, amount, applied: applied.insert(rid) };
    assert(marked(e, rid) == m);
    losses_of_life_are_doubled(g, rid, d, told, player_id, amount, applied.insert(rid));
    lemma_handled_once(g, m, rid, d, told);
    lemma_one_then_none(g, e, rid, d, told);
}

/// Damage is doubled, tripled, raised, lowered or raised to the power of the source, for the same
/// target.
pub proof fn damage_is_changed(
    g: Game,
    rid: ReplacementId,
    d: ReplacementDefinition,
    told: Seq<EventModel>,
    source_id: ObjectId,
    target: TargetRef,
    amount: u32,
    is_combat: bool,
    applied: Set<ReplacementId>,
)
    requires
        is_plain(g, rid, d),
        d.event is DamageDone,
        d.damage_modification is Some,
        g.objects.dom().contains(rid.source),
    ensures
        ({
            let power = match g.objects[rid.source].power {
                Some(p) => p as int,
                None => 0,
            };
            let n = match d.damage_modification->0 {
                DamageModification::Double => within_u32(amount + amount),
                DamageModification::Triple => within_u32(amount + amount + amount),
                DamageModification::Plus { value } => within_u32(amount + value),
                DamageModification::Minus { value } => if value < amount {
                    amount - value
                } else {
                    0
                },
                DamageModification::SetToSourcePower => if amount < power {
                    power
                } else {
                    amount as int
                },
            };
            made_of(
                g,
                ProposedModel::Damage { source_id, target, amount, is_combat, applied },
                rid,
                told,
            ).event == Some(
                ProposedModel::Damage { source_id, target, amount: n as u32, is_combat, applied },
            )
        }),
{
    lemma_handled_once(
        g,
        ProposedModel::Damage { source_id, target, amount, is_combat, applied },
        rid,
        d,
        told,
    );
    reveal(damage_replaced);
    assert(amount * 2 == amount + amount);
    assert(amount * 3 == amount + amount + amount);
}

/// A shield against some damage lets pass what exceeds it, keeps what it did not need, and is used
/// up when it has prevented all that it can. One against all damage lets nothing pass.
pub proof fn shields_prevent_damage(
    g: Game,
    rid: ReplacementId,
    d: ReplacementDefinition,
    told: Seq<EventModel>,
    source_id: ObjectId,
    target: TargetRef,
    amount: u32,
    is_combat: bool,
    applied: Set<ReplacementId>,
    n: u32,
)
    requires
        is_plain(g, rid, d),
        d.event is DamageDone,
        d.damage_modification is None,
        d.shield_kind == (ShieldKind::Prevention { amount: PreventionAmount::Next(n) })
            || d.shield_kind == (ShieldKind::Prevention { amount: PreventionAmount::All }),
    ensures
        ({
            let all = d.shield_kind == (ShieldKind::Prevention { amount: PreventionAmount::All });
            let out = made_of(
                g,
                ProposedModel::Damage { source_id, target, amount, is_combat, applied },
                rid,
                told,
            );
            let shield = own_definition(out.game, rid);
            &&& all || amount <= n ==> out.event is None
            &&& !all && n < amount ==> out.event == Some(
                ProposedModel::Damage {
                    source_id,
                    target,
                    amount: (amount - n) as u32,
                    is_combat,
                    applied,
                },
            )
            &&& shield is Some
            &&& all || n <= amount ==> shield->0.is_consumed
            &&& !all && amount < n ==> shield->0.shield_kind == (ShieldKind::Prevention {
                amount: PreventionAmount::Next((n - amount) as u32),
            }) && shield->0.is_consumed == d.is_consumed
        }),
{
    lemma_handled_once(
        g,
        ProposedModel::Damage { source_id, target, amount, is_combat, applied },
        rid,
        d,
        told,
    );
    reveal(damage_replaced);
}

/// The number of counters or tokens after a change.
pub open spec fn number_changed(m: Option<QuantityModification>, count: u32) -> int {
    match m {
        Some(QuantityModification::Double) => within_u32(count + count),
        Some(QuantityModification::Plus { value }) => within_u32(count + value),
        Some(QuantityModification::Minus { value }) => if value < count {
            count - value
        } else {
            0
        },
        None => count as int,
    }
}

/// Counters and tokens are doubled, raised or lowered in number, and nothing else of them changes.
pub proof fn counters_and_tokens_are_changed_in_number(
    g: Game,
    rid: ReplacementId,
    d: ReplacementDefinition,
    told: Seq<EventModel>,
    e: ProposedModel,
)
    requires
        is_plain(g, rid, d),
        d.additional_token_spec is None,
    ensures
        match e {
            ProposedModel::AddCounter { object_id, counter_type, count, applied } => d.event
                is AddCounter ==> made_of(g, e, rid, told).event == Some(
                ProposedModel::AddCounter {
                    object_id,
                    counter_type,
                    count: number_changed(d.quantity_modification, count) as u32,
                    applied,
                },
            ),
            ProposedModel::CreateToken { owner, spec, enter_tapped, count, applied } => d.event
                is CreateToken ==> made_of(g, e, rid, told).event == Some(
                ProposedModel::CreateToken {
                    owner,
                    spec,
                    enter_tapped,
                    count: number_changed(d.quantity_modification, count) as u32,
                    applied,
                },
            ) && made_of(g, e, rid, told).game == g,
            _ => true,
        },
{
    lemma_handled_once(g, e, rid, d, told);
    reveal(counters_replaced);
    reveal_with_fuel(crate::replacement::handled, 2);
    reveal_with_fuel(crate::replacement::tokens_replaced, 2);
    match e {
        ProposedModel::AddCounter { count, .. } => {
            assert(count * 2 == count + count);
        },
        ProposedModel::CreateToken { count, .. } => {
            assert(count * 2 == count + count);
        },
        _ => {},
    }
}

/// Mana of another type is produced by the same source for the same player; a discarded card goes
/// from hand to graveyard; a turn or a phase is skipped.
pub proof fn mana_discards_turns_and_phases_are_replaced(
    g: Game,
    rid: ReplacementId,
    d: ReplacementDefinition,
    told: Seq<EventModel>,
    e: ProposedModel,
)
    requires
        is_plain(g, rid, d),
    ensures
        match e {
            ProposedModel::ProduceMana { source_id, player_id, mana_type, applied } => d.event
                is ProduceMana ==> made_of(g, e, rid, told).event == Some(
                ProposedModel::ProduceMana {
                    source_id,
                    player_id,
                    mana_type: match d.mana_modification {
                        Some(ManaModification::ReplaceWith { mana_type: other }) => other,
                        None => mana_type,
                    },
                    applied,
                },
            ),
            ProposedModel::Discard { player_id, object_id, applied } => d.event is Discard
                ==> made_of(g, e, rid, told).event == Some(
                ProposedModel::ZoneChange {
                    object_id,
                    from: Zone::Hand,
                    to: Zone::Graveyard,
                    cause: None,
                    enter_tapped: EtbTapState::Unspecified,
                    enter_with_counters: Seq::empty(),
                    controller_override: None,
                    enter_transformed: false,
                    applied,
                },
            ),
            ProposedModel::BeginTurn { .. } => d.event is BeginTurn ==> made_of(
                g,
                e,
                rid,
                told,
            ).event is None,
            ProposedModel::BeginPhase { .. } => d.event is BeginPhase ==> made_of(
                g,
                e,
                rid,
                told,
            ).event is None,
            _ => true,
        },
{
    lemma_handled_once(g, e, rid, d, told);
    reveal(mana_replaced);
    reveal(discard_as_move);
}

/// Regeneration prevents a destruction: the permanent is tapped and loses its damage, and the
/// shield is used up. What cannot be regenerated is destroyed.
pub proof fn regeneration_replaces_destruction(
    g: Game,
    rid: ReplacementId,
    d: ReplacementDefinition,
    told: Seq<EventModel>,
    object_id: ObjectId,
    source: Option<ObjectId>,
    cant_regenerate: bool,
    applied: Set<ReplacementId>,
)
    requires
        is_plain(g, rid, d),
        d.event is Destroy,
        d.shield_kind is Regeneration,
        g.objects.dom().contains(object_id),
    ensures
        ({
            let e = ProposedModel::Destroy { object_id, source, cant_regenerate, applied };
            let out = made_of(g, e, rid, told);
            let o = out.game.objects[object_id];
            &&& cant_regenerate ==> out.event == Some(e) && out.game == g
            &&& !cant_regenerate ==> {
                &&& out.event is None
                &&& o.tapped
                &&& o.damage_marked == 0
                &&& !o.dealt_deathtouch_damage
                &&& o.zone == g.objects[object_id].zone
                &&& own_definition(out.game, rid) is Some
                &&& own_definition(out.game, rid)->0.is_consumed
            }
        }),
{
    let e = ProposedModel::Destroy { object_id, source, cant_regenerate, applied };
    lemma_handled_once(g, e, rid, d, told);
    reveal(destruction_replaced);
}

/// A gain of life is raised by the amount that the definition adds, and a draw becomes a draw of
/// the number of cards that the definition says.
pub proof fn gains_and_draws_are_changed(
    g: Game,
    rid: ReplacementId,
    d: ReplacementDefinition,
    player_id: PlayerId,
    n: u32,
    value: i32,
    applied: Set<ReplacementId>,
)
    requires
        own_definition(g, rid) == Some(d),
        d.execute is Some,
        d.execute->0.sub_ability is None,
        value >= 0,
    ensures
        match *d.execute->0.effect {
            Effect::GainLife { amount: QuantityExpr::Fixed { value: v }, .. } => v == value
                ==> life_gain_replaced(
                ProposedModel::LifeGain { player_id, amount: n, applied },
                rid,
                g,
            ) == (ProposedModel::LifeGain {
                player_id,
                amount: within_u32(n + value) as u32,
                applied,
            }),
            Effect::Draw { count: QuantityExpr::Fixed { value: v }, .. } => v == value
                ==> draw_replaced(
                ProposedModel::Draw { player_id, count: n, applied },
                rid,
                g,
            ) == (ProposedModel::Draw { player_id, count: value as u32, applied }),
            Effect::Draw {
                count: QuantityExpr::Ref { qty: QuantityRef::EventContextAmount },
                ..
            } => n <= i32::MAX ==> draw_replaced(
                ProposedModel::Draw { player_id, count: n, applied },
                rid,
                g,
            ) == (ProposedModel::Draw { player_id, count: n, applied }),
            _ => true,
        },
{
    reveal(life_gain_replaced);
    reveal(draw_replaced);
    reveal_with_fuel(crate::replacement::draw_number, 2);
}

/// Whether an event is of the kind that a definition replaces. A definition on losing life is for
/// opponents on the turn of its controller, one on dealt damage for its own object and its
/// controller, one on countering for what leaves the stack, one on milling for what goes from
/// library to graveyard.
pub open spec fn is_of_kind(g: Game, k: ReplacementEvent, e: ProposedModel, source: ObjectId) -> bool {
    let here = g.objects.dom().contains(source);
    match k {
        ReplacementEvent::DamageDone => e is Damage,
        ReplacementEvent::ChangeZone => e is CreateToken || (e is ZoneChange && e->to
            is Battlefield),
        ReplacementEvent::Moved => e is ZoneChange,
        ReplacementEvent::Discard => e is Discard,
        ReplacementEvent::Destroy => e is Destroy,
        ReplacementEvent::Draw => e is Draw && e->Draw_count > 0,
        ReplacementEvent::GainLife => e is LifeGain,
        ReplacementEvent::LifeReduced | ReplacementEvent::PayLife => e is LifeLoss,
        ReplacementEvent::LoseLife => e is LifeLoss && here && g.objects[source].controller
            == g.active_player && g.objects[source].controller != e->LifeLoss_player_id,
        ReplacementEvent::AddCounter => e is AddCounter,
        ReplacementEvent::RemoveCounter => e is RemoveCounter,
        ReplacementEvent::Tap => e is Tap,
        ReplacementEvent::Untap => e is Untap,
        ReplacementEvent::Counter => e is ZoneChange && e->from is Stack,
        ReplacementEvent::CreateToken => e is CreateToken,
        ReplacementEvent::Attached => e is ZoneChange && e->to is Battlefield
            && g.objects.dom().contains(e->ZoneChange_object_id) && exists|i: int|
            0 <= i < g.objects[e->ZoneChange_object_id].card_types.subtypes.len() && ((
            #[trigger] g.objects[e->ZoneChange_object_id].card_types.subtypes[i])@ == "Aura"@
                || g.objects[e->ZoneChange_object_id].card_types.subtypes[i]@ == "Equipment"@),
        ReplacementEvent::DealtDamage => e is Damage && match e->target {
            TargetRef::Object(id) => id == source,
            TargetRef::Player(p) => here && g.objects[source].controller == p,
        },
        ReplacementEvent::Mill => e is ZoneChange && e->from is Library && e->to is Graveyard,
        ReplacementEvent::ProduceMana => e is ProduceMana,
        ReplacementEvent::BeginTurn => e is BeginTurn,
        ReplacementEvent::BeginPhase => e is BeginPhase,
        _ => false,
    }
}

/// Whether a definition asks for nothing but a kind of event.
pub open spec fn asks_for_nothing_more(d: ReplacementDefinition) -> bool {
    &&& d.valid_card is None
    &&& d.destination_zone is None
    &&& d.condition is None
    &&& d.damage_source_filter is None
    &&& d.combat_scope is None
    &&& d.damage_target_filter is None
    &&& d.token_owner_scope is None
    &&& d.mode is Mandatory
}

/// A definition without further conditions applies to an event of its kind while its object is on
/// the battlefield and phased in, or an emblem in the command zone, while it is not used up and was
/// not applied to the event. Gains and draws are those of its controller unless it names others.
pub proof fn plain_definitions_apply_to_their_kind(
    g: Game,
    e: ProposedModel,
    id: ObjectId,
    index: usize,
)
    requires
        g.objects.dom().contains(id),
        index < g.objects[id].replacement_definitions.len(),
        asks_for_nothing_more(g.objects[id].replacement_definitions[index as int]),
        g.restrictions.len() == 0,
    ensures
        ({
            let o = g.objects[id];
            let d = o.replacement_definitions[index as int];
            let rid = ReplacementId { source: id, index };
            let whose = match e {
                ProposedModel::LifeGain { player_id, .. } => Some(player_id),
                ProposedModel::Draw { player_id, .. } => Some(player_id),
                _ => None,
            };
            is_candidate(g, e, full_registry(), id, index) <==> {
                &&& o.phase_status is PhasedIn
                &&& o.zone is Battlefield || (o.zone is Command && o.is_emblem)
                &&& !d.is_consumed
                &&& !applied_to(e).contains(rid)
                &&& is_of_kind(g, d.event, e, id)
                &&& whose is Some ==> (match d.valid_player {
                    None | Some(ControllerRef::You) => whose->0 == o.controller,
                    Some(ControllerRef::Opponent) => whose->0 != o.controller,
                    Some(ControllerRef::TargetPlayer) => false,
                })
            }
        }),
{
    every_event_has_its_handler(g.objects[id].replacement_definitions[index as int].event);
}

/// A definition applies only to events that it asks for: combat damage or other damage, damage to
/// the targets it names, moves to its zone, tokens of the players it names; and where its condition
/// is met.
pub proof fn definitions_apply_to_what_they_ask_for(
    g: Game,
    e: ProposedModel,
    id: ObjectId,
    index: usize,
)
    requires
        g.objects.dom().contains(id),
        index < g.objects[id].replacement_definitions.len(),
        is_candidate(g, e, full_registry(), id, index),
    ensures
        ({
            let o = g.objects[id];
            let d = o.replacement_definitions[index as int];
            &&& o.phase_status is PhasedIn
            &&& !d.is_consumed
            &&& is_of_kind(g, d.event, e, id)
            &&& e is Damage && d.combat_scope == Some(CombatDamageScope::CombatOnly)
                ==> e->is_combat
            &&& e is Damage && d.combat_scope == Some(CombatDamageScope::NoncombatOnly)
                ==> !e->is_combat
            &&& e is Damage && d.damage_target_filter is Some ==> (
            match d.damage_target_filter->0 {
                DamageTargetFilter::PlayerOnly => e->target is Player,
                DamageTargetFilter::OpponentOnly => e->target is Player && e->target
                    != TargetRef::Player(o.controller),
                DamageTargetFilter::CreatureOnly => e->target is Object && g.objects.dom().contains(
                    e->target->Object_0,
                ) && g.objects[e->target->Object_0].card_types.core_types.contains(
                    CoreType::Creature,
                ),
                DamageTargetFilter::OpponentOrTheirPermanents => e->target != TargetRef::Player(
                    o.controller,
                ) && (e->target is Object ==> g.objects.dom().contains(e->target->Object_0)
                    && g.objects[e->target->Object_0].controller != o.controller),
            })
            &&& e is ZoneChange && d.destination_zone is Some ==> e->to == d.destination_zone->0
            &&& e is CreateToken && d.token_owner_scope == Some(ControllerRef::You) ==> e->owner
                == o.controller
            &&& e is CreateToken && d.token_owner_scope == Some(ControllerRef::Opponent)
                ==> e->owner != o.controller
        }),
{
    every_event_has_its_handler(g.objects[id].replacement_definitions[index as int].event);
}

/// When the conditions of replacements are met, as far as turns, life, opponents and the source are
/// concerned.
pub proof fn conditions_of_replacements(
    g: Game,
    c: ReplacementCondition,
    controller: PlayerId,
    source: ObjectId,
    affected: Option<ObjectId>,
    e: ProposedModel,
)
    ensures
        ({
            let here = g.objects.dom().contains(source);
            condition_met(g, c, controller, source, affected, e) == match c {
                ReplacementCondition::UnlessPlayerLifeAtMost { amount } => forall|i: int|
                    0 <= i < g.players.len() ==> (#[trigger] g.players[i]).life > amount as i32,
                ReplacementCondition::UnlessYourTurn => g.active_player != controller,
                ReplacementCondition::CastViaEscape => here && g.objects[source].cast_from_zone
                    == Some(Zone::Graveyard),
                ReplacementCondition::SourceTappedState { tapped } => here
                    && g.objects[source].tapped == tapped,
                ReplacementCondition::OnlyExtraTurn => e is BeginTurn && e->is_extra_turn,
                ReplacementCondition::CastViaKicker { .. } => true,
                ReplacementCondition::Unrecognized { .. } => true,
                _ => condition_met(g, c, controller, source, affected, e),
            }
        }),
{
}

/// A condition that a number must be reached and one that it must not be reached are opposite on
/// the turns that both ask for.
pub proof fn only_if_is_the_opposite_of_unless(
    g: Game,
    only_if: ReplacementCondition,
    unless: ReplacementCondition,
    controller: PlayerId,
    source: ObjectId,
    affected: Option<ObjectId>,
    e: ProposedModel,
)
    requires
        only_if is OnlyIfQuantity,
        unless is UnlessQuantity,
        only_if->OnlyIfQuantity_lhs == unless->UnlessQuantity_lhs,
        only_if->OnlyIfQuantity_rhs == unless->UnlessQuantity_rhs,
        only_if->OnlyIfQuantity_comparator == unless->UnlessQuantity_comparator,
        only_if->OnlyIfQuantity_active_player_req == unless->UnlessQuantity_active_player_req,
    ensures
        condition_met(g, only_if, controller, source, affected, e) == !condition_met(
            g,
            unless,
            controller,
            source,
            affected,
            e,
        ),
        only_if->OnlyIfQuantity_active_player_req == Some(ControllerRef::You) && g.active_player
            != controller ==> !condition_met(g, only_if, controller, source, affected, e),
        only_if->OnlyIfQuantity_active_player_req == Some(ControllerRef::Opponent)
            && g.active_player == controller ==> !condition_met(
            g,
            only_if,
            controller,
            source,
            affected,
            e,
        ),
{
}

/// A land that enters tapped unless its controller has another permanent with one of some subtypes
/// enters untapped where there is one, and only there.
pub proof fn another_permanent_with_the_subtype(
    g: Game,
    c: ReplacementCondition,
    controller: PlayerId,
    source: ObjectId,
    affected: Option<ObjectId>,
    e: ProposedModel,
    i: int,
)
    requires
        c is UnlessControlsSubtype,
        0 <= i < g.object_ids.len(),
        g.object_ids[i] != source,
        g.objects[g.object_ids[i]].zone is Battlefield,
        g.objects[g.object_ids[i]].controller == controller,
        c->subtypes@.len() > 0,
        g.objects[g.object_ids[i]].card_types.subtypes.contains(c->subtypes@[0]),
    ensures
        !condition_met(g, c, controller, source, affected, e),
{
    let o = g.objects[g.object_ids[i]];
    let list = o.card_types.subtypes;
    let k = choose|k: int| 0 <= k < list.len() && list[k] == c->subtypes@[0];
    assert(crate::text::same_ignoring_case(list[k]@, c->subtypes@[0]@));
    assert(crate::conditions::has_subtype(list, c->subtypes@[0]@));
    assert(crate::applicability::has_one_of(list, c->subtypes@));
    assert(crate::applicability::other_with_subtype(g, controller, source, c->subtypes@)(
        g.object_ids[i],
    ));
}

/// The player who decides is the one whom the event is about: the player damaged, drawing, gaining
/// or losing life; for an object its controller.
pub proof fn who_decides_among_replacements(g: Game, e: ProposedModel)
    ensures
        match e {
            ProposedModel::Damage { target: TargetRef::Player(p), .. } => affected_person(g, e)
                == p,
            ProposedModel::Draw { player_id, .. } => affected_person(g, e) == player_id,
            ProposedModel::LifeGain { player_id, .. } => affected_person(g, e) == player_id,
            ProposedModel::LifeLoss { player_id, .. } => affected_person(g, e) == player_id,
            ProposedModel::Discard { player_id, .. } => affected_person(g, e) == player_id,
            ProposedModel::CreateToken { owner, .. } => affected_person(g, e) == owner,
            ProposedModel::Sacrifice { player_id, .. } => affected_person(g, e) == player_id,
            ProposedModel::ProduceMana { player_id, .. } => affected_person(g, e) == player_id,
            ProposedModel::BeginTurn { player_id, .. } => affected_person(g, e) == player_id,
            ProposedModel::BeginPhase { player_id, .. } => affected_person(g, e) == player_id,
            ProposedModel::Damage { target: TargetRef::Object(id), .. } => g.objects.dom().contains(
                id,
            ) ==> affected_person(g, e) == g.objects[id].controller,
            ProposedModel::ZoneChange { object_id: id, .. } => g.objects.dom().contains(id)
                ==> affected_person(g, e) == g.objects[id].controller,
            ProposedModel::Destroy { object_id: id, .. } => g.objects.dom().contains(id)
                ==> affected_person(g, e) == g.objects[id].controller,
            ProposedModel::AddCounter { object_id: id, .. } => g.objects.dom().contains(id)
                ==> affected_person(g, e) == g.objects[id].controller,
            ProposedModel::RemoveCounter { object_id: id, .. } => g.objects.dom().contains(id)
                ==> affected_person(g, e) == g.objects[id].controller,
            ProposedModel::Tap { object_id: id, .. } => g.objects.dom().contains(id)
                ==> affected_person(g, e) == g.objects[id].controller,
            ProposedModel::Untap { object_id: id, .. } => g.objects.dom().contains(id)
                ==> affected_person(g, e) == g.objects[id].controller,
        },
{
    reveal(affected_person);
}

} // verus!
