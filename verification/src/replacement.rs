//! Replacement effects: how events that are about to happen are changed, prevented, or left to a
//! choice.

use std::sync::Arc;
use vstd::prelude::*;
use crate::ability::{
    share, AbilityDefinition, DamageModification, Effect, ManaModification, PreventionAmount,
    QuantityExpr, QuantityModification, QuantityRef, ReplacementDefinition, ReplacementEvent,
    ReplacementMode, ShieldKind, TargetRef, TokenModel, TokenSpec,
};
use crate::applicability::{
    at_least_zero, candidates, candidates_of_object, candidates_of_objects, definition_of,
    event_modifiers_for_ability, find_definition, find_own_definition, modifiers_of, only_modifies,
    own_definition, refer, referred, shared, shields, zero_or_more, EventModifiers, ModifiersModel,
};
use crate::cards::Zone;
use crate::combat::{out_of_combat, remove_object_from_combat};
use crate::events::{
    applied_to, emit, log, with_applied, EtbTapState, EventModel, GameEvent, ProposedEvent,
    ProposedModel, WaitingFor, WaitingModel,
};
use crate::ids::{ObjectId, PlayerId, ReplacementId};
use crate::keyed::KeySet;
use crate::object::ObjectModel;
use crate::phasing::is_listed;
use crate::proposals::{affected_person, enters_tapped, plain_move, with_entry_tap_state};
use crate::quantity::{half_of, half_rounded};
use crate::registry::{contents, full_registry, handler_in, registered_handler, Handler};
use crate::state::{
    object_at, with_object, Game, GameState, PendingReplacement, PendingReplacementModel,
};
use crate::tokens::{
    apply_create_token_after_replacement, sum_or_most, token_creation_told, token_made,
    token_placed, tokens_created, tokens_made,
};
use crate::views::seq_view;
use crate::zones::next_id;

pub use crate::applicability::find_applicable_replacements;
pub use crate::registry::{build_replacement_registry, ReplacementHandlerEntry, ReplacementRegistry};

verus! {

broadcast use crate::views::group_views;

/// How many replacements are applied to one event at most.
pub const MAX_REPLACEMENT_DEPTH: u16 = 16;

/// What became of an event.
#[derive(Debug)]
pub enum ReplacementResult {
    Execute(ProposedEvent),
    Prevented,
    NeedsChoice(PlayerId),
}

/// What became of an event.
#[verifier::ext_equal]
pub enum ResultModel {
    Execute(ProposedModel),
    Prevented,
    NeedsChoice(PlayerId),
}

impl View for ReplacementResult {
    type V = ResultModel;

    open spec fn view(&self) -> ResultModel {
        match *self {
            ReplacementResult::Execute(e) => ResultModel::Execute(e@),
            ReplacementResult::Prevented => ResultModel::Prevented,
            ReplacementResult::NeedsChoice(p) => ResultModel::NeedsChoice(p),
        }
    }
}

/// What one replacement made of an event.
#[derive(Debug)]
pub enum ApplyResult {
    Modified(ProposedEvent),
    Prevented,
}

impl View for ApplyResult {
    type V = Option<ProposedModel>;

    open spec fn view(&self) -> Option<ProposedModel> {
        match *self {
            ApplyResult::Modified(e) => Some(e@),
            ApplyResult::Prevented => None,
        }
    }
}

/// The game after one replacement, what was told, and the event unless it was prevented.
#[verifier::ext_equal]
pub struct Outcome {
    pub game: Game,
    pub told: Seq<EventModel>,
    pub event: Option<ProposedModel>,
}

/// The game after all replacements, what was told, and what became of the event.
#[verifier::ext_equal]
pub struct Processed {
    pub game: Game,
    pub told: Seq<EventModel>,
    pub result: ResultModel,
}

/// A replacement that lets an event pass.
pub open spec fn passed(g: Game, told: Seq<EventModel>, e: ProposedModel) -> Outcome {
    Outcome { game: g, told, event: Some(e) }
}

// ---------------------------------------------------------------------------
// Choices
// ---------------------------------------------------------------------------

/// The descriptions of the first `n` replacements that have one.
pub open spec fn descriptions(g: Game, rids: Seq<ReplacementId>, n: nat) -> Seq<Seq<char>>
    decreases n,
{
    if n == 0 || n > rids.len() {
        Seq::empty()
    } else {
        let front = descriptions(g, rids, (n - 1) as nat);
        match own_definition(g, rids[n - 1]) {
            Some(d) => match d.description {
                Some(text) => front.push(text@),
                None => front,
            },
            None => front,
        }
    }
}

/// What accepting an optional replacement is called.
pub open spec fn accept_text(g: Game, rids: Seq<ReplacementId>) -> Seq<char> {
    if rids.len() > 0 && own_definition(g, rids[0]) is Some && own_definition(
        g,
        rids[0],
    )->0.description is Some {
        own_definition(g, rids[0])->0.description->0@
    } else {
        "Accept"@
    }
}

/// The choice that a pending replacement asks a player for.
pub open spec fn choice_asked(g: Game, player: PlayerId) -> WaitingModel {
    match g.pending_replacement {
        Some(p) => if p.is_optional {
            WaitingModel::ReplacementChoice {
                player,
                candidate_count: 2,
                candidate_descriptions: seq![accept_text(g, p.candidates), "Decline"@],
            }
        } else {
            WaitingModel::ReplacementChoice {
                player,
                candidate_count: p.candidates.len() as usize,
                candidate_descriptions: descriptions(g, p.candidates, p.candidates.len()),
            }
        },
        None => WaitingModel::ReplacementChoice {
            player,
            candidate_count: 0,
            candidate_descriptions: Seq::empty(),
        },
    }
}

fn describe_acceptance(state: &GameState, rids: &Vec<ReplacementId>) -> (r: String)
    ensures
        r@ == accept_text(state@, rids@),
{
    if rids.len() > 0 {
        if let Some(d) = find_own_definition(state, rids[0]) {
            if let Some(text) = &d.description {
                return text.clone();
            }
        }
    }
    "Accept".to_owned()
}

fn describe(state: &GameState, rids: &Vec<ReplacementId>) -> (r: Vec<String>)
    ensures
        seq_view(r@) == descriptions(state@, rids@, rids@.len()),
{
    let mut out: Vec<String> = Vec::new();
    let mut i: usize = 0;
    while i < rids.len()
        invariant
            i <= rids@.len(),
            seq_view(out@) == descriptions(state@, rids@, i as nat),
        decreases rids.len() - i,
    {
        if let Some(d) = find_own_definition(state, rids[i]) {
            if let Some(text) = &d.description {
                out.push(text.clone());
            }
        }
        i += 1;
    }
    out
}

/// The choice that the pending replacement asks a player for: two options for an optional
/// replacement, else one for each candidate.
pub fn replacement_choice_waiting_for(player: PlayerId, state: &GameState) -> (r: WaitingFor)
    ensures
        r@ == choice_asked(state@, player),
{
    let mut candidate_descriptions: Vec<String> = Vec::new();
    match &state.pending_replacement {
        Some(p) => {
            if p.is_optional {
                candidate_descriptions.push(describe_acceptance(state, &p.candidates));
                candidate_descriptions.push("Decline".to_owned());
                assert(seq_view(candidate_descriptions@) =~= seq![
                    accept_text(state@, p.candidates@),
                    "Decline"@,
                ]);
                WaitingFor::ReplacementChoice {
                    player,
                    candidate_count: 2,
                    candidate_descriptions,
                }
            } else {
                WaitingFor::ReplacementChoice {
                    player,
                    candidate_count: p.candidates.len(),
                    candidate_descriptions: describe(state, &p.candidates),
                }
            }
        },
        None => WaitingFor::ReplacementChoice {
            player,
            candidate_count: 0,
            candidate_descriptions,
        },
    }
}

// ---------------------------------------------------------------------------
// Damage
// ---------------------------------------------------------------------------

/// The game with another definition in place of one.
pub open spec fn with_definition(g: Game, rid: ReplacementId, d: ReplacementDefinition) -> Game {
    if rid.source == ObjectId(0) {
        Game {
            pending_damage_prevention: g.pending_damage_prevention.update(rid.index as int, d),
            ..g
        }
    } else {
        let o = object_at(g, rid.source)->0;
        with_object(
            g,
            rid.source,
            ObjectModel {
                replacement_definitions: o.replacement_definitions.update(rid.index as int, d),
                ..o
            },
        )
    }
}

/// A shield after use: used up, or with a smaller amount left.
pub open spec fn shield_left(d: ReplacementDefinition, left: Option<PreventionAmount>) -> ReplacementDefinition {
    match left {
        None => ReplacementDefinition { is_consumed: true, ..d },
        Some(amount) => ReplacementDefinition { shield_kind: ShieldKind::Prevention { amount }, ..d },
    }
}

/// The game after the use of a shield.
pub open spec fn shield_used(g: Game, rid: ReplacementId, left: Option<PreventionAmount>) -> Game {
    match definition_of(g, rid) {
        Some(d) => with_definition(g, rid, shield_left(d, left)),
        None => g,
    }
}

fn use_up(d: &mut ReplacementDefinition, left: Option<PreventionAmount>)
    ensures
        *final(d) == shield_left(*old(d), left),
{
    match left {
        None => {
            d.is_consumed = true;
        },
        Some(amount) => {
            d.shield_kind = ShieldKind::Prevention { amount };
        },
    }
}

fn consume_prevention_shield(
    state: &mut GameState,
    rid: ReplacementId,
    new_amount: Option<PreventionAmount>,
)
    ensures
        final(state)@ == shield_used(old(state)@, rid, new_amount),
{
    if rid.source == ObjectId(0) {
        if rid.index < state.pending_damage_prevention.len() {
            use_up(&mut state.pending_damage_prevention[rid.index], new_amount);
        }
    } else {
        if let Some(o) = state.object_mut(rid.source) {
            if rid.index < o.replacement_definitions.len() {
                use_up(&mut o.replacement_definitions[rid.index], new_amount);
            } else {
                proof {
                    let g = old(state)@;
                    assert(g.objects.insert(rid.source, g.objects[rid.source]) =~= g.objects);
                }
            }
        }
    }
}

/// The product of two numbers, or the largest one of 32 bits.
pub open spec fn product_or_most(a: u32, b: u32) -> u32 {
    if a * b > u32::MAX {
        u32::MAX
    } else {
        (a * b) as u32
    }
}

fn multiply_or_most(a: u32, b: u32) -> (r: u32)
    ensures
        r == product_or_most(a, b),
{
    match a.checked_mul(b) {
        Some(p) => p,
        None => u32::MAX,
    }
}

/// The difference of two numbers, or zero.
pub open spec fn difference_or_zero(a: u32, b: u32) -> u32 {
    if a < b {
        0
    } else {
        (a - b) as u32
    }
}

/// The power of the source of a replacement as an amount of damage.
pub open spec fn power_as_damage(g: Game, source: ObjectId) -> u32 {
    match object_at(g, source) {
        Some(o) => match o.power {
            Some(p) => at_least_zero(p),
            None => 0,
        },
        None => 0,
    }
}

/// An amount of damage after a change.
pub open spec fn changed_damage(g: Game, m: DamageModification, amount: u32, source: ObjectId) -> u32 {
    match m {
        DamageModification::Double => product_or_most(amount, 2),
        DamageModification::Triple => product_or_most(amount, 3),
        DamageModification::Plus { value } => sum_or_most(amount, value),
        DamageModification::Minus { value } => difference_or_zero(amount, value),
        DamageModification::SetToSourcePower => if amount < power_as_damage(g, source) {
            power_as_damage(g, source)
        } else {
            amount
        },
    }
}

fn change_damage(state: &GameState, m: DamageModification, amount: u32, source: ObjectId) -> (r: u32)
    ensures
        r == changed_damage(state@, m, amount, source),
{
    match m {
        DamageModification::Double => multiply_or_most(amount, 2),
        DamageModification::Triple => multiply_or_most(amount, 3),
        DamageModification::Plus { value } => amount.saturating_add(value),
        DamageModification::Minus { value } => amount.saturating_sub(value),
        DamageModification::SetToSourcePower => {
            let power: u32 = match state.object(source) {
                Some(o) => match o.power {
                    Some(p) => zero_or_more(p),
                    None => 0,
                },
                None => 0,
            };
            if amount < power {
                power
            } else {
                amount
            }
        },
    }
}

/// How much of an amount of damage a shield prevents.
pub open spec fn prevented_part(a: PreventionAmount, damage: u32) -> u32 {
    match a {
        PreventionAmount::All => damage,
        PreventionAmount::Next(n) => if damage <= n {
            damage
        } else {
            n
        },
    }
}

/// What is left of a shield that prevents damage.
pub open spec fn prevention_left(a: PreventionAmount, damage: u32) -> Option<PreventionAmount> {
    match a {
        PreventionAmount::All => None,
        PreventionAmount::Next(n) => if damage < n {
            Some(PreventionAmount::Next((n - damage) as u32))
        } else {
            None
        },
    }
}

/// The game after damage has been prevented, and what was told.
pub open spec fn prevention_noted(
    g: Game,
    told: Seq<EventModel>,
    source_id: ObjectId,
    target: TargetRef,
    amount: u32,
) -> (Game, Seq<EventModel>) {
    if amount > 0 {
        (
            Game { last_effect_count: Some(amount as i32), ..g },
            told.push(EventModel::DamagePrevented { source_id, target, amount }),
        )
    } else {
        (g, told)
    }
}

/// What a definition makes of damage: it changes the amount, or prevents some or all of it, or
/// lets it pass.
#[verifier::opaque]
pub open spec fn damage_replaced(
    e: ProposedModel,
    rid: ReplacementId,
    g: Game,
    told: Seq<EventModel>,
) -> Outcome {
    match (e, definition_of(g, rid)) {
        (
            ProposedModel::Damage { source_id, target, amount, is_combat, applied },
            Some(d),
        ) => match (d.damage_modification, d.shield_kind) {
            (Some(m), _) => passed(
                g,
                told,
                ProposedModel::Damage {
                    source_id,
                    target,
                    amount: changed_damage(g, m, amount, rid.source),
                    is_combat,
                    applied,
                },
            ),
            (None, ShieldKind::Prevention { amount: a }) => {
                let part = prevented_part(a, amount);
                let (h, told) = prevention_noted(
                    shield_used(g, rid, prevention_left(a, amount)),
                    told,
                    source_id,
                    target,
                    part,
                );
                if part == amount {
                    Outcome { game: h, told, event: None }
                } else {
                    passed(
                        h,
                        told,
                        ProposedModel::Damage {
                            source_id,
                            target,
                            amount: (amount - part) as u32,
                            is_combat,
                            applied,
                        },
                    )
                }
            },
            _ => passed(g, told, e),
        },
        _ => passed(g, told, e),
    }
}

/// What a definition makes of damage.
pub fn damage_done_applier(
    event: ProposedEvent,
    rid: ReplacementId,
    state: &mut GameState,
    events: &mut Vec<GameEvent>,
) -> (r: ApplyResult)
    ensures
        (Outcome { game: final(state)@, told: log(final(events)@), event: r@ }) == damage_replaced(
            event@,
            rid,
            old(state)@,
            log(old(events)@),
        ),
{
    proof {
        reveal(damage_replaced);
    }
    let modification;
    let shield_kind;
    match find_definition(state, rid) {
        Some(d) => {
            modification = d.damage_modification;
            shield_kind = d.shield_kind;
        },
        None => {
            return ApplyResult::Modified(event);
        },
    }
    match event {
        ProposedEvent::Damage { source_id, target, amount, is_combat, applied } => {
            if let Some(m) = modification {
                let changed: u32 = change_damage(state, m, amount, rid.source);
                return ApplyResult::Modified(
                    ProposedEvent::Damage {
                        source_id,
                        target,
                        amount: changed,
                        is_combat,
                        applied,
                    },
                );
            }
            match shield_kind {
                ShieldKind::Prevention { amount: a } => {
                    let part: u32;
                    match a {
                        PreventionAmount::All => {
                            part = amount;
                            consume_prevention_shield(state, rid, None);
                        },
                        PreventionAmount::Next(n) => {
                            if amount < n {
                                part = amount;
                                consume_prevention_shield(
                                    state,
                                    rid,
                                    Some(PreventionAmount::Next(n - amount)),
                                );
                            } else {
                                part = n;
                                consume_prevention_shield(state, rid, None);
                            }
                        },
                    }
                    if part > 0 {
                        emit(
                            events,
                            GameEvent::DamagePrevented { source_id, target, amount: part },
                        );
                        state.last_effect_count = Some(#[verifier::truncate] (part as i32));
                    }
                    if part == amount {
                        ApplyResult::Prevented
                    } else {
                        ApplyResult::Modified(
                            ProposedEvent::Damage {
                                source_id,
                                target,
                                amount: amount - part,
                                is_combat,
                                applied,
                            },
                        )
                    }
                },
                _ => ApplyResult::Modified(
                    ProposedEvent::Damage { source_id, target, amount, is_combat, applied },
                ),
            }
        },
        other => ApplyResult::Modified(other),
    }
}

// ---------------------------------------------------------------------------
// Destruction
// ---------------------------------------------------------------------------

/// The game with a permanent tapped and without damage.
pub open spec fn healed_and_tapped(g: Game, id: ObjectId) -> Game {
    match object_at(g, id) {
        Some(o) => with_object(
            g,
            id,
            ObjectModel {
                damage_marked: 0,
                dealt_deathtouch_damage: false,
                tapped: true,
                ..o
            },
        ),
        None => g,
    }
}

/// The game with the definition of an object used up.
pub open spec fn own_definition_used(g: Game, rid: ReplacementId) -> Game {
    match own_definition(g, rid) {
        Some(d) => {
            let o = object_at(g, rid.source)->0;
            with_object(
                g,
                rid.source,
                ObjectModel {
                    replacement_definitions: o.replacement_definitions.update(
                        rid.index as int,
                        shield_left(d, None),
                    ),
                    ..o
                },
            )
        },
        None => g,
    }
}

/// What a definition makes of a destruction: a regeneration shield prevents it, unless the
/// permanent cannot be regenerated.
#[verifier::opaque]
pub open spec fn destruction_replaced(
    e: ProposedModel,
    rid: ReplacementId,
    g: Game,
    told: Seq<EventModel>,
) -> Outcome {
    match (e, own_definition(g, rid)) {
        (
            ProposedModel::Destroy { object_id, cant_regenerate, .. },
            Some(d),
        ) => if d.shield_kind == ShieldKind::Regeneration && !cant_regenerate {
            Outcome {
                game: own_definition_used(
                    out_of_combat(healed_and_tapped(g, object_id), object_id),
                    rid,
                ),
                told: told.push(EventModel::Regenerated { object_id }),
                event: None,
            }
        } else {
            passed(g, told, e)
        },
        _ => passed(g, told, e),
    }
}

fn heal_and_tap(state: &mut GameState, id: ObjectId)
    ensures
        final(state)@ == healed_and_tapped(old(state)@, id),
{
    if let Some(o) = state.object_mut(id) {
        o.damage_marked = 0;
        o.dealt_deathtouch_damage = false;
        o.tapped = true;
    }
}

fn use_own_definition(state: &mut GameState, rid: ReplacementId)
    ensures
        final(state)@ == own_definition_used(old(state)@, rid),
{
    if let Some(o) = state.object_mut(rid.source) {
        if rid.index < o.replacement_definitions.len() {
            use_up(&mut o.replacement_definitions[rid.index], None);
        } else {
            proof {
                let g = old(state)@;
                assert(g.objects.insert(rid.source, g.objects[rid.source]) =~= g.objects);
            }
        }
    }
}

/// What a definition makes of a destruction.
pub fn destroy_applier(
    event: ProposedEvent,
    rid: ReplacementId,
    state: &mut GameState,
    events: &mut Vec<GameEvent>,
) -> (r: ApplyResult)
    ensures
        (Outcome { game: final(state)@, told: log(final(events)@), event: r@ })
            == destruction_replaced(event@, rid, old(state)@, log(old(events)@)),
{
    proof {
        reveal(destruction_replaced);
    }
    let is_regeneration = match find_own_definition(state, rid) {
        Some(d) => matches!(d.shield_kind, ShieldKind::Regeneration),
        None => false,
    };
    if !is_regeneration {
        return ApplyResult::Modified(event);
    }
    let id = match &event {
        ProposedEvent::Destroy { object_id, cant_regenerate, .. } => {
            if *cant_regenerate {
                return ApplyResult::Modified(event);
            }
            *object_id
        },
        _ => {
            return ApplyResult::Modified(event);
        },
    };
    heal_and_tap(state, id);
    remove_object_from_combat(state, id);
    use_own_definition(state, rid);
    emit(events, GameEvent::Regenerated { object_id: id });
    ApplyResult::Prevented
}

// ---------------------------------------------------------------------------
// Numbers of cards, counters, tokens; amounts of life; mana
// ---------------------------------------------------------------------------

/// The number of cards that a replaced draw of a number of cards is for. A number that only the
/// state of the game decides is none here.
pub open spec fn draw_number(e: QuantityExpr, count: u32) -> Option<i32>
    decreases e,
{
    match e {
        QuantityExpr::Fixed { value } => Some(value),
        QuantityExpr::Ref { qty } => if qty is EventContextAmount {
            Some(count as i32)
        } else {
            None
        },
        QuantityExpr::HalfRounded { inner, rounding } => match draw_number(*inner, count) {
            Some(n) => Some(half_of(n, rounding)),
            None => None,
        },
        QuantityExpr::Offset { inner, offset } => match draw_number(*inner, count) {
            Some(n) => Some(n.wrapping_add(offset)),
            None => None,
        },
        QuantityExpr::Multiply { factor, inner } => match draw_number(*inner, count) {
            Some(n) => Some(factor.wrapping_mul(n)),
            None => None,
        },
    }
}

fn resolve_draw_replacement_quantity(expr: &QuantityExpr, event_count: u32) -> (r: Option<i32>)
    ensures
        r == draw_number(*expr, event_count),
    decreases expr,
{
    match expr {
        QuantityExpr::Fixed { value } => Some(*value),
        QuantityExpr::Ref { qty } => match qty {
            QuantityRef::EventContextAmount => Some(#[verifier::truncate] (event_count as i32)),
            _ => None,
        },
        QuantityExpr::HalfRounded { inner, rounding } => match resolve_draw_replacement_quantity(
            inner,
            event_count,
        ) {
            Some(n) => Some(half_rounded(n, *rounding)),
            None => None,
        },
        QuantityExpr::Offset { inner, offset } => match resolve_draw_replacement_quantity(
            inner,
            event_count,
        ) {
            Some(n) => Some(n.wrapping_add(*offset)),
            None => None,
        },
        QuantityExpr::Multiply { factor, inner } => match resolve_draw_replacement_quantity(
            inner,
            event_count,
        ) {
            Some(n) => Some((*factor).wrapping_mul(n)),
            None => None,
        },
    }
}

/// The ability of a definition, where it has no further part.
pub open spec fn single_effect(g: Game, rid: ReplacementId) -> Option<Effect> {
    match own_definition(g, rid) {
        Some(d) => match d.execute {
            Some(a) => if a.sub_ability is None {
                Some(*a.effect)
            } else {
                None
            },
            None => None,
        },
        None => None,
    }
}

/// The number of cards that a definition lets a player draw in place of a number.
pub open spec fn draw_count(g: Game, rid: ReplacementId, count: u32) -> Option<u32> {
    match single_effect(g, rid) {
        Some(Effect::Draw { count: e, .. }) => match draw_number(e, count) {
            Some(n) => Some(at_least_zero(n)),
            None => None,
        },
        _ => None,
    }
}

/// What a definition makes of a draw.
#[verifier::opaque]
pub open spec fn draw_replaced(e: ProposedModel, rid: ReplacementId, g: Game) -> ProposedModel {
    match e {
        ProposedModel::Draw { player_id, count, applied } => match draw_count(g, rid, count) {
            Some(n) => ProposedModel::Draw { player_id, count: n, applied },
            None => e,
        },
        _ => e,
    }
}

fn draw_replacement_count(state: &GameState, rid: ReplacementId, count: u32) -> (r: Option<u32>)
    ensures
        r == draw_count(state@, rid, count),
{
    match find_own_definition(state, rid) {
        Some(d) => match &d.execute {
            Some(a) => {
                if a.sub_ability.is_some() {
                    return None;
                }
                match &*a.effect {
                    Effect::Draw { count: e, .. } => match resolve_draw_replacement_quantity(
                        e,
                        count,
                    ) {
                        Some(n) => Some(zero_or_more(n)),
                        None => None,
                    },
                    _ => None,
                }
            },
            None => None,
        },
        None => None,
    }
}

/// What a definition makes of a draw.
pub fn draw_applier(event: ProposedEvent, rid: ReplacementId, state: &GameState) -> (r: ProposedEvent)
    ensures
        r@ == draw_replaced(event@, rid, state@),
{
    proof {
        reveal(draw_replaced);
    }
    match event {
        ProposedEvent::Draw { player_id, count, applied } => {
            let n: u32 = match draw_replacement_count(state, rid, count) {
                Some(n) => n,
                None => count,
            };
            ProposedEvent::Draw { player_id, count: n, applied }
        },
        other => other,
    }
}

/// The life that a definition adds to a gain of life.
pub open spec fn life_added(g: Game, rid: ReplacementId) -> u32 {
    match single_effect(g, rid) {
        Some(Effect::GainLife { amount: QuantityExpr::Fixed { value }, .. }) => at_least_zero(
            value,
        ),
        _ => 0,
    }
}

/// What a definition makes of a gain of life.
#[verifier::opaque]
pub open spec fn life_gain_replaced(e: ProposedModel, rid: ReplacementId, g: Game) -> ProposedModel {
    match e {
        ProposedModel::LifeGain { player_id, amount, applied } => ProposedModel::LifeGain {
            player_id,
            amount: sum_or_most(amount, life_added(g, rid)),
            applied,
        },
        _ => e,
    }
}

fn gain_life_replacement_delta(state: &GameState, rid: ReplacementId) -> (r: u32)
    ensures
        r == life_added(state@, rid),
{
    match find_own_definition(state, rid) {
        Some(d) => match &d.execute {
            Some(a) => {
                if a.sub_ability.is_some() {
                    return 0;
                }
                match &*a.effect {
                    Effect::GainLife { amount, .. } => match amount {
                        QuantityExpr::Fixed { value } => zero_or_more(*value),
                        _ => 0,
                    },
                    _ => 0,
                }
            },
            None => 0,
        },
        None => 0,
    }
}

/// What a definition makes of a gain of life.
pub fn gain_life_applier(event: ProposedEvent, rid: ReplacementId, state: &GameState) -> (r:
    ProposedEvent)
    ensures
        r@ == life_gain_replaced(event@, rid, state@),
{
    proof {
        reveal(life_gain_replaced);
    }
    match event {
        ProposedEvent::LifeGain { player_id, amount, applied } => {
            let added: u32 = gain_life_replacement_delta(state, rid);
            ProposedEvent::LifeGain { player_id, amount: amount.saturating_add(added), applied }
        },
        other => other,
    }
}

/// A loss of life, doubled.
#[verifier::opaque]
pub open spec fn life_loss_doubled(e: ProposedModel) -> ProposedModel {
    match e {
        ProposedModel::LifeLoss { player_id, amount, applied } => ProposedModel::LifeLoss {
            player_id,
            amount: product_or_most(amount, 2),
            applied,
        },
        _ => e,
    }
}

/// Doubles a loss of life.
pub fn lose_life_applier(event: ProposedEvent) -> (r: ProposedEvent)
    ensures
        r@ == life_loss_doubled(event@),
{
    proof {
        reveal(life_loss_doubled);
    }
    match event {
        ProposedEvent::LifeLoss { player_id, amount, applied } => ProposedEvent::LifeLoss {
            player_id,
            amount: multiply_or_most(amount, 2),
            applied,
        },
        other => other,
    }
}

/// A number after a change.
pub open spec fn changed_count(m: Option<QuantityModification>, count: u32) -> u32 {
    match m {
        Some(QuantityModification::Double) => product_or_most(count, 2),
        Some(QuantityModification::Plus { value }) => sum_or_most(count, value),
        Some(QuantityModification::Minus { value }) => difference_or_zero(count, value),
        None => count,
    }
}

fn change_count(m: Option<QuantityModification>, count: u32) -> (r: u32)
    ensures
        r == changed_count(m, count),
{
    match m {
        Some(QuantityModification::Double) => multiply_or_most(count, 2),
        Some(QuantityModification::Plus { value }) => count.saturating_add(value),
        Some(QuantityModification::Minus { value }) => count.saturating_sub(value),
        None => count,
    }
}

/// How a definition changes a number of counters or tokens.
pub open spec fn count_change(g: Game, rid: ReplacementId) -> Option<QuantityModification> {
    match own_definition(g, rid) {
        Some(d) => d.quantity_modification,
        None => None,
    }
}

fn find_count_change(state: &GameState, rid: ReplacementId) -> (r: Option<QuantityModification>)
    ensures
        r == count_change(state@, rid),
{
    match find_own_definition(state, rid) {
        Some(d) => d.quantity_modification,
        None => None,
    }
}

/// What a definition makes of counters that are to be put on an object.
#[verifier::opaque]
pub open spec fn counters_replaced(e: ProposedModel, rid: ReplacementId, g: Game) -> ProposedModel {
    match e {
        ProposedModel::AddCounter { object_id, counter_type, count, applied } =>
            ProposedModel::AddCounter {
            object_id,
            counter_type,
            count: changed_count(count_change(g, rid), count),
            applied,
        },
        _ => e,
    }
}

/// What a definition makes of counters that are to be put on an object.
pub fn add_counter_applier(event: ProposedEvent, rid: ReplacementId, state: &GameState) -> (r:
    ProposedEvent)
    ensures
        r@ == counters_replaced(event@, rid, state@),
{
    proof {
        reveal(counters_replaced);
    }
    match event {
        ProposedEvent::AddCounter { object_id, counter_type, count, applied } => {
            let m = find_count_change(state, rid);
            ProposedEvent::AddCounter {
                object_id,
                counter_type,
                count: change_count(m, count),
                applied,
            }
        },
        other => other,
    }
}

/// What a definition makes of mana that is to be produced.
#[verifier::opaque]
pub open spec fn mana_replaced(e: ProposedModel, rid: ReplacementId, g: Game) -> ProposedModel {
    match e {
        ProposedModel::ProduceMana { source_id, player_id, mana_type, applied } =>
            ProposedModel::ProduceMana {
            source_id,
            player_id,
            mana_type: match own_definition(g, rid) {
                Some(d) => match d.mana_modification {
                    Some(ManaModification::ReplaceWith { mana_type: other }) => other,
                    None => mana_type,
                },
                None => mana_type,
            },
            applied,
        },
        _ => e,
    }
}

/// What a definition makes of mana that is to be produced.
pub fn produce_mana_applier(event: ProposedEvent, rid: ReplacementId, state: &GameState) -> (r:
    ProposedEvent)
    ensures
        r@ == mana_replaced(event@, rid, state@),
{
    proof {
        reveal(mana_replaced);
    }
    match event {
        ProposedEvent::ProduceMana { source_id, player_id, mana_type, applied } => {
            let changed = match find_own_definition(state, rid) {
                Some(d) => match d.mana_modification {
                    Some(ManaModification::ReplaceWith { mana_type: other }) => other,
                    None => mana_type,
                },
                None => mana_type,
            };
            ProposedEvent::ProduceMana { source_id, player_id, mana_type: changed, applied }
        },
        other => other,
    }
}

/// A discard as a move from the hand to the graveyard.
#[verifier::opaque]
pub open spec fn discard_as_move(e: ProposedModel) -> ProposedModel {
    match e {
        ProposedModel::Discard { object_id, applied, .. } => plain_move(
            object_id,
            Zone::Hand,
            Zone::Graveyard,
            None,
            applied,
        ),
        _ => e,
    }
}

/// Turns a discard into a move from the hand to the graveyard.
pub fn discard_applier(event: ProposedEvent) -> (r: ProposedEvent)
    ensures
        r@ == discard_as_move(event@),
{
    proof {
        reveal(discard_as_move);
    }
    match event {
        ProposedEvent::Discard { object_id, applied, .. } => ProposedEvent::ZoneChange {
            object_id,
            from: Zone::Hand,
            to: Zone::Graveyard,
            cause: None,
            enter_tapped: EtbTapState::Unspecified,
            enter_with_counters: Vec::new(),
            controller_override: None,
            enter_transformed: false,
            applied,
        },
        other => other,
    }
}

// ---------------------------------------------------------------------------
// One replacement
// ---------------------------------------------------------------------------

/// Which of the two abilities of an optional replacement is applied.
#[derive(Debug, Clone, Copy, PartialEq, Eq, Structural)]
pub enum ReplacementBranch {
    Execute,
    Decline,
}

/// The ability of a definition for a branch.
pub open spec fn branch_ability(d: ReplacementDefinition, b: ReplacementBranch) -> Option<
    AbilityDefinition,
> {
    match b {
        ReplacementBranch::Execute => shared(d.execute),
        ReplacementBranch::Decline => match d.mode {
            ReplacementMode::Optional { decline } => shared(decline),
            ReplacementMode::Mandatory => None,
        },
    }
}

/// What is still to be done after an event that a mandatory replacement changed.
pub open spec fn work_left(d: ReplacementDefinition, b: ReplacementBranch, e: ProposedModel) -> Option<
    Arc<AbilityDefinition>,
> {
    if b == ReplacementBranch::Execute && d.mode is Mandatory {
        match d.execute {
            Some(a) => if *a.effect is ChangeZone {
                a.sub_ability
            } else if !(e is Damage) && only_modifies(Some(*a)) {
                None
            } else {
                Some(a)
            },
            None => None,
        }
    } else {
        None
    }
}

/// The game with work to be done after an event, unless there is such work already.
pub open spec fn with_work(g: Game, work: Option<Arc<AbilityDefinition>>, source: ObjectId) -> Game {
    if work is Some && g.post_replacement_effect is None {
        Game { post_replacement_effect: work, post_replacement_source: Some(source), ..g }
    } else {
        g
    }
}

/// An event that leads elsewhere.
pub open spec fn redirected(e: ProposedModel, zone: Option<Zone>) -> ProposedModel {
    match (e, zone) {
        (
            ProposedModel::ZoneChange {
                object_id,
                from,
                to,
                cause,
                enter_tapped,
                enter_with_counters,
                controller_override,
                enter_transformed,
                applied,
            },
            Some(z),
        ) => ProposedModel::ZoneChange {
            object_id,
            from,
            to: z,
            cause,
            enter_tapped,
            enter_with_counters,
            controller_override,
            enter_transformed,
            applied,
        },
        _ => e,
    }
}

/// An event that lets something enter with more counters.
pub open spec fn with_counters(e: ProposedModel, more: Seq<(String, u32)>) -> ProposedModel {
    match e {
        ProposedModel::ZoneChange {
            object_id,
            from,
            to,
            cause,
            enter_tapped,
            enter_with_counters,
            controller_override,
            enter_transformed,
            applied,
        } => ProposedModel::ZoneChange {
            object_id,
            from,
            to,
            cause,
            enter_tapped,
            enter_with_counters: enter_with_counters + more,
            controller_override,
            enter_transformed,
            applied,
        },
        ProposedModel::CreateToken { owner, spec, enter_tapped, count, applied } =>
            ProposedModel::CreateToken {
            owner,
            spec: TokenModel { enter_with_counters: spec.enter_with_counters + more, ..spec },
            enter_tapped,
            count,
            applied,
        },
        _ => e,
    }
}

/// An event with the changes that an ability makes of it.
#[verifier::opaque]
pub open spec fn with_modifiers(e: ProposedModel, m: ModifiersModel) -> ProposedModel {
    let e1 = if m.etb_tap_state == EtbTapState::Unspecified {
        e
    } else {
        with_entry_tap_state(e, m.etb_tap_state)
    };
    with_counters(redirected(e1, m.redirect_zone), m.etb_counters)
}

fn append_counters(list: &mut Vec<(String, u32)>, more: &Vec<(String, u32)>)
    ensures
        final(list)@ == old(list)@ + more@,
{
    let ghost start = list@;
    let mut i: usize = 0;
    assert(start + more@.take(0) =~= start);
    while i < more.len()
        invariant
            i <= more@.len(),
            list@ == start + more@.take(i as int),
        decreases more.len() - i,
    {
        list.push((more[i].0.clone(), more[i].1));
        assert((start + more@.take(i as int)).push(more@[i as int]) =~= start + more@.take(i + 1));
        i += 1;
    }
    assert(more@.take(i as int) =~= more@);
}

fn modify(event: ProposedEvent, m: &EventModifiers) -> (r: ProposedEvent)
    ensures
        r@ == with_modifiers(event@, m@),
{
    proof {
        reveal(with_modifiers);
    }
    let mut event = event;
    if m.etb_tap_state != EtbTapState::Unspecified {
        event.set_battlefield_entry_tap_state(m.etb_tap_state);
    }
    match &mut event {
        ProposedEvent::ZoneChange { to, enter_with_counters, .. } => {
            if let Some(zone) = m.redirect_zone {
                *to = zone;
            }
            append_counters(enter_with_counters, &m.etb_counters);
        },
        ProposedEvent::CreateToken { spec, .. } => {
            append_counters(&mut spec.enter_with_counters, &m.etb_counters);
        },
        _ => {},
    }
    event
}

/// The name of a kind of event.
pub open spec fn event_name(e: ReplacementEvent) -> Seq<char> {
    match e {
        ReplacementEvent::DamageDone => "DamageDone"@,
        ReplacementEvent::ChangeZone => "ChangeZone"@,
        ReplacementEvent::Moved => "Moved"@,
        ReplacementEvent::Discard => "Discard"@,
        ReplacementEvent::Destroy => "Destroy"@,
        ReplacementEvent::Draw => "Draw"@,
        ReplacementEvent::DrawCards => "DrawCards"@,
        ReplacementEvent::GainLife => "GainLife"@,
        ReplacementEvent::LifeReduced => "LifeReduced"@,
        ReplacementEvent::LoseLife => "LoseLife"@,
        ReplacementEvent::AddCounter => "AddCounter"@,
        ReplacementEvent::RemoveCounter => "RemoveCounter"@,
        ReplacementEvent::Tap => "Tap"@,
        ReplacementEvent::Untap => "Untap"@,
        ReplacementEvent::Counter => "Counter"@,
        ReplacementEvent::CreateToken => "CreateToken"@,
        ReplacementEvent::Attached => "Attached"@,
        ReplacementEvent::DealtDamage => "DealtDamage"@,
        ReplacementEvent::Mill => "Mill"@,
        ReplacementEvent::PayLife => "PayLife"@,
        ReplacementEvent::ProduceMana => "ProduceMana"@,
        ReplacementEvent::TurnFaceUp => "TurnFaceUp"@,
        ReplacementEvent::BeginTurn => "BeginTurn"@,
        ReplacementEvent::BeginPhase => "BeginPhase"@,
        ReplacementEvent::GameLoss => "GameLoss"@,
        ReplacementEvent::GameWin => "GameWin"@,
    }
}

fn name_of_event(e: ReplacementEvent) -> (r: String)
    ensures
        r@ == event_name(e),
{
    match e {
        ReplacementEvent::DamageDone => "DamageDone".to_owned(),
        ReplacementEvent::ChangeZone => "ChangeZone".to_owned(),
        ReplacementEvent::Moved => "Moved".to_owned(),
        ReplacementEvent::Discard => "Discard".to_owned(),
        ReplacementEvent::Destroy => "Destroy".to_owned(),
        ReplacementEvent::Draw => "Draw".to_owned(),
        ReplacementEvent::DrawCards => "DrawCards".to_owned(),
        ReplacementEvent::GainLife => "GainLife".to_owned(),
        ReplacementEvent::LifeReduced => "LifeReduced".to_owned(),
        ReplacementEvent::LoseLife => "LoseLife".to_owned(),
        ReplacementEvent::AddCounter => "AddCounter".to_owned(),
        ReplacementEvent::RemoveCounter => "RemoveCounter".to_owned(),
        ReplacementEvent::Tap => "Tap".to_owned(),
        ReplacementEvent::Untap => "Untap".to_owned(),
        ReplacementEvent::Counter => "Counter".to_owned(),
        ReplacementEvent::CreateToken => "CreateToken".to_owned(),
        ReplacementEvent::Attached => "Attached".to_owned(),
        ReplacementEvent::DealtDamage => "DealtDamage".to_owned(),
        ReplacementEvent::Mill => "Mill".to_owned(),
        ReplacementEvent::PayLife => "PayLife".to_owned(),
        ReplacementEvent::ProduceMana => "ProduceMana".to_owned(),
        ReplacementEvent::TurnFaceUp => "TurnFaceUp".to_owned(),
        ReplacementEvent::BeginTurn => "BeginTurn".to_owned(),
        ReplacementEvent::BeginPhase => "BeginPhase".to_owned(),
        ReplacementEvent::GameLoss => "GameLoss".to_owned(),
        ReplacementEvent::GameWin => "GameWin".to_owned(),
    }
}

/// What is appended to a batch of tokens by the source of a replacement.
#[verifier::opaque]
pub open spec fn appended_batch(
    g: Game,
    rid: ReplacementId,
    extra: TokenModel,
    owner: PlayerId,
    count: u32,
) -> ProposedModel {
    ProposedModel::CreateToken {
        owner,
        spec: TokenModel {
            source_id: rid.source,
            controller: match object_at(g, rid.source) {
                Some(o) => o.controller,
                None => owner,
            },
            ..extra
        },
        enter_tapped: EtbTapState::Unspecified,
        count,
        applied: Set::empty().insert(rid),
    }
}

/// The tokens that a definition appends to a batch.
pub open spec fn extra_tokens(g: Game, rid: ReplacementId) -> Option<TokenModel> {
    match own_definition(g, rid) {
        Some(d) => match d.additional_token_spec {
            Some(spec) => Some(spec@),
            None => None,
        },
        None => None,
    }
}

/// The definitions among the first `n` of an object that append tokens.
pub open spec fn appending_of_object(g: Game, id: ObjectId, n: nat) -> Seq<ReplacementId>
    decreases n,
{
    if n == 0 {
        Seq::empty()
    } else {
        let front = appending_of_object(g, id, (n - 1) as nat);
        let rid = ReplacementId { source: id, index: (n - 1) as usize };
        if extra_tokens(g, rid) is Some {
            front.push(rid)
        } else {
            front
        }
    }
}

/// The definitions of the first `n` objects that append tokens.
pub open spec fn appending_of_objects(g: Game, n: nat) -> Seq<ReplacementId>
    decreases n,
{
    if n == 0 || n > g.object_ids.len() {
        Seq::empty()
    } else {
        let id = g.object_ids[n - 1];
        appending_of_objects(g, (n - 1) as nat) + appending_of_object(
            g,
            id,
            g.objects[id].replacement_definitions.len(),
        )
    }
}

/// The definitions of a game that append tokens.
#[verifier::opaque]
pub open spec fn appending(g: Game) -> Seq<ReplacementId> {
    appending_of_objects(g, g.object_ids.len())
}

/// How deep batches of tokens that are appended to batches of tokens are nested: as deep as there
/// are definitions that append tokens. What is nested deeper lies in a batch of a definition that
/// has appended to its own tokens, and is left out.
pub open spec fn token_nesting(g: Game) -> nat {
    appending(g).len()
}

fn add_appending_of_object(state: &GameState, id: ObjectId, out: &mut Vec<ReplacementId>)
    requires
        object_at(state@, id) is Some,
    ensures
        final(out)@ == old(out)@ + appending_of_object(
            state@,
            id,
            state@.objects[id].replacement_definitions.len(),
        ),
{
    let ghost start = out@;
    if let Some(obj) = state.object(id) {
        let ghost n = obj@.replacement_definitions.len();
        assert(out@ =~= start + appending_of_object(state@, id, 0));
        let mut k: usize = 0;
        while k < obj.replacement_definitions.len()
            invariant
                k <= n,
                n == obj@.replacement_definitions.len(),
                n == obj.replacement_definitions@.len(),
                obj@.replacement_definitions == obj.replacement_definitions@,
                object_at(state@, id) == Some(obj@),
                out@ == start + appending_of_object(state@, id, k as nat),
            decreases n - k,
        {
            if obj.replacement_definitions[k].additional_token_spec.is_some() {
                out.push(ReplacementId { source: id, index: k });
            }
            assert(out@ =~= start + appending_of_object(state@, id, (k + 1) as nat));
            k += 1;
        }
    }
}

fn find_appending(state: &GameState) -> (r: Vec<ReplacementId>)
    ensures
        r@ == appending(state@),
{
    proof {
        reveal(appending);
        state.objects.lemma_order();
    }
    let ghost ids = state@.object_ids;
    let mut out: Vec<ReplacementId> = Vec::new();
    let mut i: usize = 0;
    while i < state.objects.len()
        invariant
            i <= ids.len(),
            ids == state@.object_ids,
            ids == state.objects.order(),
            ids.len() == state.objects.seq().len(),
            forall|k: ObjectId| #[trigger]
                state.objects@.dom().contains(k) <==> exists|i: int|
                    0 <= i < ids.len() && #[trigger] ids[i] == k,
            out@ == appending_of_objects(state@, i as nat),
        decreases ids.len() - i,
    {
        let id = *state.objects.key_at(i);
        assert(ids[i as int] == id);
        assert(state.objects@.dom().contains(id));
        add_appending_of_object(state, id, &mut out);
        i += 1;
    }
    out
}

/// What is done with the tokens that are appended to a batch: they are an event of their own, to
/// which other replacements apply. A choice among those drops them.
pub open spec fn batch_appended(
    g: Game,
    told: Seq<EventModel>,
    batch: ProposedModel,
    nesting: nat,
) -> (Game, Seq<EventModel>)
    decreases nesting, 0nat, 0nat,
{
    if nesting == 0 {
        (g, told)
    } else {
        let p = processed(g, batch, told, 0, full_registry(), (nesting - 1) as nat);
        match p.result {
            ResultModel::Execute(e) => (
                tokens_created(p.game, e),
                token_creation_told(p.told, p.game, e),
            ),
            _ => (p.game, p.told),
        }
    }
}

/// What a definition makes of tokens that are to be created: another number of them, or more
/// tokens of another kind.
pub open spec fn tokens_replaced(
    e: ProposedModel,
    rid: ReplacementId,
    g: Game,
    told: Seq<EventModel>,
    nesting: nat,
) -> Outcome
    decreases nesting, 1nat, 0nat,
{
    match e {
        ProposedModel::CreateToken { owner, spec, enter_tapped, count, applied } => {
            let n = changed_count(count_change(g, rid), count);
            let (h, told) = match extra_tokens(g, rid) {
                Some(extra) => batch_appended(
                    g,
                    told,
                    appended_batch(g, rid, extra, owner, n),
                    nesting,
                ),
                None => (g, told),
            };
            passed(
                h,
                told,
                ProposedModel::CreateToken { owner, spec, enter_tapped, count: n, applied },
            )
        },
        _ => passed(g, told, e),
    }
}

/// What a handler makes of an event.
pub open spec fn handled(
    h: Handler,
    e: ProposedModel,
    rid: ReplacementId,
    g: Game,
    told: Seq<EventModel>,
    nesting: nat,
) -> Outcome
    decreases nesting, 2nat, 0nat,
{
    match h {
        Handler::DamageDone => damage_replaced(e, rid, g, told),
        Handler::Destroy => destruction_replaced(e, rid, g, told),
        Handler::CreateToken => tokens_replaced(e, rid, g, told, nesting),
        Handler::BeginTurn | Handler::BeginPhase => Outcome { game: g, told, event: None },
        Handler::Discard => passed(g, told, discard_as_move(e)),
        Handler::Draw => passed(g, told, draw_replaced(e, rid, g)),
        Handler::GainLife => passed(g, told, life_gain_replaced(e, rid, g)),
        Handler::LoseLife => passed(g, told, life_loss_doubled(e)),
        Handler::AddCounter => passed(g, told, counters_replaced(e, rid, g)),
        Handler::ProduceMana => passed(g, told, mana_replaced(e, rid, g)),
        _ => passed(g, told, e),
    }
}

/// What one replacement makes of an event.
pub open spec fn replaced_once(
    g: Game,
    e: ProposedModel,
    rid: ReplacementId,
    b: ReplacementBranch,
    reg: Map<u32, u32>,
    told: Seq<EventModel>,
    nesting: nat,
) -> Outcome
    decreases nesting, 3nat, 0nat,
{
    match definition_of(g, rid) {
        None => passed(g, told, e),
        Some(d) => match handler_in(reg, d.event) {
            None => passed(g, told, e),
            Some(entry) => {
                let out = handled(entry.applier, e, rid, g, told, nesting);
                Outcome {
                    game: with_work(out.game, work_left(d, b, e), rid.source),
                    told: out.told.push(
                        EventModel::ReplacementApplied {
                            source_id: rid.source,
                            event_type: event_name(d.event),
                        },
                    ),
                    event: match out.event {
                        Some(n) => Some(
                            with_modifiers(
                                n,
                                modifiers_of(branch_ability(d, b), g, rid.source, e),
                            ),
                        ),
                        None => None,
                    },
                }
            },
        },
    }
}

/// The event with a replacement noted as applied.
#[verifier::opaque]
pub open spec fn marked(e: ProposedModel, rid: ReplacementId) -> ProposedModel {
    with_applied(e, applied_to(e).insert(rid))
}

fn mark(event: ProposedEvent, rid: ReplacementId) -> (r: ProposedEvent)
    ensures
        r@ == marked(event@, rid),
{
    proof {
        reveal(marked);
    }
    let mut event = event;
    event.mark_applied(rid);
    event
}

/// The game with a choice pending.
pub open spec fn with_choice(
    g: Game,
    e: ProposedModel,
    rids: Seq<ReplacementId>,
    depth: u16,
    is_optional: bool,
) -> Game {
    Game {
        pending_replacement: Some(
            PendingReplacementModel { proposed: e, candidates: rids, depth, is_optional },
        ),
        ..g
    }
}

/// Whether the replacement with an identifier may be declined.
pub open spec fn may_be_declined(g: Game, rid: ReplacementId) -> bool {
    own_definition(g, rid) is Some && own_definition(g, rid)->0.mode is Optional
}

/// What becomes of an event: replacements are applied to it one after the other. Where several
/// apply, or one that may be declined, a player is asked.
pub open spec fn processed(
    g: Game,
    e: ProposedModel,
    told: Seq<EventModel>,
    depth: nat,
    reg: Map<u32, u32>,
    nesting: nat,
) -> Processed
    decreases
            nesting,
            4nat,
            (if depth < MAX_REPLACEMENT_DEPTH {
                MAX_REPLACEMENT_DEPTH - depth
            } else {
                0
            }),
{
    let rids = candidates(g, e, reg);
    if depth >= MAX_REPLACEMENT_DEPTH || rids.len() == 0 {
        Processed { game: g, told, result: ResultModel::Execute(e) }
    } else if rids.len() > 1 || may_be_declined(g, rids[0]) {
        Processed {
            game: with_choice(g, e, rids, depth as u16, rids.len() == 1),
            told,
            result: ResultModel::NeedsChoice(affected_person(g, e)),
        }
    } else {
        let out = replaced_once(
            g,
            marked(e, rids[0]),
            rids[0],
            ReplacementBranch::Execute,
            reg,
            told,
            nesting,
        );
        match out.event {
            None => Processed { game: out.game, told: out.told, result: ResultModel::Prevented },
            Some(n) => processed(out.game, n, out.told, depth + 1, reg, nesting),
        }
    }
}

fn append_batch(
    state: &mut GameState,
    batch: ProposedEvent,
    events: &mut Vec<GameEvent>,
    nesting: usize,
)
    ensures
        (final(state)@, log(final(events)@)) == batch_appended(
            old(state)@,
            log(old(events)@),
            batch@,
            nesting as nat,
        ),
    decreases nesting, 0nat, 0nat,
{
    if nesting == 0 {
        return;
    }
    let registry = build_replacement_registry();
    match pipeline_loop(state, batch, 0, &registry, events, nesting - 1) {
        ReplacementResult::Execute(e) => {
            apply_create_token_after_replacement(state, e, events);
        },
        _ => {},
    }
}

fn find_extra_tokens(state: &GameState, rid: ReplacementId) -> (r: Option<TokenSpec>)
    ensures
        match r {
            Some(spec) => extra_tokens(state@, rid) == Some(spec@),
            None => extra_tokens(state@, rid) is None,
        },
{
    match find_own_definition(state, rid) {
        Some(d) => match &d.additional_token_spec {
            Some(spec) => Some((**spec).clone()),
            None => None,
        },
        None => None,
    }
}

fn make_batch(
    state: &GameState,
    rid: ReplacementId,
    extra: TokenSpec,
    owner: PlayerId,
    count: u32,
) -> (r: ProposedEvent)
    ensures
        r@ == appended_batch(state@, rid, extra@, owner, count),
{
    proof {
        reveal(appended_batch);
    }
    let mut spec = extra;
    spec.source_id = rid.source;
    spec.controller = match state.object(rid.source) {
        Some(o) => o.controller,
        None => owner,
    };
    let mut applied: KeySet<ReplacementId> = KeySet::new();
    applied.insert(rid);
    ProposedEvent::CreateToken {
        owner,
        spec: Box::new(spec),
        enter_tapped: EtbTapState::Unspecified,
        count,
        applied,
    }
}

#[verifier::spinoff_prover]
#[verifier::rlimit(40)]
fn create_token_applier(
    event: ProposedEvent,
    rid: ReplacementId,
    state: &mut GameState,
    events: &mut Vec<GameEvent>,
    nesting: usize,
) -> (r: ApplyResult)
    ensures
        (Outcome { game: final(state)@, told: log(final(events)@), event: r@ }) == tokens_replaced(
            event@,
            rid,
            old(state)@,
            log(old(events)@),
            nesting as nat,
        ),
    decreases nesting, 1nat, 0nat,
{
    match event {
        ProposedEvent::CreateToken { owner, spec, enter_tapped, count, applied } => {
            let n: u32 = change_count(find_count_change(state, rid), count);
            if let Some(extra) = find_extra_tokens(state, rid) {
                let batch = make_batch(state, rid, extra, owner, n);
                append_batch(state, batch, events, nesting);
            }
            ApplyResult::Modified(
                ProposedEvent::CreateToken { owner, spec, enter_tapped, count: n, applied },
            )
        },
        other => ApplyResult::Modified(other),
    }
}

fn apply_handler(
    h: Handler,
    event: ProposedEvent,
    rid: ReplacementId,
    state: &mut GameState,
    events: &mut Vec<GameEvent>,
    nesting: usize,
) -> (r: ApplyResult)
    ensures
        (Outcome { game: final(state)@, told: log(final(events)@), event: r@ }) == handled(
            h,
            event@,
            rid,
            old(state)@,
            log(old(events)@),
            nesting as nat,
        ),
    decreases nesting, 2nat, 0nat,
{
    match h {
        Handler::DamageDone => damage_done_applier(event, rid, state, events),
        Handler::Destroy => destroy_applier(event, rid, state, events),
        Handler::CreateToken => create_token_applier(event, rid, state, events, nesting),
        Handler::BeginTurn | Handler::BeginPhase => ApplyResult::Prevented,
        Handler::Discard => ApplyResult::Modified(discard_applier(event)),
        Handler::Draw => ApplyResult::Modified(draw_applier(event, rid, state)),
        Handler::GainLife => ApplyResult::Modified(gain_life_applier(event, rid, state)),
        Handler::LoseLife => ApplyResult::Modified(lose_life_applier(event)),
        Handler::AddCounter => ApplyResult::Modified(add_counter_applier(event, rid, state)),
        Handler::ProduceMana => ApplyResult::Modified(produce_mana_applier(event, rid, state)),
        _ => ApplyResult::Modified(event),
    }
}

fn find_work_left(d: &ReplacementDefinition, b: ReplacementBranch, is_damage: bool) -> (r: Option<
    Arc<AbilityDefinition>,
>)
    ensures
        forall|e: ProposedModel|
            (e is Damage) == is_damage ==> r == #[trigger] work_left(*d, b, e),
{
    if b != ReplacementBranch::Execute || !matches!(d.mode, ReplacementMode::Mandatory) {
        return None;
    }
    match &d.execute {
        Some(a) => {
            if matches!(&*a.effect, Effect::ChangeZone { .. }) {
                share(&a.sub_ability)
            } else if !is_damage && EventModifiers::has_only_event_modifier(Some(&**a)) {
                None
            } else {
                Some(a.clone())
            }
        },
        None => None,
    }
}

fn leave_work(state: &mut GameState, work: Option<Arc<AbilityDefinition>>, source: ObjectId)
    ensures
        final(state)@ == with_work(old(state)@, work, source),
{
    if work.is_some() && state.post_replacement_effect.is_none() {
        state.post_replacement_effect = work;
        state.post_replacement_source = Some(source);
    }
}

fn find_branch_ability(d: &ReplacementDefinition, b: ReplacementBranch) -> (r: Option<
    &AbilityDefinition,
>)
    ensures
        referred(r) == branch_ability(*d, b),
{
    match b {
        ReplacementBranch::Execute => refer(&d.execute),
        ReplacementBranch::Decline => match &d.mode {
            ReplacementMode::Optional { decline } => refer(decline),
            ReplacementMode::Mandatory => None,
        },
    }
}

fn apply_nested(
    state: &mut GameState,
    proposed: ProposedEvent,
    rid: ReplacementId,
    branch: ReplacementBranch,
    registry: &ReplacementRegistry,
    events: &mut Vec<GameEvent>,
    nesting: usize,
) -> (r: Result<ProposedEvent, ApplyResult>)
    ensures
        outcome_of(r) is Some,
        (Outcome {
            game: final(state)@,
            told: log(final(events)@),
            event: outcome_of(r)->0,
        }) == replaced_once(
            old(state)@,
            proposed@,
            rid,
            branch,
            contents(*registry),
            log(old(events)@),
            nesting as nat,
        ),
    decreases nesting, 3nat, 0nat,
{
    let is_damage = matches!(proposed, ProposedEvent::Damage { .. });
    let event_key;
    let modifiers;
    let work;
    match find_definition(state, rid) {
        Some(d) => {
            event_key = d.event;
            modifiers = event_modifiers_for_ability(
                find_branch_ability(d, branch),
                state,
                rid.source,
                &proposed,
            );
            work = find_work_left(d, branch, is_damage);
        },
        None => {
            return Ok(proposed);
        },
    }
    match registered_handler(registry, event_key) {
        Some(entry) => {
            let result = apply_handler(entry.applier, proposed, rid, state, events, nesting);
            leave_work(state, work, rid.source);
            emit(
                events,
                GameEvent::ReplacementApplied {
                    source_id: rid.source,
                    event_type: name_of_event(event_key),
                },
            );
            match result {
                ApplyResult::Modified(e) => Ok(modify(e, &modifiers)),
                ApplyResult::Prevented => Err(ApplyResult::Prevented),
            }
        },
        None => Ok(proposed),
    }
}

/// The event that a single replacement leaves, none where it prevents it. Nothing else can come
/// out.
pub open spec fn outcome_of(r: Result<ProposedEvent, ApplyResult>) -> Option<Option<ProposedModel>> {
    match r {
        Ok(e) => Some(Some(e@)),
        Err(ApplyResult::Prevented) => Some(None),
        Err(_) => None,
    }
}

/// Applies one replacement to an event.
pub fn apply_single_replacement(
    state: &mut GameState,
    proposed: ProposedEvent,
    rid: ReplacementId,
    branch: ReplacementBranch,
    registry: &ReplacementRegistry,
    events: &mut Vec<GameEvent>,
) -> (r: Result<ProposedEvent, ApplyResult>)
    ensures
        outcome_of(r) is Some,
        (Outcome {
            game: final(state)@,
            told: log(final(events)@),
            event: outcome_of(r)->0,
        }) == replaced_once(
            old(state)@,
            proposed@,
            rid,
            branch,
            contents(*registry),
            log(old(events)@),
            token_nesting(old(state)@),
        ),
{
    let nesting: usize = find_appending(state).len();
    apply_nested(state, proposed, rid, branch, registry, events, nesting)
}

fn is_optional(state: &GameState, rid: ReplacementId) -> (r: bool)
    ensures
        r == may_be_declined(state@, rid),
{
    match find_own_definition(state, rid) {
        Some(d) => matches!(d.mode, ReplacementMode::Optional { .. }),
        None => false,
    }
}

fn pipeline_loop(
    state: &mut GameState,
    proposed: ProposedEvent,
    depth: u16,
    registry: &ReplacementRegistry,
    events: &mut Vec<GameEvent>,
    nesting: usize,
) -> (r: ReplacementResult)
    ensures
        (Processed { game: final(state)@, told: log(final(events)@), result: r@ }) == processed(
            old(state)@,
            proposed@,
            log(old(events)@),
            depth as nat,
            contents(*registry),
            nesting as nat,
        ),
    decreases nesting, 4nat, 0nat,
{
    let ghost wanted = processed(
        state@,
        proposed@,
        log(events@),
        depth as nat,
        contents(*registry),
        nesting as nat,
    );
    let mut event = proposed;
    let mut applied: u16 = depth;
    while applied < MAX_REPLACEMENT_DEPTH
        invariant
            wanted == processed(
                old(state)@,
                proposed@,
                log(old(events)@),
                depth as nat,
                contents(*registry),
                nesting as nat,
            ),
            wanted == processed(
                state@,
                event@,
                log(events@),
                applied as nat,
                contents(*registry),
                nesting as nat,
            ),
        decreases MAX_REPLACEMENT_DEPTH - applied,
    {
        let rids = find_applicable_replacements(state, &event, registry);
        if rids.len() == 0 {
            return ReplacementResult::Execute(event);
        }
        let only_one = rids.len() == 1;
        if !only_one || is_optional(state, rids[0]) {
            let affected = event.affected_player(state);
            state.pending_replacement = Some(
                PendingReplacement {
                    proposed: event,
                    candidates: rids,
                    depth: applied,
                    is_optional: only_one,
                },
            );
            return ReplacementResult::NeedsChoice(affected);
        }
        let rid = rids[0];
        match apply_nested(
            state,
            mark(event, rid),
            rid,
            ReplacementBranch::Execute,
            registry,
            events,
            nesting,
        ) {
            Ok(e) => {
                event = e;
            },
            Err(_) => {
                return ReplacementResult::Prevented;
            },
        }
        applied += 1;
    }
    ReplacementResult::Execute(event)
}

/// Applies replacements to an event that is about to happen, until none applies, the event is
/// prevented, or a player has to choose.
pub fn replace_event(state: &mut GameState, proposed: ProposedEvent, events: &mut Vec<GameEvent>) -> (r:
    ReplacementResult)
    ensures
        (Processed { game: final(state)@, told: log(final(events)@), result: r@ })
            == event_replaced(old(state)@, proposed@, log(old(events)@)),
{
    proof {
        reveal(event_replaced);
    }
    let registry = build_replacement_registry();
    let nesting: usize = find_appending(state).len();
    pipeline_loop(state, proposed, 0, &registry, events, nesting)
}

/// What becomes of an event that is about to happen.
#[verifier::opaque]
pub open spec fn event_replaced(g: Game, e: ProposedModel, told: Seq<EventModel>) -> Processed {
    processed(g, e, told, 0, full_registry(), token_nesting(g))
}

// ---------------------------------------------------------------------------
// After a choice
// ---------------------------------------------------------------------------

/// Whether a pending replacement can be continued: an optional one has its candidate, and the
/// number of replacements applied so far can still be counted.
pub open spec fn can_continue(p: PendingReplacementModel) -> bool {
    (p.is_optional ==> p.candidates.len() > 0) && p.depth < u16::MAX
}

/// What is left to do once an optional replacement is accepted or declined.
pub open spec fn chosen_work(g: Game, rid: ReplacementId, accepted: bool) -> Option<
    Arc<AbilityDefinition>,
> {
    match own_definition(g, rid) {
        Some(d) => if accepted {
            d.execute
        } else {
            match d.mode {
                ReplacementMode::Optional { decline } => if only_modifies(shared(decline)) {
                    None
                } else {
                    decline
                },
                ReplacementMode::Mandatory => None,
            }
        },
        None => None,
    }
}

/// The game with what is left to do once an optional replacement is accepted or declined.
pub open spec fn with_chosen_work(g: Game, work: Option<Arc<AbilityDefinition>>, source: ObjectId) -> Game {
    Game {
        post_replacement_effect: work,
        post_replacement_source: if work is Some {
            Some(source)
        } else {
            g.post_replacement_source
        },
        ..g
    }
}

/// The rest of what becomes of an event after one replacement.
pub open spec fn then_processed(out: Outcome, depth: u16) -> Processed {
    match out.event {
        None => Processed { game: out.game, told: out.told, result: ResultModel::Prevented },
        Some(e) => processed(
            out.game,
            e,
            out.told,
            depth as nat + 1,
            full_registry(),
            token_nesting(out.game),
        ),
    }
}

/// What becomes of an event after an optional replacement was accepted or declined.
pub open spec fn after_option(
    g: Game,
    p: PendingReplacementModel,
    accepted: bool,
    told: Seq<EventModel>,
) -> Processed {
    let rid = p.candidates[0];
    let work = chosen_work(g, rid, accepted);
    let out = replaced_once(
        g,
        marked(p.proposed, rid),
        rid,
        if accepted {
            ReplacementBranch::Execute
        } else {
            ReplacementBranch::Decline
        },
        full_registry(),
        told,
        token_nesting(g),
    );
    if out.event is None {
        then_processed(out, p.depth)
    } else {
        then_processed(
            Outcome { game: with_chosen_work(out.game, work, rid.source), ..out },
            p.depth,
        )
    }
}

/// What becomes of an event after a choice among several replacements.
pub open spec fn after_choice(
    g: Game,
    p: PendingReplacementModel,
    chosen: usize,
    told: Seq<EventModel>,
) -> Processed {
    if chosen >= p.candidates.len() {
        Processed { game: g, told, result: ResultModel::Execute(p.proposed) }
    } else {
        let rid = p.candidates[chosen as int];
        then_processed(
            replaced_once(
                g,
                marked(p.proposed, rid),
                rid,
                ReplacementBranch::Execute,
                full_registry(),
                told,
                token_nesting(g),
            ),
            p.depth,
        )
    }
}

/// What becomes of the pending event once a player has chosen.
pub open spec fn continued(g: Game, chosen: usize, told: Seq<EventModel>) -> Processed {
    let h = Game { pending_replacement: None, ..g };
    match g.pending_replacement {
        None => Processed {
            game: g,
            told,
            result: ResultModel::Execute(
                ProposedModel::Draw { player_id: PlayerId(0), count: 0, applied: Set::empty() },
            ),
        },
        Some(p) => if p.is_optional {
            after_option(h, p, chosen == 0, told)
        } else {
            after_choice(h, p, chosen, told)
        },
    }
}

fn find_chosen_work(state: &GameState, rid: ReplacementId, accepted: bool) -> (r: Option<
    Arc<AbilityDefinition>,
>)
    ensures
        r == chosen_work(state@, rid, accepted),
{
    match find_own_definition(state, rid) {
        Some(d) => if accepted {
            share(&d.execute)
        } else {
            match &d.mode {
                ReplacementMode::Optional { decline } => {
                    if EventModifiers::has_only_event_modifier(refer(decline)) {
                        None
                    } else {
                        share(decline)
                    }
                },
                ReplacementMode::Mandatory => None,
            }
        },
        None => None,
    }
}

fn continue_optional(
    state: &mut GameState,
    pending: PendingReplacement,
    accepted: bool,
    events: &mut Vec<GameEvent>,
) -> (r: ReplacementResult)
    requires
        pending@.candidates.len() > 0,
        pending@.depth < u16::MAX,
    ensures
        (Processed { game: final(state)@, told: log(final(events)@), result: r@ }) == after_option(
            old(state)@,
            pending@,
            accepted,
            log(old(events)@),
        ),
{
    let registry = build_replacement_registry();
    let rid = pending.candidates[0];
    let proposed = mark(pending.proposed, rid);
    let work = find_chosen_work(state, rid, accepted);
    let branch = if accepted {
        ReplacementBranch::Execute
    } else {
        ReplacementBranch::Decline
    };
    match apply_single_replacement(state, proposed, rid, branch, &registry, events) {
        Ok(e) => {
            if work.is_some() {
                state.post_replacement_source = Some(rid.source);
            }
            state.post_replacement_effect = work;
            let nesting: usize = find_appending(state).len();
            pipeline_loop(state, e, pending.depth + 1, &registry, events, nesting)
        },
        Err(_) => ReplacementResult::Prevented,
    }
}

fn continue_chosen(
    state: &mut GameState,
    pending: PendingReplacement,
    chosen_index: usize,
    events: &mut Vec<GameEvent>,
) -> (r: ReplacementResult)
    requires
        pending@.depth < u16::MAX,
    ensures
        (Processed { game: final(state)@, told: log(final(events)@), result: r@ }) == after_choice(
            old(state)@,
            pending@,
            chosen_index,
            log(old(events)@),
        ),
{
    if chosen_index >= pending.candidates.len() {
        return ReplacementResult::Execute(pending.proposed);
    }
    let registry = build_replacement_registry();
    let rid = pending.candidates[chosen_index];
    let proposed = mark(pending.proposed, rid);
    match apply_single_replacement(
        state,
        proposed,
        rid,
        ReplacementBranch::Execute,
        &registry,
        events,
    ) {
        Ok(e) => {
            let nesting: usize = find_appending(state).len();
            pipeline_loop(state, e, pending.depth + 1, &registry, events, nesting)
        },
        Err(_) => ReplacementResult::Prevented,
    }
}

/// Continues with the pending event once a player has chosen: for an optional replacement zero
/// accepts it and any other number declines it, else the number is that of the replacement to be
/// applied first. Without a pending event nothing happens, which a draw of no cards stands for.
pub fn continue_replacement(
    state: &mut GameState,
    chosen_index: usize,
    events: &mut Vec<GameEvent>,
) -> (r: ReplacementResult)
    requires
        old(state)@.pending_replacement is Some ==> can_continue(
            old(state)@.pending_replacement->0,
        ),
    ensures
        (Processed { game: final(state)@, told: log(final(events)@), result: r@ }) == continued(
            old(state)@,
            chosen_index,
            log(old(events)@),
        ),
{
    match state.pending_replacement.take() {
        None => ReplacementResult::Execute(
            ProposedEvent::Draw { player_id: PlayerId(0), count: 0, applied: KeySet::new() },
        ),
        Some(pending) => if pending.is_optional {
            continue_optional(state, pending, chosen_index == 0, events)
        } else {
            continue_chosen(state, pending, chosen_index, events)
        },
    }
}

// ---------------------------------------------------------------------------
// Laws
// ---------------------------------------------------------------------------

proof fn lemma_object_candidates_fresh(
    g: Game,
    e: ProposedModel,
    reg: Map<u32, u32>,
    id: ObjectId,
    n: nat,
)
    ensures
        forall|i: int|
            0 <= i < candidates_of_object(g, e, reg, id, n).len() ==> !applied_to(e).contains(
                #[trigger] candidates_of_object(g, e, reg, id, n)[i],
            ),
    decreases n,
{
    if n > 0 {
        lemma_object_candidates_fresh(g, e, reg, id, (n - 1) as nat);
        let front = candidates_of_object(g, e, reg, id, (n - 1) as nat);
        let all = candidates_of_object(g, e, reg, id, n);
        assert forall|i: int| 0 <= i < all.len() implies !applied_to(e).contains(
            #[trigger] all[i],
        ) by {
            if i < front.len() {
                assert(all[i] == front[i]);
            }
        }
    }
}

proof fn lemma_objects_candidates_fresh(g: Game, e: ProposedModel, reg: Map<u32, u32>, n: nat)
    ensures
        forall|i: int|
            0 <= i < candidates_of_objects(g, e, reg, n).len() ==> !applied_to(e).contains(
                #[trigger] candidates_of_objects(g, e, reg, n)[i],
            ),
    decreases n,
{
    if 0 < n <= g.object_ids.len() {
        let id = g.object_ids[n - 1];
        lemma_objects_candidates_fresh(g, e, reg, (n - 1) as nat);
        let k = g.objects[id].replacement_definitions.len();
        lemma_object_candidates_fresh(g, e, reg, id, k);
        let front = candidates_of_objects(g, e, reg, (n - 1) as nat);
        let back = candidates_of_object(g, e, reg, id, k);
        let all = candidates_of_objects(g, e, reg, n);
        assert forall|i: int| 0 <= i < all.len() implies !applied_to(e).contains(
            #[trigger] all[i],
        ) by {
            if i < front.len() {
                assert(all[i] == front[i]);
            } else {
                assert(all[i] == back[i - front.len()]);
            }
        }
    }
}

proof fn lemma_shields_fresh(g: Game, e: ProposedModel, reg: Map<u32, u32>, n: nat)
    ensures
        forall|i: int|
            0 <= i < shields(g, e, reg, n).len() ==> !applied_to(e).contains(
                #[trigger] shields(g, e, reg, n)[i],
            ),
    decreases n,
{
    if n > 0 {
        lemma_shields_fresh(g, e, reg, (n - 1) as nat);
        let front = shields(g, e, reg, (n - 1) as nat);
        let all = shields(g, e, reg, n);
        assert forall|i: int| 0 <= i < all.len() implies !applied_to(e).contains(
            #[trigger] all[i],
        ) by {
            if i < front.len() {
                assert(all[i] == front[i]);
            }
        }
    }
}

/// A replacement applies to an event only once: what was applied is no candidate any more.
pub proof fn no_replacement_applies_twice(
    g: Game,
    e: ProposedModel,
    reg: Map<u32, u32>,
    rid: ReplacementId,
)
    requires
        applied_to(e).contains(rid),
    ensures
        !candidates(g, e, reg).contains(rid),
{
    reveal(candidates);
    lemma_objects_candidates_fresh(g, e, reg, g.object_ids.len());
    lemma_shields_fresh(g, e, reg, g.pending_damage_prevention.len());
    let all = candidates(g, e, reg);
    if all.contains(rid) {
        let i = choose|i: int| 0 <= i < all.len() && all[i] == rid;
        let front = candidates_of_objects(g, e, reg, g.object_ids.len());
        if i < front.len() {
            assert(all[i] == front[i]);
        } else {
            assert(all[i] == shields(g, e, reg, g.pending_damage_prevention.len())[i
                - front.len()]);
        }
    }
}

proof fn lemma_handled_remembers(
    h: Handler,
    e: ProposedModel,
    rid: ReplacementId,
    g: Game,
    told: Seq<EventModel>,
    nesting: nat,
)
    ensures
        match handled(h, e, rid, g, told, nesting).event {
            Some(n) => applied_to(n) == applied_to(e),
            None => true,
        },
{
    reveal(damage_replaced);
    reveal(destruction_replaced);
    reveal(draw_replaced);
    reveal(life_gain_replaced);
    reveal(life_loss_doubled);
    reveal(counters_replaced);
    reveal(mana_replaced);
    reveal(discard_as_move);
    reveal_with_fuel(handled, 2);
    reveal_with_fuel(tokens_replaced, 2);
}

proof fn lemma_modifiers_remember(e: ProposedModel, m: ModifiersModel)
    ensures
        applied_to(with_modifiers(e, m)) == applied_to(e),
{
    reveal(with_modifiers);
}

/// An event that a replacement changed remembers it, and all that were applied before.
pub proof fn applied_replacements_are_remembered(
    g: Game,
    e: ProposedModel,
    rid: ReplacementId,
    b: ReplacementBranch,
    reg: Map<u32, u32>,
    told: Seq<EventModel>,
    nesting: nat,
)
    ensures
        match replaced_once(g, marked(e, rid), rid, b, reg, told, nesting).event {
            Some(n) => applied_to(n) == applied_to(e).insert(rid),
            None => true,
        },
{
    let m = marked(e, rid);
    assert(applied_to(m) == applied_to(e).insert(rid)) by {
        reveal(marked);
    }
    match definition_of(g, rid) {
        Some(d) => match handler_in(reg, d.event) {
            Some(entry) => {
                let out = handled(entry.applier, m, rid, g, told, nesting);
                lemma_handled_remembers(entry.applier, m, rid, g, told, nesting);
                reveal_with_fuel(replaced_once, 2);
                if let Some(n) = out.event {
                    lemma_modifiers_remember(
                        n,
                        modifiers_of(branch_ability(d, b), g, rid.source, m),
                    );
                }
            },
            None => {},
        },
        None => {},
    }
}

/// An event to which nothing applies happens as it was proposed, and nothing else changes.
pub proof fn nothing_applies_nothing_changes(g: Game, e: ProposedModel, told: Seq<EventModel>)
    requires
        candidates(g, e, full_registry()).len() == 0,
    ensures
        event_replaced(g, e, told) == (Processed {
            game: g,
            told,
            result: ResultModel::Execute(e),
        }),
{
    reveal(event_replaced);
}

/// When a player is asked, the choice is pending and can be continued, and fewer replacements
/// than the limit were applied so far.
pub proof fn what_is_asked_can_be_continued(
    g: Game,
    e: ProposedModel,
    told: Seq<EventModel>,
    depth: nat,
    reg: Map<u32, u32>,
    nesting: nat,
)
    ensures
        processed(g, e, told, depth, reg, nesting).result is NeedsChoice ==> {
            let p = processed(g, e, told, depth, reg, nesting).game.pending_replacement;
            p is Some && can_continue(p->0) && p->0.depth < MAX_REPLACEMENT_DEPTH
        },
    decreases MAX_REPLACEMENT_DEPTH - depth,
{
    let rids = candidates(g, e, reg);
    if depth < MAX_REPLACEMENT_DEPTH && rids.len() == 1 && !may_be_declined(g, rids[0]) {
        let out = replaced_once(
            g,
            marked(e, rids[0]),
            rids[0],
            ReplacementBranch::Execute,
            reg,
            told,
            nesting,
        );
        if let Some(n) = out.event {
            what_is_asked_can_be_continued(out.game, n, out.told, depth + 1, reg, nesting);
        }
    }
}

/// The number of replacements that are applied to an event until it happens, is prevented or
/// waits for a choice.
pub open spec fn applications(
    g: Game,
    e: ProposedModel,
    told: Seq<EventModel>,
    depth: nat,
    reg: Map<u32, u32>,
    nesting: nat,
) -> nat
    decreases
            (if depth < MAX_REPLACEMENT_DEPTH {
                MAX_REPLACEMENT_DEPTH - depth
            } else {
                0
            }),
{
    let rids = candidates(g, e, reg);
    if depth >= MAX_REPLACEMENT_DEPTH || rids.len() != 1 || may_be_declined(g, rids[0]) {
        0
    } else {
        let out = replaced_once(
            g,
            marked(e, rids[0]),
            rids[0],
            ReplacementBranch::Execute,
            reg,
            told,
            nesting,
        );
        match out.event {
            None => 1,
            Some(n) => 1 + applications(out.game, n, out.told, depth + 1, reg, nesting),
        }
    }
}

/// No more replacements are applied to an event than the limit allows, and one that happens has
/// no replacement left that applies unless the limit is reached.
pub proof fn an_event_happens_when_nothing_applies_any_more(
    g: Game,
    e: ProposedModel,
    told: Seq<EventModel>,
    depth: nat,
    reg: Map<u32, u32>,
    nesting: nat,
)
    requires
        depth <= MAX_REPLACEMENT_DEPTH,
    ensures
        depth + applications(g, e, told, depth, reg, nesting) <= MAX_REPLACEMENT_DEPTH,
        match processed(g, e, told, depth, reg, nesting).result {
            ResultModel::Execute(n) => candidates(
                processed(g, e, told, depth, reg, nesting).game,
                n,
                reg,
            ).len() == 0 || depth + applications(g, e, told, depth, reg, nesting)
                == MAX_REPLACEMENT_DEPTH,
            _ => true,
        },
    decreases MAX_REPLACEMENT_DEPTH - depth,
{
    let rids = candidates(g, e, reg);
    if depth < MAX_REPLACEMENT_DEPTH && rids.len() == 1 && !may_be_declined(g, rids[0]) {
        let out = replaced_once(
            g,
            marked(e, rids[0]),
            rids[0],
            ReplacementBranch::Execute,
            reg,
            told,
            nesting,
        );
        if let Some(n) = out.event {
            an_event_happens_when_nothing_applies_any_more(
                out.game,
                n,
                out.told,
                depth + 1,
                reg,
                nesting,
            );
        }
    }
}

/// Whether the tokens that a replacement appends to a batch are all made, rather than some of them
/// left out for being nested too deep.
pub open spec fn appends_all(
    e: ProposedModel,
    rid: ReplacementId,
    g: Game,
    told: Seq<EventModel>,
    nesting: nat,
) -> bool
    decreases nesting, 1nat, 0nat,
{
    match (e, extra_tokens(g, rid)) {
        (ProposedModel::CreateToken { owner, count, .. }, Some(extra)) => nesting > 0
            && leaves_nothing_out(
            g,
            appended_batch(g, rid, extra, owner, changed_count(count_change(g, rid), count)),
            told,
            0,
            full_registry(),
            (nesting - 1) as nat,
        ),
        _ => true,
    }
}

/// Whether a replacement is one of the creation of tokens.
pub open spec fn makes_tokens(g: Game, rid: ReplacementId, reg: Map<u32, u32>) -> bool {
    match definition_of(g, rid) {
        Some(d) => handler_in(reg, d.event) is Some && handler_in(reg, d.event)->0.applier
            == Handler::CreateToken,
        None => false,
    }
}

/// Whether all tokens are made that are appended while replacements are applied to an event.
pub open spec fn leaves_nothing_out(
    g: Game,
    e: ProposedModel,
    told: Seq<EventModel>,
    depth: nat,
    reg: Map<u32, u32>,
    nesting: nat,
) -> bool
    decreases
            nesting,
            2nat,
            (if depth < MAX_REPLACEMENT_DEPTH {
                MAX_REPLACEMENT_DEPTH - depth
            } else {
                0
            }),
{
    let rids = candidates(g, e, reg);
    if depth >= MAX_REPLACEMENT_DEPTH || rids.len() != 1 || may_be_declined(g, rids[0]) {
        true
    } else {
        let m = marked(e, rids[0]);
        let out = replaced_once(g, m, rids[0], ReplacementBranch::Execute, reg, told, nesting);
        &&& makes_tokens(g, rids[0], reg) ==> appends_all(m, rids[0], g, told, nesting)
        &&& out.event is Some ==> leaves_nothing_out(
            out.game,
            out.event->0,
            out.told,
            depth + 1,
            reg,
            nesting,
        )
    }
}

proof fn lemma_handled_alike(
    h: Handler,
    e: ProposedModel,
    rid: ReplacementId,
    g: Game,
    told: Seq<EventModel>,
    n: nat,
    m: nat,
)
    requires
        n <= m,
        h is CreateToken ==> appends_all(e, rid, g, told, n),
    ensures
        handled(h, e, rid, g, told, m) == handled(h, e, rid, g, told, n),
    decreases n, 1nat, 0nat,
{
    if h is CreateToken && e is CreateToken && extra_tokens(g, rid) is Some {
        let batch = appended_batch(
            g,
            rid,
            extra_tokens(g, rid)->0,
            e->CreateToken_owner,
            changed_count(count_change(g, rid), e->CreateToken_count),
        );
        the_limit_touches_only_what_is_nested_too_deep(
            g,
            batch,
            told,
            0,
            full_registry(),
            (n - 1) as nat,
            (m - 1) as nat,
        );
        assert(batch_appended(g, told, batch, m) == batch_appended(g, told, batch, n));
        assert(tokens_replaced(e, rid, g, told, m) == tokens_replaced(e, rid, g, told, n));
    } else {
        assert(h is CreateToken ==> tokens_replaced(e, rid, g, told, m) == tokens_replaced(
            e,
            rid,
            g,
            told,
            n,
        ));
    }
}

/// The limit on nesting touches only tokens that are appended beyond it: where none are left out,
/// a higher limit makes no difference.
pub proof fn the_limit_touches_only_what_is_nested_too_deep(
    g: Game,
    e: ProposedModel,
    told: Seq<EventModel>,
    depth: nat,
    reg: Map<u32, u32>,
    n: nat,
    m: nat,
)
    requires
        n <= m,
        leaves_nothing_out(g, e, told, depth, reg, n),
    ensures
        processed(g, e, told, depth, reg, m) == processed(g, e, told, depth, reg, n),
    decreases
            n,
            2nat,
            (if depth < MAX_REPLACEMENT_DEPTH {
                MAX_REPLACEMENT_DEPTH - depth
            } else {
                0
            }),
{
    let rids = candidates(g, e, reg);
    if depth < MAX_REPLACEMENT_DEPTH && rids.len() == 1 && !may_be_declined(g, rids[0]) {
        let rid = rids[0];
        let x = marked(e, rid);
        let b = ReplacementBranch::Execute;
        match definition_of(g, rid) {
            Some(d) => match handler_in(reg, d.event) {
                Some(entry) => lemma_handled_alike(entry.applier, x, rid, g, told, n, m),
                None => {},
            },
            None => {},
        }
        let out = replaced_once(g, x, rid, b, reg, told, n);
        assert(replaced_once(g, x, rid, b, reg, told, m) == out);
        if let Some(next) = out.event {
            the_limit_touches_only_what_is_nested_too_deep(
                out.game,
                next,
                out.told,
                depth + 1,
                reg,
                n,
                m,
            );
        }
    }
}

/// Whether no definition appends tokens to a batch that lies in one that it has appended itself,
/// where `path` are the definitions that have appended what this event lies in.
pub open spec fn appends_in_no_circle(
    e: ProposedModel,
    rid: ReplacementId,
    g: Game,
    told: Seq<EventModel>,
    nesting: nat,
    path: Set<ReplacementId>,
) -> bool
    decreases nesting, 1nat, 0nat,
{
    match (e, extra_tokens(g, rid)) {
        (ProposedModel::CreateToken { owner, count, .. }, Some(extra)) => !path.contains(rid) && (
        nesting > 0 ==> goes_in_no_circle(
            g,
            appended_batch(g, rid, extra, owner, changed_count(count_change(g, rid), count)),
            told,
            0,
            full_registry(),
            (nesting - 1) as nat,
            path.insert(rid),
        )),
        _ => true,
    }
}

/// Whether, while replacements are applied to an event, no definition appends tokens to a batch
/// that lies in one that it has appended itself.
pub open spec fn goes_in_no_circle(
    g: Game,
    e: ProposedModel,
    told: Seq<EventModel>,
    depth: nat,
    reg: Map<u32, u32>,
    nesting: nat,
    path: Set<ReplacementId>,
) -> bool
    decreases
            nesting,
            2nat,
            (if depth < MAX_REPLACEMENT_DEPTH {
                MAX_REPLACEMENT_DEPTH - depth
            } else {
                0
            }),
{
    let rids = candidates(g, e, reg);
    if depth >= MAX_REPLACEMENT_DEPTH || rids.len() != 1 || may_be_declined(g, rids[0]) {
        true
    } else {
        let m = marked(e, rids[0]);
        let out = replaced_once(g, m, rids[0], ReplacementBranch::Execute, reg, told, nesting);
        &&& makes_tokens(g, rids[0], reg) ==> appends_in_no_circle(
            m,
            rids[0],
            g,
            told,
            nesting,
            path,
        )
        &&& out.event is Some ==> goes_in_no_circle(
            out.game,
            out.event->0,
            out.told,
            depth + 1,
            reg,
            nesting,
            path,
        )
    }
}

/// Whether all definitions that append tokens in the second game do so in the first.
pub open spec fn appends_no_more(g: Game, h: Game) -> bool {
    forall|rid: ReplacementId| #[trigger]
        extra_tokens(h, rid) is Some ==> extra_tokens(g, rid) is Some
}

proof fn lemma_same_objects_append_no_more(g: Game, h: Game, k: Game)
    requires
        appends_no_more(g, h),
        h.objects == k.objects,
    ensures
        appends_no_more(g, k),
{
    assert forall|rid: ReplacementId| #[trigger] extra_tokens(k, rid) is Some implies extra_tokens(
        g,
        rid,
    ) is Some by {
        assert(extra_tokens(k, rid) == extra_tokens(h, rid));
    }
}

proof fn lemma_tokens_append_no_more(
    g: Game,
    owner: PlayerId,
    spec: TokenModel,
    tapped: bool,
    n: nat,
)
    ensures
        appends_no_more(g, tokens_made(g, owner, spec, tapped, n)),
    decreases n,
{
    if n > 0 {
        let h = tokens_made(g, owner, spec, tapped, (n - 1) as nat);
        lemma_tokens_append_no_more(g, owner, spec, tapped, (n - 1) as nat);
        let k = token_made(h, owner, spec, tapped);
        assert forall|rid: ReplacementId| #[trigger] extra_tokens(k, rid) is Some implies extra_tokens(
            h,
            rid,
        ) is Some by {
            let p = token_placed(h, owner, spec, tapped);
            assert(k.objects == p.objects);
            assert(p.objects[next_id(h)].replacement_definitions.len() == 0);
        }
    }
}

proof fn lemma_batch_appends_no_more(
    g: Game,
    told: Seq<EventModel>,
    batch: ProposedModel,
    nesting: nat,
)
    ensures
        appends_no_more(g, batch_appended(g, told, batch, nesting).0),
    decreases nesting, 0nat, 0nat,
{
    if nesting > 0 {
        let p = processed(g, batch, told, 0, full_registry(), (nesting - 1) as nat);
        lemma_processed_appends_no_more(g, batch, told, 0, full_registry(), (nesting - 1) as nat);
        match p.result {
            ResultModel::Execute(ProposedModel::CreateToken { owner, spec, enter_tapped, count, .. }) => {
                reveal(tokens_created);
                lemma_tokens_append_no_more(
                    p.game,
                    owner,
                    spec,
                    enters_tapped(enter_tapped, spec.tapped),
                    count as nat,
                );
            },
            _ => {
                reveal(tokens_created);
            },
        }
    }
}

proof fn lemma_shield_appends_no_more(
    g: Game,
    rid: ReplacementId,
    left: Option<PreventionAmount>,
)
    ensures
        appends_no_more(g, shield_used(g, rid, left)),
        appends_no_more(g, own_definition_used(g, rid)),
{
    let h = shield_used(g, rid, left);
    assert forall|r: ReplacementId| #[trigger] extra_tokens(h, r) is Some implies extra_tokens(
        g,
        r,
    ) is Some by {
        if definition_of(g, rid) is Some && rid.source != ObjectId(0) && r.source == rid.source {
            assert(own_definition(g, r) is Some);
        }
    }
    let k = own_definition_used(g, rid);
    assert forall|r: ReplacementId| #[trigger] extra_tokens(k, r) is Some implies extra_tokens(
        g,
        r,
    ) is Some by {
        if own_definition(g, rid) is Some && r.source == rid.source {
            assert(own_definition(g, r) is Some);
        }
    }
}

proof fn lemma_damage_appends_no_more(
    e: ProposedModel,
    rid: ReplacementId,
    g: Game,
    told: Seq<EventModel>,
)
    ensures
        appends_no_more(g, damage_replaced(e, rid, g, told).game),
{
    reveal(damage_replaced);
    if let (ProposedModel::Damage { amount, .. }, Some(d)) = (e, definition_of(g, rid)) {
        if let (None, ShieldKind::Prevention { amount: a }) = (d.damage_modification, d.shield_kind) {
            let left = prevention_left(a, amount);
            lemma_shield_appends_no_more(g, rid, left);
            lemma_same_objects_append_no_more(
                g,
                shield_used(g, rid, left),
                damage_replaced(e, rid, g, told).game,
            );
        }
    }
}

proof fn lemma_destruction_appends_no_more(
    e: ProposedModel,
    rid: ReplacementId,
    g: Game,
    told: Seq<EventModel>,
)
    ensures
        appends_no_more(g, destruction_replaced(e, rid, g, told).game),
{
    reveal(destruction_replaced);
    if let ProposedModel::Destroy { object_id, .. } = e {
        let h = healed_and_tapped(g, object_id);
        let k = out_of_combat(h, object_id);
        lemma_shield_appends_no_more(k, rid, None);
        assert forall|r: ReplacementId| #[trigger] extra_tokens(h, r) is Some implies extra_tokens(
            g,
            r,
        ) is Some by {
            assert(own_definition(h, r) == own_definition(g, r));
        }
        lemma_same_objects_append_no_more(g, h, k);
    }
}

proof fn lemma_handled_appends_no_more(
    h: Handler,
    e: ProposedModel,
    rid: ReplacementId,
    g: Game,
    told: Seq<EventModel>,
    nesting: nat,
)
    ensures
        appends_no_more(g, handled(h, e, rid, g, told, nesting).game),
    decreases nesting, 1nat, 0nat,
{
    match h {
        Handler::DamageDone => {
            lemma_damage_appends_no_more(e, rid, g, told);
        },
        Handler::Destroy => {
            lemma_destruction_appends_no_more(e, rid, g, told);
        },
        Handler::CreateToken => {
            if let ProposedModel::CreateToken { owner, count, .. } = e {
                if let Some(extra) = extra_tokens(g, rid) {
                    lemma_batch_appends_no_more(
                        g,
                        told,
                        appended_batch(
                            g,
                            rid,
                            extra,
                            owner,
                            changed_count(count_change(g, rid), count),
                        ),
                        nesting,
                    );
                }
            }
        },
        _ => {},
    }
}

proof fn lemma_once_appends_no_more(
    g: Game,
    e: ProposedModel,
    rid: ReplacementId,
    b: ReplacementBranch,
    reg: Map<u32, u32>,
    told: Seq<EventModel>,
    nesting: nat,
)
    ensures
        appends_no_more(g, replaced_once(g, e, rid, b, reg, told, nesting).game),
    decreases nesting, 2nat, 0nat,
{
    match definition_of(g, rid) {
        Some(d) => match handler_in(reg, d.event) {
            Some(entry) => {
                lemma_handled_appends_no_more(entry.applier, e, rid, g, told, nesting);
                lemma_same_objects_append_no_more(
                    g,
                    handled(entry.applier, e, rid, g, told, nesting).game,
                    replaced_once(g, e, rid, b, reg, told, nesting).game,
                );
            },
            None => {},
        },
        None => {},
    }
}

proof fn lemma_processed_appends_no_more(
    g: Game,
    e: ProposedModel,
    told: Seq<EventModel>,
    depth: nat,
    reg: Map<u32, u32>,
    nesting: nat,
)
    ensures
        appends_no_more(g, processed(g, e, told, depth, reg, nesting).game),
    decreases
            nesting,
            3nat,
            (if depth < MAX_REPLACEMENT_DEPTH {
                MAX_REPLACEMENT_DEPTH - depth
            } else {
                0
            }),
{
    let rids = candidates(g, e, reg);
    if depth < MAX_REPLACEMENT_DEPTH && rids.len() == 1 && !may_be_declined(g, rids[0]) {
        let x = marked(e, rids[0]);
        let b = ReplacementBranch::Execute;
        let out = replaced_once(g, x, rids[0], b, reg, told, nesting);
        lemma_once_appends_no_more(g, x, rids[0], b, reg, told, nesting);
        if let Some(next) = out.event {
            lemma_processed_appends_no_more(out.game, next, out.told, depth + 1, reg, nesting);
        }
    }
}

proof fn lemma_appending_of_object(g: Game, id: ObjectId, n: nat, rid: ReplacementId)
    requires
        rid.source == id,
        rid.index < n,
        extra_tokens(g, rid) is Some,
    ensures
        appending_of_object(g, id, n).contains(rid),
    decreases n,
{
    let front = appending_of_object(g, id, (n - 1) as nat);
    let all = appending_of_object(g, id, n);
    if rid.index == n - 1 {
        assert(all.last() == rid);
    } else {
        lemma_appending_of_object(g, id, (n - 1) as nat, rid);
        let i = choose|i: int| 0 <= i < front.len() && front[i] == rid;
        assert(all[i] == rid);
    }
}

proof fn lemma_appending_of_objects(g: Game, n: nat, i: int, rid: ReplacementId)
    requires
        0 <= i < n <= g.object_ids.len(),
        g.object_ids[i] == rid.source,
        extra_tokens(g, rid) is Some,
    ensures
        appending_of_objects(g, n).contains(rid),
    decreases n,
{
    let id = g.object_ids[n - 1];
    let k = g.objects[id].replacement_definitions.len();
    let front = appending_of_objects(g, (n - 1) as nat);
    let back = appending_of_object(g, id, k);
    let all = appending_of_objects(g, n);
    if i == n - 1 {
        lemma_appending_of_object(g, id, k, rid);
        let j = choose|j: int| 0 <= j < back.len() && back[j] == rid;
        assert(all[front.len() + j] == rid);
    } else {
        lemma_appending_of_objects(g, (n - 1) as nat, i, rid);
        let j = choose|j: int| 0 <= j < front.len() && front[j] == rid;
        assert(all[j] == rid);
    }
}

proof fn lemma_appended_all(
    e: ProposedModel,
    rid: ReplacementId,
    g: Game,
    told: Seq<EventModel>,
    nesting: nat,
    path: Set<ReplacementId>,
    all: Set<ReplacementId>,
)
    requires
        all.finite(),
        path.subset_of(all),
        path.len() + nesting >= all.len(),
        forall|r: ReplacementId| #[trigger] extra_tokens(g, r) is Some ==> all.contains(r),
        appends_in_no_circle(e, rid, g, told, nesting, path),
    ensures
        appends_all(e, rid, g, told, nesting),
    decreases nesting, 1nat, 0nat,
{
    if let ProposedModel::CreateToken { owner, count, .. } = e {
        if let Some(extra) = extra_tokens(g, rid) {
            vstd::set_lib::lemma_len_subset(path, all);
            vstd::set_lib::lemma_len_subset(path.insert(rid), all);
            lemma_nothing_left_out(
                g,
                appended_batch(g, rid, extra, owner, changed_count(count_change(g, rid), count)),
                told,
                0,
                full_registry(),
                (nesting - 1) as nat,
                path.insert(rid),
                all,
            );
        }
    }
}

proof fn lemma_nothing_left_out(
    g: Game,
    e: ProposedModel,
    told: Seq<EventModel>,
    depth: nat,
    reg: Map<u32, u32>,
    nesting: nat,
    path: Set<ReplacementId>,
    all: Set<ReplacementId>,
)
    requires
        all.finite(),
        path.subset_of(all),
        path.len() + nesting >= all.len(),
        forall|r: ReplacementId| #[trigger] extra_tokens(g, r) is Some ==> all.contains(r),
        goes_in_no_circle(g, e, told, depth, reg, nesting, path),
    ensures
        leaves_nothing_out(g, e, told, depth, reg, nesting),
    decreases
            nesting,
            2nat,
            (if depth < MAX_REPLACEMENT_DEPTH {
                MAX_REPLACEMENT_DEPTH - depth
            } else {
                0
            }),
{
    let rids = candidates(g, e, reg);
    if depth < MAX_REPLACEMENT_DEPTH && rids.len() == 1 && !may_be_declined(g, rids[0]) {
        let rid = rids[0];
        let x = marked(e, rid);
        let b = ReplacementBranch::Execute;
        if makes_tokens(g, rid, reg) {
            lemma_appended_all(x, rid, g, told, nesting, path, all);
        }
        let out = replaced_once(g, x, rid, b, reg, told, nesting);
        if let Some(next) = out.event {
            lemma_once_appends_no_more(g, x, rid, b, reg, told, nesting);
            lemma_nothing_left_out(
                out.game,
                next,
                out.told,
                depth + 1,
                reg,
                nesting,
                path,
                all,
            );
        }
    }
}

/// Tokens are left out only where a definition appends tokens to a batch that lies in one that it
/// has appended itself: where none does, all tokens are made, and a higher limit makes no
/// difference.
pub proof fn only_circles_are_cut_short(
    g: Game,
    e: ProposedModel,
    told: Seq<EventModel>,
    depth: nat,
    reg: Map<u32, u32>,
    m: nat,
)
    requires
        is_listed(g),
        goes_in_no_circle(g, e, told, depth, reg, token_nesting(g), Set::empty()),
        token_nesting(g) <= m,
    ensures
        leaves_nothing_out(g, e, told, depth, reg, token_nesting(g)),
        processed(g, e, told, depth, reg, m) == processed(
            g,
            e,
            told,
            depth,
            reg,
            token_nesting(g),
        ),
{
    let all = appending(g).to_set();
    appending(g).lemma_cardinality_of_set();
    assert forall|r: ReplacementId| #[trigger] extra_tokens(g, r) is Some implies all.contains(
        r,
    ) by {
        reveal(appending);
        assert(g.objects.dom().contains(r.source));
        let i = choose|i: int| 0 <= i < g.object_ids.len() && g.object_ids[i] == r.source;
        lemma_appending_of_objects(g, g.object_ids.len(), i, r);
    }
    vstd::seq_lib::seq_to_set_is_finite(appending(g));
    lemma_nothing_left_out(g, e, told, depth, reg, token_nesting(g), Set::empty(), all);
    the_limit_touches_only_what_is_nested_too_deep(g, e, told, depth, reg, token_nesting(g), m);
}

/// A shield prevents no more damage than there is and no more than it can, and what it does not
/// prevent is dealt.
pub proof fn prevented_and_dealt_add_up(
    g: Game,
    rid: ReplacementId,
    told: Seq<EventModel>,
    source_id: ObjectId,
    target: TargetRef,
    amount: u32,
    is_combat: bool,
    applied: Set<ReplacementId>,
    a: PreventionAmount,
)
    requires
        definition_of(g, rid) is Some,
        definition_of(g, rid)->0.damage_modification is None,
        definition_of(g, rid)->0.shield_kind == (ShieldKind::Prevention { amount: a }),
    ensures
        ({
            let e = ProposedModel::Damage { source_id, target, amount, is_combat, applied };
            let out = damage_replaced(e, rid, g, told);
            let part = prevented_part(a, amount);
            &&& part <= amount
            &&& a is Next ==> part <= a->Next_0
            &&& match out.event {
                None => part == amount,
                Some(n) => n == (ProposedModel::Damage {
                    source_id,
                    target,
                    amount: (amount - part) as u32,
                    is_combat,
                    applied,
                }) && part < amount,
            }
        }),
{
    reveal(damage_replaced);
}

/// A shield that is used up does not apply again.
pub proof fn used_up_shields_do_not_apply(
    g: Game,
    e: ProposedModel,
    reg: Map<u32, u32>,
    id: ObjectId,
    index: usize,
)
    requires
        object_at(g, id) is Some,
        index < object_at(g, id)->0.replacement_definitions.len(),
        object_at(g, id)->0.replacement_definitions[index as int].is_consumed,
    ensures
        !crate::applicability::is_candidate(g, e, reg, id, index),
{
}

} // verus!
