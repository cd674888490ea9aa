//! Tokens: what they are like and how they come into a game.

use vstd::prelude::*;
use crate::ability::{TargetFilter, TokenModel, TokenSpec};
use crate::cards::{
    copy_colors, copy_keywords, counter_named, parse_counter_type, CardType, CardTypeModel,
    CounterKind, CounterType, Zone,
};
use crate::events::{emit, log, EventModel, GameEvent, ProposedEvent, ProposedModel};
use crate::filter::{filter_holds, is_meant_by, Scope, ScopeModel};
use crate::ids::{CardId, ObjectId, PlayerId};
use crate::keyed::Table;
use crate::object::{blank, GameObject, ObjectModel};
use crate::proposals::enters_tapped;
use crate::restrictions::{
    entered, record_battlefield_entry, record_token_created, token_created,
};
use crate::state::{count_in, count_of_key, object_at, with_object, Game, GameState};
use crate::zones::{create_object, created, next_id};

verus! {

broadcast use crate::views::group_views;

/// The sum of two numbers, or the largest one of 32 bits.
pub open spec fn sum_or_most(a: u32, b: u32) -> u32 {
    if a + b > u32::MAX {
        u32::MAX
    } else {
        (a + b) as u32
    }
}

/// The counters that the first `n` entries of a list put on top of others.
pub open spec fn counters_from(
    start: Map<CounterKind, u32>,
    list: Seq<(String, u32)>,
    n: nat,
) -> Map<CounterKind, u32>
    decreases n,
{
    if n == 0 || n > list.len() {
        start
    } else {
        let front = counters_from(start, list, (n - 1) as nat);
        let kind = counter_named(list[n - 1].0@);
        front.insert(kind, sum_or_most(count_in(front, kind), list[n - 1].1))
    }
}

fn put_counters(counters: &mut Table<CounterType, u32>, list: &Vec<(String, u32)>)
    ensures
        final(counters)@ == counters_from(old(counters)@, list@, list@.len()),
{
    let ghost start = counters@;
    let mut i: usize = 0;
    while i < list.len()
        invariant
            i <= list@.len(),
            counters@ == counters_from(start, list@, i as nat),
        decreases list.len() - i,
    {
        let kind = parse_counter_type(list[i].0.as_str());
        let before: u32 = count_of_key(counters, &kind);
        let after: u32 = before.saturating_add(list[i].1);
        counters.insert(kind, after);
        i += 1;
    }
}

/// The types of a token.
pub open spec fn token_types(spec: TokenModel) -> CardTypeModel {
    CardTypeModel {
        supertypes: spec.supertypes@,
        core_types: spec.core_types@,
        subtypes: spec.subtypes@,
    }
}

fn types_of_token(spec: &TokenSpec) -> (r: CardType)
    ensures
        r@ == token_types(spec@),
{
    let supertypes = (*spec.supertypes).clone();
    let core_types = (*spec.core_types).clone();
    let subtypes = (*spec.subtypes).clone();
    assert(supertypes@ =~= spec.supertypes@);
    assert(core_types@ =~= spec.core_types@);
    assert(subtypes@ =~= spec.subtypes@);
    CardType { supertypes, core_types, subtypes }
}

/// A token that a description is carried out for.
pub open spec fn token_of(o: ObjectModel, spec: TokenModel, tapped: bool, turn: u32) -> ObjectModel {
    ObjectModel {
        is_token: true,
        power: spec.power,
        toughness: spec.toughness,
        card_types: token_types(spec),
        color: spec.colors@,
        keywords: spec.keywords@,
        static_definitions: spec.static_abilities@,
        base_power: spec.power,
        base_toughness: spec.toughness,
        base_card_types: token_types(spec),
        base_color: spec.colors@,
        base_keywords: spec.keywords@,
        base_static_definitions: spec.static_abilities@,
        base_characteristics_initialized: true,
        tapped,
        entered_battlefield_turn: Some(turn),
        counters: counters_from(
            o.counters,
            spec.enter_with_counters,
            spec.enter_with_counters.len(),
        ),
        ..o
    }
}

fn make_token(o: &mut GameObject, spec: &TokenSpec, tapped: bool, turn: u32)
    ensures
        final(o)@ == token_of(old(o)@, spec@, tapped, turn),
{
    o.is_token = true;
    o.power = spec.power;
    o.toughness = spec.toughness;
    o.card_types = types_of_token(spec);
    o.color = copy_colors(&spec.colors);
    o.keywords = copy_keywords(&spec.keywords);
    o.static_definitions = spec.static_abilities.clone();
    o.base_power = spec.power;
    o.base_toughness = spec.toughness;
    o.base_card_types = types_of_token(spec);
    o.base_color = copy_colors(&spec.colors);
    o.base_keywords = copy_keywords(&spec.keywords);
    o.base_static_definitions = spec.static_abilities.clone();
    o.base_characteristics_initialized = true;
    o.tapped = tapped;
    o.entered_battlefield_turn = Some(turn);
    put_counters(&mut o.counters, &spec.enter_with_counters);
}

/// The game with one more token, before anything is recorded of it.
pub open spec fn token_placed(g: Game, owner: PlayerId, spec: TokenModel, tapped: bool) -> Game {
    let h = created(g, CardId(0), owner, spec.display_name, Zone::Battlefield);
    Game {
        layers_dirty: true,
        ..with_object(
            h,
            next_id(g),
            token_of(object_at(h, next_id(g))->0, spec, tapped, g.turn_number),
        )
    }
}

/// The game with one more token.
pub open spec fn token_made(g: Game, owner: PlayerId, spec: TokenModel, tapped: bool) -> Game {
    entered(token_created(token_placed(g, owner, spec, tapped), next_id(g)), next_id(g))
}

fn place_token(state: &mut GameState, owner: PlayerId, spec: &TokenSpec, tapped: bool) -> (r:
    ObjectId)
    ensures
        r == next_id(old(state)@),
        final(state)@ == token_placed(old(state)@, owner, spec@, tapped),
{
    let turn: u32 = state.turn_number;
    let id = create_object(
        state,
        CardId(0),
        owner,
        spec.display_name.clone(),
        Zone::Battlefield,
    );
    let ghost h = state@;
    if let Some(o) = state.object_mut(id) {
        make_token(o, spec, tapped, turn);
    }
    state.layers_dirty = true;
    id
}

/// The game with `n` more tokens.
pub open spec fn tokens_made(
    g: Game,
    owner: PlayerId,
    spec: TokenModel,
    tapped: bool,
    n: nat,
) -> Game
    decreases n,
{
    if n == 0 {
        g
    } else {
        token_made(tokens_made(g, owner, spec, tapped, (n - 1) as nat), owner, spec, tapped)
    }
}

/// What is told of `n` more tokens.
pub open spec fn tokens_told(
    told: Seq<EventModel>,
    g: Game,
    owner: PlayerId,
    spec: TokenModel,
    tapped: bool,
    n: nat,
) -> Seq<EventModel>
    decreases n,
{
    if n == 0 {
        told
    } else {
        tokens_told(told, g, owner, spec, tapped, (n - 1) as nat).push(
            EventModel::TokenCreated {
                object_id: next_id(tokens_made(g, owner, spec, tapped, (n - 1) as nat)),
            },
        )
    }
}

/// The game after tokens that were to be created have been created.
#[verifier::opaque]
pub open spec fn tokens_created(g: Game, e: ProposedModel) -> Game {
    match e {
        ProposedModel::CreateToken { owner, spec, enter_tapped, count, .. } => tokens_made(
            g,
            owner,
            spec,
            enters_tapped(enter_tapped, spec.tapped),
            count as nat,
        ),
        _ => g,
    }
}

/// What is told when tokens that were to be created are created.
#[verifier::opaque]
pub open spec fn token_creation_told(
    told: Seq<EventModel>,
    g: Game,
    e: ProposedModel,
) -> Seq<EventModel> {
    match e {
        ProposedModel::CreateToken { owner, spec, enter_tapped, count, .. } => tokens_told(
            told,
            g,
            owner,
            spec,
            enters_tapped(enter_tapped, spec.tapped),
            count as nat,
        ),
        _ => told,
    }
}

/// Creates the tokens of an event that nothing replaces any more. Other events do nothing here.
pub fn apply_create_token_after_replacement(
    state: &mut GameState,
    event: ProposedEvent,
    events: &mut Vec<GameEvent>,
)
    ensures
        final(state)@ == tokens_created(old(state)@, event@),
        log(final(events)@) == token_creation_told(log(old(events)@), old(state)@, event@),
{
    proof {
        reveal(tokens_created);
        reveal(token_creation_told);
    }
    match event {
        ProposedEvent::CreateToken { owner, spec, enter_tapped, count, .. } => {
            let tapped = enter_tapped.resolve(spec.tapped);
            let ghost g = state@;
            let ghost told = log(events@);
            let mut i: u32 = 0;
            while i < count
                invariant
                    i <= count,
                    state@ == tokens_made(g, owner, spec@, tapped, i as nat),
                    log(events@) == tokens_told(told, g, owner, spec@, tapped, i as nat),
                decreases count - i,
            {
                let id = place_token(state, owner, &spec, tapped);
                record_token_created(state, id);
                record_battlefield_entry(state, id);
                emit(events, GameEvent::TokenCreated { object_id: id });
                i += 1;
            }
        },
        _ => {},
    }
}

/// An object as a filter sees it when it enters the battlefield under a player's control.
pub open spec fn on_entry(o: ObjectModel, controller: PlayerId) -> ObjectModel {
    ObjectModel {
        controller,
        card_types: o.card_types,
        mana_cost: o.mana_cost,
        keywords: o.keywords,
        color: o.color,
        power: o.power,
        toughness: o.toughness,
        ..blank(o.id, o.card_id, o.owner, o.name, Zone::Battlefield)
    }
}

fn entering_object(o: &GameObject, controller: PlayerId) -> (r: GameObject)
    ensures
        r@ == on_entry(o@, controller),
{
    let mut r = GameObject::new(o.id, o.card_id, o.owner, o.name.clone(), Zone::Battlefield);
    r.controller = controller;
    r.card_types = o.card_types.clone();
    r.mana_cost = o.mana_cost.clone();
    r.keywords = copy_keywords(&o.keywords);
    r.color = copy_colors(&o.color);
    r.power = o.power;
    r.toughness = o.toughness;
    r
}

/// A token as a filter sees it when it enters the battlefield.
pub open spec fn token_on_entry(owner: PlayerId, spec: TokenModel, turn: u32) -> ObjectModel {
    token_of(
        blank(ObjectId(0), CardId(0), owner, spec.display_name, Zone::Battlefield),
        spec,
        spec.tapped,
        turn,
    )
}

/// Whether a filter means what an event lets enter the battlefield, taken as it will be there.
pub open spec fn means_entry(g: Game, e: ProposedModel, f: TargetFilter, sc: ScopeModel) -> bool {
    match e {
        ProposedModel::ZoneChange { object_id, to, controller_override, .. } => to
            == Zone::Battlefield && match object_at(g, object_id) {
            Some(o) => is_meant_by(
                g,
                object_id,
                on_entry(
                    o,
                    match controller_override {
                        Some(p) => p,
                        None => o.controller,
                    },
                ),
                f,
                sc,
            ),
            None => false,
        },
        ProposedModel::CreateToken { owner, spec, .. } => is_meant_by(
            g,
            ObjectId(0),
            token_on_entry(owner, spec, g.turn_number),
            f,
            sc,
        ),
        _ => false,
    }
}

/// Whether a filter means what an event lets enter the battlefield, taken as it will be there: a
/// card under the control it enters with, a token under the control of its owner.
pub fn matches_target_filter_on_battlefield_entry<'a>(
    state: &GameState,
    event: &ProposedEvent,
    f: &TargetFilter,
    sc: Scope<'a>,
) -> (r: bool)
    ensures
        r == means_entry(state@, event@, *f, sc@),
{
    match event {
        ProposedEvent::ZoneChange { object_id, to, controller_override, .. } => {
            if *to != Zone::Battlefield {
                return false;
            }
            match state.object(*object_id) {
                Some(o) => {
                    let controller = match controller_override {
                        Some(p) => *p,
                        None => o.controller,
                    };
                    let entering = entering_object(o, controller);
                    filter_holds(state, *object_id, &entering, f, sc)
                },
                None => false,
            }
        },
        ProposedEvent::CreateToken { owner, spec, .. } => {
            let mut token = GameObject::new(
                ObjectId(0),
                CardId(0),
                *owner,
                spec.display_name.clone(),
                Zone::Battlefield,
            );
            make_token(&mut token, spec, spec.tapped, state.turn_number);
            filter_holds(state, ObjectId(0), &token, f, sc)
        },
        _ => false,
    }
}

} // verus!
