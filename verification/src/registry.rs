//! Which handler deals with which kind of replaced event.

use indexmap::IndexMap;
use std::collections::hash_map::RandomState;
use vstd::prelude::*;
use crate::ability::ReplacementEvent;

verus! {

/// The outside type `indexmap::IndexMap`, a hash map that keeps its entries in order.
#[verifier::external_type_specification]
#[verifier::external_body]
#[verifier::reject_recursive_types(K)]
#[verifier::reject_recursive_types(V)]
#[verifier::reject_recursive_types(S)]
pub struct ExIndexMap<K, V, S>(IndexMap<K, V, S>);

/// The entries of an `IndexMap` from numbers to numbers.
pub uninterp spec fn contents(m: IndexMap<u32, u32, RandomState>) -> Map<u32, u32>;

/// No entries.
pub open spec fn no_entries() -> Map<u32, u32> {
    Map::empty()
}

/// `IndexMap::new`: a map without entries.
#[verifier::external_body]
fn empty_map() -> (r: IndexMap<u32, u32, RandomState>)
    ensures
        contents(r) == no_entries(),
{
    IndexMap::new()
}

/// `IndexMap::insert`: the key has the value afterwards, and every other entry stays as it was.
#[verifier::external_body]
fn put(m: &mut IndexMap<u32, u32, RandomState>, key: u32, value: u32)
    ensures
        contents(*final(m)) == contents(*old(m)).insert(key, value),
{
    let _ = m.insert(key, value);
}

/// `IndexMap::get`: the value of a key, if it has one.
#[verifier::external_body]
fn look_up(m: &IndexMap<u32, u32, RandomState>, key: u32) -> (r: Option<u32>)
    ensures
        r == (if contents(*m).dom().contains(key) {
            Some(contents(*m)[key])
        } else {
            None
        }),
{
    m.get(&key).copied()
}

/// `IndexMap::len`: the number of entries.
#[verifier::external_body]
fn entry_count(m: &IndexMap<u32, u32, RandomState>) -> (r: usize)
    ensures
        r == contents(*m).dom().len(),
{
    m.len()
}

/// How events of some kind are recognized and replaced.
#[derive(Debug, Clone, Copy, PartialEq, Eq, Structural)]
pub enum Handler {
    Stub,
    DamageDone,
    ChangeZone,
    Moved,
    Discard,
    Destroy,
    Draw,
    GainLife,
    LifeReduced,
    LoseLife,
    AddCounter,
    RemoveCounter,
    Tap,
    Untap,
    Counter,
    CreateToken,
    Attached,
    DealtDamage,
    Mill,
    PayLife,
    ProduceMana,
    Placeholder,
    BeginTurn,
    BeginPhase,
}

/// How events of some kind are recognized, and how they are replaced.
#[derive(Debug, Clone, Copy, PartialEq, Eq, Structural)]
pub struct ReplacementHandlerEntry {
    pub matcher: Handler,
    pub applier: Handler,
}

/// The handlers by the kinds of events.
pub type ReplacementRegistry = IndexMap<u32, u32, RandomState>;

/// The number of a kind of event.
pub open spec fn event_number(e: ReplacementEvent) -> u32 {
    match e {
        ReplacementEvent::DamageDone => 0,
        ReplacementEvent::ChangeZone => 1,
        ReplacementEvent::Moved => 2,
        ReplacementEvent::Discard => 3,
        ReplacementEvent::Destroy => 4,
        ReplacementEvent::Draw => 5,
        ReplacementEvent::DrawCards => 6,
        ReplacementEvent::GainLife => 7,
        ReplacementEvent::LifeReduced => 8,
        ReplacementEvent::LoseLife => 9,
        ReplacementEvent::AddCounter => 10,
        ReplacementEvent::RemoveCounter => 11,
        ReplacementEvent::Tap => 12,
        ReplacementEvent::Untap => 13,
        ReplacementEvent::Counter => 14,
        ReplacementEvent::CreateToken => 15,
        ReplacementEvent::Attached => 16,
        ReplacementEvent::DealtDamage => 17,
        ReplacementEvent::Mill => 18,
        ReplacementEvent::PayLife => 19,
        ReplacementEvent::ProduceMana => 20,
        ReplacementEvent::TurnFaceUp => 21,
        ReplacementEvent::BeginTurn => 22,
        ReplacementEvent::BeginPhase => 23,
        ReplacementEvent::GameLoss => 24,
        ReplacementEvent::GameWin => 25,
    }
}

fn number_of_event(e: ReplacementEvent) -> (r: u32)
    ensures
        r == event_number(e),
{
    match e {
        ReplacementEvent::DamageDone => 0,
        ReplacementEvent::ChangeZone => 1,
        ReplacementEvent::Moved => 2,
        ReplacementEvent::Discard => 3,
        ReplacementEvent::Destroy => 4,
        ReplacementEvent::Draw => 5,
        ReplacementEvent::DrawCards => 6,
        ReplacementEvent::GainLife => 7,
        ReplacementEvent::LifeReduced => 8,
        ReplacementEvent::LoseLife => 9,
        ReplacementEvent::AddCounter => 10,
        ReplacementEvent::RemoveCounter => 11,
        ReplacementEvent::Tap => 12,
        ReplacementEvent::Untap => 13,
        ReplacementEvent::Counter => 14,
        ReplacementEvent::CreateToken => 15,
        ReplacementEvent::Attached => 16,
        ReplacementEvent::DealtDamage => 17,
        ReplacementEvent::Mill => 18,
        ReplacementEvent::PayLife => 19,
        ReplacementEvent::ProduceMana => 20,
        ReplacementEvent::TurnFaceUp => 21,
        ReplacementEvent::BeginTurn => 22,
        ReplacementEvent::BeginPhase => 23,
        ReplacementEvent::GameLoss => 24,
        ReplacementEvent::GameWin => 25,
    }
}

/// The number of a handler.
pub open spec fn handler_number(h: Handler) -> u32 {
    match h {
        Handler::Stub => 0,
        Handler::DamageDone => 1,
        Handler::ChangeZone => 2,
        Handler::Moved => 3,
        Handler::Discard => 4,
        Handler::Destroy => 5,
        Handler::Draw => 6,
        Handler::GainLife => 7,
        Handler::LifeReduced => 8,
        Handler::LoseLife => 9,
        Handler::AddCounter => 10,
        Handler::RemoveCounter => 11,
        Handler::Tap => 12,
        Handler::Untap => 13,
        Handler::Counter => 14,
        Handler::CreateToken => 15,
        Handler::Attached => 16,
        Handler::DealtDamage => 17,
        Handler::Mill => 18,
        Handler::PayLife => 19,
        Handler::ProduceMana => 20,
        Handler::Placeholder => 21,
        Handler::BeginTurn => 22,
        Handler::BeginPhase => 23,
    }
}

fn number_of_handler(h: Handler) -> (r: u32)
    ensures
        r == handler_number(h),
{
    match h {
        Handler::Stub => 0,
        Handler::DamageDone => 1,
        Handler::ChangeZone => 2,
        Handler::Moved => 3,
        Handler::Discard => 4,
        Handler::Destroy => 5,
        Handler::Draw => 6,
        Handler::GainLife => 7,
        Handler::LifeReduced => 8,
        Handler::LoseLife => 9,
        Handler::AddCounter => 10,
        Handler::RemoveCounter => 11,
        Handler::Tap => 12,
        Handler::Untap => 13,
        Handler::Counter => 14,
        Handler::CreateToken => 15,
        Handler::Attached => 16,
        Handler::DealtDamage => 17,
        Handler::Mill => 18,
        Handler::PayLife => 19,
        Handler::ProduceMana => 20,
        Handler::Placeholder => 21,
        Handler::BeginTurn => 22,
        Handler::BeginPhase => 23,
    }
}

/// The handler that has a number; a number that no handler has stands for the stub.
pub open spec fn numbered_handler(n: u32) -> Handler {
    if n == 1 {
        Handler::DamageDone
    } else if n == 2 {
        Handler::ChangeZone
    } else if n == 3 {
        Handler::Moved
    } else if n == 4 {
        Handler::Discard
    } else if n == 5 {
        Handler::Destroy
    } else if n == 6 {
        Handler::Draw
    } else if n == 7 {
        Handler::GainLife
    } else if n == 8 {
        Handler::LifeReduced
    } else if n == 9 {
        Handler::LoseLife
    } else if n == 10 {
        Handler::AddCounter
    } else if n == 11 {
        Handler::RemoveCounter
    } else if n == 12 {
        Handler::Tap
    } else if n == 13 {
        Handler::Untap
    } else if n == 14 {
        Handler::Counter
    } else if n == 15 {
        Handler::CreateToken
    } else if n == 16 {
        Handler::Attached
    } else if n == 17 {
        Handler::DealtDamage
    } else if n == 18 {
        Handler::Mill
    } else if n == 19 {
        Handler::PayLife
    } else if n == 20 {
        Handler::ProduceMana
    } else if n == 21 {
        Handler::Placeholder
    } else if n == 22 {
        Handler::BeginTurn
    } else if n == 23 {
        Handler::BeginPhase
    } else {
        Handler::Stub
    }
}

fn handler_by_number(n: u32) -> (r: Handler)
    ensures
        r == numbered_handler(n),
{
    if n == 1 {
        Handler::DamageDone
    } else if n == 2 {
        Handler::ChangeZone
    } else if n == 3 {
        Handler::Moved
    } else if n == 4 {
        Handler::Discard
    } else if n == 5 {
        Handler::Destroy
    } else if n == 6 {
        Handler::Draw
    } else if n == 7 {
        Handler::GainLife
    } else if n == 8 {
        Handler::LifeReduced
    } else if n == 9 {
        Handler::LoseLife
    } else if n == 10 {
        Handler::AddCounter
    } else if n == 11 {
        Handler::RemoveCounter
    } else if n == 12 {
        Handler::Tap
    } else if n == 13 {
        Handler::Untap
    } else if n == 14 {
        Handler::Counter
    } else if n == 15 {
        Handler::CreateToken
    } else if n == 16 {
        Handler::Attached
    } else if n == 17 {
        Handler::DealtDamage
    } else if n == 18 {
        Handler::Mill
    } else if n == 19 {
        Handler::PayLife
    } else if n == 20 {
        Handler::ProduceMana
    } else if n == 21 {
        Handler::Placeholder
    } else if n == 22 {
        Handler::BeginTurn
    } else if n == 23 {
        Handler::BeginPhase
    } else {
        Handler::Stub
    }
}

/// The handler that a registry has for a kind of event.
pub open spec fn handler_in(reg: Map<u32, u32>, e: ReplacementEvent) -> Option<
    ReplacementHandlerEntry,
> {
    if reg.dom().contains(event_number(e)) {
        let h = numbered_handler(reg[event_number(e)]);
        Some(ReplacementHandlerEntry { matcher: h, applier: h })
    } else {
        None
    }
}

/// The handler that a registry has for a kind of event.
pub fn registered_handler(registry: &ReplacementRegistry, e: ReplacementEvent) -> (r: Option<
    ReplacementHandlerEntry,
>)
    ensures
        r == handler_in(contents(*registry), e),
{
    match look_up(registry, number_of_event(e)) {
        Some(n) => {
            let h = handler_by_number(n);
            Some(ReplacementHandlerEntry { matcher: h, applier: h })
        },
        None => None,
    }
}

/// The number of kinds of events that a registry has a handler for.
pub fn registered_count(registry: &ReplacementRegistry) -> (r: usize)
    ensures
        r == contents(*registry).dom().len(),
{
    entry_count(registry)
}

/// The handler for a kind of event.
pub open spec fn handler_for(e: ReplacementEvent) -> Handler {
    match e {
        ReplacementEvent::DamageDone => Handler::DamageDone,
        ReplacementEvent::ChangeZone => Handler::ChangeZone,
        ReplacementEvent::Moved => Handler::Moved,
        ReplacementEvent::Discard => Handler::Discard,
        ReplacementEvent::Destroy => Handler::Destroy,
        ReplacementEvent::Draw => Handler::Draw,
        ReplacementEvent::DrawCards => Handler::Stub,
        ReplacementEvent::GainLife => Handler::GainLife,
        ReplacementEvent::LifeReduced => Handler::LifeReduced,
        ReplacementEvent::LoseLife => Handler::LoseLife,
        ReplacementEvent::AddCounter => Handler::AddCounter,
        ReplacementEvent::RemoveCounter => Handler::RemoveCounter,
        ReplacementEvent::Tap => Handler::Tap,
        ReplacementEvent::Untap => Handler::Untap,
        ReplacementEvent::Counter => Handler::Counter,
        ReplacementEvent::CreateToken => Handler::CreateToken,
        ReplacementEvent::Attached => Handler::Attached,
        ReplacementEvent::DealtDamage => Handler::DealtDamage,
        ReplacementEvent::Mill => Handler::Mill,
        ReplacementEvent::PayLife => Handler::PayLife,
        ReplacementEvent::ProduceMana => Handler::ProduceMana,
        ReplacementEvent::TurnFaceUp => Handler::Placeholder,
        ReplacementEvent::BeginTurn => Handler::BeginTurn,
        ReplacementEvent::BeginPhase => Handler::BeginPhase,
        ReplacementEvent::GameLoss => Handler::Stub,
        ReplacementEvent::GameWin => Handler::Stub,
    }
}

/// The registry with a handler for one more kind of event.
pub open spec fn with_handler(reg: Map<u32, u32>, e: ReplacementEvent, h: Handler) -> Map<u32, u32> {
    reg.insert(event_number(e), handler_number(h))
}

/// The registry of all handlers.
pub open spec fn full_registry() -> Map<u32, u32> {
    let reg = no_entries();
    let reg = with_handler(reg, ReplacementEvent::DamageDone, Handler::DamageDone);
    let reg = with_handler(reg, ReplacementEvent::ChangeZone, Handler::ChangeZone);
    let reg = with_handler(reg, ReplacementEvent::Moved, Handler::Moved);
    let reg = with_handler(reg, ReplacementEvent::Discard, Handler::Discard);
    let reg = with_handler(reg, ReplacementEvent::Destroy, Handler::Destroy);
    let reg = with_handler(reg, ReplacementEvent::Draw, Handler::Draw);
    let reg = with_handler(reg, ReplacementEvent::DrawCards, Handler::Stub);
    let reg = with_handler(reg, ReplacementEvent::GainLife, Handler::GainLife);
    let reg = with_handler(reg, ReplacementEvent::LifeReduced, Handler::LifeReduced);
    let reg = with_handler(reg, ReplacementEvent::LoseLife, Handler::LoseLife);
    let reg = with_handler(reg, ReplacementEvent::AddCounter, Handler::AddCounter);
    let reg = with_handler(reg, ReplacementEvent::RemoveCounter, Handler::RemoveCounter);
    let reg = with_handler(reg, ReplacementEvent::Tap, Handler::Tap);
    let reg = with_handler(reg, ReplacementEvent::Untap, Handler::Untap);
    let reg = with_handler(reg, ReplacementEvent::Counter, Handler::Counter);
    let reg = with_handler(reg, ReplacementEvent::CreateToken, Handler::CreateToken);
    let reg = with_handler(reg, ReplacementEvent::Attached, Handler::Attached);
    let reg = with_handler(reg, ReplacementEvent::DealtDamage, Handler::DealtDamage);
    let reg = with_handler(reg, ReplacementEvent::Mill, Handler::Mill);
    let reg = with_handler(reg, ReplacementEvent::PayLife, Handler::PayLife);
    let reg = with_handler(reg, ReplacementEvent::ProduceMana, Handler::ProduceMana);
    let reg = with_handler(reg, ReplacementEvent::TurnFaceUp, Handler::Placeholder);
    let reg = with_handler(reg, ReplacementEvent::BeginTurn, Handler::BeginTurn);
    let reg = with_handler(reg, ReplacementEvent::BeginPhase, Handler::BeginPhase);
    let reg = with_handler(reg, ReplacementEvent::GameLoss, Handler::Stub);
    let reg = with_handler(reg, ReplacementEvent::GameWin, Handler::Stub);
    reg
}

/// In the registry of all handlers every kind of event has the handler that is meant for it.
pub proof fn every_event_has_its_handler(e: ReplacementEvent)
    ensures
        handler_in(full_registry(), e) == Some(
            ReplacementHandlerEntry { matcher: handler_for(e), applier: handler_for(e) },
        ),
{
}

fn register(registry: &mut ReplacementRegistry, e: ReplacementEvent, h: Handler)
    ensures
        contents(*final(registry)) == with_handler(contents(*old(registry)), e, h),
{
    put(registry, number_of_event(e), number_of_handler(h));
}

/// The registry of all handlers.
pub fn build_replacement_registry() -> (r: ReplacementRegistry)
    ensures
        contents(r) == full_registry(),
{
    let mut registry = empty_map();
    register(&mut registry, ReplacementEvent::DamageDone, Handler::DamageDone);
    register(&mut registry, ReplacementEvent::ChangeZone, Handler::ChangeZone);
    register(&mut registry, ReplacementEvent::Moved, Handler::Moved);
    register(&mut registry, ReplacementEvent::Discard, Handler::Discard);
    register(&mut registry, ReplacementEvent::Destroy, Handler::Destroy);
    register(&mut registry, ReplacementEvent::Draw, Handler::Draw);
    register(&mut registry, ReplacementEvent::DrawCards, Handler::Stub);
    register(&mut registry, ReplacementEvent::GainLife, Handler::GainLife);
    register(&mut registry, ReplacementEvent::LifeReduced, Handler::LifeReduced);
    register(&mut registry, ReplacementEvent::LoseLife, Handler::LoseLife);
    register(&mut registry, ReplacementEvent::AddCounter, Handler::AddCounter);
    register(&mut registry, ReplacementEvent::RemoveCounter, Handler::RemoveCounter);
    register(&mut registry, ReplacementEvent::Tap, Handler::Tap);
    register(&mut registry, ReplacementEvent::Untap, Handler::Untap);
    register(&mut registry, ReplacementEvent::Counter, Handler::Counter);
    register(&mut registry, ReplacementEvent::CreateToken, Handler::CreateToken);
    register(&mut registry, ReplacementEvent::Attached, Handler::Attached);
    register(&mut registry, ReplacementEvent::DealtDamage, Handler::DealtDamage);
    register(&mut registry, ReplacementEvent::Mill, Handler::Mill);
    register(&mut registry, ReplacementEvent::PayLife, Handler::PayLife);
    register(&mut registry, ReplacementEvent::ProduceMana, Handler::ProduceMana);
    register(&mut registry, ReplacementEvent::TurnFaceUp, Handler::Placeholder);
    register(&mut registry, ReplacementEvent::BeginTurn, Handler::BeginTurn);
    register(&mut registry, ReplacementEvent::BeginPhase, Handler::BeginPhase);
    register(&mut registry, ReplacementEvent::GameLoss, Handler::Stub);
    register(&mut registry, ReplacementEvent::GameWin, Handler::Stub);
    registry
}

} // verus!
