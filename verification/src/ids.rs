//! Identifiers of the things a game is made of.

use vstd::prelude::*;
use crate::keyed::Key;

verus! {

/// Names one object of a game.
#[derive(Debug, Clone, Copy, PartialEq, Eq, Structural)]
pub struct ObjectId(pub u64);

/// Names one player of a game.
#[derive(Debug, Clone, Copy, PartialEq, Eq, Structural)]
pub struct PlayerId(pub u8);

/// Names one card of a deck.
#[derive(Debug, Clone, Copy, PartialEq, Eq, Structural)]
pub struct CardId(pub u64);

/// Names one tracked set of objects.
#[derive(Debug, Clone, Copy, PartialEq, Eq, Structural)]
pub struct TrackedSetId(pub u64);

/// Names one replacement definition: the object that carries it and its place there.
#[derive(Debug, Clone, Copy, PartialEq, Eq, Structural)]
pub struct ReplacementId {
    pub source: ObjectId,
    pub index: usize,
}

impl View for ObjectId {
    type V = ObjectId;

    open spec fn view(&self) -> ObjectId {
        *self
    }
}

impl Key for ObjectId {
    fn same(&self, other: &Self) -> (b: bool) {
        *self == *other
    }
}

impl View for PlayerId {
    type V = PlayerId;

    open spec fn view(&self) -> PlayerId {
        *self
    }
}

impl Key for PlayerId {
    fn same(&self, other: &Self) -> (b: bool) {
        *self == *other
    }
}

impl View for CardId {
    type V = CardId;

    open spec fn view(&self) -> CardId {
        *self
    }
}

impl Key for CardId {
    fn same(&self, other: &Self) -> (b: bool) {
        *self == *other
    }
}

impl View for TrackedSetId {
    type V = TrackedSetId;

    open spec fn view(&self) -> TrackedSetId {
        *self
    }
}

impl Key for TrackedSetId {
    fn same(&self, other: &Self) -> (b: bool) {
        *self == *other
    }
}

impl View for ReplacementId {
    type V = ReplacementId;

    open spec fn view(&self) -> ReplacementId {
        *self
    }
}

impl Key for ReplacementId {
    fn same(&self, other: &Self) -> (b: bool) {
        *self == *other
    }
}

} // verus!
