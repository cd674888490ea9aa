//! What the operations of the library promise, stated on what goes in and what comes out.

pub mod actions;
pub mod checks;
pub mod choices;
pub mod collections;
pub mod conditions;
pub mod faces;
pub mod filters;
pub mod games;
pub mod layers;
pub mod lookups;
pub mod matches;
pub mod payment;
pub mod permanents;
pub mod pools;
pub mod proposals;
pub mod quantities;
pub mod replacements;
pub mod symbols;
pub mod timing;
pub mod wording;
pub mod zones;
