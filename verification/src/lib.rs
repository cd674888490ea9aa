//! The rules core of a trading card game: what a game is, what may be done in it, and what follows.

pub mod ability;
pub mod ability_utils;
pub mod applicability;
pub mod card_database;
pub mod cards;
pub mod combat;
pub mod conditions;
pub mod deck_loading;
pub mod devotion;
pub mod effects;
pub mod elimination;
pub mod engine;
pub mod errors;
pub mod events;
pub mod filter;
pub mod ids;
pub mod keyed;
pub mod laws;
pub mod layers;
pub mod mana;
pub mod mana_payment;
pub mod match_flow;
pub mod morph;
pub mod mulligan;
pub mod object;
pub mod off_zone_characteristics;
pub mod phasing;
pub mod planeswalker;
pub mod players;
pub mod printed_cards;
pub mod proposals;
pub mod quantity;
pub mod registry;
pub mod replacement;
pub mod restrictions;
pub mod sacrifice;
pub mod sba;
pub mod seqs;
pub mod speed;
pub mod state;
pub mod targeting;
pub mod text;
pub mod tokens;
pub mod turns;
pub mod views;
pub mod zones;
