//! What the library has from outside: letters in lower case, numbered maps and chance.

use std::sync::Arc;
use tabletop_engine::ability::ReplacementEvent;
use tabletop_engine::card_database::CardDatabase;
use tabletop_engine::cards::{CoreType, Zone};
use tabletop_engine::ids::{CardId, ObjectId, PlayerId};
use tabletop_engine::mana::ManaCost;
use tabletop_engine::mulligan::start_mulligan;
use tabletop_engine::object::CardFace;
use tabletop_engine::registry::{
    build_replacement_registry, registered_count, registered_handler, Handler,
};
use tabletop_engine::restrictions::evaluate_condition_text;
use tabletop_engine::state::GameState;
use tabletop_engine::zones::create_object;

#[test]
fn conditions_are_read_whatever_the_case() {
    let mut state = GameState::new_two_player(42);
    let id = create_object(
        &mut state,
        CardId(1),
        PlayerId(0),
        "Relic".to_string(),
        Zone::Battlefield,
    );
    state
        .objects
        .get_mut(&id)
        .unwrap()
        .card_types
        .core_types
        .push(CoreType::Artifact);
    assert!(evaluate_condition_text(
        &state,
        PlayerId(0),
        id,
        "YOU CONTROL AN ARTIFACT"
    ));
    assert!(!evaluate_condition_text(
        &state,
        PlayerId(1),
        id,
        "YOU CONTROL AN ARTIFACT"
    ));
}

fn face(name: &str) -> CardFace {
    CardFace {
        name: name.to_string(),
        mana_cost: ManaCost::NoCost,
        card_type: Default::default(),
        power: None,
        toughness: None,
        loyalty: None,
        keywords: vec![],
        abilities: Arc::new(vec![]),
        triggers: Arc::new(vec![]),
        static_abilities: Arc::new(vec![]),
        replacements: vec![],
        color_override: None,
        scryfall_oracle_id: None,
        modal: None,
        additional_cost: None,
        strive_cost: None,
        casting_restrictions: Arc::new(vec![]),
        casting_options: Arc::new(vec![]),
        solve_condition: None,
    }
}

#[test]
fn names_are_found_whatever_the_case() {
    let mut db = CardDatabase::new();
    db.add_face(face("Lim-D\u{db}l"));
    assert_eq!(db.faces[0].0, "lim-d\u{fb}l");
    assert_eq!(
        db.get_face_by_name("LIM-D\u{db}L").unwrap().name,
        "Lim-D\u{db}l"
    );
    assert!(db.get_face_by_name("Lim").is_none());
}

#[test]
fn the_registry_holds_one_handler_for_each_kind() {
    let registry = build_replacement_registry();
    assert_eq!(registered_count(&registry), 26);
    let entry = registered_handler(&registry, ReplacementEvent::Untap).unwrap();
    assert_eq!(entry.matcher, Handler::Untap);
    assert_eq!(entry.applier, Handler::Untap);
}

fn shuffled(seed: u64) -> Vec<u64> {
    let mut state = GameState::new_two_player(seed);
    for i in 0..40 {
        create_object(
            &mut state,
            CardId(i),
            PlayerId(0),
            format!("Card {i}"),
            Zone::Library,
        );
    }
    let mut events = Vec::new();
    start_mulligan(&mut state, &mut events);
    let hand: Vec<ObjectId> = state.players[0].hand.clone();
    let library: Vec<ObjectId> = state.players[0].library.clone();
    hand.into_iter().chain(library).map(|id| id.0).collect()
}

#[test]
fn libraries_are_shuffled_by_the_seed() {
    let first = shuffled(3);
    assert_eq!(first, shuffled(3));
    assert_ne!(first, shuffled(4));
    let mut sorted = first.clone();
    sorted.sort();
    assert_ne!(first, sorted);
    assert_eq!(sorted.len(), 40);
}
