//! Cards that are played, manifested and turned face up.

use std::sync::Arc;
use tabletop_engine::ability::{AbilityDefinition, AbilityKind, Effect, QuantityExpr, TargetFilter};
use tabletop_engine::cards::{CardType, CoreType, Keyword, Zone};
use tabletop_engine::events::GameEvent;
use tabletop_engine::ids::{CardId, ObjectId, PlayerId};
use tabletop_engine::mana::{ManaColor, ManaCost};
use tabletop_engine::morph::{manifest, play_face_down, turn_face_up};
use tabletop_engine::state::GameState;
use tabletop_engine::zones::create_object;

fn setup_morph_creature(state: &mut GameState, player: PlayerId) -> ObjectId {
    let id = create_object(
        state,
        CardId(1),
        player,
        "Secret Creature".to_string(),
        Zone::Hand,
    );
    let obj = state.objects.get_mut(&id).unwrap();
    obj.power = Some(4);
    obj.toughness = Some(5);
    obj.card_types = CardType {
        supertypes: vec![],
        core_types: vec![CoreType::Creature],
        subtypes: vec!["Beast".to_string()],
    };
    obj.keywords = vec![
        Keyword::Morph(ManaCost::of(vec![], 3)),
        Keyword::Trample,
    ];
    obj.abilities = Arc::new(vec![AbilityDefinition::new(
        AbilityKind::Activated,
        Effect::Draw {
            count: QuantityExpr::Fixed { value: 1 },
            target: TargetFilter::Controller,
        },
    )]);
    obj.color = vec![ManaColor::Green];
    id
}

#[test]
fn play_face_down_creates_2_2_with_no_characteristics() {
    let mut state = GameState::new_two_player(42);
    let player = PlayerId(0);
    let id = setup_morph_creature(&mut state, player);
    let mut events = Vec::new();

    play_face_down(&mut state, player, id, &mut events).unwrap();

    let obj = state.objects.get(&id).unwrap();
    assert!(obj.face_down);
    assert_eq!(obj.zone, Zone::Battlefield);
    assert_eq!(obj.name, "");
    assert_eq!(obj.power, Some(2));
    assert_eq!(obj.toughness, Some(2));
    assert_eq!(obj.card_types.core_types, vec![CoreType::Creature]);
    assert!(obj.card_types.subtypes.is_empty());
    assert!(obj.keywords.is_empty());
    assert!(obj.abilities.is_empty());
    assert!(obj.color.is_empty());
}

#[test]
fn turn_face_up_restores_original_characteristics() {
    let mut state = GameState::new_two_player(42);
    let player = PlayerId(0);
    let id = setup_morph_creature(&mut state, player);
    let mut events = Vec::new();

    play_face_down(&mut state, player, id, &mut events).unwrap();
    turn_face_up(&mut state, player, id, &mut events).unwrap();

    let obj = state.objects.get(&id).unwrap();
    assert!(!obj.face_down);
    assert_eq!(obj.name, "Secret Creature");
    assert_eq!(obj.power, Some(4));
    assert_eq!(obj.toughness, Some(5));
    assert!(obj.card_types.subtypes.contains(&"Beast".to_string()));
    assert!(obj.keywords.contains(&Keyword::Trample));
    assert!(obj
        .keywords
        .contains(&Keyword::Morph(ManaCost::of(vec![], 3))));
    assert_eq!(obj.abilities.len(), 1);
    assert_eq!(obj.color, vec![ManaColor::Green]);
}

#[test]
fn turn_face_up_emits_event() {
    let mut state = GameState::new_two_player(42);
    let player = PlayerId(0);
    let id = setup_morph_creature(&mut state, player);
    let mut events = Vec::new();

    play_face_down(&mut state, player, id, &mut events).unwrap();
    events.clear();
    turn_face_up(&mut state, player, id, &mut events).unwrap();

    assert!(events
        .iter()
        .any(|e| matches!(e, GameEvent::TurnedFaceUp { object_id } if *object_id == id)));
}

#[test]
fn face_down_hides_identity_from_opponents() {
    let mut state = GameState::new_two_player(42);
    let player = PlayerId(0);
    let id = setup_morph_creature(&mut state, player);
    let mut events = Vec::new();

    play_face_down(&mut state, player, id, &mut events).unwrap();

    let obj = state.objects.get(&id).unwrap();
    // Server-side: face_down = true means opponents cannot see the identity
    assert!(obj.face_down);
    // The actual identity is stored in back_face (hidden from opponents in serialization)
    assert!(obj.back_face.is_some());
    let original = obj.back_face.as_ref().unwrap();
    assert_eq!(original.name, "Secret Creature");
    assert_eq!(original.power, Some(4));
}

#[test]
fn manifest_puts_top_card_face_down_as_2_2() {
    let mut state = GameState::new_two_player(42);
    let player = PlayerId(0);

    // Add a card to the top of library
    let id = create_object(
        &mut state,
        CardId(10),
        player,
        "Library Creature".to_string(),
        Zone::Library,
    );
    let obj = state.objects.get_mut(&id).unwrap();
    obj.power = Some(3);
    obj.toughness = Some(3);
    obj.card_types = CardType {
        supertypes: vec![],
        core_types: vec![CoreType::Creature],
        subtypes: vec!["Elemental".to_string()],
    };
    obj.keywords = vec![Keyword::Flying];
    obj.color = vec![ManaColor::Blue];

    let mut events = Vec::new();
    manifest(&mut state, player, &mut events).unwrap();

    let obj = state.objects.get(&id).unwrap();
    assert!(obj.face_down);
    assert_eq!(obj.zone, Zone::Battlefield);
    assert_eq!(obj.name, "");
    assert_eq!(obj.power, Some(2));
    assert_eq!(obj.toughness, Some(2));
    assert!(obj.keywords.is_empty());

    // Original data preserved
    let original = obj.back_face.as_ref().unwrap();
    assert_eq!(original.name, "Library Creature");
    assert_eq!(original.power, Some(3));
}

#[test]
fn manifested_creature_can_be_turned_face_up() {
    let mut state = GameState::new_two_player(42);
    let player = PlayerId(0);

    let id = create_object(
        &mut state,
        CardId(10),
        player,
        "Manifest Target".to_string(),
        Zone::Library,
    );
    let obj = state.objects.get_mut(&id).unwrap();
    obj.power = Some(5);
    obj.toughness = Some(5);
    obj.card_types = CardType {
        supertypes: vec![],
        core_types: vec![CoreType::Creature],
        subtypes: vec![],
    };

    let mut events = Vec::new();
    manifest(&mut state, player, &mut events).unwrap();

    // Turn face up (creature card can be turned up by paying mana cost)
    turn_face_up(&mut state, player, id, &mut events).unwrap();

    let obj = state.objects.get(&id).unwrap();
    assert!(!obj.face_down);
    assert_eq!(obj.name, "Manifest Target");
    assert_eq!(obj.power, Some(5));
}

#[test]
fn manifested_noncreature_cannot_be_turned_face_up() {
    let mut state = GameState::new_two_player(42);
    let player = PlayerId(0);

    let id = create_object(
        &mut state,
        CardId(10),
        player,
        "Lightning Bolt".to_string(),
        Zone::Library,
    );
    let obj = state.objects.get_mut(&id).unwrap();
    obj.card_types = CardType {
        supertypes: vec![],
        core_types: vec![CoreType::Instant],
        subtypes: vec![],
    };

    let mut events = Vec::new();
    manifest(&mut state, player, &mut events).unwrap();

    // Try to turn face up -- should fail (no morph cost, not a creature)
    let result = turn_face_up(&mut state, player, id, &mut events);
    assert!(result.is_err());
}
