//! What is sacrificed and what cannot be.

use std::sync::Arc;
use tabletop_engine::ability::{StaticDefinition, StaticMode, TargetFilter};
use tabletop_engine::cards::{CoreType, Zone};
use tabletop_engine::events::GameEvent;
use tabletop_engine::ids::{CardId, PlayerId};
use tabletop_engine::sacrifice::{SacrificeOutcome, sacrifice_permanent};
use tabletop_engine::state::GameState;
use tabletop_engine::zones::create_object;

#[test]
fn sacrifice_moves_to_graveyard() {
    let mut state = GameState::new_two_player(42);
    let obj_id = create_object(
        &mut state,
        CardId(1),
        PlayerId(0),
        "Creature".to_string(),
        Zone::Battlefield,
    );
    let mut events = Vec::new();

    let result = sacrifice_permanent(&mut state, obj_id, PlayerId(0), &mut events);
    assert!(matches!(result, Ok(SacrificeOutcome::Complete)));
    assert!(!state.battlefield.contains(&obj_id));
    assert!(state.players[0].graveyard.contains(&obj_id));
}

#[test]
fn sacrifice_emits_event() {
    let mut state = GameState::new_two_player(42);
    let obj_id = create_object(
        &mut state,
        CardId(1),
        PlayerId(0),
        "Creature".to_string(),
        Zone::Battlefield,
    );
    let mut events = Vec::new();

    sacrifice_permanent(&mut state, obj_id, PlayerId(0), &mut events).unwrap();

    assert!(events.iter().any(|e| matches!(
        e,
        GameEvent::PermanentSacrificed { object_id, player_id }
            if *object_id == obj_id && *player_id == PlayerId(0)
    )));
}

#[test]
fn sacrifice_artifact_records_restriction() {
    let mut state = GameState::new_two_player(42);
    let obj_id = create_object(
        &mut state,
        CardId(1),
        PlayerId(0),
        "Artifact".to_string(),
        Zone::Battlefield,
    );
    state
        .objects
        .get_mut(&obj_id)
        .unwrap()
        .card_types
        .core_types
        .push(CoreType::Artifact);
    let mut events = Vec::new();

    sacrifice_permanent(&mut state, obj_id, PlayerId(0), &mut events).unwrap();

    // record_sacrifice tracks artifact sacrifices for restriction checking
    assert!(state
        .players_who_sacrificed_artifact_this_turn
        .contains(&PlayerId(0)));
}

#[test]
fn cant_be_sacrificed_prevents_sacrifice() {
    // CR 701.21: A permanent with a `CantBeSacrificed` static cannot be sacrificed.
    let mut state = GameState::new_two_player(42);
    let victim = create_object(
        &mut state,
        CardId(1),
        PlayerId(0),
        "Sigarda".to_string(),
        Zone::Battlefield,
    );
    Arc::get_mut(&mut state.objects.get_mut(&victim).unwrap().static_definitions).unwrap().push(
            StaticDefinition::new(StaticMode::Other("CantBeSacrificed".to_string()))
                .affected(TargetFilter::SelfRef),
        );

    let mut events = Vec::new();
    let result = sacrifice_permanent(&mut state, victim, PlayerId(0), &mut events);

    assert!(matches!(result, Ok(SacrificeOutcome::Complete)));
    // Permanent is still on the battlefield - sacrifice was a no-op.
    assert!(state.battlefield.contains(&victim));
    assert!(!state.players[0].graveyard.contains(&victim));
    // No PermanentSacrificed event was emitted.
    assert!(!events.iter().any(|e| matches!(
        e,
        GameEvent::PermanentSacrificed { object_id, .. } if *object_id == victim
    )));
}

#[test]
fn sacrifice_non_battlefield_errors() {
    let mut state = GameState::new_two_player(42);
    let obj_id = create_object(
        &mut state,
        CardId(1),
        PlayerId(0),
        "Creature".to_string(),
        Zone::Hand,
    );
    let mut events = Vec::new();

    let result = sacrifice_permanent(&mut state, obj_id, PlayerId(0), &mut events);
    assert!(result.is_err());
}
