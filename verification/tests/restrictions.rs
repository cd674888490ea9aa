//! When spells and abilities can be used.

use tabletop_engine::ability::{AbilityDefinition, AbilityKind, Effect, QuantityExpr, TargetFilter};
use tabletop_engine::cards::{CoreType, CounterType, Keyword, Phase, Zone};
use tabletop_engine::conditions::evaluate_condition_text;
use tabletop_engine::events::WaitingFor;
use tabletop_engine::ids::{CardId, ObjectId, PlayerId};
use tabletop_engine::object::{ActivationRestriction, GameObject};
use tabletop_engine::restrictions::{check_activation_restrictions, check_spell_timing, record_ability_activation, record_attackers_declared, record_battlefield_entry};
use tabletop_engine::state::GameState;
use tabletop_engine::zones::create_object;

#[test]
fn activation_once_each_turn_uses_shared_counter() {
    let mut state = GameState::new_two_player(42);
    record_ability_activation(&mut state, ObjectId(10), 1);

    let result = check_activation_restrictions(
        &state,
        PlayerId(0),
        ObjectId(10),
        1,
        &[ActivationRestriction::OnlyOnceEachTurn],
    );

    assert!(result.is_err());
}

#[test]
fn evaluates_you_control_creature_with_flying_condition() {
    let mut state = GameState::new_two_player(42);
    let bird = create_object(
        &mut state,
        CardId(1),
        PlayerId(0),
        "Bird".to_string(),
        Zone::Battlefield,
    );
    let bird_obj = state.objects.get_mut(&bird).unwrap();
    bird_obj.card_types.core_types.push(CoreType::Creature);
    bird_obj.keywords.push(Keyword::Flying);

    assert!(evaluate_condition_text(
        &state,
        PlayerId(0),
        bird,
        "you control a creature with flying"
    ));
}

#[test]
fn evaluates_you_control_two_or_more_vampires_condition() {
    let mut state = GameState::new_two_player(42);
    for card_id in 1..=2 {
        let vampire = create_object(
            &mut state,
            CardId(card_id),
            PlayerId(0),
            format!("Vampire {card_id}"),
            Zone::Battlefield,
        );
        let obj = state.objects.get_mut(&vampire).unwrap();
        obj.card_types.core_types.push(CoreType::Creature);
        obj.card_types.subtypes.push("Vampire".to_string());
    }

    assert!(evaluate_condition_text(
        &state,
        PlayerId(0),
        ObjectId(1),
        "you control two or more vampires"
    ));
}

#[test]
fn evaluates_opponent_searched_library_this_turn_condition() {
    let mut state = GameState::new_two_player(42);
    state
        .players_who_searched_library_this_turn
        .insert(PlayerId(1));

    assert!(evaluate_condition_text(
        &state,
        PlayerId(0),
        ObjectId(1),
        "an opponent searched their library this turn"
    ));
}

#[test]
fn evaluates_you_attacked_with_two_or_more_creatures_this_turn_condition() {
    let mut state = GameState::new_two_player(42);
    state.players_attacked_this_turn.insert(PlayerId(0));
    state.attacking_creatures_this_turn.insert(PlayerId(0), 2);

    assert!(evaluate_condition_text(
        &state,
        PlayerId(0),
        ObjectId(1),
        "you attacked with two or more creatures this turn"
    ));
}

#[test]
fn zero_attacker_declaration_does_not_satisfy_you_attacked_this_turn() {
    let mut state = GameState::new_two_player(42);
    state.active_player = PlayerId(0);

    record_attackers_declared(&mut state, 0);

    assert!(!evaluate_condition_text(
        &state,
        PlayerId(0),
        ObjectId(1),
        "you attacked this turn"
    ));

    record_attackers_declared(&mut state, 1);

    assert!(evaluate_condition_text(
        &state,
        PlayerId(0),
        ObjectId(1),
        "you attacked this turn"
    ));
}

#[test]
fn evaluates_creatures_you_control_total_power_condition() {
    let mut state = GameState::new_two_player(42);
    for (card_id, power) in [(1, 3), (2, 5)] {
        let creature = create_object(
            &mut state,
            CardId(card_id),
            PlayerId(0),
            format!("Creature {card_id}"),
            Zone::Battlefield,
        );
        let obj = state.objects.get_mut(&creature).unwrap();
        obj.card_types.core_types.push(CoreType::Creature);
        obj.power = Some(power);
    }

    assert!(evaluate_condition_text(
        &state,
        PlayerId(0),
        ObjectId(1),
        "creatures you control have total power 8 or greater"
    ));
}

#[test]
fn evaluates_graveyard_card_count_condition() {
    let mut state = GameState::new_two_player(42);
    for card_id in 1..=7 {
        create_object(
            &mut state,
            CardId(card_id),
            PlayerId(0),
            format!("Card {card_id}"),
            Zone::Graveyard,
        );
    }

    assert!(evaluate_condition_text(
        &state,
        PlayerId(0),
        ObjectId(1),
        "there are seven or more cards in your graveyard"
    ));
}

#[test]
fn evaluates_you_control_three_or_more_artifacts_condition() {
    let mut state = GameState::new_two_player(42);
    for card_id in 1..=3 {
        let artifact = create_object(
            &mut state,
            CardId(card_id),
            PlayerId(0),
            format!("Artifact {card_id}"),
            Zone::Battlefield,
        );
        state
            .objects
            .get_mut(&artifact)
            .unwrap()
            .card_types
            .core_types
            .push(CoreType::Artifact);
    }

    assert!(evaluate_condition_text(
        &state,
        PlayerId(0),
        ObjectId(1),
        "you control three or more artifacts"
    ));
}

#[test]
fn evaluates_hand_size_choice_condition() {
    let mut state = GameState::new_two_player(42);
    for card_id in 1..=7 {
        create_object(
            &mut state,
            CardId(card_id),
            PlayerId(0),
            format!("Card {card_id}"),
            Zone::Hand,
        );
    }

    assert!(evaluate_condition_text(
        &state,
        PlayerId(0),
        ObjectId(1),
        "you have exactly zero or seven cards in hand"
    ));
}

#[test]
fn evaluates_creature_died_this_turn_condition() {
    let mut state = GameState::new_two_player(42);
    state.creature_died_this_turn = true;

    assert!(evaluate_condition_text(
        &state,
        PlayerId(0),
        ObjectId(1),
        "a creature died this turn"
    ));
}

#[test]
fn evaluates_artifact_entered_this_turn_condition() {
    let mut state = GameState::new_two_player(42);
    let artifact = create_object(
        &mut state,
        CardId(1),
        PlayerId(0),
        "Relic".to_string(),
        Zone::Battlefield,
    );
    state
        .objects
        .get_mut(&artifact)
        .unwrap()
        .card_types
        .core_types
        .push(CoreType::Artifact);
    record_battlefield_entry(&mut state, artifact);

    assert!(evaluate_condition_text(
        &state,
        PlayerId(0),
        artifact,
        "this artifact or another artifact entered the battlefield under your control this turn"
    ));
}

#[test]
fn evaluates_cards_left_graveyard_this_turn_condition() {
    let mut state = GameState::new_two_player(42);
    state.cards_left_graveyard_this_turn.insert(PlayerId(0), 3);

    assert!(evaluate_condition_text(
        &state,
        PlayerId(0),
        ObjectId(1),
        "three or more cards left your graveyard this turn"
    ));
}

#[test]
fn evaluates_source_counter_condition() {
    let mut state = GameState::new_two_player(42);
    let artifact = create_object(
        &mut state,
        CardId(1),
        PlayerId(0),
        "Oil Vessel".to_string(),
        Zone::Battlefield,
    );
    let obj = state.objects.get_mut(&artifact).unwrap();
    obj.card_types.core_types.push(CoreType::Artifact);
    obj.counters
        .insert(CounterType::Generic("oil".to_string()), 2);

    assert!(evaluate_condition_text(
        &state,
        PlayerId(0),
        artifact,
        "this artifact has two or more oil counters on it"
    ));
}

#[test]
fn spell_timing_allows_flash_override() {
    let mut state = GameState::new_two_player(42);
    state.phase = Phase::End;
    state.active_player = PlayerId(1);
    state.waiting_for = WaitingFor::Priority {
        player: PlayerId(0),
    };

    let mut obj = GameObject::new(
        ObjectId(10),
        CardId(10),
        PlayerId(0),
        "Sorcery".to_string(),
        Zone::Hand,
    );
    obj.card_types.core_types.push(CoreType::Sorcery);
    let ability = AbilityDefinition::new(
        AbilityKind::Spell,
        Effect::Draw {
            count: QuantityExpr::Fixed { value: 1 },
            target: TargetFilter::Controller,
        },
    );

    assert!(check_spell_timing(&state, PlayerId(0), &obj, &ability, true).is_ok());
}
