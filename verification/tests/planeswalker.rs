//! Loyalty abilities.

use std::sync::Arc;
use tabletop_engine::ability::{AbilityCost, AbilityDefinition, AbilityKind, Effect, QuantityExpr, TargetFilter, TypedFilter};
use tabletop_engine::cards::{CoreType, CounterType, Phase, Zone};
use tabletop_engine::events::WaitingFor;
use tabletop_engine::ids::{CardId, ObjectId, PlayerId};
use tabletop_engine::planeswalker::{handle_activate_loyalty, parse_loyalty_cost};
use tabletop_engine::state::{CastingVariant, GameState, StackEntry, StackEntryKind};
use tabletop_engine::zones::create_object;

fn setup() -> GameState {
    let mut state = GameState::new_two_player(42);
    state.turn_number = 2;
    state.phase = Phase::PreCombatMain;
    state.active_player = PlayerId(0);
    state.priority_player = PlayerId(0);
    state.waiting_for = WaitingFor::Priority {
        player: PlayerId(0),
    };
    state
}

/// Create a loyalty ability with the given cost and effect.
fn make_loyalty_ability(loyalty_amount: i32, effect: Effect) -> AbilityDefinition {
    AbilityDefinition::new(AbilityKind::Activated, effect).cost(AbilityCost::Loyalty {
        amount: loyalty_amount,
    })
}

fn create_planeswalker(
    state: &mut GameState,
    owner: PlayerId,
    name: &str,
    loyalty: u32,
    abilities: Vec<AbilityDefinition>,
) -> ObjectId {
    let id = create_object(
        state,
        CardId(state.next_object_id),
        owner,
        name.to_string(),
        Zone::Battlefield,
    );
    let obj = state.objects.get_mut(&id).unwrap();
    obj.card_types.core_types.push(CoreType::Planeswalker);
    // CR 306.5b: A planeswalker's loyalty IS the count of loyalty counters
    // on it. Seed both so the field and counter map start in sync.
    obj.loyalty = Some(loyalty);
    obj.counters
        .insert(CounterType::Loyalty, loyalty);
    obj.abilities = Arc::new(abilities);
    obj.entered_battlefield_turn = Some(state.turn_number);
    id
}

#[test]
fn activate_plus_loyalty_adds_counter() {
    let mut state = setup();
    let pw = create_planeswalker(
        &mut state,
        PlayerId(0),
        "Jace",
        3,
        vec![make_loyalty_ability(
            1,
            Effect::Draw {
                count: QuantityExpr::Fixed { value: 1 },
                target: TargetFilter::Controller,
            },
        )],
    );

    let mut events = Vec::new();
    let result = handle_activate_loyalty(&mut state, PlayerId(0), pw, 0, &mut events);

    assert!(result.is_ok());
    assert_eq!(state.objects.get(&pw).unwrap().loyalty, Some(4)); // 3 + 1
    assert!(state.objects.get(&pw).unwrap().loyalty_activated_this_turn);
    assert!(!state.stack.is_empty()); // ability on stack
}

#[test]
fn activate_minus_loyalty_removes_counters() {
    let mut state = setup();
    let pw = create_planeswalker(
        &mut state,
        PlayerId(0),
        "Liliana",
        5,
        vec![make_loyalty_ability(
            -3,
            // Use non-targeted effect so no target selection is needed.
            Effect::Draw {
                count: QuantityExpr::Fixed { value: 2 },
                target: TargetFilter::Controller,
            },
        )],
    );

    let mut events = Vec::new();
    let result = handle_activate_loyalty(&mut state, PlayerId(0), pw, 0, &mut events);

    assert!(result.is_ok());
    assert_eq!(state.objects.get(&pw).unwrap().loyalty, Some(2)); // 5 - 3
}

#[test]
fn second_activation_same_turn_rejected() {
    let mut state = setup();
    let pw = create_planeswalker(
        &mut state,
        PlayerId(0),
        "Jace",
        3,
        vec![make_loyalty_ability(
            1,
            Effect::Draw {
                count: QuantityExpr::Fixed { value: 1 },
                target: TargetFilter::Controller,
            },
        )],
    );

    let mut events = Vec::new();
    // First activation succeeds
    handle_activate_loyalty(&mut state, PlayerId(0), pw, 0, &mut events).unwrap();
    // Clear stack so sorcery speed check passes
    state.stack.clear();

    // Second activation fails
    let result = handle_activate_loyalty(&mut state, PlayerId(0), pw, 0, &mut events);
    assert!(result.is_err());
}

#[test]
fn loyalty_activation_requires_sorcery_speed() {
    let mut state = setup();
    let pw = create_planeswalker(
        &mut state,
        PlayerId(0),
        "Jace",
        3,
        vec![make_loyalty_ability(
            1,
            Effect::Draw {
                count: QuantityExpr::Fixed { value: 1 },
                target: TargetFilter::Controller,
            },
        )],
    );

    // Not main phase
    state.phase = Phase::DeclareAttackers;
    let mut events = Vec::new();
    let result = handle_activate_loyalty(&mut state, PlayerId(0), pw, 0, &mut events);
    assert!(result.is_err());

    // Not active player
    state.phase = Phase::PreCombatMain;
    state.active_player = PlayerId(1);
    let result = handle_activate_loyalty(&mut state, PlayerId(0), pw, 0, &mut events);
    assert!(result.is_err());

    // Stack not empty
    state.active_player = PlayerId(0);
    state.stack.push(StackEntry {
        id: ObjectId(99),
        source_id: ObjectId(99),
        controller: PlayerId(1),
        kind: StackEntryKind::Spell {
            card_id: CardId(99),
            ability: None,
            casting_variant: CastingVariant::Normal,
            actual_mana_spent: 0,
        },
    });
    let result = handle_activate_loyalty(&mut state, PlayerId(0), pw, 0, &mut events);
    assert!(result.is_err());
}

#[test]
fn minus_ability_insufficient_loyalty_rejected() {
    let mut state = setup();
    let pw = create_planeswalker(
        &mut state,
        PlayerId(0),
        "Liliana",
        2,
        vec![make_loyalty_ability(
            -3,
            Effect::Destroy {
                target: TargetFilter::Typed(TypedFilter::creature()),
                cant_regenerate: false,
            },
        )],
    );

    let mut events = Vec::new();
    let result = handle_activate_loyalty(&mut state, PlayerId(0), pw, 0, &mut events);
    assert!(result.is_err());
}

#[test]
fn parse_loyalty_cost_prefers_typed_ability_cost() {
    // When AbilityCost::Loyalty is set, it should be used
    let ability = AbilityDefinition::new(
        AbilityKind::Activated,
        Effect::Draw {
            count: QuantityExpr::Fixed { value: 1 },
            target: TargetFilter::Controller,
        },
    )
    .cost(AbilityCost::Loyalty { amount: -3 });
    assert_eq!(parse_loyalty_cost(&ability), -3);
}

#[test]
fn parse_loyalty_cost_defaults_to_zero_without_loyalty_cost() {
    // When no AbilityCost::Loyalty, fall back to 0
    let ability = AbilityDefinition::new(
        AbilityKind::Activated,
        Effect::Draw {
            count: QuantityExpr::Fixed { value: 1 },
            target: TargetFilter::Controller,
        },
    );
    assert_eq!(parse_loyalty_cost(&ability), 0);
}

#[test]
fn parse_loyalty_cost_extracts_values() {
    assert_eq!(
        parse_loyalty_cost(&make_loyalty_ability(
            1,
            Effect::Draw {
                count: QuantityExpr::Fixed { value: 1 },
                target: TargetFilter::Controller,
            }
        )),
        1
    );
    assert_eq!(
        parse_loyalty_cost(&make_loyalty_ability(
            -3,
            Effect::Destroy {
                target: TargetFilter::Any,
                cant_regenerate: false,
            }
        )),
        -3
    );
    assert_eq!(
        parse_loyalty_cost(&make_loyalty_ability(
            0,
            Effect::Mill {
                count: QuantityExpr::Fixed { value: 3 },
                target: TargetFilter::Any,
                destination: Zone::Graveyard,
            }
        )),
        0
    );
    // No loyalty cost
    let no_cost = AbilityDefinition::new(
        AbilityKind::Activated,
        Effect::Draw {
            count: QuantityExpr::Fixed { value: 1 },
            target: TargetFilter::Controller,
        },
    );
    assert_eq!(parse_loyalty_cost(&no_cost), 0);
}

/// CR 602.2b + CR 601.2c + CR 606.4: Targeted loyalty abilities must prompt for target selection
/// before paying the loyalty cost. The cost is deferred into the PendingCast so
/// handle_select_targets can call pay_ability_cost after the player chooses.
#[test]
fn targeted_loyalty_ability_returns_target_selection() {
    let mut state = setup();
    let pw = create_planeswalker(
        &mut state,
        PlayerId(0),
        "Kaito",
        4,
        vec![make_loyalty_ability(
            -2,
            Effect::Tap {
                target: TargetFilter::Typed(TypedFilter::creature()),
            },
        )],
    );

    // Two creatures so auto_select_targets doesn't collapse to Priority.
    for card_id in [99usize, 100] {
        let c = create_object(
            &mut state,
            CardId(card_id.try_into().unwrap()),
            PlayerId(1),
            "Goblin".to_string(),
            Zone::Battlefield,
        );
        state
            .objects
            .get_mut(&c)
            .unwrap()
            .card_types
            .core_types
            .push(CoreType::Creature);
    }

    let mut events = Vec::new();
    let result = handle_activate_loyalty(&mut state, PlayerId(0), pw, 0, &mut events)
        .expect("activation should succeed with a legal target");

    // Loyalty is NOT deducted yet - cost is paid after target selection.
    assert_eq!(
        state.objects.get(&pw).unwrap().loyalty,
        Some(4),
        "loyalty unchanged before target selection"
    );
    // But activation is marked to prevent re-activation this turn.
    assert!(state.objects.get(&pw).unwrap().loyalty_activated_this_turn);
    // Engine waits for the player to select a target.
    assert!(
        matches!(result, WaitingFor::TargetSelection { .. }),
        "expected TargetSelection, got {result:?}"
    );
    // The pending cast carries the loyalty cost for deferred payment.
    if let WaitingFor::TargetSelection { pending_cast, .. } = result {
        assert!(
            matches!(
                pending_cast.activation_cost,
                Some(AbilityCost::Loyalty { amount: -2 })
            ),
            "loyalty cost must be stored for deferred payment"
        );
    }
}
