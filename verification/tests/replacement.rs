//! Events that are replaced before they happen.

use std::sync::Arc;
use tabletop_engine::ability::{AbilityDefinition, AbilityKind, Comparator, ControllerRef, DamageModification, DamageTargetFilter, Effect, GainLifePlayer, GameRestriction, ManaModification, QuantityExpr, QuantityRef, ReplacementCondition, ReplacementDefinition, ReplacementEvent, RestrictionExpiry, ShieldKind, TargetFilter, TargetRef, TokenSpec, TypeFilter, TypedFilter};
use tabletop_engine::applicability::{evaluate_replacement_condition, find_applicable_replacements, handler_matches};
use tabletop_engine::cards::{CardType, CoreType, Phase, Zone};
use tabletop_engine::events::{EtbTapState, GameEvent, ProposedEvent};
use tabletop_engine::ids::{CardId, ObjectId, PlayerId, ReplacementId};
use tabletop_engine::keyed::KeySet;
use tabletop_engine::mana::{ManaColor, ManaType};
use tabletop_engine::object::GameObject;
use tabletop_engine::quantity::resolve_quantity;
use tabletop_engine::registry::{Handler, build_replacement_registry, registered_count, registered_handler};
use tabletop_engine::replacement::{ApplyResult, ReplacementBranch, ReplacementResult, apply_single_replacement, continue_replacement, damage_done_applier, replace_event};
use tabletop_engine::state::{AttackTarget, AttackerInfo, CombatState, GameState};
use tabletop_engine::tokens::apply_create_token_after_replacement;
use tabletop_engine::zones::create_object;

fn attacking_player(object_id: ObjectId, player: PlayerId) -> AttackerInfo {
    AttackerInfo {
        object_id,
        defending_player: player,
        attack_target: AttackTarget::Player(player),
        blocked: false,
    }
}

fn objects_of(state: &GameState) -> Vec<&GameObject> {
    (0..state.objects.len())
        .map(|i| state.objects.value_at(i))
        .collect()
}

fn make_repl(event: ReplacementEvent) -> ReplacementDefinition {
    ReplacementDefinition::new(event)
}

/// Placeholder event for `evaluate_replacement_condition` callers that
/// aren't exercising event-contextual conditions (`OnlyExtraTurn`). A
/// natural-turn BeginTurn is inert against all state-based conditions.
fn dummy_begin_turn_event() -> ProposedEvent {
    ProposedEvent::begin_turn(PlayerId(0), false)
}

fn test_state_with_object(
    obj_id: ObjectId,
    zone: Zone,
    replacements: Vec<ReplacementDefinition>,
) -> GameState {
    let mut state = GameState::new_two_player(42);
    let mut obj = GameObject::new(obj_id, CardId(1), PlayerId(0), "Test".to_string(), zone);
    obj.replacement_definitions = replacements;
    state.objects.insert(obj_id, obj);
    if zone == Zone::Battlefield {
        state.battlefield.push(obj_id);
    }
    state
}

fn resolve_first_replacement_choice(
    state: &mut GameState,
    result: ReplacementResult,
    events: &mut Vec<GameEvent>,
) -> ReplacementResult {
    match result {
        ReplacementResult::NeedsChoice(_) => continue_replacement(state, 0, events),
        other => other,
    }
}

#[test]
fn test_single_replacement_zone_change() {
    // Creature with Moved replacement (no params means handler applies with default behavior)
    let repl = make_repl(ReplacementEvent::Moved);
    let mut state = test_state_with_object(ObjectId(10), Zone::Battlefield, vec![repl]);
    let mut events = Vec::new();

    let proposed =
        ProposedEvent::zone_change(ObjectId(10), Zone::Battlefield, Zone::Graveyard, None);

    let result = replace_event(&mut state, proposed, &mut events);

    // With empty params, the Moved handler applies default behavior (fallback: stay in origin)
    match result {
        ReplacementResult::Execute(ProposedEvent::ZoneChange { .. }) => {
            // Replacement was applied
        }
        other => panic!("expected Execute with ZoneChange, got {:?}", other),
    }
    // Should have emitted a ReplacementApplied event
    assert!(events.iter().any(|e| matches!(
        e,
        GameEvent::ReplacementApplied {
            event_type,
            ..
        } if event_type == "Moved"
    )));
}

#[test]
fn test_once_per_event_enforcement() {
    // Two mandatory Moved replacements on the same object - the affected player
    // chooses the first, then the remaining one still applies exactly once.
    let repl1 = make_repl(ReplacementEvent::Moved);
    let repl2 = make_repl(ReplacementEvent::Moved);
    let mut state = test_state_with_object(ObjectId(10), Zone::Battlefield, vec![repl1, repl2]);
    let mut events = Vec::new();

    let proposed =
        ProposedEvent::zone_change(ObjectId(10), Zone::Battlefield, Zone::Graveyard, None);

    let result = replace_event(&mut state, proposed, &mut events);
    let ReplacementResult::NeedsChoice(player) = result else {
        panic!("expected NeedsChoice, got {:?}", result);
    };
    assert_eq!(player, PlayerId(0));

    let final_result = continue_replacement(&mut state, 0, &mut events);
    let ReplacementResult::Execute(event) = final_result else {
        panic!("expected Execute after choosing replacement order, got {final_result:?}");
    };
    assert_eq!(
        event.applied_set().len(),
        2,
        "both replacements should have been applied exactly once"
    );
}

#[test]
fn test_multiple_mandatory_replacements_need_choice() {
    // Two different objects each with a mandatory Moved replacement - the affected
    // player must choose the order instead of the pipeline auto-applying one.
    let repl = make_repl(ReplacementEvent::Moved);

    let mut state = GameState::new_two_player(42);

    let mut obj1 = GameObject::new(
        ObjectId(10),
        CardId(1),
        PlayerId(0),
        "Obj1".to_string(),
        Zone::Battlefield,
    );
    obj1.replacement_definitions = vec![repl.clone()];

    let mut obj2 = GameObject::new(
        ObjectId(20),
        CardId(2),
        PlayerId(0),
        "Obj2".to_string(),
        Zone::Battlefield,
    );
    obj2.replacement_definitions = vec![repl];

    state.objects.insert(ObjectId(10), obj1);
    state.objects.insert(ObjectId(20), obj2);
    state.battlefield.push(ObjectId(10));
    state.battlefield.push(ObjectId(20));

    let target = GameObject::new(
        ObjectId(30),
        CardId(3),
        PlayerId(0),
        "Target".to_string(),
        Zone::Battlefield,
    );
    state.objects.insert(ObjectId(30), target);

    let mut events = Vec::new();
    let proposed = ProposedEvent::ZoneChange {
        object_id: ObjectId(30),
        from: Zone::Battlefield,
        to: Zone::Graveyard,
        cause: None,
        enter_tapped: EtbTapState::Unspecified,
        enter_with_counters: Vec::new(),
        controller_override: None,
        enter_transformed: false,
        applied: KeySet::new(),
    };
    let result = replace_event(&mut state, proposed, &mut events);
    let ReplacementResult::NeedsChoice(player) = result else {
        panic!("expected NeedsChoice, got {:?}", result);
    };
    assert_eq!(player, PlayerId(0));

    let final_result = continue_replacement(&mut state, 0, &mut events);
    let ReplacementResult::Execute(event) = final_result else {
        panic!("expected Execute after choosing replacement order, got {final_result:?}");
    };
    assert_eq!(
        event.applied_set().len(),
        2,
        "both replacements should have applied"
    );
}

#[test]
fn gain_life_replacement_uses_execute_as_delta() {
    let repl =
        ReplacementDefinition::new(ReplacementEvent::GainLife).execute(AbilityDefinition::new(
            AbilityKind::Spell,
            Effect::GainLife {
                amount: QuantityExpr::Fixed { value: 1 },
                player: GainLifePlayer::Controller,
            },
        ));
    let mut state = test_state_with_object(ObjectId(10), Zone::Battlefield, vec![repl]);
    let mut events = Vec::new();

    let proposed = ProposedEvent::LifeGain {
        player_id: PlayerId(0),
        amount: 3,
        applied: KeySet::new(),
    };

    let result = replace_event(&mut state, proposed, &mut events);
    match result {
        ReplacementResult::Execute(ProposedEvent::LifeGain { amount, .. }) => {
            assert_eq!(amount, 4);
        }
        other => panic!("expected Execute with LifeGain, got {:?}", other),
    }
}

#[test]
fn draw_replacement_uses_event_context_amount_with_offset() {
    let repl =
        ReplacementDefinition::new(ReplacementEvent::Draw).execute(AbilityDefinition::new(
            AbilityKind::Spell,
            Effect::Draw {
                count: QuantityExpr::Offset {
                    inner: Box::new(QuantityExpr::Ref {
                        qty: QuantityRef::EventContextAmount,
                    }),
                    offset: 1,
                },
                target: TargetFilter::Controller,
            },
        ));
    let mut state = test_state_with_object(ObjectId(10), Zone::Battlefield, vec![repl]);
    let mut events = Vec::new();

    let proposed = ProposedEvent::Draw {
        player_id: PlayerId(0),
        count: 3,
        applied: KeySet::new(),
    };

    let result = replace_event(&mut state, proposed, &mut events);
    match result {
        ReplacementResult::Execute(ProposedEvent::Draw { count, .. }) => {
            assert_eq!(count, 4);
        }
        other => panic!("expected Execute with Draw, got {:?}", other),
    }
}

#[test]
fn draw_replacement_does_not_apply_when_quantity_gate_is_false() {
    let repl = ReplacementDefinition::new(ReplacementEvent::Draw)
        .condition(ReplacementCondition::OnlyIfQuantity {
            lhs: QuantityExpr::Ref {
                qty: QuantityRef::HandSize,
            },
            comparator: Comparator::LE,
            rhs: QuantityExpr::Fixed { value: 1 },
            active_player_req: None,
        })
        .execute(AbilityDefinition::new(
            AbilityKind::Spell,
            Effect::Draw {
                count: QuantityExpr::Offset {
                    inner: Box::new(QuantityExpr::Ref {
                        qty: QuantityRef::EventContextAmount,
                    }),
                    offset: 1,
                },
                target: TargetFilter::Controller,
            },
        ));
    let mut state = test_state_with_object(ObjectId(10), Zone::Battlefield, vec![repl]);
    state.players[0].hand.extend([ObjectId(20), ObjectId(21)]);
    let mut events = Vec::new();

    let proposed = ProposedEvent::Draw {
        player_id: PlayerId(0),
        count: 3,
        applied: KeySet::new(),
    };

    let result = replace_event(&mut state, proposed, &mut events);
    match result {
        ReplacementResult::Execute(ProposedEvent::Draw { count, .. }) => {
            assert_eq!(count, 3);
        }
        other => panic!("expected Execute with Draw, got {:?}", other),
    }
}

#[test]
fn draw_replacement_does_not_apply_to_zero_card_draws() {
    let repl =
        ReplacementDefinition::new(ReplacementEvent::Draw).execute(AbilityDefinition::new(
            AbilityKind::Spell,
            Effect::Draw {
                count: QuantityExpr::Offset {
                    inner: Box::new(QuantityExpr::Ref {
                        qty: QuantityRef::EventContextAmount,
                    }),
                    offset: 1,
                },
                target: TargetFilter::Controller,
            },
        ));
    let state = test_state_with_object(ObjectId(10), Zone::Battlefield, vec![repl]);
    let proposed = ProposedEvent::Draw {
        player_id: PlayerId(0),
        count: 0,
        applied: KeySet::new(),
    };
    let registry = build_replacement_registry();
    assert!(
        find_applicable_replacements(&state, &proposed, &registry).is_empty(),
        "draw replacements with 'one or more' semantics should not apply to zero-card draws"
    );
}

#[test]
fn test_continue_replacement_after_choice() {
    // Two mandatory replacements should now surface a choice, and resolving one
    // choice should let the pipeline finish the remaining replacement.
    let repl1 = make_repl(ReplacementEvent::Moved);
    let repl2 = make_repl(ReplacementEvent::Moved);

    let mut state = test_state_with_object(ObjectId(10), Zone::Battlefield, vec![repl1, repl2]);
    let mut events = Vec::new();

    let proposed =
        ProposedEvent::zone_change(ObjectId(10), Zone::Battlefield, Zone::Graveyard, None);

    let result = replace_event(&mut state, proposed, &mut events);
    let ReplacementResult::NeedsChoice(player) = result else {
        panic!("mandatory replacements should prompt for order, got {result:?}");
    };
    assert_eq!(player, PlayerId(0));

    let final_result = continue_replacement(&mut state, 0, &mut events);
    assert!(
        matches!(final_result, ReplacementResult::Execute(_)),
        "pipeline should finish after resolving the replacement choice, got {final_result:?}"
    );
}

#[test]
fn test_depth_cap() {
    // A replacement that always matches (Moved with no params filter)
    // but once-per-event tracking should prevent infinite loop anyway.
    let repl = make_repl(ReplacementEvent::Moved);

    let mut state = test_state_with_object(ObjectId(10), Zone::Battlefield, vec![repl]);
    let mut events = Vec::new();

    let proposed =
        ProposedEvent::zone_change(ObjectId(10), Zone::Battlefield, Zone::Graveyard, None);

    // Should complete without hanging (once-per-event prevents re-application)
    let result = replace_event(&mut state, proposed, &mut events);
    assert!(
        matches!(result, ReplacementResult::Execute(_)),
        "should complete even with broadly-matching replacement"
    );
}

#[test]
fn test_damage_replacement_matches() {
    // DamageDone replacement matches damage events
    let repl = make_repl(ReplacementEvent::DamageDone);

    let mut state = test_state_with_object(ObjectId(10), Zone::Battlefield, vec![repl]);
    let mut events = Vec::new();

    let proposed = ProposedEvent::Damage {
        source_id: ObjectId(99),
        target: TargetRef::Player(PlayerId(0)),
        amount: 5,
        is_combat: false,
        applied: KeySet::new(),
    };

    let result = replace_event(&mut state, proposed, &mut events);
    // Without Prevent param, the handler modifies (passes through)
    assert!(
        matches!(result, ReplacementResult::Execute(_)),
        "damage replacement should apply (passthrough without Prevent param)"
    );
}

#[test]
fn test_no_replacements_passthrough() {
    let mut state = GameState::new_two_player(42);
    let mut events = Vec::new();

    let proposed = ProposedEvent::ZoneChange {
        object_id: ObjectId(99),
        from: Zone::Battlefield,
        to: Zone::Graveyard,
        cause: None,
        enter_tapped: EtbTapState::Unspecified,
        enter_with_counters: Vec::new(),
        controller_override: None,
        enter_transformed: false,
        applied: KeySet::new(),
    };

    let result = replace_event(&mut state, proposed, &mut events);
    match result {
        ReplacementResult::Execute(ProposedEvent::ZoneChange {
            object_id,
            from,
            to,
            cause,
            enter_tapped,
            enter_with_counters,
            controller_override,
            enter_transformed,
            applied,
        }) => {
            assert_eq!(object_id, ObjectId(99));
            assert_eq!(from, Zone::Battlefield);
            assert_eq!(to, Zone::Graveyard);
            assert_eq!(cause, None);
            assert_eq!(enter_tapped, EtbTapState::Unspecified);
            assert!(enter_with_counters.is_empty());
            assert_eq!(controller_override, None);
            assert!(!enter_transformed);
            assert_eq!(applied.len(), 0);
        }
        other => panic!("expected Execute passthrough, got {:?}", other),
    }
    assert!(
        events.is_empty(),
        "no events should be emitted for passthrough"
    );
}

#[test]
fn test_dealt_damage_replacement_matches_damage_to_source() {
    // DealtDamage replacement on a creature matches damage dealt to it
    let repl = make_repl(ReplacementEvent::DealtDamage);

    let mut state = test_state_with_object(ObjectId(10), Zone::Battlefield, vec![repl]);
    let mut events = Vec::new();

    let proposed = ProposedEvent::Damage {
        source_id: ObjectId(99),
        target: TargetRef::Object(ObjectId(10)),
        amount: 5,
        is_combat: false,
        applied: KeySet::new(),
    };

    let result = replace_event(&mut state, proposed, &mut events);
    // DealtDamage matcher checks target matches source_id, so it should match
    // Without Prevent param, it passes through as modified
    match result {
        ReplacementResult::Execute(_) | ReplacementResult::Prevented => {
            // Handler was invoked (either modified or prevented depending on implementation)
        }
        other => panic!("unexpected result: {:?}", other),
    }
}

#[test]
fn test_dealt_damage_does_not_match_damage_to_other() {
    // DealtDamage on ObjectId(10) should NOT match damage targeting ObjectId(20)
    let repl = make_repl(ReplacementEvent::DealtDamage);

    let mut state = test_state_with_object(ObjectId(10), Zone::Battlefield, vec![repl]);
    let mut events = Vec::new();

    let proposed = ProposedEvent::Damage {
        source_id: ObjectId(99),
        target: TargetRef::Object(ObjectId(20)),
        amount: 3,
        is_combat: false,
        applied: KeySet::new(),
    };

    let result = replace_event(&mut state, proposed, &mut events);
    // Should pass through since the target doesn't match the replacement source
    assert!(matches!(result, ReplacementResult::Execute(_)));
}

#[test]
fn test_registry_has_all_types() {
    let registry = build_replacement_registry();
    assert!(
        registered_count(&registry) >= 25,
        "registry should have 25+ entries, got {}",
        registered_count(&registry)
    );

    // Verify all expected keys
    let expected: Vec<ReplacementEvent> = vec![
        ReplacementEvent::DamageDone,
        ReplacementEvent::ChangeZone,
        ReplacementEvent::Moved,
        ReplacementEvent::Discard,
        ReplacementEvent::Destroy,
        ReplacementEvent::Draw,
        ReplacementEvent::DrawCards,
        ReplacementEvent::GainLife,
        ReplacementEvent::LifeReduced,
        ReplacementEvent::LoseLife,
        ReplacementEvent::AddCounter,
        ReplacementEvent::RemoveCounter,
        ReplacementEvent::Tap,
        ReplacementEvent::Untap,
        ReplacementEvent::Counter,
        ReplacementEvent::CreateToken,
        ReplacementEvent::Attached,
        ReplacementEvent::BeginPhase,
        ReplacementEvent::BeginTurn,
        ReplacementEvent::DealtDamage,
        ReplacementEvent::Mill,
        ReplacementEvent::PayLife,
        ReplacementEvent::ProduceMana,
        ReplacementEvent::TurnFaceUp,
        ReplacementEvent::GameLoss,
        ReplacementEvent::GameWin,
    ];
    for key in &expected {
        assert!(
            registered_handler(&registry, *key).is_some(),
            "registry missing key: {:?}",
            key
        );
    }
}

#[test]
fn restriction_prevents_damage_prevention() {
    // Create a state with a damage prevention replacement on an object
    let obj_id = ObjectId(1);
    let prevent_repl = ReplacementDefinition::new(ReplacementEvent::DamageDone)
        .description("Prevent all damage that would be dealt to you.".to_string());
    let mut state = test_state_with_object(obj_id, Zone::Battlefield, vec![prevent_repl]);

    // Add a DamagePreventionDisabled restriction
    state
        .restrictions
        .push(GameRestriction::DamagePreventionDisabled {
            source: ObjectId(99),
            expiry: RestrictionExpiry::EndOfTurn,
            scope: None, // Global
        });

    // Create a damage proposed event
    let proposed = ProposedEvent::Damage {
        source_id: ObjectId(50),
        target: TargetRef::Player(PlayerId(0)),
        amount: 3,
        is_combat: false,
        applied: KeySet::new(),
    };

    // The prevention replacement should be skipped
    let registry = build_replacement_registry();
    let candidates = find_applicable_replacements(&state, &proposed, &registry);
    assert!(
        candidates.is_empty(),
        "Prevention replacement should be skipped when DamagePreventionDisabled is active"
    );
}

#[test]
fn restriction_does_not_block_non_prevention_replacements() {
    // Create a state with a non-prevention damage replacement
    let obj_id = ObjectId(1);
    let non_prevent_repl = ReplacementDefinition::new(ReplacementEvent::DamageDone)
        .description("If a source would deal damage, it deals double instead.".to_string());
    let mut state = test_state_with_object(obj_id, Zone::Battlefield, vec![non_prevent_repl]);

    // Add a DamagePreventionDisabled restriction
    state
        .restrictions
        .push(GameRestriction::DamagePreventionDisabled {
            source: ObjectId(99),
            expiry: RestrictionExpiry::EndOfTurn,
            scope: None,
        });

    let proposed = ProposedEvent::Damage {
        source_id: ObjectId(50),
        target: TargetRef::Player(PlayerId(0)),
        amount: 3,
        is_combat: false,
        applied: KeySet::new(),
    };

    // Non-prevention replacements should still apply
    let registry = build_replacement_registry();
    let candidates = find_applicable_replacements(&state, &proposed, &registry);
    assert!(
        !candidates.is_empty(),
        "Non-prevention damage replacements should not be blocked"
    );
}

// -- destination_zone filter tests (CR 614.6) --

fn rip_replacement() -> ReplacementDefinition {
    ReplacementDefinition::new(ReplacementEvent::Moved)
        .execute(AbilityDefinition::new(
            AbilityKind::Spell,
            Effect::ChangeZone {
                destination: Zone::Exile,
                origin: None,
                target: TargetFilter::Any,
            },
        ))
        .destination_zone(Zone::Graveyard)
}

fn authority_replacement() -> ReplacementDefinition {
    ReplacementDefinition::new(ReplacementEvent::ChangeZone)
        .execute(AbilityDefinition::new(
            AbilityKind::Spell,
            Effect::Tap {
                target: TargetFilter::SelfRef,
            },
        ))
        .valid_card(TargetFilter::Typed(
            TypedFilter::creature().controller(ControllerRef::Opponent),
        ))
        .destination_zone(Zone::Battlefield)
}

fn spelunking_replacement() -> ReplacementDefinition {
    ReplacementDefinition::new(ReplacementEvent::ChangeZone)
        .execute(AbilityDefinition::new(
            AbilityKind::Spell,
            Effect::Untap {
                target: TargetFilter::SelfRef,
            },
        ))
        .valid_card(TargetFilter::Typed(
            TypedFilter::new(TypeFilter::Land)
                .controller(ControllerRef::You),
        ))
        .destination_zone(Zone::Battlefield)
}

fn test_token_spec(
    owner_controller: PlayerId,
    core_type: CoreType,
) -> TokenSpec {
    TokenSpec {
        display_name: "Test Token".to_string(),
        script_name: "w_1_1_soldier".to_string(),
        power: Some(1),
        toughness: Some(1),
        core_types: Arc::new(vec![core_type]),
        subtypes: Arc::new(vec!["Soldier".to_string()]),
        supertypes: Arc::new(Vec::new()),
        colors: Arc::new(vec![ManaColor::White]),
        keywords: Arc::new(Vec::new()),
        static_abilities: Arc::new(Vec::new()),
        enter_with_counters: Vec::new(),
        tapped: false,
        enters_attacking: false,
        sacrifice_at: None,
        source_id: ObjectId(999),
        controller: owner_controller,
    }
}

#[test]
fn destination_zone_rip_matches_graveyard() {
    // Battlefield -> Graveyard with RIP replacement -> should be a candidate
    let repl = rip_replacement();
    let state = test_state_with_object(ObjectId(10), Zone::Battlefield, vec![repl]);

    let proposed =
        ProposedEvent::zone_change(ObjectId(99), Zone::Battlefield, Zone::Graveyard, None);
    let registry = build_replacement_registry();
    let candidates = find_applicable_replacements(&state, &proposed, &registry);
    assert!(
        !candidates.is_empty(),
        "RIP should match zone change TO graveyard"
    );
}

#[test]
fn destination_zone_rip_hand_to_graveyard() {
    // Hand -> Graveyard (discard) with RIP -> should match
    let repl = rip_replacement();
    let state = test_state_with_object(ObjectId(10), Zone::Battlefield, vec![repl]);

    let proposed = ProposedEvent::zone_change(ObjectId(99), Zone::Hand, Zone::Graveyard, None);
    let registry = build_replacement_registry();
    let candidates = find_applicable_replacements(&state, &proposed, &registry);
    assert!(
        !candidates.is_empty(),
        "RIP should match discard (hand -> graveyard)"
    );
}

#[test]
fn destination_zone_rip_library_to_graveyard() {
    // Library -> Graveyard (mill) with RIP -> should match
    let repl = rip_replacement();
    let state = test_state_with_object(ObjectId(10), Zone::Battlefield, vec![repl]);

    let proposed =
        ProposedEvent::zone_change(ObjectId(99), Zone::Library, Zone::Graveyard, None);
    let registry = build_replacement_registry();
    let candidates = find_applicable_replacements(&state, &proposed, &registry);
    assert!(
        !candidates.is_empty(),
        "RIP should match mill (library -> graveyard)"
    );
}

#[test]
fn destination_zone_rip_stack_to_graveyard() {
    // Stack -> Graveyard (countered spell) with RIP -> should match
    let repl = rip_replacement();
    let state = test_state_with_object(ObjectId(10), Zone::Battlefield, vec![repl]);

    let proposed = ProposedEvent::zone_change(ObjectId(99), Zone::Stack, Zone::Graveyard, None);
    let registry = build_replacement_registry();
    let candidates = find_applicable_replacements(&state, &proposed, &registry);
    assert!(
        !candidates.is_empty(),
        "RIP should match countered spell (stack -> graveyard)"
    );
}

#[test]
fn destination_zone_rip_does_not_match_exile() {
    // Battlefield -> Exile - RIP (destination_zone: Graveyard) should NOT match
    let repl = rip_replacement();
    let state = test_state_with_object(ObjectId(10), Zone::Battlefield, vec![repl]);

    let proposed =
        ProposedEvent::zone_change(ObjectId(99), Zone::Battlefield, Zone::Exile, None);
    let registry = build_replacement_registry();
    let candidates = find_applicable_replacements(&state, &proposed, &registry);
    assert!(
        candidates.is_empty(),
        "RIP should NOT match zone change to exile"
    );
}

#[test]
fn destination_zone_no_rip_passthrough() {
    // Zone change to graveyard without RIP -> no replacement
    let state = GameState::new_two_player(42);
    let proposed =
        ProposedEvent::zone_change(ObjectId(99), Zone::Battlefield, Zone::Graveyard, None);
    let registry = build_replacement_registry();
    let candidates = find_applicable_replacements(&state, &proposed, &registry);
    assert!(
        candidates.is_empty(),
        "No replacement should match without RIP on battlefield"
    );
}

fn make_creature(id: ObjectId, owner: PlayerId, zone: Zone) -> GameObject {
    let mut obj = GameObject::new(id, CardId(3), owner, "Test Creature".to_string(), zone);
    obj.card_types = CardType {
        supertypes: vec![],
        core_types: vec![CoreType::Creature],
        subtypes: vec![],
    };
    obj
}

#[test]
fn destination_zone_authority_matches_battlefield() {
    // Opponent creature entering battlefield with Authority -> should match
    let repl = authority_replacement();
    let mut state = test_state_with_object(ObjectId(10), Zone::Battlefield, vec![repl]);

    // Create the entering creature (owned/controlled by opponent = PlayerId(1))
    let creature = make_creature(ObjectId(30), PlayerId(1), Zone::Hand);
    state.objects.insert(ObjectId(30), creature);

    let proposed =
        ProposedEvent::zone_change(ObjectId(30), Zone::Hand, Zone::Battlefield, None);
    let registry = build_replacement_registry();
    let candidates = find_applicable_replacements(&state, &proposed, &registry);
    assert!(
        !candidates.is_empty(),
        "Authority should match opponent creature entering battlefield"
    );
}

#[test]
fn destination_zone_authority_own_creature_not_affected() {
    // Own creature entering battlefield with Authority -> should NOT match (controller filter)
    let repl = authority_replacement();
    let mut state = test_state_with_object(ObjectId(10), Zone::Battlefield, vec![repl]);

    // Create own creature (PlayerId(0), same as Authority's controller)
    let creature = make_creature(ObjectId(30), PlayerId(0), Zone::Hand);
    state.objects.insert(ObjectId(30), creature);

    let proposed =
        ProposedEvent::zone_change(ObjectId(30), Zone::Hand, Zone::Battlefield, None);
    let registry = build_replacement_registry();
    let candidates = find_applicable_replacements(&state, &proposed, &registry);
    assert!(
        candidates.is_empty(),
        "Authority should NOT match own creature entering battlefield"
    );
}

#[test]
fn destination_zone_authority_matches_token_battlefield_entry() {
    let repl = authority_replacement();
    let state = test_state_with_object(ObjectId(10), Zone::Battlefield, vec![repl]);

    let proposed = ProposedEvent::CreateToken {
        owner: PlayerId(1),
        count: 1,
        spec: Box::new(test_token_spec(
            PlayerId(0),
            CoreType::Creature,
        )),
        enter_tapped: EtbTapState::Unspecified,
        applied: KeySet::new(),
    };
    let registry = build_replacement_registry();
    let candidates = find_applicable_replacements(&state, &proposed, &registry);
    assert!(
        !candidates.is_empty(),
        "Authority should match opponent-controlled creature token entry"
    );
}

#[test]
fn destination_zone_authority_own_token_not_affected() {
    let repl = authority_replacement();
    let state = test_state_with_object(ObjectId(10), Zone::Battlefield, vec![repl]);

    let proposed = ProposedEvent::CreateToken {
        owner: PlayerId(0),
        count: 1,
        spec: Box::new(test_token_spec(
            PlayerId(1),
            CoreType::Creature,
        )),
        enter_tapped: EtbTapState::Unspecified,
        applied: KeySet::new(),
    };
    let registry = build_replacement_registry();
    let candidates = find_applicable_replacements(&state, &proposed, &registry);
    assert!(
        candidates.is_empty(),
        "Authority should not match tokens entering under your control"
    );
}

#[test]
fn source_tapped_state_condition_matches_object_state() {
    let mut state = test_state_with_object(ObjectId(10), Zone::Battlefield, Vec::new());
    state.objects.get_mut(&ObjectId(10)).unwrap().tapped = true;

    assert!(evaluate_replacement_condition(
        &ReplacementCondition::SourceTappedState { tapped: true },
        PlayerId(0),
        ObjectId(10),
        &state,
        None,
        &dummy_begin_turn_event(),
    ));
    assert!(!evaluate_replacement_condition(
        &ReplacementCondition::SourceTappedState { tapped: false },
        PlayerId(0),
        ObjectId(10),
        &state,
        None,
        &dummy_begin_turn_event(),
    ));
}

#[test]
fn untap_override_replaces_seeded_zone_change_tap_state() {
    let repl = spelunking_replacement();
    let mut state = test_state_with_object(ObjectId(10), Zone::Battlefield, vec![repl]);
    let registry = build_replacement_registry();
    let mut events = Vec::new();

    let proposed = ProposedEvent::ZoneChange {
        object_id: ObjectId(20),
        from: Zone::Hand,
        to: Zone::Battlefield,
        cause: None,
        enter_tapped: EtbTapState::Tapped,
        enter_with_counters: Vec::new(),
        controller_override: None,
        enter_transformed: false,
        applied: KeySet::new(),
    };

    let replaced = apply_single_replacement(
        &mut state,
        proposed,
        ReplacementId {
            source: ObjectId(10),
            index: 0,
        },
        ReplacementBranch::Execute,
        &registry,
        &mut events,
    )
    .expect("Spelunking untap replacement should modify the event");

    assert_eq!(
        replaced.battlefield_entry_tap_state(),
        Some(EtbTapState::Untapped)
    );
}

#[test]
fn later_tap_state_modifier_overwrites_earlier_one() {
    let tap_repl = authority_replacement();
    let untap_repl = spelunking_replacement();
    let mut state = test_state_with_object(ObjectId(10), Zone::Battlefield, vec![tap_repl]);
    let mut other_source = GameObject::new(
        ObjectId(11),
        CardId(2),
        PlayerId(0),
        "Spelunking".to_string(),
        Zone::Battlefield,
    );
    other_source.replacement_definitions = vec![untap_repl];
    state.objects.insert(ObjectId(11), other_source);
    state.battlefield.push(ObjectId(11));

    let registry = build_replacement_registry();
    let mut events = Vec::new();
    let proposed =
        ProposedEvent::zone_change(ObjectId(20), Zone::Hand, Zone::Battlefield, None);

    let tapped_event = apply_single_replacement(
        &mut state,
        proposed,
        ReplacementId {
            source: ObjectId(10),
            index: 0,
        },
        ReplacementBranch::Execute,
        &registry,
        &mut events,
    )
    .expect("tap replacement should apply");
    assert_eq!(
        tapped_event.battlefield_entry_tap_state(),
        Some(EtbTapState::Tapped)
    );

    let untapped_event = apply_single_replacement(
        &mut state,
        tapped_event,
        ReplacementId {
            source: ObjectId(11),
            index: 0,
        },
        ReplacementBranch::Execute,
        &registry,
        &mut events,
    )
    .expect("untap replacement should apply");
    assert_eq!(
        untapped_event.battlefield_entry_tap_state(),
        Some(EtbTapState::Untapped)
    );

    let retapped_event = apply_single_replacement(
        &mut state,
        untapped_event,
        ReplacementId {
            source: ObjectId(10),
            index: 0,
        },
        ReplacementBranch::Execute,
        &registry,
        &mut events,
    )
    .expect("later tap replacement should overwrite prior untap");
    assert_eq!(
        retapped_event.battlefield_entry_tap_state(),
        Some(EtbTapState::Tapped)
    );
}

#[test]
fn authority_taps_creature_tokens_after_replacement() {
    let repl = authority_replacement();
    let mut state = test_state_with_object(ObjectId(10), Zone::Battlefield, vec![repl]);
    let mut events = Vec::new();

    let proposed = ProposedEvent::CreateToken {
        owner: PlayerId(1),
        count: 1,
        spec: Box::new(test_token_spec(
            PlayerId(0),
            CoreType::Creature,
        )),
        enter_tapped: EtbTapState::Unspecified,
        applied: KeySet::new(),
    };

    let ReplacementResult::Execute(event) = replace_event(&mut state, proposed, &mut events)
    else {
        panic!("expected authority token replacement to auto-apply");
    };
    apply_create_token_after_replacement(&mut state, event, &mut events);

    let created_id = *state
        .battlefield
        .iter()
        .find(|id| state.objects.get(id).is_some_and(|obj| obj.is_token))
        .expect("token should be created");
    let created = state.objects.get(&created_id).unwrap();
    assert!(
        created.tapped,
        "Authority should make creature tokens enter tapped"
    );
}

#[test]
fn spelunking_untaps_seeded_land_tokens_after_replacement() {
    let repl = spelunking_replacement();
    let mut state = test_state_with_object(ObjectId(10), Zone::Battlefield, vec![repl]);
    let mut events = Vec::new();
    let mut spec = test_token_spec(PlayerId(1), CoreType::Land);
    spec.tapped = true;
    spec.power = None;
    spec.toughness = None;
    spec.script_name = "c_a_clue".to_string();
    spec.display_name = "Land Token".to_string();
    spec.subtypes = Arc::new(vec![]);

    let proposed = ProposedEvent::CreateToken {
        owner: PlayerId(0),
        count: 1,
        spec: Box::new(spec),
        enter_tapped: EtbTapState::Tapped,
        applied: KeySet::new(),
    };

    let ReplacementResult::Execute(event) = replace_event(&mut state, proposed, &mut events)
    else {
        panic!("expected spelunking token replacement to auto-apply");
    };
    apply_create_token_after_replacement(&mut state, event, &mut events);

    let created_id = *state
        .battlefield
        .iter()
        .find(|id| state.objects.get(id).is_some_and(|obj| obj.is_token))
        .expect("token should be created");
    let created = state.objects.get(&created_id).unwrap();
    assert!(
        !created.tapped,
        "Spelunking should make your land tokens enter untapped"
    );
}

#[test]
fn zone_redirect_applied_in_apply_single_replacement() {
    // Test that the zone redirect in apply_single_replacement mutates the destination
    let repl = rip_replacement();
    let mut state = test_state_with_object(ObjectId(10), Zone::Battlefield, vec![repl]);

    // Add the object being moved
    let target = GameObject::new(
        ObjectId(30),
        CardId(3),
        PlayerId(0),
        "Dying Creature".to_string(),
        Zone::Battlefield,
    );
    state.objects.insert(ObjectId(30), target);
    state.battlefield.push(ObjectId(30));

    let mut events = Vec::new();
    let proposed =
        ProposedEvent::zone_change(ObjectId(30), Zone::Battlefield, Zone::Graveyard, None);
    let result = replace_event(&mut state, proposed, &mut events);
    match result {
        ReplacementResult::Execute(ProposedEvent::ZoneChange { to, .. }) => {
            assert_eq!(to, Zone::Exile, "RIP should redirect graveyard -> exile");
        }
        other => panic!("expected Execute with ZoneChange, got {:?}", other),
    }
}

// -- Damage modification applier tests --

fn damage_event(amount: u32) -> ProposedEvent {
    ProposedEvent::Damage {
        source_id: ObjectId(50),
        target: TargetRef::Player(PlayerId(1)),
        amount,
        is_combat: false,
        applied: KeySet::new(),
    }
}

fn damage_repl(modification: DamageModification) -> ReplacementDefinition {
    ReplacementDefinition::new(ReplacementEvent::DamageDone).damage_modification(modification)
}

fn test_state_with_damage_repl(
    obj_id: ObjectId,
    controller: PlayerId,
    repls: Vec<ReplacementDefinition>,
) -> GameState {
    let mut state = GameState::new_two_player(42);
    let mut obj = GameObject::new(
        obj_id,
        CardId(1),
        controller,
        "Test".to_string(),
        Zone::Battlefield,
    );
    obj.replacement_definitions = repls;
    state.objects.insert(obj_id, obj);
    state.battlefield.push(obj_id);
    state
}

#[test]
fn damage_applier_double() {
    let repl = damage_repl(DamageModification::Double);
    let mut state = test_state_with_damage_repl(ObjectId(10), PlayerId(0), vec![repl]);
    let mut events = Vec::new();
    let rid = ReplacementId {
        source: ObjectId(10),
        index: 0,
    };
    let result = damage_done_applier(damage_event(3), rid, &mut state, &mut events);
    match result {
        ApplyResult::Modified(ProposedEvent::Damage { amount, .. }) => {
            assert_eq!(amount, 6);
        }
        other => panic!("Expected Modified Damage, got {other:?}"),
    }
}

#[test]
fn damage_applier_triple() {
    let repl = damage_repl(DamageModification::Triple);
    let mut state = test_state_with_damage_repl(ObjectId(10), PlayerId(0), vec![repl]);
    let mut events = Vec::new();
    let rid = ReplacementId {
        source: ObjectId(10),
        index: 0,
    };
    let result = damage_done_applier(damage_event(3), rid, &mut state, &mut events);
    match result {
        ApplyResult::Modified(ProposedEvent::Damage { amount, .. }) => {
            assert_eq!(amount, 9);
        }
        other => panic!("Expected Modified Damage, got {other:?}"),
    }
}

#[test]
fn damage_applier_plus() {
    let repl = damage_repl(DamageModification::Plus { value: 2 });
    let mut state = test_state_with_damage_repl(ObjectId(10), PlayerId(0), vec![repl]);
    let mut events = Vec::new();
    let rid = ReplacementId {
        source: ObjectId(10),
        index: 0,
    };
    let result = damage_done_applier(damage_event(3), rid, &mut state, &mut events);
    match result {
        ApplyResult::Modified(ProposedEvent::Damage { amount, .. }) => {
            assert_eq!(amount, 5);
        }
        other => panic!("Expected Modified Damage, got {other:?}"),
    }
}

#[test]
fn damage_applier_minus() {
    let repl = damage_repl(DamageModification::Minus { value: 1 });
    let mut state = test_state_with_damage_repl(ObjectId(10), PlayerId(0), vec![repl]);
    let mut events = Vec::new();
    let rid = ReplacementId {
        source: ObjectId(10),
        index: 0,
    };
    let result = damage_done_applier(damage_event(3), rid, &mut state, &mut events);
    match result {
        ApplyResult::Modified(ProposedEvent::Damage { amount, .. }) => {
            assert_eq!(amount, 2);
        }
        other => panic!("Expected Modified Damage, got {other:?}"),
    }
}

#[test]
fn damage_applier_minus_saturates_at_zero() {
    let repl = damage_repl(DamageModification::Minus { value: 5 });
    let mut state = test_state_with_damage_repl(ObjectId(10), PlayerId(0), vec![repl]);
    let mut events = Vec::new();
    let rid = ReplacementId {
        source: ObjectId(10),
        index: 0,
    };
    let result = damage_done_applier(damage_event(1), rid, &mut state, &mut events);
    match result {
        ApplyResult::Modified(ProposedEvent::Damage { amount, .. }) => {
            assert_eq!(amount, 0);
        }
        other => panic!("Expected Modified Damage, got {other:?}"),
    }
}

#[test]
fn damage_double_chaining_two_doublers() {
    // Two Double replacements -> 3 * 2 * 2 = 12
    let repl1 = damage_repl(DamageModification::Double);
    let repl2 = damage_repl(DamageModification::Double);
    let mut state = test_state_with_damage_repl(ObjectId(10), PlayerId(0), vec![repl1, repl2]);
    let mut events = Vec::new();
    let proposed = damage_event(3);
    let initial_result = replace_event(&mut state, proposed, &mut events);
    let result = resolve_first_replacement_choice(&mut state, initial_result, &mut events);
    match result {
        ReplacementResult::Execute(ProposedEvent::Damage { amount, .. }) => {
            assert_eq!(amount, 12, "Two doublers should quadruple: 3 * 2 * 2 = 12");
        }
        other => panic!("Expected Execute with Damage, got {other:?}"),
    }
}

// -- Damage pipeline filter tests --

#[test]
fn damage_source_filter_blocks_wrong_controller() {
    // Replacement on P0's object requires "source you control" but damage source is P1's
    let repl = damage_repl(DamageModification::Double).damage_source_filter(
        TargetFilter::Typed(TypedFilter::default().controller(ControllerRef::You)),
    );
    let mut state = test_state_with_damage_repl(ObjectId(10), PlayerId(0), vec![repl]);

    // Add a damage source owned by P1
    let mut source_obj = GameObject::new(
        ObjectId(50),
        CardId(2),
        PlayerId(1),
        "Enemy Source".to_string(),
        Zone::Battlefield,
    );
    source_obj.controller = PlayerId(1);
    state.objects.insert(ObjectId(50), source_obj);
    state.battlefield.push(ObjectId(50));

    let proposed = damage_event(3);
    let registry = build_replacement_registry();
    let candidates = find_applicable_replacements(&state, &proposed, &registry);
    assert!(
        candidates.is_empty(),
        "Should not match: source controller differs"
    );
}

#[test]
fn damage_source_filter_allows_correct_controller() {
    let repl = damage_repl(DamageModification::Double).damage_source_filter(
        TargetFilter::Typed(TypedFilter::default().controller(ControllerRef::You)),
    );
    let mut state = test_state_with_damage_repl(ObjectId(10), PlayerId(0), vec![repl]);

    // Damage source owned by P0 (same as replacement controller)
    let source_obj = GameObject::new(
        ObjectId(50),
        CardId(2),
        PlayerId(0),
        "Own Source".to_string(),
        Zone::Battlefield,
    );
    state.objects.insert(ObjectId(50), source_obj);
    state.battlefield.push(ObjectId(50));

    let proposed = damage_event(3);
    let registry = build_replacement_registry();
    let candidates = find_applicable_replacements(&state, &proposed, &registry);
    assert!(
        !candidates.is_empty(),
        "Should match: source controller matches"
    );
}

#[test]
fn damage_target_filter_opponent_blocks_self() {
    let repl = damage_repl(DamageModification::Plus { value: 2 })
        .damage_target_filter(DamageTargetFilter::OpponentOrTheirPermanents);
    // Replacement on P0's object
    let state = test_state_with_damage_repl(ObjectId(10), PlayerId(0), vec![repl]);

    // Damage targets P0 (self) - should not match
    let proposed = ProposedEvent::Damage {
        source_id: ObjectId(50),
        target: TargetRef::Player(PlayerId(0)),
        amount: 3,
        is_combat: false,
        applied: KeySet::new(),
    };
    let registry = build_replacement_registry();
    let candidates = find_applicable_replacements(&state, &proposed, &registry);
    assert!(candidates.is_empty(), "Should not match damage to self");
}

#[test]
fn damage_target_filter_opponent_allows_opponent() {
    let repl = damage_repl(DamageModification::Plus { value: 2 })
        .damage_target_filter(DamageTargetFilter::OpponentOrTheirPermanents);
    let state = test_state_with_damage_repl(ObjectId(10), PlayerId(0), vec![repl]);

    // Damage targets P1 (opponent) - should match
    let proposed = ProposedEvent::Damage {
        source_id: ObjectId(50),
        target: TargetRef::Player(PlayerId(1)),
        amount: 3,
        is_combat: false,
        applied: KeySet::new(),
    };
    let registry = build_replacement_registry();
    let candidates = find_applicable_replacements(&state, &proposed, &registry);
    assert!(!candidates.is_empty(), "Should match damage to opponent");
}

#[test]
fn damage_target_filter_opponent_allows_opponents_permanent() {
    let repl = damage_repl(DamageModification::Plus { value: 2 })
        .damage_target_filter(DamageTargetFilter::OpponentOrTheirPermanents);
    let mut state = test_state_with_damage_repl(ObjectId(10), PlayerId(0), vec![repl]);

    // Add opponent's creature
    let mut opp_creature = GameObject::new(
        ObjectId(60),
        CardId(3),
        PlayerId(1),
        "Opp Creature".to_string(),
        Zone::Battlefield,
    );
    opp_creature.card_types.core_types.push(CoreType::Creature);
    state.objects.insert(ObjectId(60), opp_creature);
    state.battlefield.push(ObjectId(60));

    let proposed = ProposedEvent::Damage {
        source_id: ObjectId(50),
        target: TargetRef::Object(ObjectId(60)),
        amount: 3,
        is_combat: false,
        applied: KeySet::new(),
    };
    let registry = build_replacement_registry();
    let candidates = find_applicable_replacements(&state, &proposed, &registry);
    assert!(
        !candidates.is_empty(),
        "Should match damage to opponent's permanent"
    );
}

#[test]
fn damage_boost_not_blocked_by_prevention_disabled() {
    // Damage boost with damage_modification should still apply even when prevention is disabled
    let repl = damage_repl(DamageModification::Double);
    let mut state = test_state_with_damage_repl(ObjectId(10), PlayerId(0), vec![repl]);
    state
        .restrictions
        .push(GameRestriction::DamagePreventionDisabled {
            source: ObjectId(99),
            expiry: RestrictionExpiry::EndOfTurn,
            scope: None,
        });

    let proposed = damage_event(3);
    let registry = build_replacement_registry();
    let candidates = find_applicable_replacements(&state, &proposed, &registry);
    assert!(
        !candidates.is_empty(),
        "Damage boost should not be blocked by prevention disabled"
    );
}

// -- Regeneration shield tests --

/// Helper: create a creature on the battlefield with a regeneration shield.
fn create_creature_with_regen_shield(
    state: &mut GameState,
    owner: PlayerId,
    name: &str,
) -> ObjectId {
    let id = create_object(
        state,
        CardId(1),
        owner,
        name.to_string(),
        Zone::Battlefield,
    );
    {
        let obj = state.objects.get_mut(&id).unwrap();
        obj.card_types
            .core_types
            .push(CoreType::Creature);
        obj.power = Some(2);
        obj.toughness = Some(2);

        let shield = ReplacementDefinition::new(ReplacementEvent::Destroy)
            .valid_card(TargetFilter::SelfRef)
            .description("Regenerate".to_string())
            .regeneration_shield();
        obj.replacement_definitions.push(shield);
    }
    id
}

#[test]
fn regen_shield_prevents_targeted_destruction() {
    let mut state = GameState::new_two_player(42);
    let bear_id = create_creature_with_regen_shield(&mut state, PlayerId(0), "Bear");

    let proposed = ProposedEvent::Destroy {
        object_id: bear_id,
        source: Some(ObjectId(100)),
        cant_regenerate: false,
        applied: KeySet::new(),
    };
    let mut events = Vec::new();
    let result = replace_event(&mut state, proposed, &mut events);

    assert!(matches!(result, ReplacementResult::Prevented));
    // CR 701.19: Creature stays on battlefield
    assert!(state.battlefield.contains(&bear_id));
    // CR 701.19: Damage removed and tapped
    let obj = state.objects.get(&bear_id).unwrap();
    assert_eq!(obj.damage_marked, 0);
    assert!(obj.tapped);
    // Shield consumed
    assert!(obj.replacement_definitions[0].is_consumed);
    // Regenerated event emitted
    assert!(events
        .iter()
        .any(|e| matches!(e, GameEvent::Regenerated { object_id } if *object_id == bear_id)));
}

#[test]
fn regen_shield_removes_damage_and_deathtouch() {
    let mut state = GameState::new_two_player(42);
    let bear_id = create_creature_with_regen_shield(&mut state, PlayerId(0), "Bear");

    // Mark damage including deathtouch
    {
        let obj = state.objects.get_mut(&bear_id).unwrap();
        obj.damage_marked = 3;
        obj.dealt_deathtouch_damage = true;
    }

    let proposed = ProposedEvent::Destroy {
        object_id: bear_id,
        source: None,
        cant_regenerate: false,
        applied: KeySet::new(),
    };
    let mut events = Vec::new();
    replace_event(&mut state, proposed, &mut events);

    let obj = state.objects.get(&bear_id).unwrap();
    assert_eq!(obj.damage_marked, 0);
    assert!(!obj.dealt_deathtouch_damage);
}

#[test]
fn cant_regenerate_bypasses_shield() {
    let mut state = GameState::new_two_player(42);
    let bear_id = create_creature_with_regen_shield(&mut state, PlayerId(0), "Bear");

    let proposed = ProposedEvent::Destroy {
        object_id: bear_id,
        source: Some(ObjectId(100)),
        cant_regenerate: true,
        applied: KeySet::new(),
    };
    let mut events = Vec::new();
    let result = replace_event(&mut state, proposed, &mut events);

    // Should pass through - not prevented
    assert!(
        matches!(
            result,
            ReplacementResult::Execute(ProposedEvent::Destroy { .. })
        ),
        "cant_regenerate should bypass shield, got {:?}",
        result
    );
    // Shield not consumed
    let obj = state.objects.get(&bear_id).unwrap();
    assert!(!obj.replacement_definitions[0].is_consumed);
}

#[test]
fn regen_shield_consumption_one_of_two() {
    let mut state = GameState::new_two_player(42);
    let bear_id = create_creature_with_regen_shield(&mut state, PlayerId(0), "Bear");

    // Add a second shield
    {
        let shield = ReplacementDefinition::new(ReplacementEvent::Destroy)
            .valid_card(TargetFilter::SelfRef)
            .description("Regenerate 2".to_string())
            .regeneration_shield();
        state
            .objects
            .get_mut(&bear_id)
            .unwrap()
            .replacement_definitions
            .push(shield);
    }

    // First destruction - one shield consumed
    let proposed = ProposedEvent::Destroy {
        object_id: bear_id,
        source: None,
        cant_regenerate: false,
        applied: KeySet::new(),
    };
    let mut events = Vec::new();
    let initial_result = replace_event(&mut state, proposed, &mut events);
    let result = resolve_first_replacement_choice(&mut state, initial_result, &mut events);
    assert!(matches!(result, ReplacementResult::Prevented));

    let obj = state.objects.get(&bear_id).unwrap();
    let consumed_count = obj
        .replacement_definitions
        .iter()
        .filter(|r| r.is_consumed)
        .count();
    let active_count = obj
        .replacement_definitions
        .iter()
        .filter(|r| !matches!(r.shield_kind, ShieldKind::Unshielded) && !r.is_consumed)
        .count();
    assert_eq!(consumed_count, 1, "One shield should be consumed");
    assert_eq!(active_count, 1, "One shield should remain active");

    // Second destruction - second shield consumed
    let proposed2 = ProposedEvent::Destroy {
        object_id: bear_id,
        source: None,
        cant_regenerate: false,
        applied: KeySet::new(),
    };
    let initial_result2 = replace_event(&mut state, proposed2, &mut events);
    let result2 = resolve_first_replacement_choice(&mut state, initial_result2, &mut events);
    assert!(matches!(result2, ReplacementResult::Prevented));

    let obj = state.objects.get(&bear_id).unwrap();
    let all_consumed = obj
        .replacement_definitions
        .iter()
        .filter(|r| !matches!(r.shield_kind, ShieldKind::Unshielded))
        .all(|r| r.is_consumed);
    assert!(all_consumed, "Both shields should be consumed now");
}

#[test]
fn regen_shield_removes_from_combat_attacker() {
    let mut state = GameState::new_two_player(42);
    let attacker_id = create_creature_with_regen_shield(&mut state, PlayerId(0), "Attacker");

    // Set up combat with the creature as an attacker
    let mut combat = CombatState::new();
    combat.attackers.push(attacking_player(attacker_id, PlayerId(1)));
    state.combat = Some(combat);

    let proposed = ProposedEvent::Destroy {
        object_id: attacker_id,
        source: None,
        cant_regenerate: false,
        applied: KeySet::new(),
    };
    let mut events = Vec::new();
    replace_event(&mut state, proposed, &mut events);

    // CR 701.19c: Removed from combat
    let combat = state.combat.as_ref().unwrap();
    assert!(
        combat.attackers.is_empty(),
        "Regenerated attacker should be removed from combat"
    );
}

#[test]
fn regen_shield_removes_from_combat_blocker() {
    let mut state = GameState::new_two_player(42);
    let blocker_id = create_creature_with_regen_shield(&mut state, PlayerId(1), "Blocker");
    let attacker_id = create_object(
        &mut state,
        CardId(2),
        PlayerId(0),
        "Attacker".to_string(),
        Zone::Battlefield,
    );

    // Set up combat with the creature as a blocker
    let mut combat = CombatState::new();
    combat.attackers.push(attacking_player(attacker_id, PlayerId(1)));
    combat
        .blocker_assignments
        .insert(attacker_id, vec![blocker_id]);
    combat
        .blocker_to_attacker
        .insert(blocker_id, vec![attacker_id]);
    state.combat = Some(combat);

    let proposed = ProposedEvent::Destroy {
        object_id: blocker_id,
        source: None,
        cant_regenerate: false,
        applied: KeySet::new(),
    };
    let mut events = Vec::new();
    replace_event(&mut state, proposed, &mut events);

    let combat = state.combat.as_ref().unwrap();
    assert!(
        !combat.blocker_to_attacker.contains_key(&blocker_id),
        "Regenerated blocker should be removed from blocker_to_attacker"
    );
    // Blocker removed from the attacker's blocker list
    let blockers = combat.blocker_assignments.get(&attacker_id).unwrap();
    assert!(
        !blockers.contains(&blocker_id),
        "Regenerated blocker should be removed from blocker list"
    );
}

#[test]
fn regen_shield_taps_already_tapped_creature() {
    let mut state = GameState::new_two_player(42);
    let bear_id = create_creature_with_regen_shield(&mut state, PlayerId(0), "Bear");

    // Already tapped
    state.objects.get_mut(&bear_id).unwrap().tapped = true;

    let proposed = ProposedEvent::Destroy {
        object_id: bear_id,
        source: None,
        cant_regenerate: false,
        applied: KeySet::new(),
    };
    let mut events = Vec::new();
    let result = replace_event(&mut state, proposed, &mut events);

    assert!(matches!(result, ReplacementResult::Prevented));
    // Still tapped (no-op on already-tapped)
    assert!(state.objects.get(&bear_id).unwrap().tapped);
}

#[test]
fn consumed_shield_skipped_by_find_applicable() {
    let mut state = GameState::new_two_player(42);
    let bear_id = create_creature_with_regen_shield(&mut state, PlayerId(0), "Bear");

    // Pre-consume the shield
    state
        .objects
        .get_mut(&bear_id)
        .unwrap()
        .replacement_definitions[0]
        .is_consumed = true;

    let proposed = ProposedEvent::Destroy {
        object_id: bear_id,
        source: None,
        cant_regenerate: false,
        applied: KeySet::new(),
    };
    let registry = build_replacement_registry();
    let candidates = find_applicable_replacements(&state, &proposed, &registry);

    assert!(
        candidates.is_empty(),
        "Consumed shield should not be a candidate"
    );
}

#[test]
fn unless_your_turn_untapped_on_controllers_turn() {
    let state = GameState::new_two_player(42);
    // active_player is PlayerId(0) by default
    let cond = ReplacementCondition::UnlessYourTurn;
    // Controller is active player -> replacement suppressed (enters untapped)
    assert!(
        !evaluate_replacement_condition(
            &cond,
            PlayerId(0),
            ObjectId(1),
            &state,
            None,
            &dummy_begin_turn_event()
        ),
        "Should be suppressed (untapped) on controller's turn"
    );
}

#[test]
fn unless_your_turn_tapped_on_opponents_turn() {
    let state = GameState::new_two_player(42);
    let cond = ReplacementCondition::UnlessYourTurn;
    // Controller is NOT active player -> replacement applies (enters tapped)
    assert!(
        evaluate_replacement_condition(
            &cond,
            PlayerId(1),
            ObjectId(1),
            &state,
            None,
            &dummy_begin_turn_event()
        ),
        "Should apply (tapped) on opponent's turn"
    );
}

#[test]
fn unless_quantity_turn_count_untapped_within_threshold() {
    let mut state = GameState::new_two_player(42);
    state.active_player = PlayerId(0);
    state.players[0].turns_taken = 2;
    let cond = ReplacementCondition::UnlessQuantity {
        lhs: QuantityExpr::Ref {
            qty: QuantityRef::TurnsTaken,
        },
        comparator: Comparator::LE,
        rhs: QuantityExpr::Fixed { value: 3 },
        active_player_req: Some(ControllerRef::You),
    };
    // turns_taken=2 <= 3 on controller's turn -> suppressed (untapped)
    assert!(
        !evaluate_replacement_condition(
            &cond,
            PlayerId(0),
            ObjectId(1),
            &state,
            None,
            &dummy_begin_turn_event()
        ),
        "Should be suppressed (untapped) when turns_taken <= threshold"
    );
}

#[test]
fn unless_quantity_turn_count_tapped_beyond_threshold() {
    let mut state = GameState::new_two_player(42);
    state.active_player = PlayerId(0);
    state.players[0].turns_taken = 4;
    let cond = ReplacementCondition::UnlessQuantity {
        lhs: QuantityExpr::Ref {
            qty: QuantityRef::TurnsTaken,
        },
        comparator: Comparator::LE,
        rhs: QuantityExpr::Fixed { value: 3 },
        active_player_req: Some(ControllerRef::You),
    };
    // turns_taken=4 > 3 -> replacement applies (tapped)
    assert!(
        evaluate_replacement_condition(
            &cond,
            PlayerId(0),
            ObjectId(1),
            &state,
            None,
            &dummy_begin_turn_event()
        ),
        "Should apply (tapped) when turns_taken > threshold"
    );
}

#[test]
fn unless_quantity_tapped_on_opponents_turn_regardless_of_count() {
    let mut state = GameState::new_two_player(42);
    state.active_player = PlayerId(1); // Opponent's turn
    state.players[0].turns_taken = 1; // Controller's count is low
    let cond = ReplacementCondition::UnlessQuantity {
        lhs: QuantityExpr::Ref {
            qty: QuantityRef::TurnsTaken,
        },
        comparator: Comparator::LE,
        rhs: QuantityExpr::Fixed { value: 3 },
        active_player_req: Some(ControllerRef::You),
    };
    // Not controller's turn -> replacement applies (tapped) even though turns_taken <= 3
    assert!(
        evaluate_replacement_condition(
            &cond,
            PlayerId(0),
            ObjectId(1),
            &state,
            None,
            &dummy_begin_turn_event()
        ),
        "Should apply (tapped) when not controller's turn"
    );
}

#[test]
fn unless_quantity_no_turn_req_works_on_any_turn() {
    let mut state = GameState::new_two_player(42);
    state.active_player = PlayerId(1); // Opponent's turn
    state.players[0].turns_taken = 2;
    let cond = ReplacementCondition::UnlessQuantity {
        lhs: QuantityExpr::Ref {
            qty: QuantityRef::TurnsTaken,
        },
        comparator: Comparator::LE,
        rhs: QuantityExpr::Fixed { value: 3 },
        active_player_req: None, // No turn requirement
    };
    // No turn gate, turns_taken=2 <= 3 -> suppressed regardless of active player
    assert!(
        !evaluate_replacement_condition(
            &cond,
            PlayerId(0),
            ObjectId(1),
            &state,
            None,
            &dummy_begin_turn_event()
        ),
        "Should be suppressed (untapped) with no turn requirement"
    );
}

#[test]
fn only_if_quantity_applies_when_condition_is_true() {
    let mut state = GameState::new_two_player(42);
    let h = &mut state.players[0].hand;
    if h.len() > 1 {
        h.truncate(1);
    }
    let cond = ReplacementCondition::OnlyIfQuantity {
        lhs: QuantityExpr::Ref {
            qty: QuantityRef::HandSize,
        },
        comparator: Comparator::LE,
        rhs: QuantityExpr::Fixed { value: 1 },
        active_player_req: None,
    };
    assert!(
        evaluate_replacement_condition(
            &cond,
            PlayerId(0),
            ObjectId(1),
            &state,
            None,
            &dummy_begin_turn_event()
        ),
        "Should apply while hand size is one or fewer"
    );
}

#[test]
fn only_if_quantity_is_filtered_for_opponent_draws() {
    let repl = ReplacementDefinition::new(ReplacementEvent::Draw)
        .condition(ReplacementCondition::OnlyIfQuantity {
            lhs: QuantityExpr::Ref {
                qty: QuantityRef::HandSize,
            },
            comparator: Comparator::LE,
            rhs: QuantityExpr::Fixed { value: 1 },
            active_player_req: None,
        })
        .execute(AbilityDefinition::new(
            AbilityKind::Spell,
            Effect::Draw {
                count: QuantityExpr::Offset {
                    inner: Box::new(QuantityExpr::Ref {
                        qty: QuantityRef::EventContextAmount,
                    }),
                    offset: 1,
                },
                target: TargetFilter::Controller,
            },
        ));
    let mut state = test_state_with_object(ObjectId(10), Zone::Battlefield, vec![repl]);
    let h = &mut state.players[0].hand;
    if h.len() > 1 {
        h.truncate(1);
    }

    let proposed = ProposedEvent::Draw {
        player_id: PlayerId(1),
        count: 2,
        applied: KeySet::new(),
    };
    let registry = build_replacement_registry();
    assert!(
        find_applicable_replacements(&state, &proposed, &registry).is_empty(),
        "Controller-only draw replacement should not apply to opponent draws"
    );
}

#[test]
fn damage_applier_set_to_source_power_replaces_when_less() {
    let repl = damage_repl(DamageModification::SetToSourcePower);
    let mut state = test_state_with_damage_repl(ObjectId(10), PlayerId(0), vec![repl]);
    // Set replacement source's power to 4
    state.objects.get_mut(&ObjectId(10)).unwrap().power = Some(4);
    let mut events = Vec::new();
    let rid = ReplacementId {
        source: ObjectId(10),
        index: 0,
    };
    // Damage amount 2 < power 4 -> should be replaced to 4
    let result = damage_done_applier(damage_event(2), rid, &mut state, &mut events);
    match result {
        ApplyResult::Modified(ProposedEvent::Damage { amount, .. }) => {
            assert_eq!(amount, 4, "Damage should be set to source power");
        }
        other => panic!("Expected Modified Damage, got {other:?}"),
    }
}

#[test]
fn damage_applier_set_to_source_power_no_change_when_greater() {
    let repl = damage_repl(DamageModification::SetToSourcePower);
    let mut state = test_state_with_damage_repl(ObjectId(10), PlayerId(0), vec![repl]);
    state.objects.get_mut(&ObjectId(10)).unwrap().power = Some(4);
    let mut events = Vec::new();
    let rid = ReplacementId {
        source: ObjectId(10),
        index: 0,
    };
    // Damage amount 5 >= power 4 -> should NOT be replaced
    let result = damage_done_applier(damage_event(5), rid, &mut state, &mut events);
    match result {
        ApplyResult::Modified(ProposedEvent::Damage { amount, .. }) => {
            assert_eq!(amount, 5, "Damage should pass through unchanged");
        }
        other => panic!("Expected Modified Damage, got {other:?}"),
    }
}

#[test]
fn damage_target_filter_opponent_only() {
    let repl = damage_repl(DamageModification::Plus { value: 1 })
        .damage_target_filter(DamageTargetFilter::OpponentOnly);
    let state = test_state_with_damage_repl(ObjectId(10), PlayerId(0), vec![repl]);

    // Damage to opponent (P1) - should match
    let proposed_opp = ProposedEvent::Damage {
        source_id: ObjectId(50),
        target: TargetRef::Player(PlayerId(1)),
        amount: 3,
        is_combat: false,
        applied: KeySet::new(),
    };
    let registry = build_replacement_registry();
    assert!(
        !find_applicable_replacements(&state, &proposed_opp, &registry).is_empty(),
        "Should match damage to opponent"
    );

    // Damage to self (P0) - should NOT match
    let proposed_self = ProposedEvent::Damage {
        source_id: ObjectId(50),
        target: TargetRef::Player(PlayerId(0)),
        amount: 3,
        is_combat: false,
        applied: KeySet::new(),
    };
    assert!(
        find_applicable_replacements(&state, &proposed_self, &registry).is_empty(),
        "Should not match damage to self"
    );

    // Damage to a creature - should NOT match (OpponentOnly is player-only)
    let mut state2 = test_state_with_damage_repl(
        ObjectId(10),
        PlayerId(0),
        vec![damage_repl(DamageModification::Plus { value: 1 })
            .damage_target_filter(DamageTargetFilter::OpponentOnly)],
    );
    let mut creature = GameObject::new(
        ObjectId(60),
        CardId(3),
        PlayerId(1),
        "Opp Creature".to_string(),
        Zone::Battlefield,
    );
    creature.card_types.core_types.push(CoreType::Creature);
    state2.objects.insert(ObjectId(60), creature);
    state2.battlefield.push(ObjectId(60));

    let proposed_creature = ProposedEvent::Damage {
        source_id: ObjectId(50),
        target: TargetRef::Object(ObjectId(60)),
        amount: 3,
        is_combat: false,
        applied: KeySet::new(),
    };
    assert!(
        find_applicable_replacements(&state2, &proposed_creature, &registry).is_empty(),
        "OpponentOnly should not match damage to creatures"
    );
}

// --- BeginTurn / BeginPhase (CR 614.1b, CR 614.10) ---

#[test]
fn only_extra_turn_condition_fires_only_on_extra_turn() {
    // CR 500.7 + CR 614.10: Stranglehold-class replacement with OnlyExtraTurn
    // must pass the condition check on extra turns and fail on natural turns.
    // Condition gating lives in `evaluate_replacement_condition` (the matcher
    // only filters by event shape); this test exercises the condition directly.
    let state = GameState::new_two_player(42);
    let cond = ReplacementCondition::OnlyExtraTurn;

    let extra_turn_event = ProposedEvent::begin_turn(PlayerId(0), true);
    assert!(
        evaluate_replacement_condition(
            &cond,
            PlayerId(0),
            ObjectId(1),
            &state,
            None,
            &extra_turn_event
        ),
        "OnlyExtraTurn should apply when is_extra_turn=true"
    );

    let natural_turn_event = ProposedEvent::begin_turn(PlayerId(0), false);
    assert!(
        !evaluate_replacement_condition(
            &cond,
            PlayerId(0),
            ObjectId(1),
            &state,
            None,
            &natural_turn_event
        ),
        "OnlyExtraTurn should NOT apply when is_extra_turn=false"
    );
}

#[test]
fn begin_turn_matcher_matches_event_shape_only() {
    // Matcher checks event shape; per-def gating runs in the outer pipeline.
    let state = GameState::new_two_player(42);
    let begin_turn = ProposedEvent::begin_turn(PlayerId(0), true);
    let draw = ProposedEvent::Draw {
        player_id: PlayerId(0),
        count: 1,
        applied: KeySet::new(),
    };
    assert!(handler_matches(
        Handler::BeginTurn,
        &begin_turn,
        ObjectId(1),
        &state
    ));
    assert!(!handler_matches(
        Handler::BeginTurn,
        &draw,
        ObjectId(1),
        &state
    ));
}

#[test]
fn begin_turn_applier_returns_prevented() {
    // CR 614.10: "skip" means unconditionally skip - applier must return Prevented.
    let repl =
        make_repl(ReplacementEvent::BeginTurn).condition(ReplacementCondition::OnlyExtraTurn);
    let mut state = test_state_with_object(ObjectId(10), Zone::Battlefield, vec![repl]);
    let rid = ReplacementId {
        source: ObjectId(10),
        index: 0,
    };
    let mut events = Vec::new();
    let proposed = ProposedEvent::begin_turn(PlayerId(0), true);

    let registry = build_replacement_registry();
    let result = apply_single_replacement(
        &mut state,
        proposed,
        rid,
        ReplacementBranch::Execute,
        &registry,
        &mut events,
    );
    assert!(matches!(result, Err(ApplyResult::Prevented)));
}

#[test]
fn begin_turn_replacement_does_not_consume_shield() {
    // CR 614.10 + no shield: permanent statics fire every time their
    // predicate matches - the replacement definition is NOT marked consumed
    // after the pipeline applies it.
    let repl =
        make_repl(ReplacementEvent::BeginTurn).condition(ReplacementCondition::OnlyExtraTurn);
    let mut state = test_state_with_object(ObjectId(10), Zone::Battlefield, vec![repl]);
    let mut events = Vec::new();
    let proposed = ProposedEvent::begin_turn(PlayerId(0), true);

    let result = replace_event(&mut state, proposed, &mut events);
    assert!(matches!(result, ReplacementResult::Prevented));

    let obj = state.objects.get(&ObjectId(10)).unwrap();
    assert!(
        !obj.replacement_definitions[0].is_consumed,
        "permanent static skip replacement must not be consumed after use"
    );
}

#[test]
fn begin_phase_matcher_fires_for_bare_begin_phase_def() {
    // CR 614.1b: Unconditional BeginPhase replacement should match the event.
    let repl = make_repl(ReplacementEvent::BeginPhase);
    let state = test_state_with_object(ObjectId(10), Zone::Battlefield, vec![repl]);
    let proposed = ProposedEvent::begin_phase(PlayerId(0), Phase::Upkeep);

    assert!(handler_matches(
        Handler::BeginPhase,
        &proposed,
        ObjectId(10),
        &state
    ));
}

#[test]
fn produce_mana_replacement_replaces_type() {
    // CR 106.3 + CR 614.1a: Contamination-style replacement rewrites Green -> Black.

    let land_id = ObjectId(10);
    let contamination_id = ObjectId(20);
    let repl = ReplacementDefinition::new(ReplacementEvent::ProduceMana).mana_modification(
        ManaModification::ReplaceWith {
            mana_type: ManaType::Black,
        },
    );
    let mut state = test_state_with_object(contamination_id, Zone::Battlefield, vec![repl]);
    // Add the land as a separate object so `valid_card` gating isn't exercised here.
    let land = GameObject::new(
        land_id,
        CardId(2),
        PlayerId(0),
        "Forest".to_string(),
        Zone::Battlefield,
    );
    state.objects.insert(land_id, land);
    state.battlefield.push(land_id);

    let mut events = Vec::new();
    let proposed = ProposedEvent::ProduceMana {
        source_id: land_id,
        player_id: PlayerId(0),
        mana_type: ManaType::Green,
        applied: KeySet::new(),
    };
    let result = replace_event(&mut state, proposed, &mut events);

    match result {
        ReplacementResult::Execute(ProposedEvent::ProduceMana { mana_type, .. }) => {
            assert_eq!(
                mana_type,
                ManaType::Black,
                "Green should be rewritten to Black"
            );
        }
        other => panic!("expected Execute(ProduceMana), got {:?}", other),
    }
}

#[test]
fn produce_mana_no_replacement_passthrough() {
    // CR 106.3: Without any ProduceMana replacement, the event passes through unchanged.

    let land_id = ObjectId(10);
    let mut state = test_state_with_object(land_id, Zone::Battlefield, vec![]);
    let mut events = Vec::new();
    let proposed = ProposedEvent::ProduceMana {
        source_id: land_id,
        player_id: PlayerId(0),
        mana_type: ManaType::Green,
        applied: KeySet::new(),
    };
    let result = replace_event(&mut state, proposed, &mut events);

    match result {
        ReplacementResult::Execute(ProposedEvent::ProduceMana { mana_type, .. }) => {
            assert_eq!(mana_type, ManaType::Green, "no replacement -> pass through");
        }
        other => panic!("expected Execute(ProduceMana), got {:?}", other),
    }
}

/// CR 614.1c + CR 601.2h: `colors_spent_to_cast` of an entering spell remains
/// populated while replacements are applied to its move.
#[test]
fn colors_spent_to_cast_persists_through_zone_change_replacement() {
    // Source of the replacement (static permanent on battlefield).
    let repl_source = ObjectId(10);
    let mut state = test_state_with_object(
        repl_source,
        Zone::Battlefield,
        vec![make_repl(ReplacementEvent::Moved)],
    );

    // Spell object on the stack with 3 distinct colors of mana spent.
    let spell_id = ObjectId(20);
    let mut spell = GameObject::new(
        spell_id,
        CardId(99),
        PlayerId(0),
        "Test Creature Spell".to_string(),
        Zone::Stack,
    );
    spell.colors_spent_to_cast.white = 1;
    spell.colors_spent_to_cast.blue = 1;
    spell.colors_spent_to_cast.red = 1;
    state.objects.insert(spell_id, spell);

    let mut events = Vec::new();
    let proposed = ProposedEvent::zone_change(spell_id, Zone::Stack, Zone::Battlefield, None);

    let _ = replace_event(&mut state, proposed, &mut events);

    // The invariant: `colors_spent_to_cast` is still intact after replacement.
    let after = state.objects.get(&spell_id).unwrap().colors_spent_to_cast;
    assert_eq!(after.white, 1);
    assert_eq!(after.blue, 1);
    assert_eq!(after.red, 1);
    assert_eq!(after.black, 0);
    assert_eq!(after.green, 0);
}

/// CR 614.1c + CR 601.2h + CR 202.2: Wildgrowth Archaic's replacement places
/// `N` P1P1 counters on the entering creature, where N is the number of
/// distinct colors of mana spent to cast it. The replacement source is the
/// Archaic itself (static permanent on battlefield); the quantity must
/// resolve against the *entering* object's `colors_spent_to_cast`, not the
/// source's. This test builds that exact scenario and asserts the resulting
/// `ZoneChange.enter_with_counters` carries `("P1P1", 3)` for a 3-color cast.
#[test]
fn colors_spent_on_self_resolves_against_entering_object() {
    let archaic_id = ObjectId(10);
    let creature_id = ObjectId(20);

    let etb_counter_ability = AbilityDefinition::new(
        AbilityKind::Spell,
        Effect::PutCounter {
            target: TargetFilter::SelfRef,
            counter_type: "P1P1".to_string(),
            count: QuantityExpr::Ref {
                qty: QuantityRef::ColorsSpentOnSelf,
            },
        },
    );

    let creature_filter = TargetFilter::Typed(
        TypedFilter::creature()
            .controller(ControllerRef::You),
    );

    let repl = ReplacementDefinition::new(ReplacementEvent::Moved)
        .execute(etb_counter_ability)
        .valid_card(creature_filter);

    let mut state = test_state_with_object(archaic_id, Zone::Battlefield, vec![repl]);

    // Entering creature spell with 3 distinct colors tallied.
    let mut spell = GameObject::new(
        creature_id,
        CardId(99),
        PlayerId(0),
        "3-color creature".to_string(),
        Zone::Stack,
    );
    spell
        .card_types
        .core_types
        .push(CoreType::Creature);
    spell.colors_spent_to_cast.white = 1;
    spell.colors_spent_to_cast.blue = 1;
    spell.colors_spent_to_cast.red = 1;
    state.objects.insert(creature_id, spell);

    let mut events = Vec::new();
    let proposed =
        ProposedEvent::zone_change(creature_id, Zone::Stack, Zone::Battlefield, None);

    let result = replace_event(&mut state, proposed, &mut events);
    match result {
        ReplacementResult::Execute(ProposedEvent::ZoneChange {
            enter_with_counters,
            ..
        }) => {
            assert_eq!(
                enter_with_counters,
                vec![("P1P1".to_string(), 3u32)],
                "expected 3 P1P1 counters (3 distinct colors spent)"
            );
        }
        other => panic!("expected Execute(ZoneChange), got {:?}", other),
    }
}

/// When `QuantityRef::ColorsSpentOnSelf` is used outside an ETB
/// context (no entering object), it resolves against the static source. This
/// keeps `CountersOnSelf`-style refs working for static abilities that inspect
/// their own source without reach-around via the replacement pipeline.
#[test]
fn colors_spent_on_self_falls_back_to_source_without_entering() {
    let mut state = GameState::new_two_player(42);
    let source = ObjectId(10);
    let mut obj = GameObject::new(
        source,
        CardId(1),
        PlayerId(0),
        "Source".to_string(),
        Zone::Battlefield,
    );
    obj.colors_spent_to_cast.green = 1;
    obj.colors_spent_to_cast.red = 1;
    state.objects.insert(source, obj);

    let expr = QuantityExpr::Ref {
        qty: QuantityRef::ColorsSpentOnSelf,
    };
    // No entering object - resolves against `source` directly.
    let n = resolve_quantity(&state, &expr, PlayerId(0), source);
    assert_eq!(n, 2);
}

/// CR 614.1a + CR 111.1: Chatterfang-class replacement emits additional
/// tokens alongside the primary CreateToken event. Two Plant tokens enter
/// plus two Squirrel tokens, all under the primary owner's control.
#[test]
fn create_token_applier_emits_additional_token_spec_batch() {
    let chatterfang = ObjectId(500);
    let squirrel_spec = TokenSpec {
        display_name: "Squirrel".to_string(),
        script_name: "Squirrel".to_string(),
        power: Some(1),
        toughness: Some(1),
        core_types: Arc::new(vec![CoreType::Creature]),
        subtypes: Arc::new(vec!["Squirrel".to_string()]),
        supertypes: Arc::new(Vec::new()),
        colors: Arc::new(vec![ManaColor::Green]),
        keywords: Arc::new(Vec::new()),
        static_abilities: Arc::new(Vec::new()),
        enter_with_counters: Vec::new(),
        tapped: false,
        enters_attacking: false,
        sacrifice_at: None,
        source_id: ObjectId(0),
        controller: PlayerId(0),
    };
    let repl = ReplacementDefinition::new(ReplacementEvent::CreateToken)
        .token_owner_scope(ControllerRef::You)
        .additional_token_spec(squirrel_spec);
    let mut state = test_state_with_object(chatterfang, Zone::Battlefield, vec![repl]);
    let mut events = Vec::new();

    let plant_spec = TokenSpec {
        display_name: "Plant".to_string(),
        script_name: "Plant".to_string(),
        power: Some(0),
        toughness: Some(2),
        core_types: Arc::new(vec![CoreType::Creature]),
        subtypes: Arc::new(vec!["Plant".to_string()]),
        supertypes: Arc::new(Vec::new()),
        colors: Arc::new(vec![ManaColor::Green]),
        keywords: Arc::new(Vec::new()),
        static_abilities: Arc::new(Vec::new()),
        enter_with_counters: Vec::new(),
        tapped: false,
        enters_attacking: false,
        sacrifice_at: None,
        source_id: chatterfang,
        controller: PlayerId(0),
    };
    let proposed = ProposedEvent::CreateToken {
        owner: PlayerId(0),
        spec: Box::new(plant_spec),
        enter_tapped: EtbTapState::Unspecified,
        count: 2,
        applied: KeySet::new(),
    };

    let result = replace_event(&mut state, proposed, &mut events);
    let ReplacementResult::Execute(primary) = result else {
        panic!("expected Execute; got {:?}", result);
    };
    apply_create_token_after_replacement(
        &mut state,
        primary,
        &mut events,
    );

    let plant_count = objects_of(&state)
        .into_iter()
        .filter(|o| o.is_token && o.card_types.subtypes.iter().any(|s| s == "Plant"))
        .count();
    let squirrel_count = objects_of(&state)
        .into_iter()
        .filter(|o| o.is_token && o.card_types.subtypes.iter().any(|s| s == "Squirrel"))
        .count();
    assert_eq!(plant_count, 2, "primary Plant batch materializes");
    assert_eq!(
        squirrel_count, 2,
        "additional_token_spec emits matching Squirrel batch"
    );
    assert!(objects_of(&state)
        .into_iter()
        .filter(|o| o.is_token)
        .all(|o| o.owner == PlayerId(0)));
}
