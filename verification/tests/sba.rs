//! State-based actions.

use std::sync::Arc;
use tabletop_engine::ability::{ControllerRef, CounterFilter, Effect, ReplacementDefinition, ReplacementEvent, ResolvedAbility, StaticDefinition, StaticMode, TargetFilter, TriggerDefinition, TriggerMode, TypedFilter};
use tabletop_engine::cards::{CoreType, CounterType, Supertype, Zone};
use tabletop_engine::events::{GameEvent, WaitingFor};
use tabletop_engine::ids::{CardId, ObjectId, PlayerId};
use tabletop_engine::sba::check_state_based_actions;
use tabletop_engine::state::{CommanderDamageEntry, FormatConfig, GameState, StackEntry, StackEntryKind};
use tabletop_engine::zones::{create_object, move_to_zone};

fn setup() -> GameState {
    GameState::new_two_player(42)
}

fn create_creature(
    state: &mut GameState,
    card_id: CardId,
    owner: PlayerId,
    name: &str,
    power: i32,
    toughness: i32,
) -> ObjectId {
    let id = create_object(state, card_id, owner, name.to_string(), Zone::Battlefield);
    let obj = state.objects.get_mut(&id).unwrap();
    obj.card_types.core_types.push(CoreType::Creature);
    obj.power = Some(power);
    obj.toughness = Some(toughness);
    obj.entered_battlefield_turn = Some(state.turn_number);
    id
}

// --- Two players ---

#[test]
fn sba_zero_life_player_loses() {
    let mut state = setup();
    state.players[0].life = 0;
    let mut events = Vec::new();

    check_state_based_actions(&mut state, &mut events);

    assert!(matches!(
        state.waiting_for,
        WaitingFor::GameOver {
            winner: Some(PlayerId(1))
        }
    ));
    assert!(events.iter().any(|e| matches!(
        e,
        GameEvent::PlayerLost {
            player_id: PlayerId(0)
        }
    )));
}

#[test]
fn sba_negative_life_player_loses() {
    let mut state = setup();
    state.players[1].life = -5;
    let mut events = Vec::new();

    check_state_based_actions(&mut state, &mut events);

    assert!(matches!(
        state.waiting_for,
        WaitingFor::GameOver {
            winner: Some(PlayerId(0))
        }
    ));
}

#[test]
fn sba_zero_toughness_creature_dies() {
    let mut state = setup();
    let id = create_creature(&mut state, CardId(1), PlayerId(0), "Weakling", 1, 0);
    let mut events = Vec::new();

    check_state_based_actions(&mut state, &mut events);

    assert!(!state.battlefield.contains(&id));
    assert!(state.players[0].graveyard.contains(&id));
}

#[test]
fn sba_lethal_damage_creature_dies() {
    let mut state = setup();
    let id = create_creature(&mut state, CardId(1), PlayerId(0), "Bear", 2, 2);
    state.objects.get_mut(&id).unwrap().damage_marked = 2;
    let mut events = Vec::new();

    check_state_based_actions(&mut state, &mut events);

    assert!(!state.battlefield.contains(&id));
    assert!(state.players[0].graveyard.contains(&id));
}

#[test]
fn sba_healthy_creature_survives() {
    let mut state = setup();
    let id = create_creature(&mut state, CardId(1), PlayerId(0), "Bear", 2, 2);
    state.objects.get_mut(&id).unwrap().damage_marked = 1;
    let mut events = Vec::new();

    check_state_based_actions(&mut state, &mut events);

    assert!(state.battlefield.contains(&id));
}

#[test]
fn sba_legend_rule_presents_choice() {
    let mut state = setup();
    state.turn_number = 1;
    let id1 = create_creature(&mut state, CardId(1), PlayerId(0), "Thalia", 2, 1);
    state
        .objects
        .get_mut(&id1)
        .unwrap()
        .card_types
        .supertypes
        .push(Supertype::Legendary);
    state
        .objects
        .get_mut(&id1)
        .unwrap()
        .entered_battlefield_turn = Some(1);

    state.turn_number = 2;
    let id2 = create_creature(&mut state, CardId(2), PlayerId(0), "Thalia", 2, 1);
    state
        .objects
        .get_mut(&id2)
        .unwrap()
        .card_types
        .supertypes
        .push(Supertype::Legendary);
    state
        .objects
        .get_mut(&id2)
        .unwrap()
        .entered_battlefield_turn = Some(2);

    let mut events = Vec::new();
    check_state_based_actions(&mut state, &mut events);

    // CR 704.5j: SBA pauses and presents a choice - both still on battlefield
    assert!(state.battlefield.contains(&id1));
    assert!(state.battlefield.contains(&id2));
    match &state.waiting_for {
        WaitingFor::ChooseLegend {
            player,
            legend_name,
            candidates,
        } => {
            assert_eq!(*player, PlayerId(0));
            assert_eq!(legend_name, "Thalia");
            assert!(candidates.contains(&id1));
            assert!(candidates.contains(&id2));
        }
        other => panic!("Expected ChooseLegend, got {:?}", other),
    }
}

#[test]
fn sba_unattached_aura_goes_to_graveyard() {
    let mut state = setup();
    // Create an enchantment attached to a nonexistent object
    let aura_id = create_object(
        &mut state,
        CardId(1),
        PlayerId(0),
        "Pacifism".to_string(),
        Zone::Battlefield,
    );
    let obj = state.objects.get_mut(&aura_id).unwrap();
    obj.card_types.core_types.push(CoreType::Enchantment);
    obj.attached_to = Some(ObjectId(999)); // nonexistent target

    let mut events = Vec::new();
    check_state_based_actions(&mut state, &mut events);

    assert!(!state.battlefield.contains(&aura_id));
    assert!(state.players[0].graveyard.contains(&aura_id));
}

#[test]
fn sba_fixpoint_handles_cascading_deaths() {
    let mut state = setup();
    // Create a creature that will die from lethal damage
    let id = create_creature(&mut state, CardId(1), PlayerId(0), "Bear", 2, 2);
    state.objects.get_mut(&id).unwrap().damage_marked = 3;

    // Create an aura attached to that creature
    let aura_id = create_object(
        &mut state,
        CardId(2),
        PlayerId(0),
        "Aura".to_string(),
        Zone::Battlefield,
    );
    let obj = state.objects.get_mut(&aura_id).unwrap();
    obj.card_types.core_types.push(CoreType::Enchantment);
    obj.attached_to = Some(id);

    let mut events = Vec::new();
    check_state_based_actions(&mut state, &mut events);

    // Both should be in graveyard (creature dies, then aura detaches and dies)
    assert!(!state.battlefield.contains(&id));
    assert!(!state.battlefield.contains(&aura_id));
}

#[test]
fn sba_poison_10_player_loses() {
    let mut state = setup();
    state.players[0].poison_counters = 10;
    let mut events = Vec::new();

    check_state_based_actions(&mut state, &mut events);

    assert!(matches!(
        state.waiting_for,
        WaitingFor::GameOver {
            winner: Some(PlayerId(1))
        }
    ));
    assert!(events.iter().any(|e| matches!(
        e,
        GameEvent::PlayerLost {
            player_id: PlayerId(0)
        }
    )));
}

#[test]
fn sba_poison_9_player_survives() {
    let mut state = setup();
    state.players[0].poison_counters = 9;
    let mut events = Vec::new();

    check_state_based_actions(&mut state, &mut events);

    assert!(!matches!(state.waiting_for, WaitingFor::GameOver { .. }));
}

#[test]
fn sba_no_actions_when_nothing_to_do() {
    let mut state = setup();
    create_creature(&mut state, CardId(1), PlayerId(0), "Bear", 2, 2);
    let mut events = Vec::new();

    check_state_based_actions(&mut state, &mut events);

    // No zone change events should have been generated
    assert!(events.is_empty());
}

#[test]
fn sba_equipment_unattaches_when_creature_dies() {
    let mut state = setup();
    // Create a creature that will die
    let creature_id = create_creature(&mut state, CardId(1), PlayerId(0), "Bear", 2, 2);
    state.objects.get_mut(&creature_id).unwrap().damage_marked = 3; // lethal

    // Create equipment attached to that creature
    let equip_id = create_object(
        &mut state,
        CardId(2),
        PlayerId(0),
        "Sword".to_string(),
        Zone::Battlefield,
    );
    let obj = state.objects.get_mut(&equip_id).unwrap();
    obj.card_types
        .core_types
        .push(CoreType::Artifact);
    obj.card_types.subtypes.push("Equipment".to_string());
    obj.attached_to = Some(creature_id);

    state
        .objects
        .get_mut(&creature_id)
        .unwrap()
        .attachments
        .push(equip_id);

    let mut events = Vec::new();
    check_state_based_actions(&mut state, &mut events);

    // Creature should be dead
    assert!(!state.battlefield.contains(&creature_id));
    // Equipment should still be on battlefield but unattached
    assert!(state.battlefield.contains(&equip_id));
    assert_eq!(state.objects.get(&equip_id).unwrap().attached_to, None);
}

#[test]
fn sba_equipment_on_battlefield_without_attachment_stays() {
    let mut state = setup();
    // Equipment on battlefield with no attached_to is a valid state
    let equip_id = create_object(
        &mut state,
        CardId(1),
        PlayerId(0),
        "Sword".to_string(),
        Zone::Battlefield,
    );
    let obj = state.objects.get_mut(&equip_id).unwrap();
    obj.card_types
        .core_types
        .push(CoreType::Artifact);
    obj.card_types.subtypes.push("Equipment".to_string());

    let mut events = Vec::new();
    check_state_based_actions(&mut state, &mut events);

    // Equipment should stay on battlefield, no events generated
    assert!(state.battlefield.contains(&equip_id));
    assert!(events.is_empty());
}

#[test]
fn sba_aura_still_goes_to_graveyard_when_target_leaves() {
    let mut state = setup();
    // Create a creature that will die
    let creature_id = create_creature(&mut state, CardId(1), PlayerId(0), "Bear", 2, 2);
    state.objects.get_mut(&creature_id).unwrap().damage_marked = 3;

    // Create an aura attached to the creature
    let aura_id = create_object(
        &mut state,
        CardId(2),
        PlayerId(0),
        "Pacifism".to_string(),
        Zone::Battlefield,
    );
    let obj = state.objects.get_mut(&aura_id).unwrap();
    obj.card_types.core_types.push(CoreType::Enchantment);
    obj.attached_to = Some(creature_id);

    let mut events = Vec::new();
    check_state_based_actions(&mut state, &mut events);

    // Both should be gone from battlefield
    assert!(!state.battlefield.contains(&creature_id));
    assert!(!state.battlefield.contains(&aura_id));
    // Aura goes to graveyard (not stays on battlefield like equipment)
    assert!(state.players[0].graveyard.contains(&aura_id));
}

fn create_planeswalker(
    state: &mut GameState,
    card_id: CardId,
    owner: PlayerId,
    name: &str,
    loyalty: u32,
) -> ObjectId {
    let id = create_object(state, card_id, owner, name.to_string(), Zone::Battlefield);
    let obj = state.objects.get_mut(&id).unwrap();
    obj.card_types.core_types.push(CoreType::Planeswalker);
    obj.loyalty = Some(loyalty);
    obj.entered_battlefield_turn = Some(state.turn_number);
    id
}

#[test]
fn sba_zero_loyalty_planeswalker_dies() {
    let mut state = setup();
    let pw = create_planeswalker(&mut state, CardId(1), PlayerId(0), "Jace", 0);
    let mut events = Vec::new();

    check_state_based_actions(&mut state, &mut events);

    assert!(!state.battlefield.contains(&pw));
    assert!(state.players[0].graveyard.contains(&pw));
}

#[test]
fn sba_positive_loyalty_planeswalker_survives() {
    let mut state = setup();
    let pw = create_planeswalker(&mut state, CardId(1), PlayerId(0), "Jace", 3);
    let mut events = Vec::new();

    check_state_based_actions(&mut state, &mut events);

    assert!(state.battlefield.contains(&pw));
}

// --- N-player SBA tests ---

#[test]
fn sba_three_player_one_dies_game_continues() {
    let mut state = GameState::new(FormatConfig::free_for_all(), 3, 42);
    state.players[1].life = 0;
    let mut events = Vec::new();

    check_state_based_actions(&mut state, &mut events);

    // P1 eliminated but game continues
    assert!(state.players[1].is_eliminated);
    assert!(!matches!(state.waiting_for, WaitingFor::GameOver { .. }));
}

#[test]
fn sba_three_player_two_die_simultaneously_ends_game() {
    let mut state = GameState::new(FormatConfig::free_for_all(), 3, 42);
    state.players[1].life = 0;
    state.players[2].life = -3;
    let mut events = Vec::new();

    check_state_based_actions(&mut state, &mut events);

    // Both eliminated, P0 wins
    assert!(state.players[1].is_eliminated);
    assert!(state.players[2].is_eliminated);
    assert!(matches!(
        state.waiting_for,
        WaitingFor::GameOver {
            winner: Some(PlayerId(0))
        }
    ));
}

#[test]
fn sba_eliminated_player_not_re_checked() {
    let mut state = GameState::new(FormatConfig::free_for_all(), 3, 42);
    // P1 already eliminated with 0 life
    state.players[1].is_eliminated = true;
    state.eliminated_players.push(PlayerId(1));
    state.players[1].life = 0;
    let mut events = Vec::new();

    check_state_based_actions(&mut state, &mut events);

    // No new events for already-eliminated player
    assert!(!events.iter().any(|e| matches!(
        e,
        GameEvent::PlayerLost {
            player_id: PlayerId(1)
        }
    )));
}

#[test]
fn sba_commander_damage_21_eliminates_player() {
    let mut state = GameState::new(FormatConfig::commander(), 4, 42);
    let cmd_id = ObjectId(999);
    // Player 1 has taken 21 commander damage from cmd_id
    state.commander_damage.push(CommanderDamageEntry {
        player: PlayerId(1),
        commander: cmd_id,
        damage: 21,
    });
    let mut events = Vec::new();

    check_state_based_actions(&mut state, &mut events);

    // P1 should be eliminated
    assert!(state.players[1].is_eliminated);
    assert!(state.eliminated_players.contains(&PlayerId(1)));
    // Game should NOT be over (3 remaining players)
    assert!(!matches!(state.waiting_for, WaitingFor::GameOver { .. }));
}

#[test]
fn sba_commander_damage_20_does_not_eliminate() {
    let mut state = GameState::new(FormatConfig::commander(), 4, 42);
    let cmd_id = ObjectId(999);
    state.commander_damage.push(CommanderDamageEntry {
        player: PlayerId(1),
        commander: cmd_id,
        damage: 20,
    });
    let mut events = Vec::new();

    check_state_based_actions(&mut state, &mut events);

    // P1 should NOT be eliminated (threshold is 21)
    assert!(!state.players[1].is_eliminated);
}

#[test]
fn sba_commander_damage_skipped_in_non_commander_format() {
    let mut state = GameState::new(FormatConfig::free_for_all(), 3, 42);
    let cmd_id = ObjectId(999);
    state.commander_damage.push(CommanderDamageEntry {
        player: PlayerId(1),
        commander: cmd_id,
        damage: 100,
    });
    let mut events = Vec::new();

    check_state_based_actions(&mut state, &mut events);

    // Not a commander format -> threshold is None -> no elimination
    assert!(!state.players[1].is_eliminated);
}

#[test]
fn sba_2hg_team_dies_together() {
    let mut state = GameState::new(FormatConfig::two_headed_giant(), 4, 42);
    state.players[0].life = 0; // Team A player dies
    let mut events = Vec::new();

    check_state_based_actions(&mut state, &mut events);

    // Both team A members eliminated
    assert!(state.players[0].is_eliminated);
    assert!(state.players[1].is_eliminated);
    // Team B wins
    assert!(matches!(
        state.waiting_for,
        WaitingFor::GameOver { winner: Some(_) }
    ));
}

// --- Saga SBA tests ---

fn create_saga(
    state: &mut GameState,
    card_id: CardId,
    owner: PlayerId,
    name: &str,
    final_chapter: u32,
) -> ObjectId {
    let id = create_object(state, card_id, owner, name.to_string(), Zone::Battlefield);
    let obj = state.objects.get_mut(&id).unwrap();
    obj.card_types.core_types.push(CoreType::Enchantment);
    obj.card_types.subtypes.push("Saga".to_string());
    obj.entered_battlefield_turn = Some(state.turn_number);
    // Add chapter triggers so final_chapter_number() works
    for ch in 1..=final_chapter {
        Arc::get_mut(&mut obj.trigger_definitions).unwrap().push(
            TriggerDefinition::new(TriggerMode::CounterAdded).counter_filter(
                CounterFilter {
                    counter_type: CounterType::Lore,
                    threshold: Some(ch),
                },
            ),
        );
    }
    id
}

#[test]
fn saga_sacrificed_at_final_chapter() {
    let mut state = setup();
    let id = create_saga(&mut state, CardId(1), PlayerId(0), "Saga", 3);
    state
        .objects
        .get_mut(&id)
        .unwrap()
        .counters
        .insert(CounterType::Lore, 3);
    let mut events = Vec::new();

    check_state_based_actions(&mut state, &mut events);

    assert!(!state.battlefield.contains(&id));
    assert!(state.players[0].graveyard.contains(&id));
    assert!(events.iter().any(
        |e| matches!(e, GameEvent::PermanentSacrificed { object_id, .. } if *object_id == id)
    ));
}

#[test]
fn saga_not_sacrificed_below_final() {
    let mut state = setup();
    let id = create_saga(&mut state, CardId(1), PlayerId(0), "Saga", 3);
    state
        .objects
        .get_mut(&id)
        .unwrap()
        .counters
        .insert(CounterType::Lore, 2);
    let mut events = Vec::new();

    check_state_based_actions(&mut state, &mut events);

    assert!(state.battlefield.contains(&id));
}

#[test]
fn saga_not_sacrificed_with_chapter_on_stack() {
    let mut state = setup();
    let id = create_saga(&mut state, CardId(1), PlayerId(0), "Saga", 3);
    state
        .objects
        .get_mut(&id)
        .unwrap()
        .counters
        .insert(CounterType::Lore, 3);

    // Put a chapter trigger from this saga on the stack
    state.stack.push(StackEntry {
        id: ObjectId(999),
        source_id: id,
        controller: PlayerId(0),
        kind: StackEntryKind::TriggeredAbility {
            source_id: id,
            ability: Arc::new(ResolvedAbility::new(
                Arc::new(Effect::Unimplemented {
                    name: "chapter".into(),
                    description: None,
                }),
                vec![],
                id,
                PlayerId(0),
            )),
        },
    });

    let mut events = Vec::new();
    check_state_based_actions(&mut state, &mut events);

    // CR 714.4: Saga survives while chapter trigger is on the stack
    assert!(state.battlefield.contains(&id));
}

#[test]
fn saga_not_sacrificed_with_pending_lore_event() {
    let mut state = setup();
    let id = create_saga(&mut state, CardId(1), PlayerId(0), "Saga", 3);
    state
        .objects
        .get_mut(&id)
        .unwrap()
        .counters
        .insert(CounterType::Lore, 3);

    // Simulate a lore counter having just been added in this batch
    let mut events = vec![GameEvent::CounterAdded {
        object_id: id,
        counter_type: CounterType::Lore,
        count: 1,
    }];

    check_state_based_actions(&mut state, &mut events);

    // CR 714.4 deferral: triggers haven't been placed yet
    assert!(state.battlefield.contains(&id));
}

#[test]
fn lethal_damage_prevented_by_regen_shield() {
    let mut state = GameState::new_two_player(42);
    let id = create_object(
        &mut state,
        CardId(1),
        PlayerId(0),
        "Bear".to_string(),
        Zone::Battlefield,
    );
    {
        let obj = state.objects.get_mut(&id).unwrap();
        obj.card_types.core_types.push(CoreType::Creature);
        obj.power = Some(2);
        obj.toughness = Some(2);
        obj.damage_marked = 3; // lethal

        // Add regeneration shield
        let shield = ReplacementDefinition::new(ReplacementEvent::Destroy)
            .valid_card(TargetFilter::SelfRef)
            .description("Regenerate".to_string())
            .regeneration_shield();
        obj.replacement_definitions.push(shield);
    }

    let mut events = Vec::new();
    check_state_based_actions(&mut state, &mut events);

    // CR 701.19a: Creature survives lethal damage via regeneration
    assert!(
        state.battlefield.contains(&id),
        "Creature with regen shield should survive lethal damage SBA"
    );
    // Damage cleared by regeneration
    let obj = state.objects.get(&id).unwrap();
    assert_eq!(obj.damage_marked, 0, "Regeneration should remove damage");
    assert!(obj.tapped, "Regeneration should tap the creature");
    // Shield consumed
    assert!(obj.replacement_definitions[0].is_consumed);
    // Regenerated event emitted
    assert!(events
        .iter()
        .any(|e| matches!(e, GameEvent::Regenerated { object_id } if *object_id == id)));
}

// --- CR 704.5b: Draw from empty library SBA tests ---

#[test]
fn sba_draw_from_empty_library_loses() {
    let mut state = setup();
    state.players[0].drew_from_empty_library = true;
    let mut events = Vec::new();

    check_state_based_actions(&mut state, &mut events);

    assert!(matches!(
        state.waiting_for,
        WaitingFor::GameOver {
            winner: Some(PlayerId(1))
        }
    ));
    assert!(events.iter().any(|e| matches!(
        e,
        GameEvent::PlayerLost {
            player_id: PlayerId(0)
        }
    )));
}

#[test]
fn sba_draw_from_empty_library_flag_not_set_survives() {
    let mut state = setup();
    // Flag not set - player should survive
    assert!(!state.players[0].drew_from_empty_library);
    let mut events = Vec::new();

    check_state_based_actions(&mut state, &mut events);

    assert!(!matches!(state.waiting_for, WaitingFor::GameOver { .. }));
}

// --- CR 704.5j: Legend rule choice tests ---

#[test]
fn sba_legend_rule_no_action_with_one_legend() {
    let mut state = setup();
    let id = create_creature(&mut state, CardId(1), PlayerId(0), "Thalia", 2, 1);
    state
        .objects
        .get_mut(&id)
        .unwrap()
        .card_types
        .supertypes
        .push(Supertype::Legendary);

    let mut events = Vec::new();
    check_state_based_actions(&mut state, &mut events);

    // Single legend - no choice needed
    assert!(!matches!(
        state.waiting_for,
        WaitingFor::ChooseLegend { .. }
    ));
    assert!(state.battlefield.contains(&id));
}

// --- CR 704.5q: Counter cancellation tests ---

#[test]
fn counter_cancellation_removes_pairs() {
    let mut state = setup();
    let id = create_object(
        &mut state,
        CardId(1),
        PlayerId(0),
        "Bear".to_string(),
        Zone::Battlefield,
    );
    let obj = state.objects.get_mut(&id).unwrap();
    obj.card_types.core_types.push(CoreType::Creature);
    obj.power = Some(2);
    obj.toughness = Some(2);
    obj.counters.insert(CounterType::Plus1Plus1, 3);
    obj.counters.insert(CounterType::Minus1Minus1, 2);

    let mut events = Vec::new();
    check_state_based_actions(&mut state, &mut events);

    let obj = state.objects.get(&id).unwrap();
    assert_eq!(
        obj.counters
            .get(&CounterType::Plus1Plus1)
            .copied()
            .unwrap_or(0),
        1,
        "Should have 1 +1/+1 counter remaining"
    );
    assert_eq!(
        obj.counters
            .get(&CounterType::Minus1Minus1)
            .copied()
            .unwrap_or(0),
        0,
        "Should have 0 -1/-1 counters remaining"
    );
}

#[test]
fn counter_cancellation_equal_counts() {
    let mut state = setup();
    let id = create_object(
        &mut state,
        CardId(1),
        PlayerId(0),
        "Bear".to_string(),
        Zone::Battlefield,
    );
    let obj = state.objects.get_mut(&id).unwrap();
    obj.card_types.core_types.push(CoreType::Creature);
    obj.power = Some(2);
    obj.toughness = Some(2);
    obj.counters.insert(CounterType::Plus1Plus1, 2);
    obj.counters.insert(CounterType::Minus1Minus1, 2);

    let mut events = Vec::new();
    check_state_based_actions(&mut state, &mut events);

    let obj = state.objects.get(&id).unwrap();
    assert!(
        !obj.counters.contains_key(&CounterType::Plus1Plus1),
        "Both counter types should be fully removed"
    );
    assert!(!obj.counters.contains_key(&CounterType::Minus1Minus1));
}

// --- CR 704.5d: Token cease-to-exist tests ---

#[test]
fn token_in_graveyard_ceases_to_exist() {
    let mut state = setup();
    let id = create_object(
        &mut state,
        CardId(1),
        PlayerId(0),
        "Token".to_string(),
        Zone::Battlefield,
    );
    state.objects.get_mut(&id).unwrap().is_token = true;

    // Move token to graveyard
    let mut events = Vec::new();
    move_to_zone(&mut state, id, Zone::Graveyard, &mut events);

    // Run SBAs
    check_state_based_actions(&mut state, &mut events);

    assert!(
        !state.objects.contains_key(&id),
        "Token should be removed from objects"
    );
    assert!(
        !state.players[0].graveyard.contains(&id),
        "Token should be removed from graveyard"
    );
}

#[test]
fn token_on_stack_survives_sba() {
    let mut state = setup();
    let id = create_object(
        &mut state,
        CardId(1),
        PlayerId(0),
        "CopyToken".to_string(),
        Zone::Stack,
    );
    state.objects.get_mut(&id).unwrap().is_token = true;

    let mut events = Vec::new();
    check_state_based_actions(&mut state, &mut events);

    assert!(
        state.objects.contains_key(&id),
        "Token on stack should survive SBA"
    );
}

// --- CR 104.3b: CantLoseTheGame SBA prevention tests ---

/// Helper: add a permanent with CantLoseTheGame static affecting its controller.
fn add_cant_lose_permanent(state: &mut GameState, owner: PlayerId) -> ObjectId {
    let id = create_object(
        state,
        CardId(100),
        owner,
        "Platinum Angel".to_string(),
        Zone::Battlefield,
    );
    Arc::get_mut(&mut state.objects.get_mut(&id).unwrap().static_definitions).unwrap().push(
        StaticDefinition::new(StaticMode::CantLoseTheGame).affected(TargetFilter::Typed(
            TypedFilter::default().controller(ControllerRef::You),
        )),
    );
    id
}

#[test]
fn sba_cant_lose_prevents_life_elimination() {
    let mut state = setup();
    // Set player 0 to 0 life
    state.players[0].life = 0;
    // Add Platinum Angel for player 0
    add_cant_lose_permanent(&mut state, PlayerId(0));

    let mut events = Vec::new();
    check_state_based_actions(&mut state, &mut events);

    // Player 0 should NOT be eliminated
    assert!(
        !state.players[0].is_eliminated,
        "Player with CantLoseTheGame at 0 life should not be eliminated"
    );
    assert!(!state.eliminated_players.contains(&PlayerId(0)));
}

#[test]
fn sba_cant_lose_prevents_draw_from_empty() {
    let mut state = setup();
    // Mark player 0 as having drawn from empty library
    state.players[0].drew_from_empty_library = true;
    // Add Platinum Angel for player 0
    add_cant_lose_permanent(&mut state, PlayerId(0));

    let mut events = Vec::new();
    check_state_based_actions(&mut state, &mut events);

    // Player 0 should NOT be eliminated
    assert!(
        !state.players[0].is_eliminated,
        "Player with CantLoseTheGame who drew from empty should not be eliminated"
    );
}

#[test]
fn sba_cant_lose_prevents_poison_elimination() {
    let mut state = setup();
    // Give player 0 ten poison counters
    state.players[0].poison_counters = 10;
    // Add Platinum Angel for player 0
    add_cant_lose_permanent(&mut state, PlayerId(0));

    let mut events = Vec::new();
    check_state_based_actions(&mut state, &mut events);

    // Player 0 should NOT be eliminated
    assert!(
        !state.players[0].is_eliminated,
        "Player with CantLoseTheGame with 10 poison should not be eliminated"
    );
}

#[test]
fn sba_cant_lose_does_not_affect_opponent() {
    let mut state = setup();
    // Set player 1 to 0 life
    state.players[1].life = 0;
    // Add Platinum Angel for player 0 - this should NOT protect player 1
    add_cant_lose_permanent(&mut state, PlayerId(0));

    let mut events = Vec::new();
    check_state_based_actions(&mut state, &mut events);

    // Player 1 SHOULD be eliminated (not protected)
    assert!(
        state.players[1].is_eliminated,
        "Opponent of CantLoseTheGame controller should still be eliminated"
    );
}
