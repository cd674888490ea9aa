//! Numbers that the state of a game decides.

use std::sync::Arc;
use tabletop_engine::ability::{AggregateFunction, AttachmentKind, ControllerRef, CountScope, Effect, FilterProp, ObjectProperty, PlayerCounterKind, PlayerFilter, QuantityExpr, QuantityRef, ResolvedAbility, RoundingMode, TargetFilter, TargetRef, TypeFilter, TypedFilter, ZoneRef};
use tabletop_engine::cards::{CoreType, CounterType, Keyword, Supertype, Zone};
use tabletop_engine::events::{AttachmentSnapshot, GameEvent, LinkedExileSnapshot, ZoneChangeRecord};
use tabletop_engine::ids::{CardId, ObjectId, PlayerId};
use tabletop_engine::mana::{ManaColor, ManaCost};
use tabletop_engine::quantity::{resolve_quantity, resolve_quantity_with_targets};
use tabletop_engine::state::{ExileLink, ExileLinkKind, FormatConfig, GameState, LKISnapshot, SpellCastRecord, SpellHistory};
use tabletop_engine::targeting::zone_object_ids;
use tabletop_engine::zones::create_object;

/// A record of a move without anything attached or linked.
fn minimal_record(object_id: ObjectId, from_zone: Option<Zone>, to_zone: Zone) -> ZoneChangeRecord {
    ZoneChangeRecord {
        object_id,
        from_zone,
        to_zone,
        controller: PlayerId(0),
        owner: PlayerId(0),
        core_types: vec![],
        attachments: vec![],
        linked_exile_snapshot: vec![],
    }
}

/// CR 122.1: PlayerCounter resolves controller scope from the named player.
/// Opponents/All sums the kind across the matching scope (Toph's "you have"
/// is Controller; cousin patterns like "each opponent has" sum opponents).
#[test]
fn resolve_quantity_player_counter_experience_controller_and_sums() {
    let mut state = GameState::new_two_player(42);
    state.players[0]
        .player_counters
        .insert(PlayerCounterKind::Experience, 3);
    state.players[1]
        .player_counters
        .insert(PlayerCounterKind::Experience, 5);

    let controller_expr = QuantityExpr::Ref {
        qty: QuantityRef::PlayerCounter {
            kind: PlayerCounterKind::Experience,
            scope: CountScope::Controller,
        },
    };
    assert_eq!(
        resolve_quantity(&state, &controller_expr, PlayerId(0), ObjectId(0)),
        3
    );

    let opponents_expr = QuantityExpr::Ref {
        qty: QuantityRef::PlayerCounter {
            kind: PlayerCounterKind::Experience,
            scope: CountScope::Opponents,
        },
    };
    assert_eq!(
        resolve_quantity(&state, &opponents_expr, PlayerId(0), ObjectId(0)),
        5
    );

    let all_expr = QuantityExpr::Ref {
        qty: QuantityRef::PlayerCounter {
            kind: PlayerCounterKind::Experience,
            scope: CountScope::All,
        },
    };
    assert_eq!(
        resolve_quantity(&state, &all_expr, PlayerId(0), ObjectId(0)),
        8
    );
}

#[test]
fn resolve_quantity_colors_in_commanders_color_identity() {
    // CR 903.4 + CR 903.4f: When no commander exists the quality is
    // undefined and resolves to 0. When commanders exist the resolver
    // returns the size of the combined color identity.

    let mut state = GameState::new(FormatConfig::commander(), 4, 42);
    let expr = QuantityExpr::Ref {
        qty: QuantityRef::ColorsInCommandersColorIdentity,
    };
    // No commander yet -> 0.
    assert_eq!(resolve_quantity(&state, &expr, PlayerId(0), ObjectId(0)), 0);

    // Build a 3-color commander (W/U/B) and verify the resolver returns 3.
    let cmd_id = create_object(
        &mut state,
        CardId(101),
        PlayerId(0),
        "Kaalia".to_string(),
        Zone::Command,
    );
    {
        let obj = state.objects.get_mut(&cmd_id).unwrap();
        obj.is_commander = true;
        obj.color = vec![ManaColor::White, ManaColor::Blue, ManaColor::Black];
        obj.mana_cost = ManaCost::NoCost;
    }
    assert_eq!(resolve_quantity(&state, &expr, PlayerId(0), ObjectId(0)), 3);

    // Other player (no commander of their own) still reports 0.
    assert_eq!(resolve_quantity(&state, &expr, PlayerId(1), ObjectId(0)), 0);
}

/// CR 201.2 + CR 603.4: distinct-name count for Field of the Dead.
/// Two lands sharing a name count once; overall = # of unique names.
#[test]
fn resolve_quantity_object_count_distinct_names() {
    let mut state = GameState::new_two_player(42);
    for (name, count) in &[("Plains", 3), ("Island", 2), ("Field of the Dead", 1)] {
        for _ in 0..*count {
            let id = create_object(
                &mut state,
                CardId(100),
                PlayerId(0),
                (*name).to_string(),
                Zone::Battlefield,
            );
            state.objects.get_mut(&id).unwrap().card_types.core_types = vec![CoreType::Land];
        }
    }
    // Plus one opponent Plains - must not count because filter is controller=You.
    let opp_id = create_object(
        &mut state,
        CardId(100),
        PlayerId(1),
        "Plains".to_string(),
        Zone::Battlefield,
    );
    state
        .objects
        .get_mut(&opp_id)
        .unwrap()
        .card_types
        .core_types = vec![CoreType::Land];

    let filter = TargetFilter::Typed(TypedFilter {
        type_filters: vec![TypeFilter::Land],
        controller: Some(ControllerRef::You),
        properties: vec![],
    });
    let expr = QuantityExpr::Ref {
        qty: QuantityRef::ObjectCountDistinctNames { filter },
    };
    // 3 distinct names controlled by P0: Plains, Island, Field of the Dead.
    assert_eq!(resolve_quantity(&state, &expr, PlayerId(0), ObjectId(0)), 3);
    // P1's POV: only the one opponent Plains would be theirs, so 1.
    assert_eq!(resolve_quantity(&state, &expr, PlayerId(1), ObjectId(0)), 1);
}

#[test]
fn resolve_quantity_fixed_returns_value() {
    let state = GameState::new_two_player(42);
    let expr = QuantityExpr::Fixed { value: 3 };
    assert_eq!(resolve_quantity(&state, &expr, PlayerId(0), ObjectId(1)), 3);
}

/// CR 107.3m + CR 107.3: Primordial Hydra cast for {X}{G}{G} with X=3 enters
/// with 3 counters; Primo cast for {X}{G}{U} with X=4 enters with
/// `Multiply(2, CostXPaid)` = 8 counters. The ETB-counters resolution path
/// reads the entering permanent's own `cost_x_paid`, so the tree walk
/// through `Multiply` applies the factor verbatim.
#[test]
fn resolve_quantity_cost_x_paid_composes_with_multiply() {
    let mut state = GameState::new_two_player(42);
    let obj_id = create_object(
        &mut state,
        CardId(999),
        PlayerId(0),
        "Primo".to_string(),
        Zone::Battlefield,
    );
    state.objects.get_mut(&obj_id).unwrap().cost_x_paid = Some(4);

    let bare = QuantityExpr::Ref {
        qty: QuantityRef::CostXPaid,
    };
    assert_eq!(resolve_quantity(&state, &bare, PlayerId(0), obj_id), 4);

    let twice = QuantityExpr::Multiply {
        factor: 2,
        inner: Box::new(QuantityExpr::Ref {
            qty: QuantityRef::CostXPaid,
        }),
    };
    assert_eq!(resolve_quantity(&state, &twice, PlayerId(0), obj_id), 8);

    let half_up = QuantityExpr::HalfRounded {
        inner: Box::new(QuantityExpr::Ref {
            qty: QuantityRef::CostXPaid,
        }),
        rounding: RoundingMode::Up,
    };
    // half of 4 = 2 (exact).
    assert_eq!(resolve_quantity(&state, &half_up, PlayerId(0), obj_id), 2);

    // X=5 -> half rounded up = 3.
    state.objects.get_mut(&obj_id).unwrap().cost_x_paid = Some(5);
    assert_eq!(resolve_quantity(&state, &half_up, PlayerId(0), obj_id), 3);
}

// CR 603.10a + CR 603.6e: Hateful Eidolon's "for each Aura you controlled that
// was attached to it" resolves against the ZoneChangeRecord's attachment
// snapshot. Three auras attached (two controlled by P0, one by P1); P0's
// resolver sees 2, P1's sees 1.
#[test]
fn resolve_quantity_attachments_on_leaving_object_filters_by_controller() {
    let mut state = GameState::new_two_player(42);
    let dying_id = ObjectId(200);
    let record = ZoneChangeRecord {
        attachments: vec![
            AttachmentSnapshot {
                object_id: ObjectId(301),
                controller: PlayerId(0),
                kind: AttachmentKind::Aura,
            },
            AttachmentSnapshot {
                object_id: ObjectId(302),
                controller: PlayerId(0),
                kind: AttachmentKind::Aura,
            },
            AttachmentSnapshot {
                object_id: ObjectId(303),
                controller: PlayerId(1),
                kind: AttachmentKind::Aura,
            },
        ],
        ..minimal_record(dying_id, Some(Zone::Battlefield), Zone::Graveyard)
    };
    state.current_trigger_event = Some(GameEvent::ZoneChanged {
        object_id: dying_id,
        from: Some(Zone::Battlefield),
        to: Zone::Graveyard,
        record: Box::new(record),
    });

    let expr_you = QuantityExpr::Ref {
        qty: QuantityRef::AttachmentsOnLeavingObject {
            kind: AttachmentKind::Aura,
            controller: Some(ControllerRef::You),
        },
    };
    let expr_any = QuantityExpr::Ref {
        qty: QuantityRef::AttachmentsOnLeavingObject {
            kind: AttachmentKind::Aura,
            controller: None,
        },
    };
    // "You" = P0 -> 2 aura snapshots.
    assert_eq!(
        resolve_quantity(&state, &expr_you, PlayerId(0), ObjectId(1)),
        2
    );
    // P1's vantage -> "you" = P1 -> 1 aura snapshot.
    assert_eq!(
        resolve_quantity(&state, &expr_you, PlayerId(1), ObjectId(1)),
        1
    );
    // Unfiltered -> all 3.
    assert_eq!(
        resolve_quantity(&state, &expr_any, PlayerId(0), ObjectId(1)),
        3
    );
}

// CR 603.10a: When no zone-change event is in scope, the quantity resolves to 0
// (graceful fallback - cannot count what we don't have a snapshot of).
#[test]
fn resolve_quantity_attachments_on_leaving_object_without_event_returns_zero() {
    let state = GameState::new_two_player(42);
    let expr = QuantityExpr::Ref {
        qty: QuantityRef::AttachmentsOnLeavingObject {
            kind: AttachmentKind::Aura,
            controller: None,
        },
    };
    assert_eq!(resolve_quantity(&state, &expr, PlayerId(0), ObjectId(1)), 0);
}

#[test]
fn resolve_quantity_hand_size() {
    let mut state = GameState::new_two_player(42);
    for i in 0..4 {
        create_object(
            &mut state,
            CardId(i + 1),
            PlayerId(0),
            format!("Card {i}"),
            Zone::Hand,
        );
    }
    let expr = QuantityExpr::Ref {
        qty: QuantityRef::HandSize,
    };
    assert_eq!(
        resolve_quantity(&state, &expr, PlayerId(0), ObjectId(99)),
        4
    );
}

#[test]
fn resolve_quantity_object_count_creatures_you_control() {
    let mut state = GameState::new_two_player(42);
    // Add 3 creatures for player 0
    for i in 0..3 {
        let id = create_object(
            &mut state,
            CardId(i + 1),
            PlayerId(0),
            format!("Creature {i}"),
            Zone::Battlefield,
        );
        state
            .objects
            .get_mut(&id)
            .unwrap()
            .card_types
            .core_types
            .push(CoreType::Creature);
    }
    // Add 1 creature for player 1 (should not count)
    let opp = create_object(
        &mut state,
        CardId(10),
        PlayerId(1),
        "Opp Creature".to_string(),
        Zone::Battlefield,
    );
    state
        .objects
        .get_mut(&opp)
        .unwrap()
        .card_types
        .core_types
        .push(CoreType::Creature);

    let expr = QuantityExpr::Ref {
        qty: QuantityRef::ObjectCount {
            filter: TargetFilter::Typed(TypedFilter::creature().controller(ControllerRef::You)),
        },
    };
    // Source is controlled by player 0
    let source = create_object(
        &mut state,
        CardId(20),
        PlayerId(0),
        "Source".to_string(),
        Zone::Battlefield,
    );
    assert_eq!(resolve_quantity(&state, &expr, PlayerId(0), source), 3);
}

#[test]
fn object_count_with_in_zone_graveyard() {
    // Eddymurk Crab pattern: count instants and sorceries in your graveyard.

    let mut state = GameState::new_two_player(42);

    // Add 2 instants and 1 sorcery to player 0's graveyard
    for (i, name) in ["Instant A", "Instant B", "Sorcery C"].iter().enumerate() {
        let id = create_object(
            &mut state,
            CardId(i as u64),
            PlayerId(0),
            name.to_string(),
            Zone::Graveyard,
        );
        let core_type = if name.starts_with("Instant") {
            CoreType::Instant
        } else {
            CoreType::Sorcery
        };
        state
            .objects
            .get_mut(&id)
            .unwrap()
            .card_types
            .core_types
            .push(core_type);
    }

    // Add a creature to graveyard (should NOT count)
    let creature = create_object(
        &mut state,
        CardId(10),
        PlayerId(0),
        "Creature".to_string(),
        Zone::Graveyard,
    );
    state
        .objects
        .get_mut(&creature)
        .unwrap()
        .card_types
        .core_types
        .push(CoreType::Creature);

    // Add an instant on battlefield (should NOT count - wrong zone)
    let bf_instant = create_object(
        &mut state,
        CardId(20),
        PlayerId(0),
        "BF Instant".to_string(),
        Zone::Battlefield,
    );
    state
        .objects
        .get_mut(&bf_instant)
        .unwrap()
        .card_types
        .core_types
        .push(CoreType::Instant);

    let source = create_object(
        &mut state,
        CardId(30),
        PlayerId(0),
        "Source".to_string(),
        Zone::Battlefield,
    );

    // Filter: Or(Instant+InZone:Graveyard, Sorcery+InZone:Graveyard)
    let instant_filter = TypedFilter {
        type_filters: vec![TypeFilter::Instant],
        controller: Some(ControllerRef::You),
        properties: vec![FilterProp::InZone {
            zone: Zone::Graveyard,
        }],
    };
    let sorcery_filter = TypedFilter {
        type_filters: vec![TypeFilter::Sorcery],
        controller: Some(ControllerRef::You),
        properties: vec![FilterProp::InZone {
            zone: Zone::Graveyard,
        }],
    };
    let filter = TargetFilter::Or {
        filters: vec![
            TargetFilter::Typed(instant_filter),
            TargetFilter::Typed(sorcery_filter),
        ],
    };
    // Verify extract_in_zone returns Graveyard
    assert_eq!(filter.extract_in_zone(), Some(Zone::Graveyard));

    // Verify zone_object_ids finds graveyard objects
    let gy_ids = zone_object_ids(&state, Zone::Graveyard);
    assert_eq!(
        gy_ids.len(),
        4,
        "expected 4 objects in graveyard (3 spells + 1 creature)"
    );

    let expr = QuantityExpr::Ref {
        qty: QuantityRef::ObjectCount { filter },
    };

    // Should count 3 (2 instants + 1 sorcery in graveyard)
    assert_eq!(resolve_quantity(&state, &expr, PlayerId(0), source), 3);
}

#[test]
fn counters_on_objects_sums_matching_counters_not_permanents() {
    let mut state = GameState::new_two_player(42);

    let land_with_two = create_object(
        &mut state,
        CardId(1),
        PlayerId(0),
        "Animated Land".to_string(),
        Zone::Battlefield,
    );
    {
        let obj = state.objects.get_mut(&land_with_two).unwrap();
        obj.card_types.core_types.push(CoreType::Land);
        obj.counters.insert(CounterType::Plus1Plus1, 2);
    }

    let other_land = create_object(
        &mut state,
        CardId(2),
        PlayerId(0),
        "Other Land".to_string(),
        Zone::Battlefield,
    );
    state
        .objects
        .get_mut(&other_land)
        .unwrap()
        .card_types
        .core_types
        .push(CoreType::Land);

    for i in 0..10 {
        let id = create_object(
            &mut state,
            CardId(10 + i),
            PlayerId(0),
            format!("Permanent {i}"),
            Zone::Battlefield,
        );
        state
            .objects
            .get_mut(&id)
            .unwrap()
            .card_types
            .core_types
            .push(CoreType::Creature);
    }

    let source = create_object(
        &mut state,
        CardId(30),
        PlayerId(0),
        "Source".to_string(),
        Zone::Battlefield,
    );

    let expr = QuantityExpr::Ref {
        qty: QuantityRef::CountersOnObjects {
            counter_type: Some("P1P1".to_string()),
            filter: TargetFilter::Typed(TypedFilter::land().controller(ControllerRef::You)),
        },
    };

    assert_eq!(resolve_quantity(&state, &expr, PlayerId(0), source), 2);
}

#[test]
fn distinct_card_types_exiled_by_source_counts_linked_types_only() {
    let mut state = GameState::new_two_player(42);

    let source = create_object(
        &mut state,
        CardId(1),
        PlayerId(0),
        "Source".to_string(),
        Zone::Battlefield,
    );
    let linked_artifact = create_object(
        &mut state,
        CardId(2),
        PlayerId(1),
        "Linked Artifact".to_string(),
        Zone::Exile,
    );
    state
        .objects
        .get_mut(&linked_artifact)
        .unwrap()
        .card_types
        .core_types
        .push(CoreType::Artifact);

    let linked_creature = create_object(
        &mut state,
        CardId(3),
        PlayerId(1),
        "Linked Creature".to_string(),
        Zone::Exile,
    );
    state
        .objects
        .get_mut(&linked_creature)
        .unwrap()
        .card_types
        .core_types
        .extend([CoreType::Creature, CoreType::Artifact]);

    let other_source = create_object(
        &mut state,
        CardId(4),
        PlayerId(0),
        "Other Source".to_string(),
        Zone::Battlefield,
    );
    let unlinked = create_object(
        &mut state,
        CardId(5),
        PlayerId(1),
        "Unlinked Instant".to_string(),
        Zone::Exile,
    );
    state
        .objects
        .get_mut(&unlinked)
        .unwrap()
        .card_types
        .core_types
        .push(CoreType::Instant);

    state.exile_links.push(ExileLink {
        source_id: source,
        exiled_id: linked_artifact,
        kind: ExileLinkKind::TrackedBySource,
    });
    state.exile_links.push(ExileLink {
        source_id: source,
        exiled_id: linked_creature,
        kind: ExileLinkKind::TrackedBySource,
    });
    state.exile_links.push(ExileLink {
        source_id: other_source,
        exiled_id: unlinked,
        kind: ExileLinkKind::TrackedBySource,
    });

    let expr = QuantityExpr::Ref {
        qty: QuantityRef::DistinctCardTypesExiledBySource,
    };
    assert_eq!(resolve_quantity(&state, &expr, PlayerId(0), source), 2);
}

// CR 406.6 + CR 607.1: CardsExiledBySource counts distinct exiled objects
// linked to the source, ignoring links to other sources and cards that have
// left exile.
#[test]
fn cards_exiled_by_source_counts_linked_cards_in_exile() {
    let mut state = GameState::new_two_player(42);

    let source = create_object(
        &mut state,
        CardId(1),
        PlayerId(0),
        "Source".to_string(),
        Zone::Battlefield,
    );
    let other_source = create_object(
        &mut state,
        CardId(2),
        PlayerId(0),
        "Other".to_string(),
        Zone::Battlefield,
    );

    // Three cards linked to source: two in Exile, one returned to Graveyard.
    let mut linked_ids = Vec::new();
    for i in 0..3 {
        let id = create_object(
            &mut state,
            CardId(10 + i),
            PlayerId(1),
            format!("Exiled {i}"),
            Zone::Exile,
        );
        state.exile_links.push(ExileLink {
            source_id: source,
            exiled_id: id,
            kind: ExileLinkKind::TrackedBySource,
        });
        linked_ids.push(id);
    }
    // Simulate the third card leaving exile (e.g. returned via a linked ability).
    state.objects.get_mut(&linked_ids[2]).unwrap().zone = Zone::Graveyard;

    // Link to a different source should not count.
    let other_exiled = create_object(
        &mut state,
        CardId(20),
        PlayerId(1),
        "Other Linked".to_string(),
        Zone::Exile,
    );
    state.exile_links.push(ExileLink {
        source_id: other_source,
        exiled_id: other_exiled,
        kind: ExileLinkKind::TrackedBySource,
    });

    let expr = QuantityExpr::Ref {
        qty: QuantityRef::CardsExiledBySource,
    };
    assert_eq!(resolve_quantity(&state, &expr, PlayerId(0), source), 2);
}

#[test]
fn resolve_quantity_player_count_opponent_lost_life() {
    let mut state = GameState::new_two_player(42);
    // Opponent (player 1) lost life this turn
    state.players[1].life_lost_this_turn = 3;

    let expr = QuantityExpr::Ref {
        qty: QuantityRef::PlayerCount {
            filter: PlayerFilter::OpponentLostLife,
        },
    };
    assert_eq!(resolve_quantity(&state, &expr, PlayerId(0), ObjectId(1)), 1);
}

#[test]
fn resolve_quantity_player_count_opponent_lost_life_none_lost() {
    let state = GameState::new_two_player(42);
    let expr = QuantityExpr::Ref {
        qty: QuantityRef::PlayerCount {
            filter: PlayerFilter::OpponentLostLife,
        },
    };
    assert_eq!(resolve_quantity(&state, &expr, PlayerId(0), ObjectId(1)), 0);
}

#[test]
fn resolve_quantity_player_count_opponent() {
    let state = GameState::new_two_player(42);
    let expr = QuantityExpr::Ref {
        qty: QuantityRef::PlayerCount {
            filter: PlayerFilter::Opponent,
        },
    };
    assert_eq!(resolve_quantity(&state, &expr, PlayerId(0), ObjectId(1)), 1);
}

#[test]
fn resolve_quantity_zone_card_count_matches_subtype_cards() {
    let mut state = GameState::new_two_player(42);

    for i in 0..3u64 {
        let lesson = create_object(
            &mut state,
            CardId(700 + i),
            PlayerId(0),
            format!("Lesson {i}"),
            Zone::Graveyard,
        );
        let obj = state.objects.get_mut(&lesson).unwrap();
        obj.card_types.core_types.push(CoreType::Sorcery);
        obj.card_types.subtypes.push("Lesson".to_string());
    }

    let non_lesson = create_object(
        &mut state,
        CardId(710),
        PlayerId(0),
        "Not a Lesson".to_string(),
        Zone::Graveyard,
    );
    state
        .objects
        .get_mut(&non_lesson)
        .unwrap()
        .card_types
        .core_types
        .push(CoreType::Sorcery);

    let expr = QuantityExpr::Ref {
        qty: QuantityRef::ZoneCardCount {
            zone: ZoneRef::Graveyard,
            card_types: vec![TypeFilter::Subtype("Lesson".to_string())],
            scope: CountScope::Controller,
        },
    };

    assert_eq!(resolve_quantity(&state, &expr, PlayerId(0), ObjectId(1)), 3);
}

#[test]
fn resolve_quantity_counters_on_self() {
    let mut state = GameState::new_two_player(42);
    let source = create_object(
        &mut state,
        CardId(1),
        PlayerId(0),
        "Planeswalker".to_string(),
        Zone::Battlefield,
    );
    state
        .objects
        .get_mut(&source)
        .unwrap()
        .counters
        .insert(CounterType::Loyalty, 4);

    let expr = QuantityExpr::Ref {
        qty: QuantityRef::CountersOnSelf {
            counter_type: "loyalty".to_string(),
        },
    };
    assert_eq!(resolve_quantity(&state, &expr, PlayerId(0), source), 4);
}

#[test]
fn resolve_quantity_player_filter_opponent_gained_life() {
    let mut state = GameState::new_two_player(42);
    state.players[1].life_gained_this_turn = 5;

    let expr = QuantityExpr::Ref {
        qty: QuantityRef::PlayerCount {
            filter: PlayerFilter::OpponentGainedLife,
        },
    };
    assert_eq!(resolve_quantity(&state, &expr, PlayerId(0), ObjectId(1)), 1);
}

#[test]
fn resolve_quantity_player_filter_all() {
    let state = GameState::new_two_player(42);
    let expr = QuantityExpr::Ref {
        qty: QuantityRef::PlayerCount {
            filter: PlayerFilter::All,
        },
    };
    assert_eq!(resolve_quantity(&state, &expr, PlayerId(0), ObjectId(1)), 2);
}

#[test]
fn resolve_quantity_spells_cast_this_turn_with_qualified_filter() {
    let mut state = GameState::new_two_player(42);
    state.spells_cast_this_turn_by_player.insert(
        PlayerId(0),
        SpellHistory {
            spells: vec![
            SpellCastRecord {
                core_types: vec![CoreType::Creature],
                supertypes: vec![Supertype::Legendary],
                subtypes: vec!["Bird".to_string()],
                keywords: vec![Keyword::Flying],
                colors: vec![ManaColor::Blue],
                mana_value: 3,
                has_x_in_cost: false,
            },
            SpellCastRecord {
                core_types: vec![CoreType::Artifact],
                supertypes: vec![],
                subtypes: vec![],
                keywords: vec![],
                colors: vec![],
                mana_value: 1,
                has_x_in_cost: false,
            },
        ],
        },
    );

    let expr = QuantityExpr::Ref {
        qty: QuantityRef::SpellsCastThisTurn {
            filter: Some(TargetFilter::Typed(
                TypedFilter::creature()
                    .with_type(TypeFilter::Subtype("Bird".to_string()))
                    .properties(vec![
                        FilterProp::WithKeyword {
                            value: Keyword::Flying,
                        },
                        FilterProp::HasSupertype {
                            value: Supertype::Legendary,
                        },
                    ]),
            )),
        },
    };

    assert_eq!(resolve_quantity(&state, &expr, PlayerId(0), ObjectId(1)), 1);
}

#[test]
fn half_rounded_up_even() {
    let state = GameState::new_two_player(42);
    let expr = QuantityExpr::HalfRounded {
        inner: Box::new(QuantityExpr::Fixed { value: 20 }),
        rounding: RoundingMode::Up,
    };
    assert_eq!(
        resolve_quantity(&state, &expr, PlayerId(0), ObjectId(1)),
        10
    );
}

#[test]
fn half_rounded_up_odd() {
    let state = GameState::new_two_player(42);
    let expr = QuantityExpr::HalfRounded {
        inner: Box::new(QuantityExpr::Fixed { value: 7 }),
        rounding: RoundingMode::Up,
    };
    assert_eq!(resolve_quantity(&state, &expr, PlayerId(0), ObjectId(1)), 4);
}

#[test]
fn half_rounded_down_odd() {
    let state = GameState::new_two_player(42);
    let expr = QuantityExpr::HalfRounded {
        inner: Box::new(QuantityExpr::Fixed { value: 7 }),
        rounding: RoundingMode::Down,
    };
    assert_eq!(resolve_quantity(&state, &expr, PlayerId(0), ObjectId(1)), 3);
}

#[test]
fn resolve_target_life_total() {
    let state = GameState::new_two_player(42);
    // Player 1 starts at 20 life
    let expr = QuantityExpr::Ref {
        qty: QuantityRef::TargetLifeTotal,
    };
    let ability = ResolvedAbility::new(
        Arc::new(Effect::LoseLife {
            amount: QuantityExpr::Ref {
                qty: QuantityRef::TargetLifeTotal,
            },
            target: None,
        }),
        vec![TargetRef::Player(PlayerId(1))],
        ObjectId(1),
        PlayerId(0),
    );
    assert_eq!(resolve_quantity_with_targets(&state, &expr, &ability), 20);
}

#[test]
fn resolve_self_power() {
    let mut state = GameState::new_two_player(42);
    let source = create_object(
        &mut state,
        CardId(1),
        PlayerId(0),
        "Creature".to_string(),
        Zone::Battlefield,
    );
    let obj = state.objects.get_mut(&source).unwrap();
    obj.power = Some(5);
    obj.toughness = Some(3);
    obj.card_types.core_types.push(CoreType::Creature);

    let expr = QuantityExpr::Ref {
        qty: QuantityRef::SelfPower,
    };
    assert_eq!(resolve_quantity(&state, &expr, PlayerId(0), source), 5);

    let expr_t = QuantityExpr::Ref {
        qty: QuantityRef::SelfToughness,
    };
    assert_eq!(resolve_quantity(&state, &expr_t, PlayerId(0), source), 3);
}

#[test]
fn resolve_aggregate_max_power() {
    let mut state = GameState::new_two_player(42);
    // Create creatures with power 2, 5, 3
    for (i, pwr) in [2, 5, 3].iter().enumerate() {
        let id = create_object(
            &mut state,
            CardId(i as u64 + 1),
            PlayerId(0),
            format!("Creature {i}"),
            Zone::Battlefield,
        );
        let obj = state.objects.get_mut(&id).unwrap();
        obj.power = Some(*pwr);
        obj.toughness = Some(1);
        obj.card_types.core_types.push(CoreType::Creature);
    }
    let source = create_object(
        &mut state,
        CardId(10),
        PlayerId(0),
        "Source".to_string(),
        Zone::Battlefield,
    );
    let expr = QuantityExpr::Ref {
        qty: QuantityRef::Aggregate {
            function: AggregateFunction::Max,
            property: ObjectProperty::Power,
            filter: TargetFilter::Typed(TypedFilter::creature().controller(ControllerRef::You)),
        },
    };
    assert_eq!(resolve_quantity(&state, &expr, PlayerId(0), source), 5);
}

#[test]
fn resolve_aggregate_sum_power() {
    let mut state = GameState::new_two_player(42);
    for (i, pwr) in [2, 5, 3].iter().enumerate() {
        let id = create_object(
            &mut state,
            CardId(i as u64 + 1),
            PlayerId(0),
            format!("Creature {i}"),
            Zone::Battlefield,
        );
        let obj = state.objects.get_mut(&id).unwrap();
        obj.power = Some(*pwr);
        obj.toughness = Some(1);
        obj.card_types.core_types.push(CoreType::Creature);
    }
    let source = create_object(
        &mut state,
        CardId(10),
        PlayerId(0),
        "Source".to_string(),
        Zone::Battlefield,
    );
    let expr = QuantityExpr::Ref {
        qty: QuantityRef::Aggregate {
            function: AggregateFunction::Sum,
            property: ObjectProperty::Power,
            filter: TargetFilter::Typed(TypedFilter::creature().controller(ControllerRef::You)),
        },
    };
    assert_eq!(resolve_quantity(&state, &expr, PlayerId(0), source), 10);
}

#[test]
fn resolve_aggregate_max_mana_value_in_exile() {
    let mut state = GameState::new_two_player(42);
    // Create cards in exile with mana values 3, 7, 2
    for (i, mv) in [3u32, 7, 2].iter().enumerate() {
        let id = create_object(
            &mut state,
            CardId(i as u64 + 1),
            PlayerId(0),
            format!("Exiled Card {i}"),
            Zone::Exile,
        );
        let obj = state.objects.get_mut(&id).unwrap();
        obj.mana_cost = ManaCost::generic(*mv);
    }
    let source = create_object(
        &mut state,
        CardId(10),
        PlayerId(0),
        "Source".to_string(),
        Zone::Battlefield,
    );
    // Filter: "cards in exile" - InZone(Exile) property, no controller constraint
    let filter = TargetFilter::Typed(TypedFilter {
        type_filters: vec![],
        controller: None,
        properties: vec![FilterProp::InZone { zone: Zone::Exile }],
    });
    let expr = QuantityExpr::Ref {
        qty: QuantityRef::Aggregate {
            function: AggregateFunction::Max,
            property: ObjectProperty::ManaValue,
            filter,
        },
    };
    assert_eq!(resolve_quantity(&state, &expr, PlayerId(0), source), 7);
}

#[test]
fn resolve_aggregate_sum_mana_value_of_owned_cards_exiled_by_source() {
    let mut state = GameState::new_two_player(42);
    let source = create_object(
        &mut state,
        CardId(30),
        PlayerId(0),
        "Source".to_string(),
        Zone::Battlefield,
    );

    for (card_id, owner, mv) in [
        (31, PlayerId(0), 2u32),
        (32, PlayerId(0), 3),
        (33, PlayerId(1), 4),
    ] {
        let exiled = create_object(
            &mut state,
            CardId(card_id),
            owner,
            format!("Exiled {card_id}"),
            Zone::Exile,
        );
        state.objects.get_mut(&exiled).unwrap().mana_cost =
            ManaCost::generic(mv);
        state.exile_links.push(ExileLink {
            source_id: source,
            exiled_id: exiled,
            kind: ExileLinkKind::TrackedBySource,
        });
    }

    let expr = QuantityExpr::Ref {
        qty: QuantityRef::Aggregate {
            function: AggregateFunction::Sum,
            property: ObjectProperty::ManaValue,
            filter: TargetFilter::And {
                filters: vec![
                    TargetFilter::ExiledBySource,
                    TargetFilter::Typed(TypedFilter::default().properties(vec![
                        FilterProp::Owned {
                            controller: ControllerRef::You,
                        },
                    ])),
                ],
            },
        },
    };

    assert_eq!(resolve_quantity(&state, &expr, PlayerId(0), source), 5);
    assert_eq!(resolve_quantity(&state, &expr, PlayerId(1), source), 4);
}

#[test]
fn resolve_aggregate_sum_mana_value_of_owned_cards_exiled_by_source_from_ltb_snapshot() {
    let mut state = GameState::new_two_player(42);
    let source = create_object(
        &mut state,
        CardId(30),
        PlayerId(0),
        "Source".to_string(),
        Zone::Graveyard,
    );
    let exiled_a = create_object(
        &mut state,
        CardId(31),
        PlayerId(0),
        "Exiled 31".to_string(),
        Zone::Exile,
    );
    state.objects.get_mut(&exiled_a).unwrap().mana_cost =
        ManaCost::generic(2);
    let exiled_b = create_object(
        &mut state,
        CardId(32),
        PlayerId(0),
        "Exiled 32".to_string(),
        Zone::Exile,
    );
    state.objects.get_mut(&exiled_b).unwrap().mana_cost =
        ManaCost::generic(3);
    let exiled_c = create_object(
        &mut state,
        CardId(33),
        PlayerId(1),
        "Exiled 33".to_string(),
        Zone::Exile,
    );
    state.objects.get_mut(&exiled_c).unwrap().mana_cost =
        ManaCost::generic(4);
    state.current_trigger_event = Some(GameEvent::ZoneChanged {
        object_id: source,
        from: Some(Zone::Battlefield),
        to: Zone::Graveyard,
        record: Box::new(ZoneChangeRecord {
            linked_exile_snapshot: vec![
                LinkedExileSnapshot {
                    exiled_id: exiled_a,
                    owner: PlayerId(0),
                    mana_value: 2,
                },
                LinkedExileSnapshot {
                    exiled_id: exiled_b,
                    owner: PlayerId(0),
                    mana_value: 3,
                },
                LinkedExileSnapshot {
                    exiled_id: exiled_c,
                    owner: PlayerId(1),
                    mana_value: 4,
                },
            ],
            ..minimal_record(source, Some(Zone::Battlefield), Zone::Graveyard)
        }),
    });

    let expr = QuantityExpr::Ref {
        qty: QuantityRef::Aggregate {
            function: AggregateFunction::Sum,
            property: ObjectProperty::ManaValue,
            filter: TargetFilter::And {
                filters: vec![
                    TargetFilter::ExiledBySource,
                    TargetFilter::Typed(TypedFilter::default().properties(vec![
                        FilterProp::Owned {
                            controller: ControllerRef::You,
                        },
                    ])),
                ],
            },
        },
    };

    assert_eq!(resolve_quantity(&state, &expr, PlayerId(0), source), 5);
    assert_eq!(resolve_quantity(&state, &expr, PlayerId(1), source), 4);
}

#[test]
fn resolve_multiply() {
    let state = GameState::new_two_player(42);
    let expr = QuantityExpr::Multiply {
        factor: 3,
        inner: Box::new(QuantityExpr::Fixed { value: 4 }),
    };
    assert_eq!(
        resolve_quantity(&state, &expr, PlayerId(0), ObjectId(1)),
        12
    );
}

#[test]
fn resolve_event_context_amount_from_damage() {
    let mut state = GameState::new_two_player(42);
    state.current_trigger_event = Some(GameEvent::DamageDealt {
        source_id: ObjectId(1),
        target: TargetRef::Player(PlayerId(0)),
        amount: 5,
        is_combat: false,
        excess: 0,
    });
    let expr = QuantityExpr::Ref {
        qty: QuantityRef::EventContextAmount,
    };
    assert_eq!(resolve_quantity(&state, &expr, PlayerId(0), ObjectId(1)), 5);
}

#[test]
fn resolve_event_context_amount_none_returns_zero() {
    let state = GameState::new_two_player(42);
    let expr = QuantityExpr::Ref {
        qty: QuantityRef::EventContextAmount,
    };
    assert_eq!(resolve_quantity(&state, &expr, PlayerId(0), ObjectId(1)), 0);
}

#[test]
fn resolve_event_context_source_power_live_object() {
    let mut state = GameState::new_two_player(42);
    let source = create_object(
        &mut state,
        CardId(1),
        PlayerId(0),
        "Creature".to_string(),
        Zone::Battlefield,
    );
    state.objects.get_mut(&source).unwrap().power = Some(4);
    state.objects.get_mut(&source).unwrap().toughness = Some(3);
    state.current_trigger_event = Some(GameEvent::DamageDealt {
        source_id: source,
        target: TargetRef::Player(PlayerId(1)),
        amount: 4,
        is_combat: true,
        excess: 0,
    });
    let expr = QuantityExpr::Ref {
        qty: QuantityRef::EventContextSourcePower,
    };
    assert_eq!(
        resolve_quantity(&state, &expr, PlayerId(0), ObjectId(99)),
        4
    );
}

#[test]
fn resolve_event_context_source_power_lki_fallback() {
    let mut state = GameState::new_two_player(42);
    let dead_id = ObjectId(42);
    // Object is gone from state.objects but has LKI entry
    state.lki_cache.insert(
        dead_id,
        LKISnapshot {
            name: String::new(),
            power: Some(6),
            toughness: Some(5),
            mana_value: 3,
            controller: PlayerId(0),
            owner: PlayerId(0),
        },
    );
    state.current_trigger_event =
        Some(GameEvent::CreatureDestroyed { object_id: dead_id });
    let expr = QuantityExpr::Ref {
        qty: QuantityRef::EventContextSourcePower,
    };
    assert_eq!(
        resolve_quantity(&state, &expr, PlayerId(0), ObjectId(99)),
        6
    );
}

#[test]
fn resolve_multiply_negative() {
    let state = GameState::new_two_player(42);
    let expr = QuantityExpr::Multiply {
        factor: -1,
        inner: Box::new(QuantityExpr::Fixed { value: 5 }),
    };
    assert_eq!(
        resolve_quantity(&state, &expr, PlayerId(0), ObjectId(1)),
        -5
    );
}

/// CR 107.3a + CR 601.2b: `ObjectCount` with an inner filter that references X
/// must resolve X against the resolving ability's `chosen_x`.
#[test]
fn object_count_filter_resolves_x_against_chosen_x() {
    let mut state = GameState::new_two_player(42);
    // Build three on-battlefield creatures of varying CMCs.
    for (i, cmc) in [(1u64, 1u32), (2, 3), (3, 7)].into_iter() {
        let id = create_object(
            &mut state,
            CardId(i),
            PlayerId(0),
            format!("CMC {}", cmc),
            Zone::Battlefield,
        );
        let obj = state.objects.get_mut(&id).unwrap();
        obj.card_types.core_types.push(CoreType::Creature);
        obj.mana_cost = ManaCost::generic(cmc);
    }

    let inner_filter =
        TargetFilter::Typed(TypedFilter::creature().properties(vec![FilterProp::CmcLE {
            value: QuantityExpr::Ref {
                qty: QuantityRef::Variable {
                    name: "X".to_string(),
                },
            },
        }]));
    let expr = QuantityExpr::Ref {
        qty: QuantityRef::ObjectCount {
            filter: inner_filter,
        },
    };
    let mut ability = ResolvedAbility::new(
        Arc::new(Effect::Unimplemented {
            name: String::new(),
            description: None,
        }),
        vec![],
        ObjectId(999),
        PlayerId(0),
    );
    ability.chosen_x = Some(3);

    // With X=3, only CMC-1 and CMC-3 match - count is 2.
    assert_eq!(resolve_quantity_with_targets(&state, &expr, &ability), 2);
}
