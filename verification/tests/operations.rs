//! Single operations with their exact results.

use std::sync::Arc;
use tabletop_engine::ability::{
    AbilityCost, AbilityDefinition, AbilityKind, Comparator, ContinuousModification, ControllerRef,
    Effect, FilterProp, QuantityExpr, QuantityModification, QuantityRef,
    ReplacementDefinition, ReplacementEvent, ResolvedAbility, StaticDefinition, StaticMode,
    TargetFilter, TargetRef, TypedFilter,
};
use tabletop_engine::cards::{CoreType, CounterType, Keyword, Phase, Zone};
use tabletop_engine::effects::resolve_effect;
use tabletop_engine::elimination::eliminate_player;
use tabletop_engine::events::{EtbTapState, GameEvent, ProposedEvent, WaitingFor};
use tabletop_engine::ids::{CardId, ObjectId, PlayerId};
use tabletop_engine::keyed::{KeySet, Table};
use tabletop_engine::layers::evaluate_layers;
use tabletop_engine::mana::{ManaCost, ManaCostShard};
use tabletop_engine::mana_payment::compute_hand_color_demand;
use tabletop_engine::object::{
    CastingRestriction, GameObject, SpellCastingOption, SpellCastingOptionKind,
};
use tabletop_engine::players::{linked_exile_cards_for_source, owns_card_exiled_by_source};
use tabletop_engine::quantity::{
    resolve_quantity_for_trigger_check, resolve_quantity_scoped, resolve_quantity_with_ctx,
    resolve_quantity_with_targets_slice, QuantityContext,
};
use tabletop_engine::replacement::{
    continue_replacement, replace_event, replacement_choice_waiting_for, ReplacementResult,
};
use tabletop_engine::restrictions::{
    add_mana_cost, check_casting_restrictions, evaluate_condition_text, flash_timing_cost,
    record_battlefield_entry, record_sacrifice, record_spell_cast, record_token_created,
};
use tabletop_engine::state::{ExileLink, ExileLinkKind, FormatConfig, GameState};
use tabletop_engine::zones::{create_object, move_to_zone};

fn card(state: &mut GameState, owner: u8, name: &str, zone: Zone, types: &[CoreType]) -> ObjectId {
    let id = create_object(state, CardId(1), PlayerId(owner), name.to_string(), zone);
    state.objects.get_mut(&id).unwrap().card_types.core_types = types.to_vec();
    id
}

fn reference(qty: QuantityRef) -> QuantityExpr {
    QuantityExpr::Ref { qty }
}

// --- Mana ---

#[test]
fn a_hand_asks_for_the_colors_of_its_other_cards() {
    let mut state = GameState::new_two_player(42);
    let costs = [
        ManaCost::of(vec![ManaCostShard::White, ManaCostShard::White], 1),
        ManaCost::of(vec![ManaCostShard::WhiteBlue, ManaCostShard::TwoGreen], 0),
        ManaCost::of(vec![ManaCostShard::PhyrexianRed, ManaCostShard::X], 3),
        ManaCost::NoCost,
    ];
    let mut ids = Vec::new();
    for cost in costs {
        let id = card(&mut state, 0, "Card", Zone::Hand, &[]);
        state.objects.get_mut(&id).unwrap().mana_cost = cost;
        ids.push(id);
    }
    assert_eq!(
        compute_hand_color_demand(&state, PlayerId(0), ObjectId(999)),
        [3, 1, 0, 1, 1]
    );
    assert_eq!(
        compute_hand_color_demand(&state, PlayerId(0), ids[0]),
        [1, 1, 0, 1, 1]
    );
    assert_eq!(
        compute_hand_color_demand(&state, PlayerId(7), ids[0]),
        [0, 0, 0, 0, 0]
    );
}

#[test]
fn nothing_added_to_a_cost_leaves_it() {
    let cost = ManaCost::of(vec![ManaCostShard::Black], 2);
    assert_eq!(add_mana_cost(&ManaCost::NoCost, &cost), cost);
    assert_eq!(add_mana_cost(&cost, &ManaCost::NoCost), cost);
    assert_eq!(
        add_mana_cost(&ManaCost::NoCost, &ManaCost::NoCost),
        ManaCost::NoCost
    );
}

// --- Timing and records ---

#[test]
fn flash_costs_what_the_first_usable_option_says() {
    let mut state = GameState::new_two_player(42);
    let mut obj = GameObject::new(
        ObjectId(10),
        CardId(10),
        PlayerId(0),
        "Spell".to_string(),
        Zone::Hand,
    );
    assert_eq!(flash_timing_cost(&state, PlayerId(0), &obj), None);
    obj.casting_options = Arc::new(vec![
        SpellCastingOption {
            kind: SpellCastingOptionKind::AlternativeCost,
            cost: None,
            condition: None,
        },
        SpellCastingOption {
            kind: SpellCastingOptionKind::AsThoughHadFlash,
            cost: None,
            condition: Some("a creature died this turn".to_string()),
        },
        SpellCastingOption {
            kind: SpellCastingOptionKind::AsThoughHadFlash,
            cost: Some(AbilityCost::Tap),
            condition: None,
        },
        SpellCastingOption {
            kind: SpellCastingOptionKind::AsThoughHadFlash,
            cost: Some(AbilityCost::Mana {
                cost: ManaCost::generic(2),
            }),
            condition: None,
        },
    ]);
    assert_eq!(
        flash_timing_cost(&state, PlayerId(0), &obj),
        Some(ManaCost::generic(2))
    );
    state.creature_died_this_turn = true;
    assert_eq!(
        flash_timing_cost(&state, PlayerId(0), &obj),
        Some(ManaCost::NoCost)
    );
}

#[test]
fn casting_restrictions_look_at_turn_and_step() {
    let mut state = GameState::new_two_player(42);
    state.phase = Phase::Upkeep;
    let holds = |state: &GameState, p: u8, r: CastingRestriction| {
        check_casting_restrictions(state, PlayerId(p), ObjectId(1), &[r]).is_ok()
    };
    assert!(holds(&state, 0, CastingRestriction::DuringYourUpkeep));
    assert!(!holds(&state, 1, CastingRestriction::DuringYourUpkeep));
    assert!(holds(&state, 1, CastingRestriction::DuringOpponentsUpkeep));
    assert!(holds(&state, 1, CastingRestriction::DuringAnyUpkeep));
    assert!(!holds(&state, 0, CastingRestriction::AsSorcery));
    state.phase = Phase::DeclareBlockers;
    assert!(holds(&state, 0, CastingRestriction::DuringCombat));
    assert!(holds(&state, 0, CastingRestriction::DeclareBlockersStep));
    assert!(!holds(&state, 0, CastingRestriction::DeclareAttackersStep));
    state.phase = Phase::PostCombatMain;
    assert!(holds(&state, 0, CastingRestriction::AfterCombat));
    assert!(holds(&state, 0, CastingRestriction::AsSorcery));
    state.phase = Phase::End;
    assert!(holds(&state, 0, CastingRestriction::DuringYourEndStep));
    assert!(holds(&state, 1, CastingRestriction::DuringOpponentsEndStep));
}

#[test]
fn spells_cast_are_recorded() {
    let mut state = GameState::new_two_player(42);
    let mut obj = GameObject::new(
        ObjectId(10),
        CardId(10),
        PlayerId(0),
        "Spell".to_string(),
        Zone::Stack,
    );
    obj.card_types.core_types.push(CoreType::Instant);
    record_spell_cast(&mut state, PlayerId(0), &obj);
    record_spell_cast(&mut state, PlayerId(0), &obj);
    record_spell_cast(&mut state, PlayerId(1), &obj);
    assert_eq!(state.spells_cast_this_turn, 3);
    assert_eq!(
        state.spells_cast_this_game.get(&PlayerId(0)).copied(),
        Some(2)
    );
    let mine = state
        .spells_cast_this_turn_by_player
        .get(&PlayerId(0))
        .unwrap();
    assert_eq!(mine.spells.len(), 2);
    assert_eq!(mine.spells[0].core_types, vec![CoreType::Instant]);
}

#[test]
fn arrivals_and_sacrifices_are_recorded() {
    let mut state = GameState::new_two_player(42);
    let angel = card(
        &mut state,
        1,
        "Angel",
        Zone::Battlefield,
        &[CoreType::Creature],
    );
    state
        .objects
        .get_mut(&angel)
        .unwrap()
        .card_types
        .subtypes
        .push("ANGEL".to_string());
    record_battlefield_entry(&mut state, angel);
    record_token_created(&mut state, angel);
    record_sacrifice(&mut state, angel, PlayerId(1));
    let p = PlayerId(1);
    assert!(state.players_who_had_creature_etb_this_turn.contains(&p));
    assert!(state
        .players_who_had_angel_or_berserker_etb_this_turn
        .contains(&p));
    assert!(!state.players_who_had_artifact_etb_this_turn.contains(&p));
    assert!(state.players_who_created_token_this_turn.contains(&p));
    assert!(!state.players_who_sacrificed_artifact_this_turn.contains(&p));
}

#[test]
fn conditions_that_are_not_understood_hold() {
    let state = GameState::new_two_player(42);
    assert!(evaluate_condition_text(
        &state,
        PlayerId(0),
        ObjectId(1),
        "the moon is full"
    ));
}

// --- Exile ---

#[test]
fn cards_exiled_with_a_source_are_found_with_their_owners() {
    let mut state = GameState::new_two_player(42);
    let source = card(&mut state, 0, "Source", Zone::Battlefield, &[]);
    let exiled = card(&mut state, 1, "Exiled", Zone::Exile, &[]);
    let gone = card(&mut state, 0, "Gone", Zone::Graveyard, &[]);
    state.objects.get_mut(&exiled).unwrap().mana_cost = ManaCost::generic(4);
    for id in [exiled, gone] {
        state.exile_links.push(ExileLink {
            source_id: source,
            exiled_id: id,
            kind: ExileLinkKind::TrackedBySource,
        });
    }
    let cards = linked_exile_cards_for_source(&state, source);
    assert_eq!(cards.len(), 1);
    assert_eq!(cards[0].exiled_id, exiled);
    assert_eq!(cards[0].owner, PlayerId(1));
    assert_eq!(cards[0].mana_value, 4);
    assert!(owns_card_exiled_by_source(&state, PlayerId(1), source));
    assert!(!owns_card_exiled_by_source(&state, PlayerId(0), source));
}

// --- Numbers ---

#[test]
fn numbers_look_at_targets_players_and_what_enters() {
    let mut state = GameState::new_two_player(42);
    let a = card(&mut state, 0, "A", Zone::Battlefield, &[CoreType::Creature]);
    let b = card(&mut state, 1, "B", Zone::Battlefield, &[CoreType::Creature]);
    state.objects.get_mut(&b).unwrap().power = Some(4);
    state.objects.get_mut(&a).unwrap().cost_x_paid = Some(6);
    state.objects.get_mut(&b).unwrap().colors_spent_to_cast.red = 2;
    state.objects.get_mut(&b).unwrap().colors_spent_to_cast.blue = 1;
    assert_eq!(
        resolve_quantity_with_targets_slice(
            &state,
            &reference(QuantityRef::TargetPower),
            PlayerId(0),
            a,
            &[TargetRef::Player(PlayerId(1)), TargetRef::Object(b)],
        ),
        4
    );
    state.players[1].life = 13;
    assert_eq!(
        resolve_quantity_scoped(&state, &reference(QuantityRef::LifeTotal), a, PlayerId(1)),
        13
    );
    let ctx = QuantityContext {
        entering: Some(b),
        source: a,
    };
    assert_eq!(
        resolve_quantity_with_ctx(&state, &reference(QuantityRef::CostXPaid), PlayerId(0), ctx),
        6
    );
    assert_eq!(
        resolve_quantity_with_ctx(
            &state,
            &reference(QuantityRef::ColorsSpentOnSelf),
            PlayerId(0),
            ctx
        ),
        2
    );
}

#[test]
fn a_triggering_object_is_not_one_of_the_others() {
    let mut state = GameState::new_two_player(42);
    let a = card(&mut state, 0, "A", Zone::Battlefield, &[CoreType::Creature]);
    let b = card(&mut state, 0, "B", Zone::Battlefield, &[CoreType::Creature]);
    let others = reference(QuantityRef::ObjectCount {
        filter: TargetFilter::Typed(
            TypedFilter::creature().properties(vec![FilterProp::OtherThanTriggerObject]),
        ),
    });
    let cast = GameEvent::SpellCast {
        object_id: b,
        controller: PlayerId(0),
    };
    let with_cast = resolve_quantity_for_trigger_check(&state, &others, PlayerId(0), a, Some(&cast));
    assert_eq!(with_cast, 1);
    let spent = reference(QuantityRef::ManaSpentOnTriggeringSpell);
    state.objects.get_mut(&b).unwrap().mana_spent_to_cast_amount = 5;
    assert_eq!(
        resolve_quantity_for_trigger_check(&state, &spent, PlayerId(0), a, Some(&cast)),
        5
    );
    assert_eq!(
        resolve_quantity_for_trigger_check(&state, &spent, PlayerId(0), a, None),
        0
    );
}

#[test]
fn numbers_are_compared() {
    assert!(Comparator::GT.evaluate(2, 1));
    assert!(!Comparator::LT.evaluate(2, 1));
    assert!(Comparator::GE.evaluate(1, 1));
    assert!(Comparator::LE.evaluate(1, 1));
    assert!(!Comparator::EQ.evaluate(2, 1));
}

// --- Replacement ---

fn replacing(definition: ReplacementDefinition) -> GameState {
    let mut state = GameState::new_two_player(42);
    let id = card(&mut state, 0, "Source", Zone::Battlefield, &[]);
    state
        .objects
        .get_mut(&id)
        .unwrap()
        .replacement_definitions
        .push(definition);
    state
}

#[test]
fn an_optional_replacement_is_offered_and_may_be_declined() {
    for (choice, expected) in [(0, EtbTapState::Unspecified), (1, EtbTapState::Tapped)] {
        let mut state = replacing(
            ReplacementDefinition::new(ReplacementEvent::Moved)
                .execute(AbilityDefinition::new(
                    AbilityKind::Spell,
                    Effect::LoseLife {
                        amount: QuantityExpr::Fixed { value: 2 },
                        target: None,
                    },
                ))
                .description("Pay two life".to_string())
                .optional(Some(AbilityDefinition::new(
                    AbilityKind::Spell,
                    Effect::Tap {
                        target: TargetFilter::SelfRef,
                    },
                ))),
        );
        let land = card(&mut state, 0, "Land", Zone::Hand, &[CoreType::Land]);
        let proposed = ProposedEvent::zone_change(land, Zone::Hand, Zone::Battlefield, None);
        let mut events = Vec::new();
        let asked = replace_event(&mut state, proposed, &mut events);
        assert!(matches!(asked, ReplacementResult::NeedsChoice(PlayerId(0))));
        match replacement_choice_waiting_for(PlayerId(0), &state) {
            WaitingFor::ReplacementChoice {
                player,
                candidate_count,
                candidate_descriptions,
            } => {
                assert_eq!(player, PlayerId(0));
                assert_eq!(candidate_count, 2);
                assert_eq!(
                    candidate_descriptions,
                    vec!["Pay two life".to_string(), "Decline".to_string()]
                );
            }
            other => panic!("unexpected {:?}", other),
        }
        match continue_replacement(&mut state, choice, &mut events) {
            ReplacementResult::Execute(event) => {
                assert_eq!(event.battlefield_entry_tap_state(), Some(expected));
            }
            other => panic!("unexpected {:?}", other),
        }
        assert_eq!(state.post_replacement_effect.is_some(), choice == 0);
    }
}

#[test]
fn counters_are_doubled() {
    let mut state = replacing(
        ReplacementDefinition::new(ReplacementEvent::AddCounter)
            .quantity_modification(QuantityModification::Double),
    );
    let id = card(&mut state, 0, "Pet", Zone::Battlefield, &[CoreType::Creature]);
    let proposed = ProposedEvent::AddCounter {
        object_id: id,
        counter_type: CounterType::Plus1Plus1,
        count: 3,
        applied: KeySet::new(),
    };
    let mut events = Vec::new();
    match replace_event(&mut state, proposed, &mut events) {
        ReplacementResult::Execute(ProposedEvent::AddCounter { count, .. }) => assert_eq!(count, 6),
        other => panic!("unexpected {:?}", other),
    }
}

// --- Effects, layers, elimination ---

#[test]
fn effects_tap_untap_and_move_their_targets() {
    let mut state = GameState::new_two_player(42);
    let id = card(&mut state, 0, "Pet", Zone::Battlefield, &[CoreType::Creature]);
    let mut events = Vec::new();
    let mut perform = |state: &mut GameState, effect: Effect| {
        let ability = ResolvedAbility::new(
            Arc::new(effect),
            vec![TargetRef::Object(id)],
            id,
            PlayerId(0),
        );
        resolve_effect(state, &ability, &mut events);
    };
    perform(
        &mut state,
        Effect::Tap {
            target: TargetFilter::Any,
        },
    );
    assert!(state.objects.get(&id).unwrap().tapped);
    perform(
        &mut state,
        Effect::Untap {
            target: TargetFilter::Any,
        },
    );
    assert!(!state.objects.get(&id).unwrap().tapped);
    perform(
        &mut state,
        Effect::ChangeZone {
            origin: None,
            destination: Zone::Exile,
            target: TargetFilter::Any,
        },
    );
    assert_eq!(state.objects.get(&id).unwrap().zone, Zone::Exile);
}

#[test]
fn static_abilities_and_counters_change_power_and_toughness() {
    let mut state = GameState::new_two_player(42);
    let bear = card(&mut state, 0, "Bear", Zone::Battlefield, &[CoreType::Creature]);
    {
        let obj = state.objects.get_mut(&bear).unwrap();
        obj.power = Some(2);
        obj.toughness = Some(2);
        obj.counters.insert(CounterType::Plus1Plus1, 1);
    }
    let lord = card(&mut state, 0, "Lord", Zone::Battlefield, &[]);
    state.objects.get_mut(&lord).unwrap().static_definitions =
        Arc::new(vec![StaticDefinition::new(StaticMode::Continuous)
            .affected(TargetFilter::Typed(
                TypedFilter::creature().controller(ControllerRef::You),
            ))
            .modification(ContinuousModification::AddPower { value: 3 })
            .modification(ContinuousModification::AddKeyword {
                keyword: Keyword::Flying,
            })]);
    evaluate_layers(&mut state);
    evaluate_layers(&mut state);
    let obj = state.objects.get(&bear).unwrap();
    assert_eq!(obj.power, Some(6));
    assert_eq!(obj.toughness, Some(3));
    assert_eq!(obj.keywords, vec![Keyword::Flying]);
    assert!(!state.layers_dirty);
}

#[test]
fn the_last_player_left_wins() {
    let mut state = GameState::new(FormatConfig::free_for_all(), 3, 1);
    let mut events = Vec::new();
    eliminate_player(&mut state, PlayerId(0), &mut events);
    assert!(!matches!(state.waiting_for, WaitingFor::GameOver { .. }));
    eliminate_player(&mut state, PlayerId(2), &mut events);
    assert!(matches!(
        state.waiting_for,
        WaitingFor::GameOver {
            winner: Some(PlayerId(1))
        }
    ));
    assert_eq!(state.eliminated_players, vec![PlayerId(0), PlayerId(2)]);
}

#[test]
fn what_leaves_the_battlefield_is_remembered() {
    let mut state = GameState::new_two_player(42);
    let id = card(&mut state, 0, "Pet", Zone::Battlefield, &[CoreType::Creature]);
    {
        let obj = state.objects.get_mut(&id).unwrap();
        obj.power = Some(3);
        obj.tapped = true;
        obj.damage_marked = 1;
    }
    let mut events = Vec::new();
    move_to_zone(&mut state, id, Zone::Graveyard, &mut events);
    assert_eq!(state.lki_cache.get(&id).unwrap().power, Some(3));
    let obj = state.objects.get(&id).unwrap();
    assert!(!obj.tapped);
    assert_eq!(obj.damage_marked, 0);
    assert!(state.creature_died_this_turn);
}

// --- Tables ---

#[test]
fn tables_keep_one_value_for_each_key() {
    let mut table: Table<PlayerId, u32> = Table::new();
    assert!(table.is_empty());
    table.insert(PlayerId(1), 4);
    table.insert(PlayerId(0), 2);
    table.insert(PlayerId(1), 6);
    assert_eq!(table.len(), 2);
    assert_eq!(table.total(), 8);
    assert_eq!(*table.key_at(0), PlayerId(1));
    assert_eq!(table.remove(&PlayerId(1)), Some(6));
    assert!(!table.contains_key(&PlayerId(1)));
    let mut set: KeySet<PlayerId> = KeySet::new();
    set.insert(PlayerId(3));
    set.insert(PlayerId(3));
    assert_eq!(set.len(), 1);
    assert_eq!(*set.at(0), PlayerId(3));
}
