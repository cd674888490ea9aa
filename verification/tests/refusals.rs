//! Actions that are refused, and what is said of them.

use std::sync::Arc;
use tabletop_engine::ability::{
    AbilityCost, AbilityDefinition, AbilityKind, Effect, QuantityExpr, TargetFilter, TypedFilter,
};
use tabletop_engine::cards::{CoreType, CounterType, Phase, Zone};
use tabletop_engine::errors::EngineError;
use tabletop_engine::events::WaitingFor;
use tabletop_engine::ids::{CardId, ObjectId, PlayerId};
use tabletop_engine::mana::{ManaCost, ManaCostShard, ManaPool};
use tabletop_engine::mana_payment::{pay_cost, PaymentError};
use tabletop_engine::match_flow::{handle_choose_play_draw, handle_submit_sideboard};
use tabletop_engine::morph::{manifest, manifest_card, play_face_down, turn_face_up};
use tabletop_engine::mulligan::handle_mulligan_bottom;
use tabletop_engine::object::{ActivationRestriction, CardFace, CastingRestriction, GameObject};
use tabletop_engine::planeswalker::handle_activate_loyalty;
use tabletop_engine::restrictions::{
    check_activation_restrictions, check_casting_restrictions, check_spell_timing,
    write_activation_restriction, write_casting_restriction,
};
use tabletop_engine::sacrifice::sacrifice_permanent;
use tabletop_engine::state::{
    CastingVariant, DeckCardCount, DeckEntry, GameState, MatchPhase, PlayerDeckPool, StackEntry,
    StackEntryKind,
};
use tabletop_engine::zones::create_object;

fn is_invalid<T>(r: Result<T, EngineError>, text: &str) -> bool {
    matches!(r, Err(EngineError::InvalidAction(s)) if s == text)
}

fn is_forbidden<T>(r: Result<T, EngineError>, text: &str) -> bool {
    matches!(r, Err(EngineError::ActionNotAllowed(s)) if s == text)
}

fn draw() -> AbilityDefinition {
    AbilityDefinition::new(
        AbilityKind::Spell,
        Effect::Draw {
            count: QuantityExpr::Fixed { value: 1 },
            target: TargetFilter::Controller,
        },
    )
}

#[test]
fn unpayable_costs_are_refused() {
    let mut pool = ManaPool::new();
    let r = pay_cost(&mut pool, &ManaCost::of(vec![ManaCostShard::Green], 1));
    assert!(matches!(r, Err(PaymentError::InsufficientMana)));
}

#[test]
fn sacrifices_of_nothing_are_refused() {
    let mut state = GameState::new_two_player(42);
    let mut events = Vec::new();
    assert!(is_invalid(
        sacrifice_permanent(&mut state, ObjectId(77), PlayerId(0), &mut events),
        "Sacrifice target not found"
    ));
    let id = create_object(
        &mut state,
        CardId(1),
        PlayerId(0),
        "Card".to_string(),
        Zone::Hand,
    );
    assert!(is_forbidden(
        sacrifice_permanent(&mut state, id, PlayerId(0), &mut events),
        "Cannot sacrifice: permanent is not on the battlefield"
    ));
    assert!(events.is_empty());
}

#[test]
fn only_a_card_in_ones_own_hand_is_played_face_down() {
    let mut state = GameState::new_two_player(42);
    let mut events = Vec::new();
    assert!(is_invalid(
        play_face_down(&mut state, PlayerId(0), ObjectId(77), &mut events),
        "Object not found"
    ));
    let id = create_object(
        &mut state,
        CardId(1),
        PlayerId(0),
        "Card".to_string(),
        Zone::Graveyard,
    );
    assert!(is_invalid(
        play_face_down(&mut state, PlayerId(1), id, &mut events),
        "You don't control this card"
    ));
    assert!(is_invalid(
        play_face_down(&mut state, PlayerId(0), id, &mut events),
        "Card is not in hand"
    ));
}

#[test]
fn only_face_down_permanents_are_turned_face_up() {
    let mut state = GameState::new_two_player(42);
    let mut events = Vec::new();
    assert!(is_invalid(
        turn_face_up(&mut state, PlayerId(0), ObjectId(77), &mut events),
        "Object not found"
    ));
    let id = create_object(
        &mut state,
        CardId(1),
        PlayerId(0),
        "Card".to_string(),
        Zone::Hand,
    );
    assert!(is_invalid(
        turn_face_up(&mut state, PlayerId(1), id, &mut events),
        "You don't control this permanent"
    ));
    assert!(is_invalid(
        turn_face_up(&mut state, PlayerId(0), id, &mut events),
        "Permanent is not face down"
    ));
    state.objects.get_mut(&id).unwrap().face_down = true;
    assert!(is_invalid(
        turn_face_up(&mut state, PlayerId(0), id, &mut events),
        "Object is not on the battlefield"
    ));
    state.objects.get_mut(&id).unwrap().zone = Zone::Battlefield;
    assert!(is_invalid(
        turn_face_up(&mut state, PlayerId(0), id, &mut events),
        "No stored face data"
    ));
    state.objects.get_mut(&id).unwrap().zone = Zone::Hand;
    state.objects.get_mut(&id).unwrap().face_down = false;
    play_face_down(&mut state, PlayerId(0), id, &mut events).unwrap();
    assert!(is_invalid(
        turn_face_up(&mut state, PlayerId(0), id, &mut events),
        "Card cannot be turned face up (no morph cost)"
    ));
}

#[test]
fn nothing_is_manifested_from_an_empty_library() {
    let mut state = GameState::new_two_player(42);
    let mut events = Vec::new();
    assert!(is_invalid(
        manifest(&mut state, PlayerId(0), &mut events),
        "Library is empty"
    ));
    assert!(is_invalid(
        manifest(&mut state, PlayerId(9), &mut events),
        "Player not found"
    ));
    state.players[0].library.push(ObjectId(77));
    assert!(is_invalid(
        manifest(&mut state, PlayerId(0), &mut events),
        "Top card object not found"
    ));
    assert!(is_invalid(
        manifest_card(&mut state, PlayerId(0), ObjectId(77), &mut events),
        "Object not found for manifest"
    ));
}

#[test]
fn sorceries_wait_for_their_time() {
    let mut state = GameState::new_two_player(42);
    let mut obj = GameObject::new(
        ObjectId(10),
        CardId(10),
        PlayerId(0),
        "Sorcery".to_string(),
        Zone::Hand,
    );
    obj.card_types.core_types.push(CoreType::Sorcery);
    state.phase = Phase::Upkeep;
    assert!(is_forbidden(
        check_spell_timing(&state, PlayerId(0), &obj, &draw(), false),
        "Sorcery-speed spells can only be cast during main phases"
    ));
    state.phase = Phase::PreCombatMain;
    state.stack.push(StackEntry {
        id: ObjectId(99),
        source_id: ObjectId(99),
        controller: PlayerId(1),
        kind: StackEntryKind::Spell {
            card_id: CardId(99),
            ability: None,
            casting_variant: CastingVariant::Normal,
            actual_mana_spent: 0,
        },
    });
    assert!(is_forbidden(
        check_spell_timing(&state, PlayerId(0), &obj, &draw(), false),
        "Sorcery-speed spells can only be cast when the stack is empty"
    ));
    state.stack.clear();
    assert!(is_forbidden(
        check_spell_timing(&state, PlayerId(1), &obj, &draw(), false),
        "Sorcery-speed spells can only be cast by the active player"
    ));
    obj.card_types.core_types = vec![CoreType::Instant];
    assert!(check_spell_timing(&state, PlayerId(1), &obj, &draw(), false).is_ok());
}

#[test]
fn the_first_restriction_that_is_not_met_is_named() {
    let mut state = GameState::new_two_player(42);
    state.phase = Phase::Upkeep;
    let casting = [
        CastingRestriction::DuringYourTurn,
        CastingRestriction::DuringYourUpkeep,
        CastingRestriction::DuringCombat,
        CastingRestriction::DuringOpponentsTurn,
    ];
    assert!(is_forbidden(
        check_casting_restrictions(&state, PlayerId(0), ObjectId(1), &casting),
        "Casting restriction not satisfied: DuringCombat"
    ));
    assert!(check_casting_restrictions(&state, PlayerId(0), ObjectId(1), &casting[..2]).is_ok());
    let activation = [
        ActivationRestriction::DuringYourTurn,
        ActivationRestriction::ClassLevelIs { level: 2 },
    ];
    assert!(is_forbidden(
        check_activation_restrictions(&state, PlayerId(0), ObjectId(1), 0, &activation),
        "Activation restriction not satisfied: ClassLevelIs { level: 2 }"
    ));
}

#[test]
fn a_condition_that_is_not_met_is_quoted() {
    let state = GameState::new_two_player(42);
    let text = "you control a \"creature\"\n".to_string();
    assert!(is_forbidden(
        check_casting_restrictions(
            &state,
            PlayerId(0),
            ObjectId(1),
            &[CastingRestriction::RequiresCondition { text: text.clone() }]
        ),
        "Casting restriction not satisfied: RequiresCondition { text: \"you control a \\\"creature\\\"\\n\" }"
    ));
    assert!(is_forbidden(
        check_activation_restrictions(
            &state,
            PlayerId(0),
            ObjectId(1),
            0,
            &[ActivationRestriction::RequiresCondition { text }]
        ),
        "Activation restriction not satisfied: RequiresCondition { text: \"you control a \\\"creature\\\"\\n\" }"
    ));
}

#[test]
fn restrictions_are_written_as_the_debug_format_writes_them() {
    for r in [
        CastingRestriction::AsSorcery,
        CastingRestriction::DuringCombat,
        CastingRestriction::DuringOpponentsTurn,
        CastingRestriction::DuringYourTurn,
        CastingRestriction::DuringYourUpkeep,
        CastingRestriction::DuringOpponentsUpkeep,
        CastingRestriction::DuringAnyUpkeep,
        CastingRestriction::DuringYourEndStep,
        CastingRestriction::DuringOpponentsEndStep,
        CastingRestriction::DeclareAttackersStep,
        CastingRestriction::DeclareBlockersStep,
        CastingRestriction::BeforeAttackersDeclared,
        CastingRestriction::BeforeBlockersDeclared,
        CastingRestriction::BeforeCombatDamage,
        CastingRestriction::AfterCombat,
        CastingRestriction::RequiresCondition {
            text: "you gained life this turn".to_string(),
        },
    ] {
        assert_eq!(
            write_casting_restriction(&r, "\"you gained life this turn\""),
            format!("{:?}", r)
        );
    }
    for r in [
        ActivationRestriction::AsSorcery,
        ActivationRestriction::AsInstant,
        ActivationRestriction::DuringYourTurn,
        ActivationRestriction::DuringYourUpkeep,
        ActivationRestriction::DuringCombat,
        ActivationRestriction::BeforeAttackersDeclared,
        ActivationRestriction::BeforeCombatDamage,
        ActivationRestriction::OnlyOnceEachTurn,
        ActivationRestriction::OnlyOnce,
        ActivationRestriction::MaxTimesEachTurn { count: 200 },
        ActivationRestriction::IsSolved,
        ActivationRestriction::ClassLevelIs { level: 3 },
        ActivationRestriction::RequiresCondition {
            text: "you gained life this turn".to_string(),
        },
    ] {
        assert_eq!(
            write_activation_restriction(&r, "\"you gained life this turn\""),
            format!("{:?}", r)
        );
    }
}

fn planeswalker(state: &mut GameState, amount: i32, effect: Effect) -> ObjectId {
    state.phase = Phase::PreCombatMain;
    let pw = create_object(
        state,
        CardId(9),
        PlayerId(0),
        "Walker".to_string(),
        Zone::Battlefield,
    );
    let obj = state.objects.get_mut(&pw).unwrap();
    obj.card_types.core_types.push(CoreType::Planeswalker);
    obj.loyalty = Some(2);
    obj.counters.insert(CounterType::Loyalty, 2);
    obj.abilities = Arc::new(vec![AbilityDefinition::new(AbilityKind::Activated, effect)
        .cost(AbilityCost::Loyalty { amount })]);
    pw
}

#[test]
fn loyalty_abilities_are_refused_with_reasons() {
    let mut state = GameState::new_two_player(42);
    let mut events = Vec::new();
    let tap = Effect::Tap {
        target: TargetFilter::Typed(TypedFilter::creature()),
    };
    let pw = planeswalker(&mut state, -1, tap);
    assert!(is_invalid(
        handle_activate_loyalty(&mut state, PlayerId(0), pw, 5, &mut events),
        "Invalid ability index"
    ));
    assert!(is_forbidden(
        handle_activate_loyalty(&mut state, PlayerId(0), pw, 0, &mut events),
        "No legal targets available"
    ));
    assert!(is_forbidden(
        handle_activate_loyalty(&mut state, PlayerId(1), pw, 0, &mut events),
        "Cannot activate loyalty ability"
    ));
    let poor = planeswalker(
        &mut state,
        -3,
        Effect::Draw {
            count: QuantityExpr::Fixed { value: 1 },
            target: TargetFilter::Controller,
        },
    );
    assert!(is_forbidden(
        handle_activate_loyalty(&mut state, PlayerId(0), poor, 0, &mut events),
        "Not enough loyalty to activate ability"
    ));
    assert_eq!(state.objects.get(&poor).unwrap().loyalty, Some(2));
    assert!(state.stack.is_empty());
}

#[test]
fn cards_that_cannot_be_put_back_are_refused() {
    let mut state = GameState::new_two_player(42);
    let mut events = Vec::new();
    let id = create_object(
        &mut state,
        CardId(1),
        PlayerId(0),
        "Card".to_string(),
        Zone::Library,
    );
    assert_eq!(
        handle_mulligan_bottom(&mut state, PlayerId(0), vec![], 2, &mut events).unwrap_err(),
        "Expected 2 cards to bottom, got 0"
    );
    assert_eq!(
        handle_mulligan_bottom(&mut state, PlayerId(0), vec![id], 1, &mut events).unwrap_err(),
        format!("Card ObjectId({}) is not in player's hand", id.0)
    );
}

fn face(name: &str) -> CardFace {
    CardFace {
        name: name.to_string(),
        mana_cost: ManaCost::NoCost,
        card_type: Default::default(),
        power: None,
        toughness: None,
        loyalty: None,
        keywords: vec![],
        abilities: Arc::new(vec![]),
        triggers: Arc::new(vec![]),
        static_abilities: Arc::new(vec![]),
        replacements: vec![],
        color_override: None,
        scryfall_oracle_id: None,
        modal: None,
        additional_cost: None,
        strive_cost: None,
        casting_restrictions: Arc::new(vec![]),
        casting_options: Arc::new(vec![]),
        solve_condition: None,
    }
}

fn entries(name: &str, count: u32) -> Arc<Vec<DeckEntry>> {
    Arc::new(vec![DeckEntry {
        card: Arc::new(face(name)),
        count,
    }])
}

fn pool(player: u8) -> PlayerDeckPool {
    PlayerDeckPool {
        player: PlayerId(player),
        registered_main: entries("A", 3),
        registered_sideboard: entries("B", 1),
        registered_commander: Arc::new(vec![]),
        current_main: entries("A", 3),
        current_sideboard: entries("B", 1),
        current_commander: Arc::new(vec![]),
    }
}

fn cards(list: &[(&str, u32)]) -> Vec<DeckCardCount> {
    list.iter()
        .map(|(name, count)| DeckCardCount {
            name: name.to_string(),
            count: *count,
        })
        .collect()
}

#[test]
fn sideboards_are_refused_with_reasons() {
    let mut state = GameState::new_two_player(42);
    let mut submit = |state: &mut GameState, main: &[(&str, u32)], side: &[(&str, u32)]| {
        handle_submit_sideboard(state, PlayerId(0), cards(main), cards(side))
    };
    assert_eq!(
        submit(&mut state, &[("A", 3)], &[("B", 1)]).unwrap_err(),
        "Cannot submit sideboard outside BetweenGames phase"
    );
    state.match_phase = MatchPhase::BetweenGames;
    assert_eq!(
        submit(&mut state, &[("A", 3)], &[("B", 1)]).unwrap_err(),
        "Deck pool not found for player"
    );
    state.deck_pools = vec![pool(0), pool(1)];
    assert_eq!(
        submit(&mut state, &[("A", 12)], &[("B", 1)]).unwrap_err(),
        "Main deck size mismatch: expected 3, got 12"
    );
    assert_eq!(
        submit(&mut state, &[("A", 3)], &[("C", 1)]).unwrap_err(),
        "Submitted main+sideboard must match registered card pool"
    );
    assert!(state.sideboard_submitted.is_empty());
    let waiting = submit(&mut state, &[("A", 2), ("B", 1)], &[("A", 1)]).unwrap();
    assert!(matches!(
        waiting,
        WaitingFor::BetweenGamesSideboard {
            player: PlayerId(1),
            ..
        }
    ));
    let total: u32 = state.deck_pools[0].current_main.iter().map(|e| e.count).sum();
    assert_eq!(total, 3);
}

#[test]
fn choices_of_who_begins_are_refused_with_reasons() {
    let mut state = GameState::new_two_player(42);
    let mut events = Vec::new();
    assert_eq!(
        handle_choose_play_draw(&mut state, PlayerId(0), true, &mut events).unwrap_err(),
        "Cannot choose play/draw outside BetweenGames phase"
    );
    state.match_phase = MatchPhase::BetweenGames;
    state.next_game_chooser = Some(PlayerId(1));
    assert_eq!(
        handle_choose_play_draw(&mut state, PlayerId(0), true, &mut events).unwrap_err(),
        "Only the designated chooser may choose play/draw"
    );
    assert_eq!(
        handle_choose_play_draw(&mut state, PlayerId(1), true, &mut events).unwrap_err(),
        "Missing player 0 deck pool"
    );
    state.deck_pools = vec![pool(0)];
    assert_eq!(
        handle_choose_play_draw(&mut state, PlayerId(1), true, &mut events).unwrap_err(),
        "Missing player 1 deck pool"
    );
    state.deck_pools = vec![pool(0), pool(1)];
    handle_choose_play_draw(&mut state, PlayerId(1), false, &mut events).unwrap();
    assert_eq!(state.current_starting_player, PlayerId(0));
}
