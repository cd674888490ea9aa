//! What holds of whole groups of operations, on chosen games.

use std::sync::Arc;
use tabletop_engine::ability::{
    AbilityCost, AbilityDefinition, AbilityKind, ContinuousModification, CountScope,
    DamageModification, Effect, PlayerCounterKind, PreventionAmount, QuantityExpr,
    QuantityModification, QuantityRef, ReplacementDefinition, ReplacementEvent, RoundingMode,
    ShieldKind, StaticDefinition, StaticMode, TargetFilter, TargetRef, TokenSpec, TypeFilter,
    TypedFilter,
};
use tabletop_engine::cards::{
    CardType, CoreType, CounterType, FlashbackCost, Keyword, KeywordKind, Phase, Zone,
};
use tabletop_engine::devotion::derive_colors_from_mana_cost;
use tabletop_engine::events::{EtbTapState, GameEvent, ProposedEvent, WaitingFor};
use tabletop_engine::filter::{matching_ids, Scope};
use tabletop_engine::ids::{CardId, ObjectId, PlayerId, ReplacementId};
use tabletop_engine::keyed::KeySet;
use tabletop_engine::layers::{
    collect_shared_active_continuous_effects, order_active_continuous_effects,
};
use tabletop_engine::mana::{
    ManaColor, ManaCost, ManaCostShard, ManaPool, ManaRestriction, ManaType, ManaUnit, SpellMeta,
};
use tabletop_engine::mana_payment::{
    can_pay, can_pay_for_spell, pay_cost, pay_cost_with_demand, produce_mana, ColorDemand,
};
use tabletop_engine::morph::{manifest_card, play_face_down, turn_face_up};
use tabletop_engine::mulligan::{
    draw_new_hand, handle_mulligan_bottom, handle_mulligan_decision, start_mulligan,
};
use tabletop_engine::object::{ActivationRestriction, GameObject, PhaseOutCause, PhaseStatus};
use tabletop_engine::off_zone_characteristics::{
    effective_off_zone_keyword, effective_off_zone_keywords,
};
use tabletop_engine::phasing::{phase_in_object, phase_out_object};
use tabletop_engine::planeswalker::{can_activate_loyalty, handle_activate_loyalty};
use tabletop_engine::players::{apnap_order, next_player, opponents, teammates};
use tabletop_engine::printed_cards::{
    apply_back_face_to_object, apply_copiable_values, intrinsic_copiable_values,
    snapshot_object_face,
};
use tabletop_engine::quantity::{half_rounded, resolve_quantity};
use tabletop_engine::registry::{build_replacement_registry, registered_handler, Handler};
use tabletop_engine::replacement::{
    continue_replacement, replace_event, ReplacementResult,
};
use tabletop_engine::restrictions::{
    add_mana_cost, check_activation_restrictions, check_spell_timing, record_ability_activation,
    record_attackers_declared, record_discard, record_zone_change,
};
use tabletop_engine::sba::check_state_based_actions;
use tabletop_engine::state::{FormatConfig, GameState};
use tabletop_engine::zones::{create_object, move_to_zone};

fn unit(color: ManaType) -> ManaUnit {
    ManaUnit {
        color,
        source_id: ObjectId(1),
        snow: false,
        restrictions: Arc::new(vec![]),
        expiry: None,
    }
}

fn pool_of(colors: &[ManaType]) -> ManaPool {
    let mut pool = ManaPool::new();
    for c in colors {
        pool.add(unit(*c));
    }
    pool
}

fn creature(state: &mut GameState, owner: PlayerId, name: &str, zone: Zone) -> ObjectId {
    let id = create_object(state, CardId(1), owner, name.to_string(), zone);
    let obj = state.objects.get_mut(&id).unwrap();
    obj.card_types.core_types.push(CoreType::Creature);
    obj.power = Some(2);
    obj.toughness = Some(2);
    id
}

fn with_replacement(definition: ReplacementDefinition) -> GameState {
    let mut state = GameState::new_two_player(42);
    let mut obj = GameObject::new(
        ObjectId(10),
        CardId(1),
        PlayerId(0),
        "Source".to_string(),
        Zone::Battlefield,
    );
    obj.replacement_definitions = vec![definition];
    state.objects.insert(ObjectId(10), obj);
    state.battlefield.push(ObjectId(10));
    state
}

fn damage(amount: u32) -> ProposedEvent {
    ProposedEvent::Damage {
        source_id: ObjectId(50),
        target: TargetRef::Player(PlayerId(0)),
        amount,
        is_combat: false,
        applied: KeySet::new(),
    }
}

// --- Mana ---

#[test]
fn spent_and_left_is_what_the_pool_held() {
    let mut pool = pool_of(&[ManaType::White, ManaType::Blue, ManaType::Green, ManaType::Red]);
    let cost = ManaCost::of(vec![ManaCostShard::White, ManaCostShard::PhyrexianBlack], 2);
    let (spent, life) = pay_cost(&mut pool, &cost).unwrap();
    assert_eq!(spent.len(), 3);
    assert_eq!(life.len(), 1);
    assert_eq!(spent.len() + pool.total(), 4);
}

#[test]
fn a_refused_payment_spends_nothing() {
    let mut pool = pool_of(&[ManaType::White, ManaType::Blue]);
    let cost = ManaCost::of(vec![ManaCostShard::White, ManaCostShard::Red], 0);
    assert!(pay_cost(&mut pool, &cost).is_err());
    assert_eq!(pool.total(), 2);
    assert_eq!(pool.count_color(ManaType::White), 1);
    let too_much = ManaCost::of(vec![ManaCostShard::White], 2);
    assert!(pay_cost(&mut pool, &too_much).is_err());
    assert_eq!(pool.total(), 2);
}

#[test]
fn plain_costs_are_paid_exactly_when_covered() {
    let costs = [
        ManaCost::of(vec![ManaCostShard::White], 1),
        ManaCost::of(vec![ManaCostShard::White, ManaCostShard::White], 0),
        ManaCost::of(vec![ManaCostShard::TwoRed], 0),
        ManaCost::of(vec![ManaCostShard::ColorlessBlue], 1),
        ManaCost::of(vec![ManaCostShard::X, ManaCostShard::Blue], 1),
        ManaCost::of(vec![ManaCostShard::White, ManaCostShard::WhiteBlue], 0),
        ManaCost::of(vec![ManaCostShard::White, ManaCostShard::PhyrexianRed], 0),
        ManaCost::of(vec![ManaCostShard::Snow], 0),
        ManaCost::of(vec![], 3),
    ];
    let expected = [true, false, true, true, true, true, true, false, false];
    for (cost, is_payable) in costs.iter().zip(expected) {
        let mut pool = pool_of(&[ManaType::White, ManaType::Blue]);
        assert_eq!(can_pay(&pool, cost), is_payable, "{:?}", cost);
        assert_eq!(pay_cost(&mut pool, cost).is_ok(), is_payable, "{:?}", cost);
    }
}

#[test]
fn two_generic_are_paid_in_place_of_a_color() {
    let mut pool = pool_of(&[ManaType::White, ManaType::Blue]);
    let (spent, _) = pay_cost(&mut pool, &ManaCost::of(vec![ManaCostShard::TwoRed], 0)).unwrap();
    assert_eq!(spent.len(), 2);
    assert_eq!(pool.total(), 0);
}

#[test]
fn snow_symbols_take_mana_of_snow_sources() {
    let mut pool = pool_of(&[ManaType::White]);
    pool.add(ManaUnit {
        snow: true,
        ..unit(ManaType::Green)
    });
    let (spent, _) = pay_cost(&mut pool, &ManaCost::of(vec![ManaCostShard::Snow], 0)).unwrap();
    assert_eq!(spent[0].color, ManaType::Green);
    assert_eq!(pool.count_color(ManaType::White), 1);
}

#[test]
fn restricted_mana_is_kept_for_its_spells() {
    let mut pool = ManaPool::new();
    pool.add(ManaUnit {
        restrictions: Arc::new(vec![ManaRestriction::OnlyForCreatureType("Elf".to_string())]),
        ..unit(ManaType::Green)
    });
    let cost = ManaCost::of(vec![ManaCostShard::Green], 0);
    let goblin = SpellMeta {
        types: vec!["Creature".to_string()],
        subtypes: vec!["Goblin".to_string()],
    };
    assert!(!can_pay_for_spell(&pool, &cost, Some(&goblin)));
    let demand: ColorDemand = [0, 0, 0, 0, 0];
    assert!(pay_cost_with_demand(&mut pool, &cost, Some(&demand), Some(&goblin)).is_err());
    assert_eq!(pool.total(), 1);
}

#[test]
fn mana_values_of_costs_add_up() {
    let base = ManaCost::of(vec![ManaCostShard::Red], 2);
    let extra = ManaCost::of(vec![ManaCostShard::Blue, ManaCostShard::Blue], 1);
    let sum = add_mana_cost(&base, &extra);
    assert_eq!(sum.mana_value(), 6);
    assert_eq!(sum.mana_value(), base.mana_value() + extra.mana_value());
    assert_eq!(
        sum,
        ManaCost::of(
            vec![ManaCostShard::Red, ManaCostShard::Blue, ManaCostShard::Blue],
            3
        )
    );
}

#[test]
fn no_color_of_a_cost_comes_twice() {
    let cost = ManaCost::of(
        vec![
            ManaCostShard::WhiteBlue,
            ManaCostShard::White,
            ManaCostShard::X,
            ManaCostShard::PhyrexianRed,
        ],
        3,
    );
    assert_eq!(
        derive_colors_from_mana_cost(&cost),
        vec![ManaColor::White, ManaColor::Blue, ManaColor::Red]
    );
}

#[test]
fn mana_goes_to_the_player_it_is_made_for() {
    let mut state = GameState::new_two_player(42);
    let mut events = Vec::new();
    produce_mana(&mut state, ObjectId(3), ManaType::Red, PlayerId(1), &mut events);
    assert_eq!(state.players[0].mana_pool.total(), 0);
    assert_eq!(state.players[1].mana_pool.mana[0].source_id, ObjectId(3));
}

// --- Players ---

#[test]
fn the_turn_passes_to_living_players_only() {
    let mut state = GameState::new(FormatConfig::free_for_all(), 4, 1);
    state.players[1].is_eliminated = true;
    state.players[2].is_eliminated = true;
    assert_eq!(next_player(&state, PlayerId(0)), PlayerId(3));
    assert_eq!(next_player(&state, PlayerId(3)), PlayerId(0));
    state.players[3].is_eliminated = true;
    assert_eq!(next_player(&state, PlayerId(0)), PlayerId(0));
}

#[test]
fn nobody_is_their_own_opponent() {
    let mut state = GameState::new(FormatConfig::free_for_all(), 3, 1);
    assert_eq!(opponents(&state, PlayerId(1)), vec![PlayerId(0), PlayerId(2)]);
    state.players[2].is_eliminated = true;
    assert_eq!(opponents(&state, PlayerId(1)), vec![PlayerId(0)]);
}

#[test]
fn the_active_player_acts_first() {
    let mut state = GameState::new(FormatConfig::free_for_all(), 3, 1);
    state.active_player = PlayerId(2);
    assert_eq!(
        apnap_order(&state),
        vec![PlayerId(2), PlayerId(0), PlayerId(1)]
    );
}

#[test]
fn partners_have_each_other() {
    let state = GameState::new(FormatConfig::two_headed_giant(), 4, 1);
    for (a, b) in [(0, 1), (1, 0), (2, 3), (3, 2)] {
        assert_eq!(teammates(&state, PlayerId(a)), vec![PlayerId(b)]);
    }
    let alone = GameState::new(FormatConfig::free_for_all(), 4, 1);
    assert!(teammates(&alone, PlayerId(0)).is_empty());
}

// --- Zones ---

#[test]
fn a_moved_object_lies_where_it_was_put_and_others_stay() {
    let mut state = GameState::new_two_player(42);
    let a = creature(&mut state, PlayerId(0), "A", Zone::Battlefield);
    let b = creature(&mut state, PlayerId(0), "B", Zone::Battlefield);
    let mut events = Vec::new();
    move_to_zone(&mut state, a, Zone::Exile, &mut events);
    assert_eq!(state.objects.get(&a).unwrap().zone, Zone::Exile);
    assert_eq!(state.exile, vec![a]);
    assert_eq!(state.battlefield, vec![b]);
    assert_eq!(state.objects.get(&b).unwrap().zone, Zone::Battlefield);
    assert!(matches!(
        &events[0],
        GameEvent::ZoneChanged { object_id, from: Some(Zone::Battlefield), to: Zone::Exile, .. }
            if *object_id == a
    ));
}

// --- Mulligans ---

fn with_libraries(seed: u64, cards: u64) -> GameState {
    let mut state = GameState::new_two_player(seed);
    for p in 0..2u8 {
        for i in 0..cards {
            create_object(
                &mut state,
                CardId(i),
                PlayerId(p),
                format!("Card {i}"),
                Zone::Library,
            );
        }
    }
    state
}

fn sorted_cards(state: &GameState, p: usize) -> Vec<u64> {
    let mut all: Vec<u64> = state.players[p]
        .hand
        .iter()
        .chain(state.players[p].library.iter())
        .map(|id| id.0)
        .collect();
    all.sort();
    all
}

#[test]
fn cards_come_from_the_top_in_order() {
    let mut state = with_libraries(1, 9);
    let top: Vec<ObjectId> = state.players[0].library[..7].to_vec();
    let rest: Vec<ObjectId> = state.players[0].library[7..].to_vec();
    let mut events = Vec::new();
    draw_new_hand(&mut state, PlayerId(0), &mut events);
    assert_eq!(state.players[0].hand, top);
    assert_eq!(state.players[0].library, rest);
}

#[test]
fn a_short_library_is_drawn_out() {
    let mut state = with_libraries(1, 3);
    let mut events = Vec::new();
    draw_new_hand(&mut state, PlayerId(0), &mut events);
    assert_eq!(state.players[0].hand.len(), 3);
    assert!(state.players[0].library.is_empty());
    assert!(matches!(
        events.last().unwrap(),
        GameEvent::CardsDrawn { player_id: PlayerId(0), count: 7 }
    ));
}

#[test]
fn no_card_is_lost_by_mulligans() {
    let mut state = with_libraries(5, 20);
    let before = sorted_cards(&state, 0);
    let mut events = Vec::new();
    start_mulligan(&mut state, &mut events);
    for n in 0..3 {
        handle_mulligan_decision(&mut state, PlayerId(0), false, n, &mut events);
        assert_eq!(state.players[0].hand.len(), 7);
        assert_eq!(sorted_cards(&state, 0), before);
    }
}

#[test]
fn cards_put_back_lie_under_the_library() {
    let mut state = with_libraries(5, 12);
    let mut events = Vec::new();
    start_mulligan(&mut state, &mut events);
    let library = state.players[0].library.clone();
    let back = vec![state.players[0].hand[4], state.players[0].hand[1]];
    let waiting =
        handle_mulligan_bottom(&mut state, PlayerId(0), back.clone(), 2, &mut events).unwrap();
    assert!(matches!(
        waiting,
        WaitingFor::MulliganDecision { player: PlayerId(1), mulligan_count: 0 }
    ));
    let mut expected = library;
    expected.extend(back.iter().copied());
    assert_eq!(state.players[0].library, expected);
    assert_eq!(state.players[0].hand.len(), 5);
    assert!(!state.players[0].hand.contains(&back[0]));
}

#[test]
fn the_last_mulligan_has_to_be_kept() {
    let mut state = with_libraries(5, 20);
    let mut events = Vec::new();
    start_mulligan(&mut state, &mut events);
    let waiting = handle_mulligan_decision(&mut state, PlayerId(0), false, 6, &mut events);
    assert!(matches!(
        waiting,
        WaitingFor::MulliganBottomCards { player: PlayerId(0), count: 7 }
    ));
}

// --- Face-down permanents ---

#[test]
fn a_card_turned_face_up_shows_its_face_again() {
    let mut state = GameState::new_two_player(42);
    let id = creature(&mut state, PlayerId(0), "Secret", Zone::Hand);
    state.objects.get_mut(&id).unwrap().mana_cost = ManaCost::of(vec![ManaCostShard::Red], 4);
    let mut events = Vec::new();
    play_face_down(&mut state, PlayerId(0), id, &mut events).unwrap();
    turn_face_up(&mut state, PlayerId(0), id, &mut events).unwrap();
    let obj = state.objects.get(&id).unwrap();
    assert_eq!(obj.name, "Secret");
    assert_eq!(obj.mana_cost, ManaCost::of(vec![ManaCostShard::Red], 4));
    assert!(!obj.face_down);
    assert!(obj.back_face.is_none());
}

#[test]
fn two_face_down_permanents_look_alike() {
    let mut state = GameState::new_two_player(42);
    let a = creature(&mut state, PlayerId(0), "A", Zone::Hand);
    let b = create_object(
        &mut state,
        CardId(2),
        PlayerId(0),
        "B".to_string(),
        Zone::Hand,
    );
    {
        let obj = state.objects.get_mut(&b).unwrap();
        obj.card_types.core_types.push(CoreType::Instant);
        obj.mana_cost = ManaCost::of(vec![ManaCostShard::Blue], 1);
        obj.color = vec![ManaColor::Blue];
        obj.keywords = vec![Keyword::Flash];
    }
    let mut events = Vec::new();
    manifest_card(&mut state, PlayerId(0), a, &mut events).unwrap();
    manifest_card(&mut state, PlayerId(0), b, &mut events).unwrap();
    let x = state.objects.get(&a).unwrap();
    let y = state.objects.get(&b).unwrap();
    assert_eq!(x.name, y.name);
    assert_eq!(x.base_name, y.base_name);
    assert_eq!((x.power, x.toughness), (y.power, y.toughness));
    assert_eq!(x.card_types.core_types, y.card_types.core_types);
    assert_eq!(x.mana_cost, y.mana_cost);
    assert_eq!(x.keywords, y.keywords);
    assert_eq!(x.color, y.color);
}

// --- Phasing ---

#[test]
fn what_phases_out_together_comes_back_together() {
    let mut state = GameState::new_two_player(42);
    let host = creature(&mut state, PlayerId(0), "Host", Zone::Battlefield);
    let aura = create_object(
        &mut state,
        CardId(2),
        PlayerId(0),
        "Aura".to_string(),
        Zone::Battlefield,
    );
    state
        .objects
        .get_mut(&aura)
        .unwrap()
        .card_types
        .core_types
        .push(CoreType::Enchantment);
    state.objects.get_mut(&aura).unwrap().attached_to = Some(host);
    state.objects.get_mut(&host).unwrap().attachments.push(aura);
    state.objects.get_mut(&host).unwrap().tapped = true;
    let mut events = Vec::new();
    let out = phase_out_object(&mut state, host, PhaseOutCause::Directly, &mut events);
    let back = phase_in_object(&mut state, host, &mut events);
    assert_eq!(out, back);
    assert_eq!(out, vec![host, aura]);
    let obj = state.objects.get(&host).unwrap();
    assert_eq!(obj.phase_status, PhaseStatus::PhasedIn);
    assert!(obj.tapped);
    assert_eq!(obj.attachments, vec![aura]);
}

// --- Loyalty ---

#[test]
fn loyalty_changes_by_its_cost_once_a_turn() {
    let mut state = GameState::new_two_player(42);
    state.phase = Phase::PreCombatMain;
    let pw = create_object(
        &mut state,
        CardId(9),
        PlayerId(0),
        "Jace".to_string(),
        Zone::Battlefield,
    );
    {
        let obj = state.objects.get_mut(&pw).unwrap();
        obj.card_types.core_types.push(CoreType::Planeswalker);
        obj.loyalty = Some(4);
        obj.counters.insert(CounterType::Loyalty, 4);
        obj.abilities = Arc::new(vec![AbilityDefinition::new(
            AbilityKind::Activated,
            Effect::Draw {
                count: QuantityExpr::Fixed { value: 1 },
                target: TargetFilter::Controller,
            },
        )
        .cost(AbilityCost::Loyalty { amount: -2 })]);
    }
    assert!(can_activate_loyalty(&state, pw, PlayerId(0)));
    let mut events = Vec::new();
    handle_activate_loyalty(&mut state, PlayerId(0), pw, 0, &mut events).unwrap();
    let obj = state.objects.get(&pw).unwrap();
    assert_eq!(obj.loyalty, Some(2));
    assert_eq!(obj.counters.get(&CounterType::Loyalty).copied(), Some(2));
    state.stack.clear();
    assert!(!can_activate_loyalty(&state, pw, PlayerId(0)));
}

// --- Printed faces ---

#[test]
fn a_face_taken_and_given_back_is_the_same() {
    let mut state = GameState::new_two_player(42);
    let a = creature(&mut state, PlayerId(0), "First", Zone::Battlefield);
    let b = creature(&mut state, PlayerId(0), "Second", Zone::Battlefield);
    let face = snapshot_object_face(state.objects.get(&a).unwrap());
    let other = state.objects.get_mut(&b).unwrap();
    other.keywords.push(Keyword::Flying);
    apply_back_face_to_object(other, face);
    assert_eq!(other.name, "First");
    assert!(other.keywords.is_empty());
    assert_eq!(other.power, Some(2));
}

#[test]
fn a_copy_has_the_values_copied() {
    let mut original = GameObject::new(
        ObjectId(1),
        CardId(1),
        PlayerId(0),
        "Original".to_string(),
        Zone::Battlefield,
    );
    original.base_power = Some(5);
    original.base_toughness = Some(6);
    original.base_keywords = vec![Keyword::Trample];
    original.base_card_types = CardType {
        supertypes: vec![],
        core_types: vec![CoreType::Creature],
        subtypes: vec!["Beast".to_string()],
    };
    original.base_characteristics_initialized = true;
    let values = intrinsic_copiable_values(&original);
    let mut copy = GameObject::new(
        ObjectId(2),
        CardId(2),
        PlayerId(1),
        "Clone".to_string(),
        Zone::Battlefield,
    );
    apply_copiable_values(&mut copy, &values);
    assert_eq!(copy.name, "Original");
    assert_eq!(copy.power, Some(5));
    assert_eq!(copy.toughness, Some(6));
    assert_eq!(copy.keywords, vec![Keyword::Trample]);
    assert_eq!(copy.card_types.subtypes, vec!["Beast".to_string()]);
    assert_eq!(copy.controller, PlayerId(1));
}

// --- Replacement ---

#[test]
fn every_kind_of_event_finds_its_own_handler() {
    let registry = build_replacement_registry();
    for (event, handler) in [
        (ReplacementEvent::DamageDone, Handler::DamageDone),
        (ReplacementEvent::Draw, Handler::Draw),
        (ReplacementEvent::DrawCards, Handler::Stub),
        (ReplacementEvent::ProduceMana, Handler::ProduceMana),
        (ReplacementEvent::BeginTurn, Handler::BeginTurn),
        (ReplacementEvent::GameLoss, Handler::Stub),
    ] {
        let entry = registered_handler(&registry, event).unwrap();
        assert_eq!(entry.matcher, handler);
        assert_eq!(entry.applier, handler);
    }
}

#[test]
fn a_replacement_applies_once_to_an_event() {
    let mut state = with_replacement(
        ReplacementDefinition::new(ReplacementEvent::DamageDone)
            .damage_modification(DamageModification::Double),
    );
    let rid = ReplacementId {
        source: ObjectId(10),
        index: 0,
    };
    let mut events = Vec::new();
    match replace_event(&mut state, damage(3), &mut events) {
        ReplacementResult::Execute(event) => {
            assert!(event.already_applied(&rid));
            match event {
                ProposedEvent::Damage { amount, .. } => assert_eq!(amount, 6),
                other => panic!("unexpected {:?}", other),
            }
        }
        other => panic!("unexpected {:?}", other),
    }
}

#[test]
fn an_event_that_nothing_replaces_happens_as_proposed() {
    let mut state = GameState::new_two_player(42);
    let mut events = Vec::new();
    match replace_event(&mut state, damage(3), &mut events) {
        ReplacementResult::Execute(ProposedEvent::Damage { amount, applied, .. }) => {
            assert_eq!(amount, 3);
            assert_eq!(applied.len(), 0);
        }
        other => panic!("unexpected {:?}", other),
    }
    assert!(events.is_empty());
    assert!(state.pending_replacement.is_none());
}

#[test]
fn what_is_asked_can_be_answered() {
    let mut state = with_replacement(
        ReplacementDefinition::new(ReplacementEvent::DamageDone)
            .damage_modification(DamageModification::Double),
    );
    state
        .objects
        .get_mut(&ObjectId(10))
        .unwrap()
        .replacement_definitions
        .push(
            ReplacementDefinition::new(ReplacementEvent::DamageDone).damage_modification(
                DamageModification::Plus { value: 1 },
            ),
        );
    let mut events = Vec::new();
    let asked = replace_event(&mut state, damage(3), &mut events);
    assert!(matches!(asked, ReplacementResult::NeedsChoice(PlayerId(0))));
    // One more first, then twice as much.
    match continue_replacement(&mut state, 1, &mut events) {
        ReplacementResult::Execute(ProposedEvent::Damage { amount, .. }) => assert_eq!(amount, 8),
        other => panic!("unexpected {:?}", other),
    }
    assert!(state.pending_replacement.is_none());
}

#[test]
fn prevented_and_dealt_damage_add_up() {
    let mut state = with_replacement(
        ReplacementDefinition::new(ReplacementEvent::DamageDone)
            .prevention_shield(PreventionAmount::Next(2)),
    );
    let mut events = Vec::new();
    match replace_event(&mut state, damage(5), &mut events) {
        ReplacementResult::Execute(ProposedEvent::Damage { amount, .. }) => assert_eq!(amount, 3),
        other => panic!("unexpected {:?}", other),
    }
    assert!(events
        .iter()
        .any(|e| matches!(e, GameEvent::DamagePrevented { amount: 2, .. })));
}

#[test]
fn a_shield_is_used_up_and_works_no_more() {
    let mut state = with_replacement(
        ReplacementDefinition::new(ReplacementEvent::DamageDone)
            .prevention_shield(PreventionAmount::Next(4)),
    );
    let mut events = Vec::new();
    assert!(matches!(
        replace_event(&mut state, damage(3), &mut events),
        ReplacementResult::Prevented
    ));
    let left = &state
        .objects
        .get(&ObjectId(10))
        .unwrap()
        .replacement_definitions[0];
    assert!(matches!(
        left.shield_kind,
        ShieldKind::Prevention {
            amount: PreventionAmount::Next(1)
        }
    ));
    match replace_event(&mut state, damage(3), &mut events) {
        ReplacementResult::Execute(ProposedEvent::Damage { amount, .. }) => assert_eq!(amount, 2),
        other => panic!("unexpected {:?}", other),
    }
    match replace_event(&mut state, damage(3), &mut events) {
        ReplacementResult::Execute(ProposedEvent::Damage { amount, .. }) => assert_eq!(amount, 3),
        other => panic!("unexpected {:?}", other),
    }
}

fn squirrel() -> TokenSpec {
    TokenSpec {
        display_name: "Squirrel".to_string(),
        script_name: "g_1_1_squirrel".to_string(),
        power: Some(1),
        toughness: Some(1),
        core_types: Arc::new(vec![CoreType::Creature]),
        subtypes: Arc::new(vec!["Squirrel".to_string()]),
        supertypes: Arc::new(Vec::new()),
        colors: Arc::new(vec![ManaColor::Green]),
        keywords: Arc::new(Vec::new()),
        static_abilities: Arc::new(Vec::new()),
        enter_with_counters: Vec::new(),
        tapped: false,
        enters_attacking: false,
        sacrifice_at: None,
        source_id: ObjectId(10),
        controller: PlayerId(0),
    }
}

fn one_squirrel() -> ProposedEvent {
    ProposedEvent::CreateToken {
        owner: PlayerId(0),
        spec: Box::new(squirrel()),
        enter_tapped: EtbTapState::Unspecified,
        count: 1,
        applied: KeySet::new(),
    }
}

fn tokens_in(state: &GameState) -> usize {
    (0..state.objects.len())
        .filter(|i| state.objects.value_at(*i).is_token)
        .count()
}

#[test]
fn appended_tokens_are_an_event_of_their_own() {
    let mut state = with_replacement(
        ReplacementDefinition::new(ReplacementEvent::CreateToken).additional_token_spec(squirrel()),
    );
    state
        .objects
        .get_mut(&ObjectId(10))
        .unwrap()
        .replacement_definitions
        .push(
            ReplacementDefinition::new(ReplacementEvent::CreateToken)
                .quantity_modification(QuantityModification::Double),
        );
    state.next_object_id = 1000;
    let mut events = Vec::new();
    let asked = replace_event(&mut state, one_squirrel(), &mut events);
    assert!(matches!(asked, ReplacementResult::NeedsChoice(PlayerId(0))));
    // One token is appended first; then both batches are doubled.
    match continue_replacement(&mut state, 0, &mut events) {
        ReplacementResult::Execute(ProposedEvent::CreateToken { count, .. }) => {
            assert_eq!(count, 2)
        }
        other => panic!("unexpected {:?}", other),
    }
    assert_eq!(tokens_in(&state), 2);
}

#[test]
fn tokens_appended_to_one_another_come_to_an_end() {
    let mut state = with_replacement(
        ReplacementDefinition::new(ReplacementEvent::CreateToken).additional_token_spec(squirrel()),
    );
    state
        .objects
        .get_mut(&ObjectId(10))
        .unwrap()
        .replacement_definitions
        .push(
            ReplacementDefinition::new(ReplacementEvent::CreateToken)
                .additional_token_spec(squirrel()),
        );
    state.next_object_id = 1000;
    let mut events = Vec::new();
    let asked = replace_event(&mut state, one_squirrel(), &mut events);
    assert!(matches!(asked, ReplacementResult::NeedsChoice(PlayerId(0))));
    match continue_replacement(&mut state, 0, &mut events) {
        ReplacementResult::Execute(ProposedEvent::CreateToken { count, .. }) => {
            assert_eq!(count, 1)
        }
        other => panic!("unexpected {:?}", other),
    }
    // Each of the two definitions starts a row of two batches, the second appended to the first.
    assert_eq!(tokens_in(&state), 4);
}

// --- Restrictions ---

#[test]
fn activations_are_counted_one_by_one_and_apart() {
    let mut state = GameState::new_two_player(42);
    let twice = [ActivationRestriction::MaxTimesEachTurn { count: 2 }];
    let once = [ActivationRestriction::OnlyOnce];
    for expected in [true, true, false] {
        assert_eq!(
            check_activation_restrictions(&state, PlayerId(0), ObjectId(3), 0, &twice).is_ok(),
            expected
        );
        record_ability_activation(&mut state, ObjectId(3), 0);
    }
    assert!(check_activation_restrictions(&state, PlayerId(0), ObjectId(3), 1, &twice).is_ok());
    assert!(check_activation_restrictions(&state, PlayerId(0), ObjectId(4), 0, &once).is_ok());
    assert!(check_activation_restrictions(&state, PlayerId(1), ObjectId(3), 0, &once).is_err());
}

#[test]
fn every_spell_may_be_cast_at_the_time_of_sorceries() {
    let mut state = GameState::new_two_player(42);
    state.phase = Phase::PostCombatMain;
    let mut obj = GameObject::new(
        ObjectId(10),
        CardId(10),
        PlayerId(0),
        "Sorcery".to_string(),
        Zone::Hand,
    );
    obj.card_types.core_types.push(CoreType::Sorcery);
    let ability = AbilityDefinition::new(
        AbilityKind::Spell,
        Effect::Draw {
            count: QuantityExpr::Fixed { value: 1 },
            target: TargetFilter::Controller,
        },
    );
    assert!(check_spell_timing(&state, PlayerId(0), &obj, &ability, false).is_ok());
}

#[test]
fn records_of_a_turn_only_grow() {
    let mut state = GameState::new_two_player(42);
    let a = creature(&mut state, PlayerId(0), "A", Zone::Graveyard);
    record_attackers_declared(&mut state, 2);
    record_discard(&mut state, PlayerId(1));
    record_zone_change(&mut state, a, Zone::Battlefield, Zone::Graveyard);
    record_attackers_declared(&mut state, 1);
    record_zone_change(&mut state, a, Zone::Graveyard, Zone::Exile);
    assert!(state.players_attacked_this_turn.contains(&PlayerId(0)));
    assert_eq!(
        state.attacking_creatures_this_turn.get(&PlayerId(0)).copied(),
        Some(3)
    );
    assert!(state
        .players_who_discarded_card_this_turn
        .contains(&PlayerId(1)));
    assert!(state.creature_died_this_turn);
    assert_eq!(
        state.cards_left_graveyard_this_turn.get(&PlayerId(0)).copied(),
        Some(1)
    );
}

// --- Effects and keywords ---

#[test]
fn older_effects_come_first() {
    let mut state = GameState::new_two_player(42);
    for (n, timestamp) in [(1u64, 30u64), (2, 10), (3, 20)] {
        let id = creature(&mut state, PlayerId(0), "Lord", Zone::Battlefield);
        let obj = state.objects.get_mut(&id).unwrap();
        obj.timestamp = timestamp;
        obj.static_definitions = Arc::new(vec![StaticDefinition::new(StaticMode::Continuous)
            .affected(TargetFilter::Any)
            .modification(ContinuousModification::AddPower { value: n as i32 })]);
    }
    let effects = collect_shared_active_continuous_effects(&state);
    assert_eq!(effects.len(), 3);
    let ordered = order_active_continuous_effects(effects);
    let ages: Vec<u64> = ordered.iter().map(|e| e.timestamp).collect();
    assert_eq!(ages, vec![10, 20, 30]);
}

fn grant(state: &mut GameState, timestamp: u64, target: ObjectId, m: ContinuousModification) {
    let id = create_object(
        state,
        CardId(7),
        PlayerId(0),
        "Source".to_string(),
        Zone::Battlefield,
    );
    let obj = state.objects.get_mut(&id).unwrap();
    obj.timestamp = timestamp;
    obj.static_definitions = Arc::new(vec![StaticDefinition::continuous()
        .affected(TargetFilter::SpecificObject { id: target })
        .modification(m)]);
}

fn flashback(n: u32) -> Keyword {
    Keyword::Flashback(FlashbackCost::Mana(ManaCost::generic(n)))
}

#[test]
fn the_newest_effect_on_keywords_decides() {
    let mut state = GameState::new_two_player(42);
    let card = create_object(
        &mut state,
        CardId(1),
        PlayerId(0),
        "Card".to_string(),
        Zone::Graveyard,
    );
    state.objects.get_mut(&card).unwrap().base_keywords = vec![flashback(1), Keyword::Flying];
    assert_eq!(
        effective_off_zone_keywords(&state, card),
        vec![flashback(1), Keyword::Flying]
    );
    grant(
        &mut state,
        10,
        card,
        ContinuousModification::AddKeyword {
            keyword: flashback(2),
        },
    );
    assert_eq!(
        effective_off_zone_keyword(&state, card, KeywordKind::Flashback),
        Some(flashback(2))
    );
    grant(
        &mut state,
        20,
        card,
        ContinuousModification::RemoveKeyword {
            keyword: flashback(9),
        },
    );
    assert_eq!(
        effective_off_zone_keywords(&state, card),
        vec![Keyword::Flying]
    );
    grant(&mut state, 30, card, ContinuousModification::RemoveAllAbilities);
    assert!(effective_off_zone_keywords(&state, card).is_empty());
}

#[test]
fn only_what_matches_is_found() {
    let mut state = GameState::new_two_player(42);
    let a = creature(&mut state, PlayerId(0), "A", Zone::Battlefield);
    let b = create_object(
        &mut state,
        CardId(2),
        PlayerId(0),
        "B".to_string(),
        Zone::Battlefield,
    );
    let ids = vec![a, b];
    let filter = TargetFilter::Typed(TypedFilter::new(TypeFilter::Creature));
    let scope = Scope::from_source_with_controller(a, PlayerId(0));
    assert_eq!(matching_ids(&state, &ids, &filter, scope), vec![a]);
}

// --- Numbers ---

#[test]
fn halves_make_the_whole() {
    for n in [0, 1, 2, 7, 20] {
        let up = half_rounded(n, RoundingMode::Up);
        let down = half_rounded(n, RoundingMode::Down);
        assert_eq!(up + down, n);
        assert_eq!(up - down, n % 2);
    }
}

#[test]
fn counters_of_all_are_ones_own_and_those_of_others() {
    let mut state = GameState::new(FormatConfig::free_for_all(), 3, 1);
    for (p, n) in [(0, 2), (1, 3), (2, 5)] {
        state.players[p]
            .player_counters
            .insert(PlayerCounterKind::Rad, n);
    }
    let count = |scope: CountScope| {
        resolve_quantity(
            &state,
            &QuantityExpr::Ref {
                qty: QuantityRef::PlayerCounter {
                    kind: PlayerCounterKind::Rad,
                    scope,
                },
            },
            PlayerId(1),
            ObjectId(0),
        )
    };
    assert_eq!(count(CountScope::Controller), 3);
    assert_eq!(count(CountScope::Opponents), 7);
    assert_eq!(count(CountScope::All), 10);
}

#[test]
fn there_are_no_more_names_than_permanents() {
    let mut state = GameState::new_two_player(42);
    for name in ["Elf", "Elf", "Bear"] {
        creature(&mut state, PlayerId(0), name, Zone::Battlefield);
    }
    let names = QuantityExpr::Ref {
        qty: QuantityRef::ObjectCountDistinctNames {
            filter: TargetFilter::Typed(TypedFilter::creature()),
        },
    };
    assert_eq!(resolve_quantity(&state, &names, PlayerId(0), ObjectId(0)), 2);
}

// --- State-based actions ---

#[test]
fn a_game_at_rest_stays_as_it_is() {
    let mut state = GameState::new_two_player(42);
    let a = creature(&mut state, PlayerId(0), "A", Zone::Battlefield);
    state.layers_dirty = false;
    let mut events = Vec::new();
    check_state_based_actions(&mut state, &mut events);
    assert!(events.is_empty());
    assert_eq!(state.battlefield, vec![a]);
    check_state_based_actions(&mut state, &mut events);
    assert!(events.is_empty());
}

#[test]
fn an_indestructible_creature_survives_damage_but_not_lack_of_toughness() {
    let mut state = GameState::new_two_player(42);
    let a = creature(&mut state, PlayerId(0), "A", Zone::Battlefield);
    let b = creature(&mut state, PlayerId(0), "B", Zone::Battlefield);
    for id in [a, b] {
        let obj = state.objects.get_mut(&id).unwrap();
        obj.keywords.push(Keyword::Indestructible);
    }
    state.objects.get_mut(&a).unwrap().damage_marked = 9;
    state.objects.get_mut(&b).unwrap().toughness = Some(0);
    state.layers_dirty = false;
    let mut events = Vec::new();
    check_state_based_actions(&mut state, &mut events);
    assert!(state.battlefield.contains(&a));
    assert!(state.players[0].graveyard.contains(&b));
}

#[test]
fn counters_of_both_kinds_leave_their_difference() {
    let mut state = GameState::new_two_player(42);
    let a = creature(&mut state, PlayerId(0), "A", Zone::Battlefield);
    {
        let obj = state.objects.get_mut(&a).unwrap();
        obj.counters.insert(CounterType::Plus1Plus1, 1);
        obj.counters.insert(CounterType::Minus1Minus1, 2);
        obj.counters
            .insert(CounterType::Generic("oil".to_string()), 4);
        obj.toughness = Some(9);
    }
    state.layers_dirty = false;
    let mut events = Vec::new();
    check_state_based_actions(&mut state, &mut events);
    let obj = state.objects.get(&a).unwrap();
    assert!(!obj.counters.contains_key(&CounterType::Plus1Plus1));
    assert_eq!(obj.counters.get(&CounterType::Minus1Minus1).copied(), Some(1));
    assert_eq!(
        obj.counters
            .get(&CounterType::Generic("oil".to_string()))
            .copied(),
        Some(4)
    );
}
