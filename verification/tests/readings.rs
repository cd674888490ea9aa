//! What costs, texts, phasing and turn order come to where there is a choice to be made.

use std::sync::Arc;
use tabletop_engine::ability::{DamageModification, ReplacementDefinition, ReplacementEvent, TargetRef};
use tabletop_engine::applicability::find_applicable_replacements;
use tabletop_engine::cards::{CoreType, Supertype, Zone};
use tabletop_engine::conditions::{
    evaluate_condition, evaluate_condition_text, parse_condition_text, RestrictionCondition, Wanted,
};
use tabletop_engine::events::ProposedEvent;
use tabletop_engine::ids::{CardId, ObjectId, PlayerId};
use tabletop_engine::keyed::{KeySet, Table};
use tabletop_engine::mana::{
    ManaColor, ManaCost, ManaCostShard, ManaPool, ManaRestriction, ManaType, ManaUnit, SpellMeta,
};
use tabletop_engine::mana_payment::{
    can_pay, can_pay_for_spell, pay_cost, pay_cost_with_demand, ColorDemand,
};
use tabletop_engine::mulligan::{draw_new_hand, start_mulligan};
use tabletop_engine::object::{PhaseOutCause, PhaseStatus};
use tabletop_engine::phasing::{phase_in_object, phase_out_object};
use tabletop_engine::players::{apnap_order, next_player};
use tabletop_engine::registry::build_replacement_registry;
use tabletop_engine::state::{FormatConfig, GameState};
use tabletop_engine::zones::create_object;

fn unit(color: ManaType) -> ManaUnit {
    ManaUnit {
        color,
        source_id: ObjectId(1),
        snow: false,
        restrictions: Arc::new(vec![]),
        expiry: None,
    }
}

fn for_elves(color: ManaType) -> ManaUnit {
    ManaUnit {
        restrictions: Arc::new(vec![ManaRestriction::OnlyForCreatureType("Elf".to_string())]),
        ..unit(color)
    }
}

fn pool_of(units: Vec<ManaUnit>) -> ManaPool {
    let mut pool = ManaPool::new();
    for u in units {
        pool.add(u);
    }
    pool
}

fn colors_of(spent: &[ManaUnit]) -> Vec<ManaType> {
    spent.iter().map(|u| u.color).collect()
}

fn goblin() -> SpellMeta {
    SpellMeta {
        types: vec!["Creature".to_string()],
        subtypes: vec!["Goblin".to_string()],
    }
}

fn elf() -> SpellMeta {
    SpellMeta {
        types: vec!["Creature".to_string()],
        subtypes: vec!["Elf".to_string()],
    }
}

// --- Costs ---

#[test]
fn a_hybrid_symbol_leaves_what_a_later_one_needs() {
    let cost = ManaCost::of(vec![ManaCostShard::WhiteBlue, ManaCostShard::White], 0);
    for blues in 1..3 {
        let mut units = vec![unit(ManaType::White)];
        for _ in 0..blues {
            units.push(unit(ManaType::Blue));
        }
        let mut pool = pool_of(units);
        assert!(can_pay(&pool, &cost));
        let (spent, life) = pay_cost(&mut pool, &cost).unwrap();
        assert_eq!(colors_of(&spent), vec![ManaType::Blue, ManaType::White]);
        assert!(life.is_empty());
        assert_eq!(pool.total(), blues - 1);
    }
    assert!(!can_pay(&pool_of(vec![unit(ManaType::Blue), unit(ManaType::Blue)]), &cost));
}

#[test]
fn the_preferred_half_is_spent_where_it_can_be_spared() {
    let cost = ManaCost::of(vec![ManaCostShard::WhiteBlue, ManaCostShard::White], 0);
    let mut pool = pool_of(vec![
        unit(ManaType::White),
        unit(ManaType::White),
        unit(ManaType::Blue),
    ]);
    let (spent, _) = pay_cost(&mut pool, &cost).unwrap();
    assert_eq!(colors_of(&spent), vec![ManaType::White, ManaType::White]);
    let demand: ColorDemand = [5, 0, 0, 0, 0];
    let mut pool = pool_of(vec![
        unit(ManaType::White),
        unit(ManaType::White),
        unit(ManaType::Blue),
    ]);
    let (spent, _) = pay_cost_with_demand(&mut pool, &cost, Some(&demand), None).unwrap();
    assert_eq!(colors_of(&spent), vec![ManaType::Blue, ManaType::White]);
}

#[test]
fn life_is_paid_where_the_mana_is_needed() {
    let cost = ManaCost::of(vec![ManaCostShard::PhyrexianRed, ManaCostShard::Red], 0);
    let mut pool = pool_of(vec![unit(ManaType::Red)]);
    assert!(can_pay(&pool, &cost));
    let (spent, life) = pay_cost(&mut pool, &cost).unwrap();
    assert_eq!(colors_of(&spent), vec![ManaType::Red]);
    assert_eq!(life.len(), 1);
    assert_eq!(life[0].amount, 2);
    let mut pool = pool_of(vec![unit(ManaType::Red), unit(ManaType::Red)]);
    let (spent, life) = pay_cost(&mut pool, &cost).unwrap();
    assert_eq!(spent.len(), 2);
    assert!(life.is_empty());
}

#[test]
fn two_of_any_kind_are_owed_where_they_are_needed() {
    let cost = ManaCost::of(vec![ManaCostShard::TwoRed, ManaCostShard::White], 0);
    let mut pool = pool_of(vec![
        unit(ManaType::White),
        unit(ManaType::Blue),
        unit(ManaType::Blue),
    ]);
    assert!(can_pay(&pool, &cost));
    let (spent, _) = pay_cost(&mut pool, &cost).unwrap();
    assert_eq!(spent.len(), 3);
    assert_eq!(pool.total(), 0);
    let short = pool_of(vec![unit(ManaType::White), unit(ManaType::Blue)]);
    assert!(!can_pay(&short, &cost));
}

#[test]
fn snow_mana_is_kept_for_snow_symbols() {
    let cost = ManaCost::of(vec![ManaCostShard::Green, ManaCostShard::Snow], 0);
    let snowy = ManaUnit {
        snow: true,
        ..unit(ManaType::Green)
    };
    let mut pool = pool_of(vec![snowy, unit(ManaType::Green)]);
    assert!(can_pay(&pool, &cost));
    let (spent, _) = pay_cost(&mut pool, &cost).unwrap();
    assert!(!spent[0].snow);
    assert!(spent[1].snow);
}

#[test]
fn restricted_mana_pays_nothing_that_it_may_not_pay() {
    let generic = ManaCost::of(vec![], 1);
    let pool = pool_of(vec![for_elves(ManaType::Green)]);
    assert!(!can_pay_for_spell(&pool, &generic, Some(&goblin())));
    assert!(can_pay_for_spell(&pool, &generic, Some(&elf())));
    assert!(can_pay_for_spell(&pool, &generic, None));
    let mut pool = pool_of(vec![for_elves(ManaType::Colorless), unit(ManaType::Red)]);
    let (spent, _) = pay_cost_with_demand(&mut pool, &generic, None, Some(&goblin())).unwrap();
    assert_eq!(colors_of(&spent), vec![ManaType::Red]);
    assert!(pay_cost_with_demand(&mut pool, &generic, None, Some(&goblin())).is_err());
    assert_eq!(pool.total(), 1);
    let two = ManaCost::of(vec![ManaCostShard::TwoBlack], 0);
    let pool = pool_of(vec![for_elves(ManaType::Green), unit(ManaType::Red)]);
    assert!(!can_pay_for_spell(&pool, &two, Some(&goblin())));
    assert!(can_pay_for_spell(&pool, &two, Some(&elf())));
    let snow = ManaCost::of(vec![ManaCostShard::Snow], 0);
    let pool = pool_of(vec![ManaUnit {
        snow: true,
        ..for_elves(ManaType::Green)
    }]);
    assert!(!can_pay_for_spell(&pool, &snow, Some(&goblin())));
    assert!(can_pay_for_spell(&pool, &snow, Some(&elf())));
    let hybrid = ManaCost::of(vec![ManaCostShard::GreenWhite], 0);
    let mut pool = pool_of(vec![for_elves(ManaType::Green), unit(ManaType::White)]);
    let (spent, _) = pay_cost_with_demand(&mut pool, &hybrid, None, Some(&goblin())).unwrap();
    assert_eq!(colors_of(&spent), vec![ManaType::White]);
}

#[test]
fn long_hybrid_costs_are_settled() {
    let mut shards = Vec::new();
    let mut units = Vec::new();
    for _ in 0..12 {
        shards.push(ManaCostShard::WhiteBlue);
        shards.push(ManaCostShard::TwoRed);
        units.push(unit(ManaType::White));
        units.push(unit(ManaType::Red));
    }
    let cost = ManaCost::of(shards.clone(), 0);
    let mut pool = pool_of(units.clone());
    assert!(can_pay(&pool, &cost));
    assert_eq!(pay_cost(&mut pool, &cost).unwrap().0.len(), 24);
    shards.push(ManaCostShard::Black);
    assert!(!can_pay(&pool_of(units), &ManaCost::of(shards, 0)));
}

// --- Texts ---

fn says(state: &GameState, text: &str) -> bool {
    evaluate_condition_text(state, PlayerId(0), ObjectId(1), text)
}

fn holds(state: &GameState, condition: &RestrictionCondition) -> bool {
    evaluate_condition(state, PlayerId(0), ObjectId(1), condition)
}

fn add_permanent(state: &mut GameState, name: &str, kind: CoreType) -> ObjectId {
    let id = create_object(
        state,
        CardId(1),
        PlayerId(0),
        name.to_string(),
        Zone::Battlefield,
    );
    state
        .objects
        .get_mut(&id)
        .unwrap()
        .card_types
        .core_types
        .push(kind);
    id
}

#[test]
fn numbers_of_permanents_are_read() {
    let mut state = GameState::new_two_player(42);
    let artifacts = "you control three or more artifacts";
    let red = "you control two or more red permanents";
    let elves = "you control two or more elves";
    assert!(!says(&state, artifacts));
    assert!(!says(&state, red));
    assert!(!says(&state, elves));
    for n in 0..3 {
        assert!(!says(&state, artifacts));
        let id = add_permanent(&mut state, &format!("Relic {n}"), CoreType::Artifact);
        state
            .objects
            .get_mut(&id)
            .unwrap()
            .color
            .push(ManaColor::Red);
    }
    assert!(says(&state, artifacts));
    assert!(says(&state, red));
    assert!(!says(&state, "you control four or more artifacts"));
}

#[test]
fn powers_names_and_snow_are_counted() {
    let mut state = GameState::new_two_player(42);
    let powers = RestrictionCondition::YouControlDifferentPowerCreatureCountAtLeast { count: 2 };
    let names = RestrictionCondition::YouControlLandsWithSameNameAtLeast { count: 2 };
    let snow = "you control one or more snow permanents";
    assert!(!holds(&state, &powers));
    assert!(!holds(&state, &names));
    assert!(!says(&state, snow));
    for power in [2, 2] {
        let id = add_permanent(&mut state, "Bear", CoreType::Creature);
        state.objects.get_mut(&id).unwrap().power = Some(power);
    }
    assert!(!holds(&state, &powers));
    let id = add_permanent(&mut state, "Ogre", CoreType::Creature);
    state.objects.get_mut(&id).unwrap().power = Some(3);
    assert!(holds(&state, &powers));
    add_permanent(&mut state, "Forest", CoreType::Land);
    add_permanent(&mut state, "Island", CoreType::Land);
    assert!(!holds(&state, &names));
    let id = add_permanent(&mut state, "Forest", CoreType::Land);
    assert!(holds(&state, &names));
    state
        .objects
        .get_mut(&id)
        .unwrap()
        .card_types
        .supertypes
        .push(Supertype::Snow);
    assert!(says(&state, snow));
}

#[test]
fn what_follows_a_number_is_a_subtype_before_all_else() {
    for (text, name) in [
        (
            "you control two or more creatures with different powers",
            "creatures with different power",
        ),
        (
            "you control two or more lands with the same name",
            "lands with the same name",
        ),
    ] {
        match parse_condition_text(text) {
            Some(RestrictionCondition::YouControlAtLeast {
                what: Wanted::Subtype { subtype },
                count,
            }) => {
                assert_eq!(subtype, name);
                assert_eq!(count, 2);
            }
            other => panic!("unexpected {:?}", other),
        }
    }
}

#[test]
fn attackers_of_the_turn_are_counted() {
    let mut state = GameState::new_two_player(42);
    let text = "you attacked with two or more creatures this turn";
    assert!(!says(&state, text));
    state.attacking_creatures_this_turn.insert(PlayerId(0), 1);
    assert!(!says(&state, text));
    state.attacking_creatures_this_turn.insert(PlayerId(0), 2);
    assert!(says(&state, text));
    assert!(says(&state, "you attacked with two creatures this turn"));
}

#[test]
fn no_creatures_and_a_creature_are_opposites() {
    let mut state = GameState::new_two_player(42);
    assert!(says(&state, "you control no creatures"));
    assert!(!says(&state, "you control a creature"));
    add_permanent(&mut state, "Bear", CoreType::Creature);
    assert!(!says(&state, "you control no creatures"));
    assert!(says(&state, "you control a creature"));
}

#[test]
fn case_spaces_and_full_stops_change_nothing() {
    let mut state = GameState::new_two_player(42);
    assert!(!says(&state, "  YOU CONTROL A CREATURE. "));
    assert!(says(&state, " You control no creatures."));
    add_permanent(&mut state, "Bear", CoreType::Creature);
    assert!(says(&state, " YOU CONTROL A CREATURE."));
    assert!(!says(&state, "you control NO creatures.."));
}

// --- Phasing ---

#[test]
fn attachments_of_attachments_stay() {
    let mut state = GameState::new_two_player(42);
    let host = add_permanent(&mut state, "Host", CoreType::Creature);
    let aura = add_permanent(&mut state, "Aura", CoreType::Enchantment);
    let second = add_permanent(&mut state, "Second", CoreType::Enchantment);
    state.objects.get_mut(&aura).unwrap().attached_to = Some(host);
    state.objects.get_mut(&host).unwrap().attachments.push(aura);
    state.objects.get_mut(&second).unwrap().attached_to = Some(aura);
    state.objects.get_mut(&aura).unwrap().attachments.push(second);
    let mut events = Vec::new();
    let out = phase_out_object(&mut state, host, PhaseOutCause::Directly, &mut events);
    assert_eq!(out, vec![host, aura]);
    assert_eq!(
        state.objects.get(&aura).unwrap().phase_status,
        PhaseStatus::PhasedOut {
            cause: PhaseOutCause::Indirectly
        }
    );
    assert_eq!(
        state.objects.get(&second).unwrap().phase_status,
        PhaseStatus::PhasedIn
    );
    assert_eq!(phase_in_object(&mut state, host, &mut events), vec![host, aura]);
    assert_eq!(
        state.objects.get(&aura).unwrap().phase_status,
        PhaseStatus::PhasedIn
    );
}

// --- Players, collections, chance ---

#[test]
fn each_player_is_followed_by_the_one_who_acts_next() {
    let mut state = GameState::new(FormatConfig::free_for_all(), 5, 42);
    state.active_player = PlayerId(3);
    state.players[1].is_eliminated = true;
    let order = apnap_order(&state);
    assert_eq!(
        order,
        vec![PlayerId(3), PlayerId(4), PlayerId(0), PlayerId(2)]
    );
    for i in 0..order.len() {
        assert_eq!(
            next_player(&state, order[i]),
            order[(i + 1) % order.len()]
        );
    }
}

#[test]
fn a_key_is_held_once() {
    let mut table: Table<ObjectId, u32> = Table::new();
    table.insert(ObjectId(1), 5);
    table.insert(ObjectId(2), 6);
    table.insert(ObjectId(1), 7);
    assert_eq!(table.len(), 2);
    assert_eq!(*table.key_at(0), ObjectId(1));
    assert_eq!(*table.value_at(0), 7);
    assert_eq!(table.total(), 13);
    assert_eq!(table.remove(&ObjectId(1)), Some(7));
    assert_eq!(table.remove(&ObjectId(1)), None);
    assert_eq!(table.len(), 1);
    let mut set: KeySet<PlayerId> = KeySet::new();
    set.insert(PlayerId(1));
    set.insert(PlayerId(1));
    assert_eq!(set.len(), 1);
}

#[test]
fn replacements_are_found_once_each() {
    let mut state = GameState::new_two_player(42);
    for n in 0..2 {
        let id = add_permanent(&mut state, &format!("Source {n}"), CoreType::Artifact);
        let obj = state.objects.get_mut(&id).unwrap();
        for _ in 0..2 {
            obj.replacement_definitions.push(
                ReplacementDefinition::new(ReplacementEvent::DamageDone)
                    .damage_modification(DamageModification::Double),
            );
        }
    }
    let damage = ProposedEvent::Damage {
        source_id: ObjectId(50),
        target: TargetRef::Player(PlayerId(0)),
        amount: 1,
        is_combat: false,
        applied: KeySet::new(),
    };
    let found = find_applicable_replacements(&state, &damage, &build_replacement_registry());
    assert_eq!(found.len(), 4);
    for i in 0..found.len() {
        assert!(!found[..i].contains(&found[i]));
    }
}

#[test]
fn only_shuffling_asks_for_chance() {
    let mut state = GameState::new_two_player(42);
    for n in 0..9 {
        create_object(
            &mut state,
            CardId(n),
            PlayerId(0),
            format!("Card {n}"),
            Zone::Library,
        );
    }
    let before = state.rng.clone();
    let mut events = Vec::new();
    draw_new_hand(&mut state, PlayerId(0), &mut events);
    assert!(state.rng == before);
    let _ = start_mulligan(&mut state, &mut events);
    assert!(state.rng != before);
}
