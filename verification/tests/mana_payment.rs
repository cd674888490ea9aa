//! How mana is produced and costs are paid.

use std::sync::Arc;
use tabletop_engine::events::GameEvent;
use tabletop_engine::ids::{ObjectId, PlayerId};
use tabletop_engine::mana::{ManaCost, ManaCostShard, ManaPool, ManaRestriction, ManaType, ManaUnit, SpellMeta};
use tabletop_engine::mana_payment::{ColorDemand, can_pay, can_pay_for_spell, land_subtype_to_mana_type, pay_cost, pay_cost_with_demand, produce_mana};
use tabletop_engine::state::GameState;

fn make_unit(color: ManaType) -> ManaUnit {
    ManaUnit {
        color,
        source_id: ObjectId(1),
        snow: false,
        restrictions: Arc::new(Vec::new()),
        expiry: None,
    }
}

fn pool_with(units: &[(ManaType, usize)]) -> ManaPool {
    let mut pool = ManaPool::default();
    for (color, count) in units {
        for _ in 0..*count {
            pool.add(make_unit(*color));
        }
    }
    pool
}

// --- produce_mana tests ---

#[test]
fn produce_mana_adds_to_pool() {
    let mut state = GameState::new_two_player(42);
    let mut events = Vec::new();
    produce_mana(
        &mut state,
        ObjectId(1),
        ManaType::Green,
        PlayerId(0),
        &mut events,
    );
    assert_eq!(state.players[0].mana_pool.count_color(ManaType::Green), 1);
}

#[test]
fn produce_mana_emits_mana_added_event() {
    let mut state = GameState::new_two_player(42);
    let mut events = Vec::new();
    produce_mana(
        &mut state,
        ObjectId(5),
        ManaType::Blue,
        PlayerId(1),
        &mut events,
    );
    assert_eq!(events.len(), 1);
    assert!(matches!(
        &events[0],
        GameEvent::ManaAdded {
            player_id: PlayerId(1),
            mana_type: ManaType::Blue,
            source_id: ObjectId(5),
        }
    ));
}

// --- can_pay tests ---

#[test]
fn can_pay_no_cost() {
    let pool = ManaPool::default();
    assert!(can_pay(&pool, &ManaCost::NoCost));
}

#[test]
fn can_pay_zero_cost() {
    let pool = ManaPool::default();
    assert!(can_pay(&pool, &ManaCost::zero()));
}

#[test]
fn can_pay_single_colored() {
    let pool = pool_with(&[(ManaType::White, 1)]);
    let cost = ManaCost::of(vec![ManaCostShard::White], 0);
    assert!(can_pay(&pool, &cost));
}

#[test]
fn can_pay_fails_wrong_color() {
    let pool = pool_with(&[(ManaType::Red, 1)]);
    let cost = ManaCost::of(vec![ManaCostShard::White], 0);
    assert!(!can_pay(&pool, &cost));
}

#[test]
fn can_pay_generic_with_any_color() {
    let pool = pool_with(&[(ManaType::Green, 3)]);
    let cost = ManaCost::of(vec![], 2);
    assert!(can_pay(&pool, &cost));
}

#[test]
fn can_pay_colored_plus_generic() {
    let pool = pool_with(&[(ManaType::Blue, 2), (ManaType::Red, 1)]);
    let cost = ManaCost::of(vec![ManaCostShard::Blue], 2);
    assert!(can_pay(&pool, &cost));
}

#[test]
fn can_pay_insufficient_colored() {
    let pool = pool_with(&[(ManaType::Blue, 1)]);
    let cost = ManaCost::of(vec![ManaCostShard::Blue, ManaCostShard::Blue], 0);
    assert!(!can_pay(&pool, &cost));
}

#[test]
fn can_pay_hybrid_either_color() {
    let pool_w = pool_with(&[(ManaType::White, 1)]);
    let pool_u = pool_with(&[(ManaType::Blue, 1)]);
    let cost = ManaCost::of(vec![ManaCostShard::WhiteBlue], 0);
    assert!(can_pay(&pool_w, &cost));
    assert!(can_pay(&pool_u, &cost));
}

#[test]
fn can_pay_phyrexian_always_payable() {
    let pool = ManaPool::default(); // Empty pool
    let cost = ManaCost::of(vec![ManaCostShard::PhyrexianWhite], 0);
    assert!(can_pay(&pool, &cost));
}

// --- pay_cost tests ---

#[test]
fn pay_cost_colored_shards() {
    let mut pool = pool_with(&[(ManaType::White, 2), (ManaType::Blue, 1)]);
    let cost = ManaCost::of(vec![ManaCostShard::White, ManaCostShard::Blue], 0);
    let (spent, life) = pay_cost(&mut pool, &cost).unwrap();
    assert_eq!(spent.len(), 2);
    assert!(life.is_empty());
    assert_eq!(pool.total(), 1); // 1 white left
}

#[test]
fn pay_cost_generic_from_any() {
    let mut pool = pool_with(&[(ManaType::Green, 3)]);
    let cost = ManaCost::of(vec![], 2);
    let (spent, _) = pay_cost(&mut pool, &cost).unwrap();
    assert_eq!(spent.len(), 2);
    assert_eq!(pool.total(), 1);
}

#[test]
fn pay_cost_hybrid_prefers_more_available() {
    // 3 white, 1 blue -- should prefer white for W/U hybrid
    let mut pool = pool_with(&[(ManaType::White, 3), (ManaType::Blue, 1)]);
    let cost = ManaCost::of(vec![ManaCostShard::WhiteBlue], 0);
    let (spent, _) = pay_cost(&mut pool, &cost).unwrap();
    assert_eq!(spent.len(), 1);
    assert_eq!(spent[0].color, ManaType::White);
}

#[test]
fn pay_cost_phyrexian_with_color_available() {
    let mut pool = pool_with(&[(ManaType::Red, 1)]);
    let cost = ManaCost::of(vec![ManaCostShard::PhyrexianRed], 0);
    let (spent, life) = pay_cost(&mut pool, &cost).unwrap();
    assert_eq!(spent.len(), 1);
    assert!(life.is_empty());
}

#[test]
fn pay_cost_phyrexian_pays_life_when_no_color() {
    let mut pool = ManaPool::default();
    let cost = ManaCost::of(vec![ManaCostShard::PhyrexianBlue], 0);
    let (spent, life) = pay_cost(&mut pool, &cost).unwrap();
    assert!(spent.is_empty());
    assert_eq!(life.len(), 1);
    assert_eq!(life[0].amount, 2);
}

#[test]
fn pay_cost_insufficient_returns_error() {
    let mut pool = ManaPool::default();
    let cost = ManaCost::of(vec![ManaCostShard::White], 0);
    assert!(pay_cost(&mut pool, &cost).is_err());
}

#[test]
fn pay_cost_generic_prefers_colorless() {
    let mut pool = pool_with(&[(ManaType::Colorless, 1), (ManaType::White, 1)]);
    let cost = ManaCost::of(vec![], 1);
    let (spent, _) = pay_cost(&mut pool, &cost).unwrap();
    assert_eq!(spent[0].color, ManaType::Colorless);
}

// --- hand-demand-aware hybrid tests ---

#[test]
fn pay_cost_hybrid_spends_least_demanded_color() {
    // Pool: 2 white, 2 blue. Equal pool counts.
    // Hand demand: blue is needed more (demand[1]=3) than white (demand[0]=1).
    // So we should spend WHITE (the less demanded color) to preserve blue.
    let mut pool = pool_with(&[(ManaType::White, 2), (ManaType::Blue, 2)]);
    let cost = ManaCost::of(vec![ManaCostShard::WhiteBlue], 0);
    let demand: ColorDemand = [1, 3, 0, 0, 0]; // W=1, U=3
    let (spent, _) = pay_cost_with_demand(&mut pool, &cost, Some(&demand), None).unwrap();
    assert_eq!(spent[0].color, ManaType::White);
}

#[test]
fn pay_cost_hybrid_falls_back_to_pool_on_equal_demand() {
    // Pool: 3 white, 1 blue. Demand is equal.
    // Should fall back to pool-count heuristic: spend white (more available).
    let mut pool = pool_with(&[(ManaType::White, 3), (ManaType::Blue, 1)]);
    let cost = ManaCost::of(vec![ManaCostShard::WhiteBlue], 0);
    let demand: ColorDemand = [2, 2, 0, 0, 0]; // Equal
    let (spent, _) = pay_cost_with_demand(&mut pool, &cost, Some(&demand), None).unwrap();
    assert_eq!(spent[0].color, ManaType::White);
}

#[test]
fn pay_cost_hybrid_skips_unavailable_color() {
    // Pool: 0 white, 2 blue. White is less demanded but unavailable.
    // Should spend blue (only option).
    let mut pool = pool_with(&[(ManaType::Blue, 2)]);
    let cost = ManaCost::of(vec![ManaCostShard::WhiteBlue], 0);
    let demand: ColorDemand = [0, 5, 0, 0, 0]; // Blue highly demanded but only option
    let (spent, _) = pay_cost_with_demand(&mut pool, &cost, Some(&demand), None).unwrap();
    assert_eq!(spent[0].color, ManaType::Blue);
}

// --- land_subtype_to_mana_type tests ---

#[test]
fn land_subtypes_map_correctly() {
    assert_eq!(land_subtype_to_mana_type("Plains"), Some(ManaType::White));
    assert_eq!(land_subtype_to_mana_type("Island"), Some(ManaType::Blue));
    assert_eq!(land_subtype_to_mana_type("Swamp"), Some(ManaType::Black));
    assert_eq!(land_subtype_to_mana_type("Mountain"), Some(ManaType::Red));
    assert_eq!(land_subtype_to_mana_type("Forest"), Some(ManaType::Green));
    assert_eq!(land_subtype_to_mana_type("Desert"), None);
}

#[test]
fn can_pay_for_spell_respects_creature_type_restriction() {
    let mut pool = ManaPool::default();
    // One restricted green (Elf only) + one unrestricted green
    pool.add(ManaUnit {
        color: ManaType::Green,
        source_id: ObjectId(1),
        snow: false,
        restrictions: Arc::new(vec![ManaRestriction::OnlyForCreatureType("Elf".to_string())]),
        expiry: None,
    });
    pool.add(make_unit(ManaType::Green));

    let cost = ManaCost::of(vec![ManaCostShard::Green, ManaCostShard::Green], 0);

    // Elf creature: both greens usable
    let elf = SpellMeta {
        types: vec!["Creature".to_string()],
        subtypes: vec!["Elf".to_string()],
    };
    assert!(can_pay_for_spell(&pool, &cost, Some(&elf)));

    // Goblin creature: only unrestricted green usable -> insufficient
    let goblin = SpellMeta {
        types: vec!["Creature".to_string()],
        subtypes: vec!["Goblin".to_string()],
    };
    assert!(!can_pay_for_spell(&pool, &cost, Some(&goblin)));
}
