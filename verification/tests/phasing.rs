//! Permanents that phase out and in.

use std::sync::Arc;
use tabletop_engine::ability::{ContinuousModification, StaticDefinition, StaticMode, TargetFilter, TargetRef, TypeFilter, TypedFilter};
use tabletop_engine::ability_utils::find_legal_targets;
use tabletop_engine::cards::{CoreType, CounterType, Keyword, Zone};
use tabletop_engine::events::GameEvent;
use tabletop_engine::ids::{CardId, ObjectId, PlayerId};
use tabletop_engine::layers::collect_shared_active_continuous_effects;
use tabletop_engine::object::{PhaseOutCause, PhaseStatus};
use tabletop_engine::phasing::{execute_untap_step_phasing, phase_in_object, phase_out_object};
use tabletop_engine::state::{AttackTarget, AttackerInfo, CombatState, GameState};
use tabletop_engine::zones::create_object;

fn setup_creature(state: &mut GameState, name: &str, controller: PlayerId) -> ObjectId {
    let id = create_object(
        state,
        CardId(1),
        controller,
        name.to_string(),
        Zone::Battlefield,
    );
    if let Some(obj) = state.objects.get_mut(&id) {
        obj.card_types.core_types = vec![CoreType::Creature];
        obj.power = Some(2);
        obj.toughness = Some(2);
        obj.base_power = Some(2);
        obj.base_toughness = Some(2);
    }
    id
}

fn setup_aura(
    state: &mut GameState,
    name: &str,
    controller: PlayerId,
    attached_to: ObjectId,
) -> ObjectId {
    let id = create_object(
        state,
        CardId(2),
        controller,
        name.to_string(),
        Zone::Battlefield,
    );
    if let Some(obj) = state.objects.get_mut(&id) {
        obj.card_types.core_types = vec![CoreType::Enchantment];
        obj.card_types.subtypes = vec!["Aura".to_string()];
        obj.attached_to = Some(attached_to);
    }
    if let Some(host) = state.objects.get_mut(&attached_to) {
        host.attachments.push(id);
    }
    id
}

#[test]
fn phase_out_transitions_status_and_emits_event() {
    let mut state = GameState::new_two_player(42);
    let id = setup_creature(&mut state, "Breezekeeper", PlayerId(0));
    let mut events = Vec::new();

    let phased = phase_out_object(&mut state, id, PhaseOutCause::Directly, &mut events);

    assert_eq!(phased, vec![id]);
    assert!(state.objects.get(&id).unwrap().is_phased_out());
    assert!(events.iter().any(|e| matches!(
        e,
        GameEvent::PermanentPhasedOut {
            object_id,
            indirect: false,
        } if *object_id == id
    )));
}

#[test]
fn phase_out_cascades_to_attached_aura() {
    let mut state = GameState::new_two_player(42);
    let creature = setup_creature(&mut state, "Bear", PlayerId(0));
    let aura = setup_aura(&mut state, "Boon", PlayerId(0), creature);
    let mut events = Vec::new();

    phase_out_object(&mut state, creature, PhaseOutCause::Directly, &mut events);

    assert!(state.objects.get(&creature).unwrap().is_phased_out());
    assert!(state.objects.get(&aura).unwrap().is_phased_out());
    assert!(matches!(
        state.objects.get(&aura).unwrap().phase_status,
        PhaseStatus::PhasedOut {
            cause: PhaseOutCause::Indirectly
        }
    ));
}

#[test]
fn phase_in_cascades_to_indirectly_phased_attachments() {
    let mut state = GameState::new_two_player(42);
    let creature = setup_creature(&mut state, "Bear", PlayerId(0));
    let aura = setup_aura(&mut state, "Boon", PlayerId(0), creature);
    let mut events = Vec::new();

    phase_out_object(&mut state, creature, PhaseOutCause::Directly, &mut events);
    events.clear();

    phase_in_object(&mut state, creature, &mut events);

    assert!(state.objects.get(&creature).unwrap().is_phased_in());
    assert!(state.objects.get(&aura).unwrap().is_phased_in());
}

#[test]
fn untap_step_phasing_toggles_phasing_keyword_permanents() {
    let mut state = GameState::new_two_player(42);
    state.active_player = PlayerId(0);
    let id = setup_creature(&mut state, "Breezekeeper", PlayerId(0));
    state.objects.get_mut(&id).unwrap().keywords = vec![Keyword::Phasing];
    state.objects.get_mut(&id).unwrap().base_keywords = vec![Keyword::Phasing];
    let mut events = Vec::new();

    // Turn 1: phase out on the active player's untap step.
    execute_untap_step_phasing(&mut state, &mut events);
    assert!(state.objects.get(&id).unwrap().is_phased_out());

    events.clear();

    // Turn 2: phase in on the same player's next untap step.
    execute_untap_step_phasing(&mut state, &mut events);
    assert!(state.objects.get(&id).unwrap().is_phased_in());
}

/// CR 702.26b: A phased-out creature can't be targeted - the filter
/// choke point in `filter_inner` excludes phased-out objects.
#[test]
fn phased_out_creature_is_not_targetable() {
    let mut state = GameState::new_two_player(42);
    let id = setup_creature(&mut state, "Bear", PlayerId(0));
    let source = setup_creature(&mut state, "Source", PlayerId(1));
    let mut events = Vec::new();

    // Before phase-out: targetable.
    let filter = TargetFilter::Typed(TypedFilter {
        type_filters: vec![TypeFilter::Creature],
        ..Default::default()
    });
    let legal_before = find_legal_targets(&state, &filter, PlayerId(1), source);
    assert!(legal_before.contains(&TargetRef::Object(id)));

    phase_out_object(&mut state, id, PhaseOutCause::Directly, &mut events);

    // After phase-out: not targetable.
    let legal_after = find_legal_targets(&state, &filter, PlayerId(1), source);
    assert!(!legal_after.contains(&TargetRef::Object(id)));
}

/// CR 702.26b + CR 506.4: A phased-out creature is removed from combat.
#[test]
fn phase_out_removes_from_combat() {
    let mut state = GameState::new_two_player(42);
    let id = setup_creature(&mut state, "Attacker", PlayerId(0));
    let mut combat = CombatState::new();
    combat.attackers.push(AttackerInfo {
        object_id: id,
        defending_player: PlayerId(1),
        attack_target: AttackTarget::Player(PlayerId(1)),
        blocked: false,
    });
    state.combat = Some(combat);
    let mut events = Vec::new();

    phase_out_object(&mut state, id, PhaseOutCause::Directly, &mut events);

    let combat = state.combat.as_ref().unwrap();
    assert!(
        combat.attackers.is_empty(),
        "Phased-out creature must leave combat (CR 506.4 + CR 702.26b)"
    );
}

/// CR 702.26d: Counters persist across a phase-out/phase-in cycle.
#[test]
fn counters_persist_through_phasing() {
    let mut state = GameState::new_two_player(42);
    let id = setup_creature(&mut state, "Bear", PlayerId(0));
    state
        .objects
        .get_mut(&id)
        .unwrap()
        .counters
        .insert(CounterType::Plus1Plus1, 3);
    let mut events = Vec::new();

    phase_out_object(&mut state, id, PhaseOutCause::Directly, &mut events);
    assert_eq!(
        state.objects.get(&id).unwrap()
            .counters
            .get(&CounterType::Plus1Plus1)
            .copied(),
        Some(3),
        "Counters must not be removed by phase-out (CR 702.26d)"
    );

    phase_in_object(&mut state, id, &mut events);
    assert_eq!(
        state.objects.get(&id).unwrap()
            .counters
            .get(&CounterType::Plus1Plus1)
            .copied(),
        Some(3),
        "Counters must persist across the phase-in (CR 702.26d)"
    );
}

/// CR 702.26d: "Tokens continue to exist on the battlefield while phased
/// out" - a phased-out token stays on the battlefield.
#[test]
fn phased_out_token_persists() {
    let mut state = GameState::new_two_player(42);
    let id = setup_creature(&mut state, "Spirit Token", PlayerId(0));
    state.objects.get_mut(&id).unwrap().is_token = true;
    let mut events = Vec::new();

    phase_out_object(&mut state, id, PhaseOutCause::Directly, &mut events);
    assert_eq!(state.objects.get(&id).unwrap().zone, Zone::Battlefield);
    assert!(state.objects.get(&id).unwrap().is_phased_out());
    assert!(state.objects.get(&id).unwrap().is_token);
}

/// CR 702.26e: Continuous effects from a phased-out source don't apply.
/// Exercised via `collect_shared_active_continuous_effects` which skips
/// phased-out battlefield objects.
#[test]
fn continuous_effects_skip_phased_out_source() {
    let mut state = GameState::new_two_player(42);
    let anthem_id = setup_creature(&mut state, "Glorious Anthem", PlayerId(0));
    // Attach an "other creatures get +1/+1" continuous static.
    let anthem_static = Arc::new(vec![StaticDefinition::new(StaticMode::Continuous)
        .modification(ContinuousModification::AddPower { value: 1 })
        .affected(TargetFilter::Any)]);
    state
        .objects
        .get_mut(&anthem_id)
        .unwrap()
        .static_definitions = anthem_static.clone();
    state
        .objects
        .get_mut(&anthem_id)
        .unwrap()
        .base_static_definitions = anthem_static;

    let before = collect_shared_active_continuous_effects(&state);
    assert!(
        !before.is_empty(),
        "Phased-in anthem should contribute effects"
    );

    let mut events = Vec::new();
    phase_out_object(&mut state, anthem_id, PhaseOutCause::Directly, &mut events);

    let after = collect_shared_active_continuous_effects(&state);
    assert!(
        after.is_empty(),
        "Phased-out anthem must contribute no continuous effects (CR 702.26e)"
    );
}

/// CR 702.26g: When the active player's untap step arrives, an aura
/// that phased out indirectly phases back in along with its host, not
/// on its own. Test both phase-out *and* the host-driven phase-in.
#[test]
fn indirect_aura_phases_back_with_host_on_untap() {
    let mut state = GameState::new_two_player(42);
    state.active_player = PlayerId(0);
    let creature = setup_creature(&mut state, "Bear", PlayerId(0));
    state.objects.get_mut(&creature).unwrap().keywords = vec![Keyword::Phasing];
    state.objects.get_mut(&creature).unwrap().base_keywords = vec![Keyword::Phasing];
    let aura = setup_aura(&mut state, "Boon", PlayerId(0), creature);
    let mut events = Vec::new();

    // First untap step: creature phases out, aura cascades indirectly.
    execute_untap_step_phasing(&mut state, &mut events);
    assert!(state.objects.get(&creature).unwrap().is_phased_out());
    assert!(matches!(
        state.objects.get(&aura).unwrap().phase_status,
        PhaseStatus::PhasedOut {
            cause: PhaseOutCause::Indirectly
        }
    ));

    events.clear();

    // Second untap step: creature phases back in directly; aura rides
    // along (doesn't phase in on its own - it's indirect).
    execute_untap_step_phasing(&mut state, &mut events);
    assert!(state.objects.get(&creature).unwrap().is_phased_in());
    assert!(
        state.objects.get(&aura).unwrap().is_phased_in(),
        "Aura must phase in with its host (CR 702.26g)"
    );
}
