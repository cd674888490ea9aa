//! Keywords of cards that are not on the battlefield.

use std::sync::Arc;
use tabletop_engine::ability::{ContinuousModification, QuantityExpr, StaticDefinition, TargetFilter};
use tabletop_engine::cards::{DynamicKeywordKind, FlashbackCost, Keyword, KeywordKind, Zone};
use tabletop_engine::ids::{CardId, ObjectId, PlayerId};
use tabletop_engine::mana::{ManaCost, ManaCostShard};
use tabletop_engine::off_zone_characteristics::{effective_off_zone_keyword, effective_off_zone_keywords, off_zone_has_keyword_kind};
use tabletop_engine::state::{GameState, TransientEffect};
use tabletop_engine::zones::create_object;

fn create_card(state: &mut GameState, owner: PlayerId, name: &str, zone: Zone) -> ObjectId {
    let card_id = CardId(state.next_object_id);
    let timestamp = state.next_timestamp();
    let object_id = create_object(state, card_id, owner, name.to_string(), zone);
    if let Some(obj) = state.objects.get_mut(&object_id) {
        obj.timestamp = timestamp;
    }
    object_id
}

fn effective_sneak_cost(state: &GameState, object_id: ObjectId) -> Option<ManaCost> {
    match effective_off_zone_keyword(state, object_id, KeywordKind::Sneak) {
        Some(Keyword::Sneak(cost)) => Some(cost),
        _ => None,
    }
}

#[test]
fn printed_graveyard_keyword_is_returned_unchanged() {
    let mut state = GameState::new_two_player(42);
    let card_id = create_card(
        &mut state,
        PlayerId(0),
        "Faithless Looting",
        Zone::Graveyard,
    );
    state
        .objects
        .get_mut(&card_id)
        .unwrap()
        .base_keywords
        .push(Keyword::Flashback(FlashbackCost::Mana(ManaCost::of(vec![ManaCostShard::Red], 2))));
    let base_keywords = state.objects.get(&card_id).unwrap().base_keywords.clone();
    state.objects.get_mut(&card_id).unwrap().keywords = base_keywords;

    let keywords = effective_off_zone_keywords(&state, card_id);
    assert_eq!(keywords.len(), 1);
    assert_eq!(
        keywords[0],
        Keyword::Flashback(FlashbackCost::Mana(ManaCost::of(vec![ManaCostShard::Red], 2)))
    );
}

#[test]
fn transient_add_keyword_applies_to_graveyard_card() {
    let mut state = GameState::new_two_player(42);
    let source_id = create_card(
        &mut state,
        PlayerId(0),
        "Snapcaster Mage",
        Zone::Battlefield,
    );
    let target_id = create_card(&mut state, PlayerId(0), "Opt", Zone::Graveyard);

    let timestamp = state.next_timestamp();
    state.transient_effects.push(TransientEffect {
        source_id,
        controller: PlayerId(0),
        timestamp,
        affected: Arc::new(TargetFilter::SpecificObject { id: target_id }),
        modifications: Arc::new(vec![Arc::new(ContinuousModification::AddKeyword {
            keyword: Keyword::Flashback(FlashbackCost::Mana(ManaCost::SelfManaCost)),
        })]),
    });

    assert_eq!(
        effective_off_zone_keyword(&state, target_id, KeywordKind::Flashback),
        Some(Keyword::Flashback(FlashbackCost::Mana(
            ManaCost::SelfManaCost
        )))
    );
}

#[test]
fn battlefield_static_grants_sneak_to_graveyard_creature() {
    // CR 702.190a: Ninja Teen Level 3 grants Sneak to creature cards in GY.
    // The static's AddKeyword::Sneak reaches the card in the graveyard.
    let mut state = GameState::new_two_player(42);
    let source_id = create_card(&mut state, PlayerId(0), "Ninja Teen", Zone::Battlefield);
    let target_id = create_card(
        &mut state,
        PlayerId(0),
        "Scrubland Mongoose",
        Zone::Graveyard,
    );

    let sneak_cost = ManaCost::of(vec![ManaCostShard::Black], 3);
    Arc::get_mut(&mut state.objects.get_mut(&source_id).unwrap().static_definitions).unwrap().push(
            StaticDefinition::continuous()
                .affected(TargetFilter::SpecificObject { id: target_id })
                .modification(ContinuousModification::AddKeyword {
                    keyword: Keyword::Sneak(sneak_cost.clone()),
                }),
        );

    assert_eq!(
        effective_off_zone_keyword(&state, target_id, KeywordKind::Sneak),
        Some(Keyword::Sneak(sneak_cost.clone()))
    );
    assert_eq!(
        effective_sneak_cost(&state, target_id),
        Some(sneak_cost)
    );
}

#[test]
fn battlefield_static_grants_keyword_to_graveyard_card() {
    let mut state = GameState::new_two_player(42);
    let source_id = create_card(&mut state, PlayerId(0), "Lier", Zone::Battlefield);
    let target_id = create_card(&mut state, PlayerId(0), "Consider", Zone::Graveyard);

    Arc::get_mut(&mut state.objects.get_mut(&source_id).unwrap().static_definitions).unwrap().push(
            StaticDefinition::continuous()
                .affected(TargetFilter::SpecificObject { id: target_id })
                .modification(ContinuousModification::AddKeyword {
                    keyword: Keyword::Flashback(FlashbackCost::Mana(ManaCost::SelfManaCost)),
                }),
        );

    assert!(off_zone_has_keyword_kind(
        &state,
        target_id,
        KeywordKind::Flashback
    ));
}

#[test]
fn self_static_in_graveyard_grants_keyword_to_self() {
    let mut state = GameState::new_two_player(42);
    let card_id = create_card(&mut state, PlayerId(0), "Viral Spawning", Zone::Graveyard);

    Arc::get_mut(&mut state.objects.get_mut(&card_id).unwrap().base_static_definitions).unwrap().push(
        StaticDefinition::continuous()
            .affected(TargetFilter::SelfRef)
            .modification(ContinuousModification::AddKeyword {
                keyword: Keyword::Flashback(FlashbackCost::Mana(ManaCost::of(vec![ManaCostShard::Green], 2))),
            }),
    );
    let base_static_definitions = state
        .objects
        .get(&card_id)
        .unwrap()
        .base_static_definitions
        .clone();
    state.objects.get_mut(&card_id).unwrap().static_definitions =
        base_static_definitions;

    assert_eq!(
        effective_off_zone_keyword(&state, card_id, KeywordKind::Flashback),
        Some(Keyword::Flashback(FlashbackCost::Mana(ManaCost::of(vec![ManaCostShard::Green], 2))))
    );
}

#[test]
fn command_zone_emblem_grants_keyword_to_non_battlefield_card() {
    let mut state = GameState::new_two_player(42);
    let emblem_id = create_card(&mut state, PlayerId(0), "Emblem", Zone::Command);
    let target_id = create_card(&mut state, PlayerId(0), "Think Twice", Zone::Exile);

    {
        let emblem = state.objects.get_mut(&emblem_id).unwrap();
        emblem.is_emblem = true;
        Arc::get_mut(&mut emblem.static_definitions).unwrap().push(
            StaticDefinition::continuous()
                .affected(TargetFilter::SpecificObject { id: target_id })
                .modification(ContinuousModification::AddKeyword {
                    keyword: Keyword::Flashback(FlashbackCost::Mana(ManaCost::SelfManaCost)),
                }),
        );
    }

    assert!(off_zone_has_keyword_kind(
        &state,
        target_id,
        KeywordKind::Flashback
    ));
}

#[test]
fn remove_keyword_suppresses_matching_keyword_kind() {
    let mut state = GameState::new_two_player(42);
    let target_id = create_card(
        &mut state,
        PlayerId(0),
        "Faithless Looting",
        Zone::Graveyard,
    );
    state
        .objects
        .get_mut(&target_id)
        .unwrap()
        .base_keywords
        .push(Keyword::Flashback(FlashbackCost::Mana(ManaCost::of(vec![ManaCostShard::Red], 2))));
    let base_keywords = state.objects.get(&target_id).unwrap().base_keywords.clone();
    state.objects.get_mut(&target_id).unwrap().keywords = base_keywords;

    let source_id = create_card(&mut state, PlayerId(0), "Source", Zone::Battlefield);
    Arc::get_mut(&mut state.objects.get_mut(&source_id).unwrap().static_definitions).unwrap().push(
            StaticDefinition::continuous()
                .affected(TargetFilter::SpecificObject { id: target_id })
                .modification(ContinuousModification::RemoveKeyword {
                    keyword: Keyword::Flashback(FlashbackCost::Mana(ManaCost::of(vec![ManaCostShard::Red], 2))),
                }),
        );

    assert!(!off_zone_has_keyword_kind(
        &state,
        target_id,
        KeywordKind::Flashback
    ));
}

#[test]
fn off_zone_queries_ignore_non_base_keyword_residue() {
    let mut state = GameState::new_two_player(42);
    let card_id = create_card(&mut state, PlayerId(0), "Creature", Zone::Graveyard);
    state
        .objects
        .get_mut(&card_id)
        .unwrap()
        .keywords
        .push(Keyword::Flying);

    assert!(effective_off_zone_keywords(&state, card_id).is_empty());
}

#[test]
fn off_zone_self_statics_use_base_static_definitions() {
    let mut state = GameState::new_two_player(42);
    let card_id = create_card(&mut state, PlayerId(0), "Viral Spawning", Zone::Graveyard);
    let static_def = StaticDefinition::continuous()
        .affected(TargetFilter::SelfRef)
        .modification(ContinuousModification::AddKeyword {
            keyword: Keyword::Flashback(FlashbackCost::Mana(ManaCost::of(vec![ManaCostShard::Green], 2))),
        });
    state
        .objects
        .get_mut(&card_id)
        .unwrap()
        .base_static_definitions = Arc::new(vec![static_def]);
    state
        .objects
        .get_mut(&card_id)
        .unwrap()
        .static_definitions = Arc::new(vec![]);

    assert_eq!(
        effective_off_zone_keyword(&state, card_id, KeywordKind::Flashback),
        Some(Keyword::Flashback(FlashbackCost::Mana(ManaCost::of(vec![ManaCostShard::Green], 2))))
    );
}

#[test]
fn remove_all_abilities_clears_keywords_for_query() {
    let mut state = GameState::new_two_player(42);
    let target_id = create_card(
        &mut state,
        PlayerId(0),
        "Faithless Looting",
        Zone::Graveyard,
    );
    state
        .objects
        .get_mut(&target_id)
        .unwrap()
        .base_keywords
        .push(Keyword::Flashback(FlashbackCost::Mana(ManaCost::of(vec![ManaCostShard::Red], 2))));
    let base_keywords = state.objects.get(&target_id).unwrap().base_keywords.clone();
    state.objects.get_mut(&target_id).unwrap().keywords = base_keywords;

    let source_id = create_card(&mut state, PlayerId(0), "Source", Zone::Battlefield);
    Arc::get_mut(&mut state.objects.get_mut(&source_id).unwrap().static_definitions).unwrap().push(
            StaticDefinition::continuous()
                .affected(TargetFilter::SpecificObject { id: target_id })
                .modification(ContinuousModification::RemoveAllAbilities),
        );

    assert!(effective_off_zone_keywords(&state, target_id).is_empty());
}

#[test]
fn add_dynamic_keyword_uses_quantity_resolution() {
    let mut state = GameState::new_two_player(42);
    let source_id = create_card(&mut state, PlayerId(0), "Source", Zone::Battlefield);
    let target_id = create_card(&mut state, PlayerId(0), "Arcbound Ravager", Zone::Graveyard);

    Arc::get_mut(&mut state.objects.get_mut(&source_id).unwrap().static_definitions).unwrap().push(
            StaticDefinition::continuous()
                .affected(TargetFilter::SpecificObject { id: target_id })
                .modification(ContinuousModification::AddDynamicKeyword {
                    kind: DynamicKeywordKind::Modular,
                    value: QuantityExpr::Fixed { value: 3 },
                }),
        );

    assert_eq!(
        effective_off_zone_keyword(&state, target_id, KeywordKind::Modular),
        Some(Keyword::Modular(3))
    );
}

#[test]
fn later_effect_replaces_same_keyword_kind_payload() {
    let mut state = GameState::new_two_player(42);
    let target_id = create_card(&mut state, PlayerId(0), "Think Twice", Zone::Graveyard);
    let earlier_id = create_card(&mut state, PlayerId(0), "Earlier", Zone::Battlefield);
    let later_id = create_card(&mut state, PlayerId(0), "Later", Zone::Battlefield);

    Arc::get_mut(&mut state.objects.get_mut(&earlier_id).unwrap().static_definitions).unwrap().push(
            StaticDefinition::continuous()
                .affected(TargetFilter::SpecificObject { id: target_id })
                .modification(ContinuousModification::AddKeyword {
                    keyword: Keyword::Flashback(FlashbackCost::Mana(ManaCost::of(vec![ManaCostShard::Blue], 1))),
                }),
        );
    Arc::get_mut(&mut state.objects.get_mut(&later_id).unwrap().static_definitions).unwrap().push(
            StaticDefinition::continuous()
                .affected(TargetFilter::SpecificObject { id: target_id })
                .modification(ContinuousModification::AddKeyword {
                    keyword: Keyword::Flashback(FlashbackCost::Mana(ManaCost::of(vec![ManaCostShard::Blue], 2))),
                }),
        );

    assert_eq!(
        effective_off_zone_keyword(&state, target_id, KeywordKind::Flashback),
        Some(Keyword::Flashback(FlashbackCost::Mana(ManaCost::of(vec![ManaCostShard::Blue], 2))))
    );
}
