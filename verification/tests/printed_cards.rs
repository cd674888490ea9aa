//! Objects that take the faces of printed cards.

use std::sync::Arc;
use tabletop_engine::card_database::CardDatabase;
use tabletop_engine::cards::{CardType, CoreType};
use tabletop_engine::ids::PlayerId;
use tabletop_engine::mana::{ManaColor, ManaCost, ManaCostShard};
use tabletop_engine::object::{CardFace, LayoutKind};
use tabletop_engine::printed_cards::{create_object_from_card_face, rehydrate_game_from_card_db};
use tabletop_engine::state::GameState;

fn test_face(
    name: &str,
    oracle_id: &str,
    core_types: Vec<CoreType>,
    mana_cost: ManaCost,
) -> CardFace {
    CardFace {
        name: name.to_string(),
        mana_cost,
        card_type: CardType {
            supertypes: vec![],
            core_types,
            subtypes: vec![],
        },
        power: None,
        toughness: None,
        loyalty: None,
        keywords: vec![],
        abilities: Arc::new(vec![]),
        triggers: Arc::new(vec![]),
        static_abilities: Arc::new(vec![]),
        replacements: vec![],
        color_override: None,
        scryfall_oracle_id: Some(oracle_id.to_string()),
        modal: None,
        additional_cost: None,
        casting_restrictions: Arc::new(vec![]),
        casting_options: Arc::new(vec![]),
        solve_condition: None,
        strive_cost: None,
    }
}

/// CR 712.12: MDFC land face selection requires `LayoutKind::Modal` on the back
/// face, which comes from the layouts of the database.
#[test]
fn rehydrate_populates_modal_dfc_layout_kind_from_export() {
    let cragcrown = test_face(
        "Cragcrown Pathway",
        "shared-mdfc-oracle-id",
        vec![CoreType::Land],
        ManaCost::default(),
    );
    let timbercrown = test_face(
        "Timbercrown Pathway",
        "shared-mdfc-oracle-id",
        vec![CoreType::Land],
        ManaCost::default(),
    );
    let mut db = CardDatabase::new();
    db.add_face(cragcrown);
    db.add_face(timbercrown);
    db.layouts
        .push(("shared-mdfc-oracle-id".to_string(), LayoutKind::Modal));

    let mut state = GameState::new_two_player(42);
    let object_id = create_object_from_card_face(
        &mut state,
        &db.get_face_by_name("Cragcrown Pathway").unwrap(),
        PlayerId(0),
    );

    rehydrate_game_from_card_db(&mut state, &db);

    let obj = state.objects.get(&object_id).unwrap();
    let back_face = obj
        .back_face
        .as_ref()
        .expect("rehydrate should attach the MDFC back face");
    assert_eq!(back_face.name, "Timbercrown Pathway");
    assert_eq!(
        back_face.layout_kind,
        Some(LayoutKind::Modal),
        "CR 712.12: MDFC back face must have LayoutKind::Modal for face choice prompt"
    );
}

#[test]
fn rehydrate_populates_adventure_back_face_from_export_db() {
    let giant = test_face(
        "Bonecrusher Giant",
        "shared-adventure-oracle-id",
        vec![CoreType::Creature],
        ManaCost::of(vec![ManaCostShard::Red], 2),
    );
    let stomp = test_face(
        "Stomp",
        "shared-adventure-oracle-id",
        vec![CoreType::Instant],
        ManaCost::of(vec![ManaCostShard::Red], 1),
    );
    let mut db = CardDatabase::new();
    db.add_face(giant);
    db.add_face(stomp);
    db.layouts.push((
        "shared-adventure-oracle-id".to_string(),
        LayoutKind::Adventure,
    ));

    let mut state = GameState::new_two_player(42);
    let object_id = create_object_from_card_face(
        &mut state,
        &db.get_face_by_name("Bonecrusher Giant").unwrap(),
        PlayerId(0),
    );
    let obj = state.objects.get(&object_id).unwrap();
    assert!(
        obj.back_face.is_none(),
        "precondition: deck loading starts with only the front face"
    );

    rehydrate_game_from_card_db(&mut state, &db);

    let obj = state.objects.get(&object_id).unwrap();
    let back_face = obj
        .back_face
        .as_ref()
        .expect("rehydrate should attach the adventure face");
    assert_eq!(back_face.name, "Stomp");
    assert_eq!(back_face.color, vec![ManaColor::Red]);
    assert_eq!(
        back_face.layout_kind,
        Some(LayoutKind::Adventure),
        "Adventure back face should carry LayoutKind::Adventure from export"
    );
}
