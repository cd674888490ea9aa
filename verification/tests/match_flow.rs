//! Matches of several games.

use std::sync::Arc;
use tabletop_engine::cards::{CardType, CoreType};
use tabletop_engine::deck_loading::{DeckPayload, PlayerDeckPayload, load_deck_into_state};
use tabletop_engine::engine::start_game_with_starting_player;
use tabletop_engine::events::{MatchScore, WaitingFor};
use tabletop_engine::ids::PlayerId;
use tabletop_engine::mana::ManaCost;
use tabletop_engine::match_flow::{handle_choose_play_draw, handle_game_over_transition, handle_submit_sideboard};
use tabletop_engine::object::CardFace;
use tabletop_engine::state::{DeckCardCount, DeckEntry, GameState, MatchPhase, MatchType, PlayerDeckPool};

fn basic_land(name: &str) -> CardFace {
    CardFace {
        name: name.to_string(),
        mana_cost: ManaCost::NoCost,
        card_type: CardType {
            supertypes: vec![],
            core_types: vec![CoreType::Land],
            subtypes: vec!["Plains".to_string()],
        },
        power: None,
        toughness: None,
        loyalty: None,
        keywords: vec![],
        abilities: Arc::new(vec![]),
        triggers: Arc::new(vec![]),
        static_abilities: Arc::new(vec![]),
        replacements: vec![],
        color_override: None,
        scryfall_oracle_id: None,
        modal: None,
        additional_cost: None,
        strive_cost: None,
        casting_restrictions: Arc::new(vec![]),
        casting_options: Arc::new(vec![]),
        solve_condition: None,
    }
}

fn entry(name: &str, count: u32) -> DeckEntry {
    DeckEntry {
        card: Arc::new(basic_land(name)),
        count,
    }
}

#[test]
fn bo3_progression_reaches_match_completion() {
    let mut state = GameState::new_two_player(7);
    state.match_config.match_type = MatchType::Bo3;
    state.match_phase = MatchPhase::InGame;

    state.waiting_for = WaitingFor::GameOver {
        winner: Some(PlayerId(0)),
    };
    handle_game_over_transition(&mut state);
    assert_eq!(state.match_phase, MatchPhase::BetweenGames);
    assert_eq!(state.match_score.p0_wins, 1);
    assert_eq!(state.match_score.p1_wins, 0);
    assert_eq!(state.game_number, 2);
    assert_eq!(state.next_game_chooser, Some(PlayerId(1)));

    state.match_phase = MatchPhase::InGame;
    state.waiting_for = WaitingFor::GameOver {
        winner: Some(PlayerId(1)),
    };
    handle_game_over_transition(&mut state);
    assert_eq!(state.match_phase, MatchPhase::BetweenGames);
    assert_eq!(state.match_score.p0_wins, 1);
    assert_eq!(state.match_score.p1_wins, 1);
    assert_eq!(state.game_number, 3);
    assert_eq!(state.next_game_chooser, Some(PlayerId(0)));

    state.match_phase = MatchPhase::InGame;
    state.waiting_for = WaitingFor::GameOver {
        winner: Some(PlayerId(0)),
    };
    handle_game_over_transition(&mut state);
    assert_eq!(state.match_phase, MatchPhase::Completed);
    assert_eq!(state.match_score.p0_wins, 2);
    assert_eq!(state.match_score.p1_wins, 1);
}

#[test]
fn draw_keeps_existing_chooser() {
    let mut state = GameState::new_two_player(9);
    state.match_config.match_type = MatchType::Bo3;
    state.match_phase = MatchPhase::InGame;
    state.next_game_chooser = Some(PlayerId(1));
    state.current_starting_player = PlayerId(0);
    state.waiting_for = WaitingFor::GameOver { winner: None };

    handle_game_over_transition(&mut state);

    assert_eq!(state.match_phase, MatchPhase::BetweenGames);
    assert_eq!(state.match_score.draws, 1);
    assert_eq!(state.next_game_chooser, Some(PlayerId(1)));
}

#[test]
fn sideboard_validation_rejects_bad_submissions() {
    let mut state = GameState::new_two_player(3);
    state.match_phase = MatchPhase::BetweenGames;
    state.deck_pools = vec![PlayerDeckPool {
        player: PlayerId(0),
        registered_main: Arc::new(vec![entry("A", 2)]),
        registered_sideboard: Arc::new(vec![entry("B", 1)]),
        registered_commander: Arc::new(vec![]),
        current_main: Arc::new(vec![entry("A", 2)]),
        current_sideboard: Arc::new(vec![entry("B", 1)]),
        current_commander: Arc::new(vec![]),
    }];

    let bad_main_size = handle_submit_sideboard(
        &mut state,
        PlayerId(0),
        vec![DeckCardCount {
            name: "A".to_string(),
            count: 1,
        }],
        vec![DeckCardCount {
            name: "B".to_string(),
            count: 1,
        }],
    );
    assert!(bad_main_size.is_err());

    let bad_pool = handle_submit_sideboard(
        &mut state,
        PlayerId(0),
        vec![DeckCardCount {
            name: "A".to_string(),
            count: 2,
        }],
        vec![DeckCardCount {
            name: "C".to_string(),
            count: 1,
        }],
    );
    assert!(bad_pool.is_err());
}

#[test]
fn apply_between_games_actions_restarts_next_game() {
    let mut state = GameState::new_two_player(11);
    state.match_config.match_type = MatchType::Bo3;

    let payload = DeckPayload {
        player: PlayerDeckPayload {
            main_deck: Arc::new(vec![entry("P0", 7)]),
            sideboard: Arc::new(vec![entry("P0SB", 1)]),
            commander: Arc::new(vec![]),
        },
        opponent: PlayerDeckPayload {
            main_deck: Arc::new(vec![entry("P1", 7)]),
            sideboard: Arc::new(vec![entry("P1SB", 1)]),
            commander: Arc::new(vec![]),
        },
    };
    load_deck_into_state(&mut state, &payload);
    let _ = start_game_with_starting_player(&mut state, PlayerId(0));

    state.match_phase = MatchPhase::BetweenGames;
    state.match_score = MatchScore {
        p0_wins: 1,
        p1_wins: 0,
        draws: 0,
    };
    state.game_number = 2;
    state.next_game_chooser = Some(PlayerId(1));
    state.sideboard_submitted.clear();
    state.waiting_for = WaitingFor::BetweenGamesSideboard {
        player: PlayerId(0),
        game_number: 2,
        score: state.match_score,
    };

    let submit_p0 = handle_submit_sideboard(
        &mut state,
        PlayerId(0),
        vec![DeckCardCount {
            name: "P0".to_string(),
            count: 7,
        }],
        vec![DeckCardCount {
            name: "P0SB".to_string(),
            count: 1,
        }],
    )
    .unwrap();
    assert!(matches!(
        submit_p0,
        WaitingFor::BetweenGamesSideboard {
            player: PlayerId(1),
            ..
        }
    ));

    let submit_p1 = handle_submit_sideboard(
        &mut state,
        PlayerId(1),
        vec![DeckCardCount {
            name: "P1".to_string(),
            count: 7,
        }],
        vec![DeckCardCount {
            name: "P1SB".to_string(),
            count: 1,
        }],
    )
    .unwrap();
    assert!(matches!(
        submit_p1,
        WaitingFor::BetweenGamesChoosePlayDraw {
            player: PlayerId(1),
            ..
        }
    ));

    let mut events = Vec::new();
    let choose = handle_choose_play_draw(&mut state, PlayerId(1), true, &mut events).unwrap();

    assert_eq!(state.match_phase, MatchPhase::InGame);
    assert_eq!(state.match_score.p0_wins, 1);
    assert_eq!(state.game_number, 2);
    assert_eq!(state.current_starting_player, PlayerId(1));
    assert!(!state.players[0].hand.is_empty());
    assert!(!state.players[1].hand.is_empty());
    assert!(!matches!(choose, WaitingFor::GameOver { .. }));
}
