//! Opening hands and mulligans.

use tabletop_engine::cards::{Phase, Zone};
use tabletop_engine::engine::start_game_with_starting_player;
use tabletop_engine::events::{GameEvent, WaitingFor};
use tabletop_engine::ids::{CardId, PlayerId};
use tabletop_engine::mulligan::{handle_mulligan_bottom, handle_mulligan_decision, start_mulligan};
use tabletop_engine::state::{FormatConfig, GameState};
use tabletop_engine::zones::create_object;

fn setup_with_libraries(cards_per_player: usize) -> GameState {
    let mut state = GameState::new_two_player(42);
    state.turn_number = 1;
    state.phase = Phase::Untap;

    for player_idx in 0..2u8 {
        for i in 0..cards_per_player {
            create_object(
                &mut state,
                CardId((player_idx as u64) * 100 + i as u64),
                PlayerId(player_idx),
                format!("Card {} P{}", i, player_idx),
                Zone::Library,
            );
        }
    }

    state
}

#[test]
fn start_mulligan_draws_seven_for_each_player() {
    let mut state = setup_with_libraries(20);
    let mut events = Vec::new();

    let waiting = start_mulligan(&mut state, &mut events);

    assert_eq!(state.players[0].hand.len(), 7);
    assert_eq!(state.players[1].hand.len(), 7);
    assert_eq!(state.players[0].library.len(), 13);
    assert_eq!(state.players[1].library.len(), 13);
    assert!(matches!(
        waiting,
        WaitingFor::MulliganDecision {
            player: PlayerId(0),
            mulligan_count: 0,
        }
    ));
}

#[test]
fn start_mulligan_emits_event() {
    let mut state = setup_with_libraries(20);
    let mut events = Vec::new();

    start_mulligan(&mut state, &mut events);

    assert!(events
        .iter()
        .any(|e| matches!(e, GameEvent::MulliganStarted)));
}

#[test]
fn keep_with_zero_mulligans_advances_to_next_player() {
    let mut state = setup_with_libraries(20);
    let mut events = Vec::new();
    start_mulligan(&mut state, &mut events);

    let waiting = handle_mulligan_decision(&mut state, PlayerId(0), true, 0, &mut events);

    assert!(matches!(
        waiting,
        WaitingFor::MulliganDecision {
            player: PlayerId(1),
            mulligan_count: 0,
        }
    ));
}

#[test]
fn keep_after_mulligan_requests_bottom_cards() {
    let mut state = setup_with_libraries(20);
    let mut events = Vec::new();
    start_mulligan(&mut state, &mut events);

    // Mulligan once
    let waiting = handle_mulligan_decision(&mut state, PlayerId(0), false, 0, &mut events);
    assert!(matches!(
        waiting,
        WaitingFor::MulliganDecision {
            player: PlayerId(0),
            mulligan_count: 1,
        }
    ));

    // Keep after 1 mulligan
    let waiting = handle_mulligan_decision(&mut state, PlayerId(0), true, 1, &mut events);
    assert!(matches!(
        waiting,
        WaitingFor::MulliganBottomCards {
            player: PlayerId(0),
            count: 1,
        }
    ));
}

#[test]
fn mulligan_redraws_seven() {
    let mut state = setup_with_libraries(20);
    let mut events = Vec::new();
    start_mulligan(&mut state, &mut events);

    assert_eq!(state.players[0].hand.len(), 7);

    // Mulligan
    handle_mulligan_decision(&mut state, PlayerId(0), false, 0, &mut events);

    // Should still have 7 in hand after redraw
    assert_eq!(state.players[0].hand.len(), 7);
}

#[test]
fn handle_bottom_cards_puts_on_bottom() {
    let mut state = setup_with_libraries(20);
    let mut events = Vec::new();
    start_mulligan(&mut state, &mut events);

    // Mulligan once, then keep
    handle_mulligan_decision(&mut state, PlayerId(0), false, 0, &mut events);
    handle_mulligan_decision(&mut state, PlayerId(0), true, 1, &mut events);

    // Put 1 card on bottom
    let card_to_bottom = state.players[0].hand[0];
    let result = handle_mulligan_bottom(
        &mut state,
        PlayerId(0),
        vec![card_to_bottom],
        1,
        &mut events,
    );

    assert!(result.is_ok());
    assert_eq!(state.players[0].hand.len(), 6); // 7 - 1
                                                // Card should be at bottom of library
    assert_eq!(*state.players[0].library.last().unwrap(), card_to_bottom,);
}

#[test]
fn handle_bottom_cards_wrong_count_errors() {
    let mut state = setup_with_libraries(20);
    let mut events = Vec::new();
    start_mulligan(&mut state, &mut events);

    let result = handle_mulligan_bottom(&mut state, PlayerId(0), vec![], 1, &mut events);

    assert!(result.is_err());
}

#[test]
fn both_players_keep_starts_game() {
    let mut state = setup_with_libraries(20);
    let mut events = Vec::new();
    start_mulligan(&mut state, &mut events);

    // Player 0 keeps
    let waiting = handle_mulligan_decision(&mut state, PlayerId(0), true, 0, &mut events);
    assert!(matches!(
        waiting,
        WaitingFor::MulliganDecision {
            player: PlayerId(1),
            ..
        }
    ));

    // Player 1 keeps
    let waiting = handle_mulligan_decision(&mut state, PlayerId(1), true, 0, &mut events);

    // Should auto-advance to PreCombatMain
    assert!(matches!(waiting, WaitingFor::Priority { .. }));
}

#[test]
fn multiplayer_first_mulligan_is_free() {
    // Create a 3-player game
    let mut state = GameState::new(FormatConfig::standard(), 3, 42);
    state.turn_number = 1;
    state.phase = Phase::Untap;

    // Add library cards for all 3 players
    for player_idx in 0..3u8 {
        for i in 0..20 {
            create_object(
                &mut state,
                CardId((player_idx as u64) * 100 + i as u64),
                PlayerId(player_idx),
                format!("Card {} P{}", i, player_idx),
                Zone::Library,
            );
        }
    }

    let mut events = Vec::new();
    let _waiting = start_mulligan(&mut state, &mut events);

    // CR 103.5c: First mulligan increments count, but keeping after 1 mulligan
    // in multiplayer means 0 cards on bottom (free mulligan).
    let waiting = handle_mulligan_decision(&mut state, PlayerId(0), false, 0, &mut events);
    assert!(
        matches!(
            waiting,
            WaitingFor::MulliganDecision {
                mulligan_count: 1,
                ..
            }
        ),
        "Mulligan count should increment to 1"
    );

    // Keep after first mulligan - free mulligan means 0 cards on bottom
    let waiting = handle_mulligan_decision(&mut state, PlayerId(0), true, 1, &mut events);
    // In multiplayer, 1 mulligan = 0 bottom cards -> advance directly (no MulliganBottomCards)
    assert!(
        !matches!(waiting, WaitingFor::MulliganBottomCards { .. }),
        "First mulligan should be free - no cards to bottom"
    );

    // Second mulligan in a fresh scenario: keep after 2 mulligans -> 1 card on bottom
    let mut state2 = GameState::new(FormatConfig::standard(), 3, 42);
    state2.turn_number = 1;
    state2.phase = Phase::Untap;
    for player_idx in 0..3u8 {
        for i in 0..20 {
            create_object(
                &mut state2,
                CardId((player_idx as u64) * 100 + i as u64),
                PlayerId(player_idx),
                format!("Card {} P{}", i, player_idx),
                Zone::Library,
            );
        }
    }
    let mut events2 = Vec::new();
    let _waiting = start_mulligan(&mut state2, &mut events2);
    // Two mulligans
    let _w = handle_mulligan_decision(&mut state2, PlayerId(0), false, 0, &mut events2);
    let _w = handle_mulligan_decision(&mut state2, PlayerId(0), false, 1, &mut events2);
    // Keep after 2 mulligans - should bottom 1 card (2 - 1 free = 1)
    let waiting = handle_mulligan_decision(&mut state2, PlayerId(0), true, 2, &mut events2);
    assert!(
        matches!(waiting, WaitingFor::MulliganBottomCards { count: 1, .. }),
        "After 2 mulligans in multiplayer, should bottom 1 card (free mulligan discount)"
    );
}

/// In a duel of the Commander format where P1 is the starting player, P1 decides first.
#[test]
fn ai_starting_player_can_submit_mulligan_decision() {
    let mut state = GameState::new(FormatConfig::commander(), 2, 42);
    // Populate libraries so mulligan flow engages
    for player_idx in 0..2u8 {
        for i in 0..10 {
            create_object(
                &mut state,
                CardId((player_idx as u64) * 100 + i as u64),
                PlayerId(player_idx),
                format!("Card {} P{}", i, player_idx),
                Zone::Library,
            );
        }
    }
    // Add commanders for both players
    let c0 = create_object(
        &mut state,
        CardId(200),
        PlayerId(0),
        "P0 Cmd".to_string(),
        Zone::Command,
    );
    let c1 = create_object(
        &mut state,
        CardId(201),
        PlayerId(1),
        "P1 Cmd".to_string(),
        Zone::Command,
    );
    state.objects.get_mut(&c0).unwrap().is_commander = true;
    state.objects.get_mut(&c1).unwrap().is_commander = true;

    let result = start_game_with_starting_player(&mut state, PlayerId(1));

    // P1 decides first
    assert!(
        matches!(
            result.waiting_for,
            WaitingFor::MulliganDecision {
                player: PlayerId(1),
                ..
            }
        ),
        "expected MulliganDecision {{ player: 1 }}, got {:?}",
        result.waiting_for
    );

    // Their decision to keep passes the question on to the other player.
    let mut events = Vec::new();
    let waiting = handle_mulligan_decision(&mut state, PlayerId(1), true, 0, &mut events);
    assert!(matches!(
        waiting,
        WaitingFor::MulliganDecision {
            player: PlayerId(0),
            mulligan_count: 0,
        }
    ));
}

/// Commander Rules Committee free-mulligan rule (supplements CR 103.5;
/// CR 103.5c covers only multiplayer and Brawl). A 2-player Commander
/// duel grants a free first mulligan - keeping after one mulligan must
/// not require putting any cards on the bottom.
#[test]
fn commander_first_mulligan_is_free_in_duel() {
    let mut state = GameState::new(FormatConfig::commander(), 2, 42);
    state.turn_number = 1;
    state.phase = Phase::Untap;
    for player_idx in 0..2u8 {
        for i in 0..20 {
            create_object(
                &mut state,
                CardId((player_idx as u64) * 100 + i as u64),
                PlayerId(player_idx),
                format!("Card {} P{}", i, player_idx),
                Zone::Library,
            );
        }
    }

    let mut events = Vec::new();
    let _waiting = start_mulligan(&mut state, &mut events);

    // Mulligan once
    let _w = handle_mulligan_decision(&mut state, PlayerId(0), false, 0, &mut events);
    // Keep after one mulligan - free mulligan must produce 0 bottom cards
    let waiting = handle_mulligan_decision(&mut state, PlayerId(0), true, 1, &mut events);
    assert!(
        !matches!(waiting, WaitingFor::MulliganBottomCards { .. }),
        "Commander duel: first mulligan should be free - expected no MulliganBottomCards, got {:?}",
        waiting
    );
}

/// CR 103.5c: A Brawl duel grants a free first mulligan (CR 103.5c
/// explicitly covers Brawl games). Regression test for the predicate
/// `GameFormat::grants_free_first_mulligan`.
#[test]
fn brawl_first_mulligan_is_free_in_duel() {
    let mut state = GameState::new(FormatConfig::brawl(), 2, 42);
    state.turn_number = 1;
    state.phase = Phase::Untap;
    for player_idx in 0..2u8 {
        for i in 0..20 {
            create_object(
                &mut state,
                CardId((player_idx as u64) * 100 + i as u64),
                PlayerId(player_idx),
                format!("Card {} P{}", i, player_idx),
                Zone::Library,
            );
        }
    }

    let mut events = Vec::new();
    let _waiting = start_mulligan(&mut state, &mut events);

    let _w = handle_mulligan_decision(&mut state, PlayerId(0), false, 0, &mut events);
    let waiting = handle_mulligan_decision(&mut state, PlayerId(0), true, 1, &mut events);
    assert!(
        !matches!(waiting, WaitingFor::MulliganBottomCards { .. }),
        "Brawl duel: first mulligan should be free - expected no MulliganBottomCards, got {:?}",
        waiting
    );
}

/// Regression guard: non-Commander/Brawl duels (e.g. Standard 1v1) must
/// NOT receive the free first mulligan - CR 103.5c only applies to
/// multiplayer (3+ players) and Brawl. Keeping after one mulligan in a
/// Standard duel must require bottoming exactly one card.
#[test]
fn standard_duel_has_no_free_mulligan() {
    let mut state = GameState::new(FormatConfig::standard(), 2, 42);
    state.turn_number = 1;
    state.phase = Phase::Untap;
    for player_idx in 0..2u8 {
        for i in 0..20 {
            create_object(
                &mut state,
                CardId((player_idx as u64) * 100 + i as u64),
                PlayerId(player_idx),
                format!("Card {} P{}", i, player_idx),
                Zone::Library,
            );
        }
    }

    let mut events = Vec::new();
    let _waiting = start_mulligan(&mut state, &mut events);

    // Mulligan once, then keep
    let _w = handle_mulligan_decision(&mut state, PlayerId(0), false, 0, &mut events);
    let waiting = handle_mulligan_decision(&mut state, PlayerId(0), true, 1, &mut events);
    assert!(
        matches!(waiting, WaitingFor::MulliganBottomCards { count: 1, .. }),
        "Standard duel: after 1 mulligan, expected to bottom 1 card (no free mulligan), got {:?}",
        waiting
    );
}
