use battleship::board::Orientation;
use battleship::game::{
    validate_board_size, validate_player_name, Game, PlayerId, TurnState, BOARD_SIZE_DEFAULT,
    SHIPS_COUNT, SHIP_SIZE,
};

#[test]
fn test_game_new_starts_with_configured_counters() {
    let game = Game::new(
        "Alice".to_string(),
        "Bob".to_string(),
        BOARD_SIZE_DEFAULT,
        SHIP_SIZE,
        SHIPS_COUNT,
    );
    assert_eq!(game.player_1_ships_remaining, SHIPS_COUNT);
    assert_eq!(game.player_2_ships_remaining, SHIPS_COUNT);
    assert_eq!(game.player_1_board.get_remaining_ships_count(), 0);
    assert_eq!(game.player_2_board.get_remaining_ships_count(), 0);
    assert_eq!(game.turn, TurnState::Player1Turn);
    assert_eq!(game.player_1_name, "Alice");
    assert_eq!(game.player_2_name, "Bob");
}

#[test]
fn test_game_last_sink_ends_game_at_once() {
    // One ship of length two per player on a ten-by-ten grid.
    let mut game = Game::new("Alice".to_string(), "Bob".to_string(), 10, 2, 1);

    // Player one (Alice) places at (0, 0) horizontally: cells (0,0) and (1,0).
    assert_eq!(
        game.player_1_board.validate_placement(0, 0, Orientation::Horizontal),
        Ok(())
    );
    game.player_1_board.place_ship(0, 0, Orientation::Horizontal, '1');
    assert_eq!(game.player_1_board.grid[0][0], '1');
    assert_eq!(game.player_1_board.grid[0][1], '1');

    // Player two (Bob) places at (5, 5) horizontally.
    game.player_2_board.place_ship(5, 5, Orientation::Horizontal, '1');

    // Alice fires into open water; the turn passes to Bob.
    assert_eq!(game.apply_shot(9, 9), None);
    assert_eq!(game.turn, TurnState::Player2Turn);
    assert_eq!(game.player_1_ships_remaining, 1);
    assert_eq!(game.player_2_ships_remaining, 1);

    // Bob hits Alice's ship: her count reaches zero and the game is over on
    // the spot, with Bob the winner, before Alice can move again.
    assert_eq!(game.apply_shot(0, 0), Some('1'));
    assert_eq!(game.player_1_ships_remaining, 0);
    assert_eq!(game.turn, TurnState::GameOver(PlayerId::Two));

    // Bob's own board was never touched by that last shot.
    assert_eq!(game.player_2_board.grid[5][5], '1');
    assert_eq!(game.player_2_ships_remaining, 1);
}

#[test]
fn test_game_misses_alternate_turns() {
    let mut game = Game::new("Alice".to_string(), "Bob".to_string(), 10, 2, 1);
    game.player_1_board.place_ship(0, 0, Orientation::Horizontal, '1');
    game.player_2_board.place_ship(0, 0, Orientation::Horizontal, '1');

    assert_eq!(game.apply_shot(9, 9), None);
    assert_eq!(game.turn, TurnState::Player2Turn);
    assert_eq!(game.apply_shot(9, 9), None);
    assert_eq!(game.turn, TurnState::Player1Turn);
    assert_eq!(game.player_1_ships_remaining, 1);
    assert_eq!(game.player_2_ships_remaining, 1);
}

#[test]
fn test_validate_player_name_accepts_alphanumeric() {
    assert!(validate_player_name(&"Alice".to_string()));
    assert!(validate_player_name(&"Bob2".to_string()));
    assert!(validate_player_name(&"a".to_string()));
    assert!(validate_player_name(&"a".repeat(20)));
}

#[test]
fn test_validate_player_name_rejects_bad_names() {
    assert!(!validate_player_name(&"".to_string()));
    assert!(!validate_player_name(&"a".repeat(21)));
    assert!(!validate_player_name(&"bad name".to_string()));
    assert!(!validate_player_name(&"name!".to_string()));
    assert!(!validate_player_name(&"under_score".to_string()));
}

#[test]
fn test_validate_board_size_range() {
    assert!(!validate_board_size(4));
    assert!(validate_board_size(5));
    assert!(validate_board_size(10));
    assert!(validate_board_size(20));
    assert!(!validate_board_size(21));
    assert!(!validate_board_size(0));
}
