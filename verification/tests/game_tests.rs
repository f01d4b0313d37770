use std::collections::VecDeque;

use tetris_engine::{TetrisError, TetrisGame, TetrisInput};

#[test]
fn game_lifetime() {
    let mut game = TetrisGame::new_tetrio();

    assert_eq!(
        Err(TetrisError::GameNotStarted),
        game.next_frame(&mut VecDeque::new()),
        "Game should throw GameNotStarted if trying to advance frames before it starts."
    );

    game.start()
        .expect("Game should be able to be started before game over.");

    assert_eq!(
        Err(TetrisError::FailedToLoadPiece),
        game.start(),
        "Game should throw a FailedToLoadPiece if started after already being started but before game over."
    );

    game.next_frame(&mut VecDeque::new())
        .expect("Game should be able to advance frames after game start and before game end.");

    game.end_game();

    assert_eq!(
        Err(TetrisError::GameOver),
        game.start(),
        "Attempting to start the game after game over should throw a GameOver error"
    );

    assert_eq!(
        Err(TetrisError::GameOver),
        game.next_frame(&mut VecDeque::new()),
        "Attempting to advance frames after game over should throw a GameOver error"
    );
}

#[test]
fn successful_hold() {
    let mut game = TetrisGame::new_tetrio();
    game.start().unwrap();

    let active_kind = game
        .active_piece()
        .expect("Active piece should not be None upon game start.")
        .kind();

    assert_eq!(
        Ok(()),
        game.hold(),
        "First hold after game start should be valid."
    );
    assert_eq!(
        active_kind,
        game.hold_piece()
            .expect("Hold piece should never be None after the first hold."),
        "Hold piece was not the same kind as the active piece after switching."
    );

    let _ = game.hard_drop();
    let hold_kind = game.hold_piece().unwrap();
    let active_kind = game
        .active_piece()
        .expect("Active piece should never be None after game start.")
        .kind();

    assert_eq!(
        Ok(()),
        game.hold(),
        "First hold after piece placement should be valid."
    );
    assert_eq!(
        active_kind,
        game.hold_piece()
            .expect("Hold piece should never be None after the first hold."),
        "Hold piece was not the same kind as the previous active piece after switching."
    );
    assert_eq!(
        hold_kind,
        game.active_piece()
            .expect("Active piece should never be None after game start.")
            .kind(),
        "Active piece was not the same kind as the previous hold piece after switching."
    );
}

#[test]
fn unsuccessful_hold() {
    let mut game = TetrisGame::new_tetrio();
    game.start().unwrap();

    assert_eq!(
        Ok(()),
        game.hold(),
        "First hold after game start should be valid."
    );
    assert_eq!(
        Err(TetrisError::InvalidHold),
        game.hold(),
        "Second hold after game start without placing a piece should be invalid."
    );
    assert_eq!(
        Err(TetrisError::InvalidHold),
        game.hold(),
        "Third hold after game start without placing a piece should be invalid."
    );

    let _ = game.hard_drop();
    assert_eq!(
        Ok(()),
        game.hold(),
        "First hold after piece placement should be valid."
    );
    assert_eq!(
        Err(TetrisError::InvalidHold),
        game.hold(),
        "Second hold after a piece placement without placing another piece should be invalid."
    );
    assert_eq!(
        Err(TetrisError::InvalidHold),
        game.hold(),
        "Third hold after a piece placement without placing another piece should be invalid."
    );
}

#[test]
fn commands_before_start_are_refused() {
    let mut game = TetrisGame::new_tetrio();
    assert_eq!(Err(TetrisError::GameNotStarted), game.move_left());
    assert_eq!(Err(TetrisError::GameNotStarted), game.move_right());
    assert_eq!(Err(TetrisError::GameNotStarted), game.rotate_cw());
    assert_eq!(Err(TetrisError::GameNotStarted), game.rotate_ccw());
    assert_eq!(Err(TetrisError::GameNotStarted), game.rotate_180());
    assert_eq!(Err(TetrisError::GameNotStarted), game.hard_drop());
}

#[test]
fn queue_fills_to_configured_length() {
    let mut game = TetrisGame::new(7, 5);
    assert_eq!(0, game.piece_queue().len());
    game.fill_queue();
    assert_eq!(5, game.piece_queue().len());

    game.start().unwrap();
    assert_eq!(5, game.piece_queue().len());
    assert!(game.active_piece().is_some());
    assert!(game.hold_piece().is_none());
    assert!(!game.game_over());
}

#[test]
fn drop_promotes_head_of_queue() {
    let mut game = TetrisGame::new_tetrio();
    game.start().unwrap();

    let upcoming = *game.piece_queue().front().unwrap();
    game.hard_drop().unwrap();
    assert_eq!(upcoming, game.active_piece().unwrap().kind());
    assert_eq!(5, game.piece_queue().len());
}

#[test]
fn next_frame_executes_queued_inputs() {
    let mut game = TetrisGame::new_tetrio();
    game.start().unwrap();
    let x_before = game.active_piece().unwrap().x();
    assert_eq!(3, x_before);

    let mut inputs = VecDeque::from([TetrisInput::MoveLeft, TetrisInput::MoveLeft]);
    game.next_frame(&mut inputs).unwrap();
    assert!(inputs.is_empty());
    assert_eq!(1, game.active_piece().unwrap().x());
}

#[test]
fn forfeit_ends_the_game() {
    let mut game = TetrisGame::new_tetrio();
    game.start().unwrap();
    let mut inputs = VecDeque::from([TetrisInput::Forfeit]);
    game.next_frame(&mut inputs).unwrap();
    assert!(game.game_over());
}

#[test]
fn default_game_matches_tetrio_configuration() {
    let mut game = TetrisGame::default();
    assert!(!game.game_over());
    assert!(game.hold_piece().is_none());
    game.start().unwrap();
    assert_eq!(5, game.piece_queue().len());
}
