use tetris_engine::{Board, Piece, PieceType, TetrisError};

#[test]
fn empty_board_drop_flat_i_center() {
    let mut board = Board::new();
    let mut correct_col_heights = [0u8; 10];

    for i in 0..22 {
        let _ = board.hard_drop(Piece::new(PieceType::I));
        correct_col_heights[3] += 1;
        correct_col_heights[4] += 1;
        correct_col_heights[5] += 1;
        correct_col_heights[6] += 1;

        assert_eq!(
            correct_col_heights,
            board.column_heights(),
            "Incorrect column heights after placing {} flat I-pieces. Expected {:?}, was {:?}",
            i + 1,
            correct_col_heights,
            board.column_heights(),
        );
    }
}

#[test]
fn board_dimensions() {
    let board = Board::new();
    assert_eq!(10, board.width());
    assert_eq!(24, board.height());
}

#[test]
fn new_board_is_empty() {
    let board = Board::new();
    for row in 0..24 {
        for col in 0..10 {
            assert!(!board.is_occupied(row, col));
        }
    }
    assert_eq!([0u8; 10], board.column_heights());
}

#[test]
fn row_to_string_renders_occupancy() {
    let mut board = Board::new();
    let mut piece = Piece::new(PieceType::I);
    for _ in 0..3 {
        let _ = piece.move_left(&board);
    }
    let _ = board.hard_drop(piece);

    assert_eq!("\u{25a0}\u{25a0}\u{25a0}\u{25a0}      ", board.row_to_string(23));
    assert_eq!("          ", board.row_to_string(22));
}

#[test]
fn drop_row_is_arithmetic_maximum() {
    // A flat I on an empty board rests one above the floor.
    let mut piece = Piece::new(PieceType::I);
    assert_eq!(1, piece.hard_drop([0; 10]));
    assert_eq!(22, piece.y());

    // It rests on whichever of its columns stops it first.
    let mut piece = Piece::new(PieceType::I);
    assert_eq!(6, piece.hard_drop([0, 0, 0, 5, 2, 0, 0, 0, 0, 0]));
    assert_eq!(17, piece.y());
}

#[test]
fn completing_a_row_clears_it_and_shifts_rows_down() {
    let mut board = Board::new();

    // A flat I over columns 0-3 and one over columns 4-7 fill the bottom
    // row except for columns 8 and 9.
    let mut left_i = Piece::new(PieceType::I);
    for _ in 0..3 {
        let _ = left_i.move_left(&board);
    }
    assert_eq!(Ok(()), board.hard_drop(left_i));

    let mut right_i = Piece::new(PieceType::I);
    let _ = right_i.move_right(&board);
    assert_eq!(Ok(()), board.hard_drop(right_i));

    assert_eq!([1, 1, 1, 1, 1, 1, 1, 1, 0, 0], board.column_heights());

    // An O over columns 8 and 9 completes the bottom row; its upper half
    // stays behind and falls into the freed row.
    let mut o = Piece::new(PieceType::O);
    for _ in 0..4 {
        let _ = o.move_right(&board);
    }
    assert_eq!(Ok(()), board.hard_drop(o));

    assert_eq!([0, 0, 0, 0, 0, 0, 0, 0, 1, 1], board.column_heights());
    for col in 0..8 {
        assert!(!board.is_occupied(23, col));
    }
    assert!(board.is_occupied(23, 8));
    assert!(board.is_occupied(23, 9));
    for col in 0..10 {
        assert!(!board.is_occupied(22, col));
    }
}

#[test]
fn overfull_stack_refuses_the_drop() {
    let mut board = Board::new();

    // Five vertical I-pieces stack column 6 up to height 20.
    for _ in 0..5 {
        let mut piece = Piece::new(PieceType::I);
        let _ = piece.rotate_cw();
        let _ = piece.move_right(&board);
        assert_eq!(Ok(()), board.hard_drop(piece));
    }
    assert_eq!([0, 0, 0, 0, 0, 0, 20, 0, 0, 0], board.column_heights());

    // Four flat I-pieces across columns 3-6 rest on that stack and reach
    // the very top of the grid.
    for _ in 0..4 {
        assert_eq!(Ok(()), board.hard_drop(Piece::new(PieceType::I)));
    }
    assert_eq!([0, 0, 0, 24, 24, 24, 24, 0, 0, 0], board.column_heights());

    // One more cannot rest inside the grid and is refused untouched.
    assert_eq!(Err(TetrisError::GameOver), board.hard_drop(Piece::new(PieceType::I)));
    assert_eq!([0, 0, 0, 24, 24, 24, 24, 0, 0, 0], board.column_heights());
}

#[test]
fn default_board_matches_new() {
    let board = Board::default();
    assert_eq!([0u8; 10], board.column_heights());
    assert!(!board.is_occupied(23, 0));
}
