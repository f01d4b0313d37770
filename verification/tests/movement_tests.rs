use std::collections::HashMap;

use tetris_engine::{Board, Piece, PieceType};

fn unique_types() -> [PieceType; 7] {
    [
        PieceType::I,
        PieceType::L,
        PieceType::J,
        PieceType::S,
        PieceType::Z,
        PieceType::T,
        PieceType::O,
    ]
}

#[test]
fn default_piece_position() {
    for piece_type in unique_types() {
        let piece = Piece::new(piece_type);
        assert_eq!(
            3,
            piece.x(),
            "Incorrect initial {} piece x, Expected {}, was {}",
            format!("{piece_type:?}"),
            3,
            piece.x()
        );
        assert_eq!(
            1,
            piece.y(),
            "Incorrect initial {} piece y, Expected {}, was {}",
            format!("{piece_type:?}"),
            1,
            piece.y()
        );
    }
}

#[test]
fn north_facing_empty_board_move_right_from_default() {
    let expected_x_positions_right_from_default = HashMap::from([
        (PieceType::I, [4, 5, 6, 6, 6, 6, 6, 6, 6, 6]),
        (PieceType::L, [4, 5, 6, 7, 7, 7, 7, 7, 7, 7]),
        (PieceType::J, [4, 5, 6, 7, 7, 7, 7, 7, 7, 7]),
        (PieceType::S, [4, 5, 6, 7, 7, 7, 7, 7, 7, 7]),
        (PieceType::Z, [4, 5, 6, 7, 7, 7, 7, 7, 7, 7]),
        (PieceType::T, [4, 5, 6, 7, 7, 7, 7, 7, 7, 7]),
        (PieceType::O, [4, 5, 6, 7, 7, 7, 7, 7, 7, 7]),
    ]);

    for piece_type in unique_types() {
        let mut piece = Piece::new(piece_type);
        let board = Board::new();

        for i in 0..10 {
            let _ = piece.move_right(&board);
            assert_eq!(
                expected_x_positions_right_from_default[&piece_type][i],
                piece.x(),
                "Incorrect {} piece x-position after {} right \
                moves starting from default position. Expected {}, was {}",
                format!("{piece_type:?}"),
                i + 1,
                expected_x_positions_right_from_default[&piece_type][i],
                piece.x()
            )
        }
    }
}

#[test]
fn north_facing_empty_board_move_left_from_default() {
    let expected_x_positions_left_from_default = HashMap::from([
        (PieceType::I, [2, 1, 0, 0, 0, 0, 0, 0, 0, 0]),
        (PieceType::L, [2, 1, 0, 0, 0, 0, 0, 0, 0, 0]),
        (PieceType::J, [2, 1, 0, 0, 0, 0, 0, 0, 0, 0]),
        (PieceType::S, [2, 1, 0, 0, 0, 0, 0, 0, 0, 0]),
        (PieceType::Z, [2, 1, 0, 0, 0, 0, 0, 0, 0, 0]),
        (PieceType::T, [2, 1, 0, 0, 0, 0, 0, 0, 0, 0]),
        (PieceType::O, [2, 1, 0, -1, -1, -1, -1, -1, -1, -1]),
    ]);

    for piece_type in unique_types() {
        let mut piece = Piece::new(piece_type);
        let board = Board::new();

        for i in 0..10 {
            let _ = piece.move_left(&board);
            assert_eq!(
                expected_x_positions_left_from_default[&piece_type][i],
                piece.x(),
                "Incorrect {} piece x-position after {} left \
                moves starting from default position. Expected {}, was {}",
                format!("{piece_type:?}"),
                i + 1,
                expected_x_positions_left_from_default[&piece_type][i],
                piece.x()
            )
        }
    }
}

#[test]
fn north_facing_empty_board_move_right_from_left() {
    let expected_x_positions_right_from_left = HashMap::from([
        (PieceType::I, [1, 2, 3, 4, 5, 6, 6, 6, 6, 6]),
        (PieceType::L, [1, 2, 3, 4, 5, 6, 7, 7, 7, 7]),
        (PieceType::J, [1, 2, 3, 4, 5, 6, 7, 7, 7, 7]),
        (PieceType::S, [1, 2, 3, 4, 5, 6, 7, 7, 7, 7]),
        (PieceType::Z, [1, 2, 3, 4, 5, 6, 7, 7, 7, 7]),
        (PieceType::T, [1, 2, 3, 4, 5, 6, 7, 7, 7, 7]),
        (PieceType::O, [0, 1, 2, 3, 4, 5, 6, 7, 7, 7]),
    ]);

    for piece_type in unique_types() {
        let mut piece = Piece::new(piece_type);
        let board = Board::new();

        for _ in 0..10 {
            // move piece to the left edge
            let _ = piece.move_left(&board);
        }

        for i in 0..10 {
            let _ = piece.move_right(&board);
            assert_eq!(
                expected_x_positions_right_from_left[&piece_type][i],
                piece.x(),
                "Incorrect {} piece x-position after {} right \
                moves starting from the left edge. Expected {}, was {}",
                format!("{piece_type:?}"),
                i + 1,
                expected_x_positions_right_from_left[&piece_type][i],
                piece.x()
            )
        }
    }
}

#[test]
fn north_facing_empty_board_move_left_from_right() {
    let expected_x_positions_left_from_right = HashMap::from([
        (PieceType::I, [5, 4, 3, 2, 1, 0, 0, 0, 0, 0]),
        (PieceType::L, [6, 5, 4, 3, 2, 1, 0, 0, 0, 0]),
        (PieceType::J, [6, 5, 4, 3, 2, 1, 0, 0, 0, 0]),
        (PieceType::S, [6, 5, 4, 3, 2, 1, 0, 0, 0, 0]),
        (PieceType::Z, [6, 5, 4, 3, 2, 1, 0, 0, 0, 0]),
        (PieceType::T, [6, 5, 4, 3, 2, 1, 0, 0, 0, 0]),
        (PieceType::O, [6, 5, 4, 3, 2, 1, 0, -1, -1, -1]),
    ]);

    for piece_type in unique_types() {
        let mut piece = Piece::new(piece_type);
        let board = Board::new();

        for _ in 0..10 {
            // move piece to the right edge
            let _ = piece.move_right(&board);
        }

        for i in 0..10 {
            let _ = piece.move_left(&board);
            assert_eq!(
                expected_x_positions_left_from_right[&piece_type][i],
                piece.x(),
                "Incorrect {} piece x-position after {} left \
                moves starting from the right edge. Expected {}, was {}",
                format!("{piece_type:?}"),
                i + 1,
                expected_x_positions_left_from_right[&piece_type][i],
                piece.x()
            )
        }
    }
}
