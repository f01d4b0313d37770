use tetris_engine::{Board, Orientation, Piece, PieceType, Position, TetrisError};

#[test]
fn mask_table_exact_values() {
    assert_eq!([4, 5, 6, 7], PieceType::I.mask(Orientation::North));
    assert_eq!([2, 6, 10, 14], PieceType::I.mask(Orientation::East));
    assert_eq!([1, 2, 5, 6], PieceType::O.mask(Orientation::North));
    // The O-piece ignores orientation.
    assert_eq!([1, 2, 5, 6], PieceType::O.mask(Orientation::West));
    assert_eq!([1, 4, 5, 6], PieceType::T.mask(Orientation::North));
    assert_eq!([2, 5, 6, 9], PieceType::Z.mask(Orientation::East));
}

#[test]
fn masks_are_sorted_with_four_cells() {
    let orientations = [
        Orientation::North,
        Orientation::East,
        Orientation::South,
        Orientation::West,
    ];
    let kinds = [
        PieceType::I,
        PieceType::L,
        PieceType::J,
        PieceType::S,
        PieceType::Z,
        PieceType::T,
        PieceType::O,
    ];
    for kind in kinds {
        for orientation in orientations {
            let mask = kind.mask(orientation);
            for i in 0..3 {
                assert!(mask[i] < mask[i + 1]);
            }
            assert!(mask[3] < 16);
        }
    }
}

#[test]
fn four_rotations_restore_orientation_and_mask() {
    let kinds = [
        PieceType::I,
        PieceType::L,
        PieceType::J,
        PieceType::S,
        PieceType::Z,
        PieceType::T,
        PieceType::O,
    ];
    for kind in kinds {
        let mut piece = Piece::new(kind);
        let original_mask = piece.mask();

        for turn in 0..4 {
            assert_eq!(Ok(()), piece.rotate_cw());
            if turn < 3 {
                assert!(
                    !matches!(piece.orientation(), Orientation::North) || kind == PieceType::O
                        || original_mask == piece.mask()
                );
            }
        }
        assert!(matches!(piece.orientation(), Orientation::North));
        assert_eq!(original_mask, piece.mask());

        for _ in 0..4 {
            assert_eq!(Ok(()), piece.rotate_ccw());
        }
        assert!(matches!(piece.orientation(), Orientation::North));
        assert_eq!(original_mask, piece.mask());

        assert_eq!(Ok(()), piece.rotate_180());
        assert_eq!(Ok(()), piece.rotate_180());
        assert!(matches!(piece.orientation(), Orientation::North));
        assert_eq!(original_mask, piece.mask());
    }
}

#[test]
fn orientation_group_operations() {
    let north = Orientation::North;
    assert!(matches!(north.clockwise(), Orientation::East));
    assert!(matches!(north.counterclockwise(), Orientation::West));
    assert!(matches!(north.opposite(), Orientation::South));
    assert!(matches!(north.clockwise().counterclockwise(), Orientation::North));
}

#[test]
fn edges_of_the_s_piece() {
    let piece = Piece::new(PieceType::S);
    // S facing north: cells 1, 2 in the top box row and 4, 5 below.
    assert_eq!([Some((0, 1)), Some((1, 0)), None, None], piece.left_edge());
    assert_eq!([Some((0, 2)), Some((1, 1)), None, None], piece.right_edge());
    assert_eq!([Some((0, 1)), Some((1, 0)), Some((2, 0)), None], piece.upper_edge());
    assert_eq!([Some((0, 1)), Some((1, 1)), Some((2, 0)), None], piece.lower_edge());
}

#[test]
fn pos_mask_offsets_cells_by_position() {
    let piece = Piece::new(PieceType::T);
    let cells = piece.get_pos_mask();
    let expected = [(4, 1), (3, 2), (4, 2), (5, 2)];
    for i in 0..4 {
        assert_eq!(expected[i].0, cells[i].x());
        assert_eq!(expected[i].1, cells[i].y());
    }
}

#[test]
fn kind_and_position_getters() {
    let piece = Piece::new(PieceType::J);
    assert_eq!(PieceType::J, piece.kind());
    assert_eq!(3, piece.position().x());
    assert_eq!(1, piece.position().y());
}

#[test]
fn move_into_occupied_neighbor_is_refused() {
    let mut board = Board::new();

    // Stack column 6 up to height 20 with vertical I-pieces: rows 4
    // through 23 of that column are occupied.
    for _ in 0..5 {
        let mut i_piece = Piece::new(PieceType::I);
        let _ = i_piece.rotate_cw();
        let _ = i_piece.move_right(&board);
        assert_eq!(Ok(()), board.hard_drop(i_piece));
    }
    assert_eq!([0, 0, 0, 0, 0, 0, 20, 0, 0, 0], board.column_heights());

    // A vertical I at spawn occupies rows 1-4 of column 5; the stack in
    // column 6 reaches row 4 and blocks its path.
    let mut probe = Piece::new(PieceType::I);
    assert_eq!(Ok(()), probe.rotate_cw());
    assert_eq!(Err(TetrisError::InvalidRightMove), probe.move_right(&board));
    assert_eq!(3, probe.x(), "a refused move must leave the piece in place");

    // Away from the stack the same piece still moves.
    assert_eq!(Ok(()), probe.move_left(&board));
    assert_eq!(2, probe.x());
}

#[test]
fn move_against_wall_is_refused() {
    let board = Board::new();
    let mut piece = Piece::new(PieceType::O);
    for _ in 0..4 {
        let _ = piece.move_left(&board);
    }
    assert_eq!(-1, piece.x());
    assert_eq!(Err(TetrisError::InvalidLeftMove), piece.move_left(&board));
    assert_eq!(-1, piece.x());

    for _ in 0..8 {
        let _ = piece.move_right(&board);
    }
    assert_eq!(7, piece.x());
    assert_eq!(Err(TetrisError::InvalidRightMove), piece.move_right(&board));
    assert_eq!(7, piece.x());
}

#[test]
fn position_operations() {
    let mut pos = Position::new();
    assert_eq!(0, pos.x());
    assert_eq!(0, pos.y());

    pos = Position::at(4, -2);
    assert_eq!(4, pos.x());
    assert_eq!(-2, pos.y());

    pos.move_right();
    assert_eq!(5, pos.x());
    pos.move_left();
    pos.move_left();
    assert_eq!(3, pos.x());

    pos.set_x(9);
    pos.set_y(20);
    assert_eq!(9, pos.x());
    assert_eq!(20, pos.y());

    let origin = Position::default();
    assert_eq!(0, origin.x());
    assert_eq!(0, origin.y());
}
