use vstd::prelude::*;

verus! {

use crate::TetrisError;
use crate::board::Board;
use crate::piece_type::{lemma_mask_wf, Orientation, PieceType};
use crate::position::Position;

/// A well-formed mask: exactly 4 cells of the 4x4 box, strictly ascending
/// by cell index. `lemma_mask_wf` shows every mask of the table satisfies
/// this.
pub open spec fn mask_wf(m: Seq<u8>) -> bool {
    &&& m.len() == 4
    &&& forall|i: int, j: int| 0 <= i < j < 4 ==> m[i] < m[j]
    &&& forall|i: int| 0 <= i < 4 ==> m[i] < 16
}

/// The box row (0 = top) of the `i`-th cell of mask `m`.
pub open spec fn cell_row(m: Seq<u8>, i: int) -> int {
    m[i] as int / 4
}

/// The box column (0 = left) of the `i`-th cell of mask `m`.
pub open spec fn cell_col(m: Seq<u8>, i: int) -> int {
    m[i] as int % 4
}

/// Whether mask `m` has a cell in box row `r`.
pub open spec fn row_occupied(m: Seq<u8>, r: int) -> bool {
    exists|i: int| 0 <= i < m.len() && cell_row(m, i) == r
}

/// Whether mask `m` has a cell in box column `c`.
pub open spec fn col_occupied(m: Seq<u8>, c: int) -> bool {
    exists|i: int| 0 <= i < m.len() && cell_col(m, i) == c
}

/// The leftmost occupied column in box row `r`. Masks are sorted, so the
/// first cell found in a row is its leftmost; 4 stands for an empty row.
pub open spec fn row_min_col(m: Seq<u8>, r: int) -> int {
    if cell_row(m, 0) == r {
        cell_col(m, 0)
    } else if cell_row(m, 1) == r {
        cell_col(m, 1)
    } else if cell_row(m, 2) == r {
        cell_col(m, 2)
    } else if cell_row(m, 3) == r {
        cell_col(m, 3)
    } else {
        4
    }
}

/// The rightmost occupied column in box row `r`. Masks are sorted, so the
/// last cell found in a row is its rightmost; -1 stands for an empty row.
pub open spec fn row_max_col(m: Seq<u8>, r: int) -> int {
    if cell_row(m, 3) == r {
        cell_col(m, 3)
    } else if cell_row(m, 2) == r {
        cell_col(m, 2)
    } else if cell_row(m, 1) == r {
        cell_col(m, 1)
    } else if cell_row(m, 0) == r {
        cell_col(m, 0)
    } else {
        -1
    }
}

/// The topmost occupied row in box column `c`. Masks are sorted, so the
/// first cell found in a column is its topmost; 4 stands for an empty
/// column.
pub open spec fn col_min_row(m: Seq<u8>, c: int) -> int {
    if cell_col(m, 0) == c {
        cell_row(m, 0)
    } else if cell_col(m, 1) == c {
        cell_row(m, 1)
    } else if cell_col(m, 2) == c {
        cell_row(m, 2)
    } else if cell_col(m, 3) == c {
        cell_row(m, 3)
    } else {
        4
    }
}

/// The bottommost occupied row in box column `c`. Masks are sorted, so the
/// last cell found in a column is its bottommost; -1 stands for an empty
/// column.
pub open spec fn col_max_row(m: Seq<u8>, c: int) -> int {
    if cell_col(m, 3) == c {
        cell_row(m, 3)
    } else if cell_col(m, 2) == c {
        cell_row(m, 2)
    } else if cell_col(m, 1) == c {
        cell_row(m, 1)
    } else if cell_col(m, 0) == c {
        cell_row(m, 0)
    } else {
        -1
    }
}

/// In a well-formed (sorted) mask the named extremes really are extremes:
/// `row_min_col` is the least column of its row, and so on.
pub proof fn lemma_edge_extremes(m: Seq<u8>)
    requires
        mask_wf(m),
    ensures
        forall|i: int|
            0 <= i < 4 ==> #[trigger] cell_col(m, i) >= row_min_col(m, cell_row(m, i)),
        forall|i: int|
            0 <= i < 4 ==> #[trigger] cell_col(m, i) <= row_max_col(m, cell_row(m, i)),
        forall|i: int|
            0 <= i < 4 ==> #[trigger] cell_row(m, i) >= col_min_row(m, cell_col(m, i)),
        forall|i: int|
            0 <= i < 4 ==> #[trigger] cell_row(m, i) <= col_max_row(m, cell_col(m, i)),
{
}

/// An occupied column's topmost row is the row of one of its cells.
pub proof fn lemma_col_min_row_is_cell(m: Seq<u8>, c: int)
    requires
        mask_wf(m),
        col_occupied(m, c),
    ensures
        exists|i: int|
            0 <= i < 4 && #[trigger] cell_col(m, i) == c && cell_row(m, i) == col_min_row(m, c),
{
    if cell_col(m, 0) == c {
        assert(cell_col(m, 0) == c && cell_row(m, 0) == col_min_row(m, c));
    } else if cell_col(m, 1) == c {
        assert(cell_col(m, 1) == c && cell_row(m, 1) == col_min_row(m, c));
    } else if cell_col(m, 2) == c {
        assert(cell_col(m, 2) == c && cell_row(m, 2) == col_min_row(m, c));
    } else if cell_col(m, 3) == c {
        assert(cell_col(m, 3) == c && cell_row(m, 3) == col_min_row(m, c));
    } else {
        let i = choose|i: int| 0 <= i < m.len() && #[trigger] cell_col(m, i) == c;
        assert(i == 0 || i == 1 || i == 2 || i == 3);
    }
}

/// The cells of any piece form a well-formed mask.
pub proof fn lemma_cells_wf(p: Piece)
    ensures
        mask_wf(p.cells()),
{
    lemma_mask_wf(p.spec_kind(), p.spec_orientation());
}

/// The resting height of the cells of `m` considered up to cell index `n`,
/// for a piece whose box's left column is `x`, over the cached column
/// heights `h`: the maximum of box-row plus stack height over those cells.
pub open spec fn drop_y_upto(m: Seq<u8>, x: int, h: Seq<u8>, n: int) -> int
    decreases n,
{
    if n <= 0 {
        0
    } else {
        let prev = drop_y_upto(m, x, h, n - 1);
        let v = cell_row(m, n - 1) + h[x + cell_col(m, n - 1)];
        if v > prev {
            v
        } else {
            prev
        }
    }
}

/// The resting height of a dropped piece: for every cell, the cached
/// height of its column plus the cell's row offset within the box; the
/// piece rests at the maximum such value, on whichever column stops it
/// first.
pub open spec fn spec_drop_y(m: Seq<u8>, x: int, h: Seq<u8>) -> int {
    drop_y_upto(m, x, h, 4)
}

/// The resting height is at least each cell's own row-plus-stack value:
/// it is a maximum.
pub proof fn lemma_drop_y_lower(m: Seq<u8>, x: int, h: Seq<u8>, n: int)
    requires
        0 <= n <= 4,
    ensures
        drop_y_upto(m, x, h, n) >= 0,
        forall|i: int|
            0 <= i < n ==> drop_y_upto(m, x, h, n) >= #[trigger] cell_row(m, i) + h[x + cell_col(
                m,
                i,
            )],
    decreases n,
{
    if n > 0 {
        lemma_drop_y_lower(m, x, h, n - 1);
    }
}

/// A piece: a kind, an orientation, the cached cell mask for the two, and
/// the board position of its bounding box's top-left corner.
pub struct Piece {
    kind: PieceType,
    mask: [u8; 4],
    orientation: Orientation,
    position: Position,
}

impl Piece {
    /// The piece's kind, for use in contracts.
    pub closed spec fn spec_kind(self) -> PieceType {
        self.kind
    }

    /// The piece's orientation, for use in contracts.
    pub closed spec fn spec_orientation(self) -> Orientation {
        self.orientation
    }

    /// The piece's position, for use in contracts.
    pub closed spec fn spec_position(self) -> Position {
        self.position
    }

    /// The cached mask, for use in contracts.
    pub closed spec fn spec_cached_mask(self) -> Seq<u8> {
        self.mask@
    }

    /// The piece's occupied cells within its box, as the mask table gives
    /// them for its kind and orientation.
    pub open spec fn cells(self) -> Seq<u8> {
        self.spec_kind().spec_mask(self.spec_orientation())
    }

    /// The cached mask agrees with the mask table.
    pub open spec fn wf(self) -> bool {
        self.spec_cached_mask() == self.cells()
    }

    /// A piece as `Piece::new` creates it: the given kind, the default
    /// orientation, and the fixed spawn anchor near the top of the board.
    pub open spec fn is_spawn(self, kind: PieceType) -> bool {
        &&& self.wf()
        &&& self.spec_kind() == kind
        &&& self.spec_orientation() == Orientation::North
        &&& self.spec_position().spec_x() == 3
        &&& self.spec_position().spec_y() == 1
    }

    /// Creates a new piece of kind `kind` with a north orientation at the
    /// spawn anchor.
    pub fn new(kind: PieceType) -> (p: Piece)
        ensures
            p.is_spawn(kind),
    {
        Piece {
            kind,
            mask: kind.mask(Orientation::North),
            orientation: Orientation::North,
            position: Position::at(3, 1),
        }
    }

    /// Returns the PieceType of the piece.
    pub fn kind(&self) -> (k: PieceType)
        ensures
            k == self.spec_kind(),
    {
        self.kind
    }

    /// Returns the mask of the piece.
    pub fn mask(&self) -> (m: [u8; 4])
        ensures
            m@ == self.spec_cached_mask(),
    {
        self.mask
    }

    /// Returns the orientation of the piece.
    pub fn orientation(&self) -> (o: Orientation)
        ensures
            o == self.spec_orientation(),
    {
        self.orientation
    }

    /// Returns the position of the piece.
    pub fn position(&self) -> (p: &Position)
        ensures
            *p == self.spec_position(),
    {
        &self.position
    }

    /// Returns the x position of the piece.
    pub fn x(&self) -> (r: i32)
        ensures
            r == self.spec_position().spec_x(),
    {
        self.position.x()
    }

    /// Returns the y position of the piece.
    pub fn y(&self) -> (r: i32)
        ensures
            r == self.spec_position().spec_y(),
    {
        self.position.y()
    }

    /// Rotate the piece clockwise, changing its orientation accordingly.
    ///
    /// No collision check is made against the board or the walls; the
    /// engine deliberately has no kick table.
    pub fn rotate_cw(&mut self) -> (r: Result<(), TetrisError>)
        ensures
            r == Ok::<(), TetrisError>(()),
            final(self).spec_orientation() == old(self).spec_orientation().spec_clockwise(),
            final(self).spec_kind() == old(self).spec_kind(),
            final(self).spec_position() == old(self).spec_position(),
            final(self).wf(),
    {
        self.orientation = self.orientation.clockwise();
        self.mask = self.kind.mask(self.orientation);
        Ok(())
    }

    /// Rotate the piece counterclockwise, changing its orientation
    /// accordingly.
    pub fn rotate_ccw(&mut self) -> (r: Result<(), TetrisError>)
        ensures
            r == Ok::<(), TetrisError>(()),
            final(self).spec_orientation() == old(self).spec_orientation().spec_counterclockwise(),
            final(self).spec_kind() == old(self).spec_kind(),
            final(self).spec_position() == old(self).spec_position(),
            final(self).wf(),
    {
        self.orientation = self.orientation.counterclockwise();
        self.mask = self.kind.mask(self.orientation);
        Ok(())
    }

    /// Rotate the piece 180 degrees, changing its orientation accordingly.
    pub fn rotate_180(&mut self) -> (r: Result<(), TetrisError>)
        ensures
            r == Ok::<(), TetrisError>(()),
            final(self).spec_orientation() == old(self).spec_orientation().spec_opposite(),
            final(self).spec_kind() == old(self).spec_kind(),
            final(self).spec_position() == old(self).spec_position(),
            final(self).wf(),
    {
        self.orientation = self.orientation.opposite();
        self.mask = self.kind.mask(self.orientation);
        Ok(())
    }

    /// Per box row, the leftmost occupied cell: `Some((row, column))` for
    /// rows the piece occupies, `None` for the others.
    pub fn left_edge(&self) -> (e: [Option<(usize, u8)>; 4])
        requires
            self.wf(),
        ensures
            forall|r: int|
                0 <= r < 4 ==> e@[r] == (if row_occupied(self.cells(), r) {
                    Some((r as usize, row_min_col(self.cells(), r) as u8))
                } else {
                    None::<(usize, u8)>
                }),
    {
        proof {
            lemma_mask_wf(self.kind, self.orientation);
        }
        let m = self.mask;
        let mut e: [Option<(usize, u8)>; 4] = [None; 4];
        let i3 = (m[3] / 4) as usize;
        e[i3] = Some((i3, m[3] % 4));
        let i2 = (m[2] / 4) as usize;
        e[i2] = Some((i2, m[2] % 4));
        let i1 = (m[1] / 4) as usize;
        e[i1] = Some((i1, m[1] % 4));
        let i0 = (m[0] / 4) as usize;
        e[i0] = Some((i0, m[0] % 4));
        e
    }

    /// Per box row, the rightmost occupied cell: `Some((row, column))` for
    /// rows the piece occupies, `None` for the others.
    pub fn right_edge(&self) -> (e: [Option<(usize, u8)>; 4])
        requires
            self.wf(),
        ensures
            forall|r: int|
                0 <= r < 4 ==> e@[r] == (if row_occupied(self.cells(), r) {
                    Some((r as usize, row_max_col(self.cells(), r) as u8))
                } else {
                    None::<(usize, u8)>
                }),
    {
        proof {
            lemma_mask_wf(self.kind, self.orientation);
        }
        let m = self.mask;
        let mut e: [Option<(usize, u8)>; 4] = [None; 4];
        let i0 = (m[0] / 4) as usize;
        e[i0] = Some((i0, m[0] % 4));
        let i1 = (m[1] / 4) as usize;
        e[i1] = Some((i1, m[1] % 4));
        let i2 = (m[2] / 4) as usize;
        e[i2] = Some((i2, m[2] % 4));
        let i3 = (m[3] / 4) as usize;
        e[i3] = Some((i3, m[3] % 4));
        e
    }

    /// Per box column, the topmost occupied cell: `Some((column, row))`
    /// for columns the piece occupies, `None` for the others.
    pub fn upper_edge(&self) -> (e: [Option<(usize, u8)>; 4])
        requires
            self.wf(),
        ensures
            forall|c: int|
                0 <= c < 4 ==> e@[c] == (if col_occupied(self.cells(), c) {
                    Some((c as usize, col_min_row(self.cells(), c) as u8))
                } else {
                    None::<(usize, u8)>
                }),
    {
        proof {
            lemma_mask_wf(self.kind, self.orientation);
        }
        let m = self.mask;
        let mut e: [Option<(usize, u8)>; 4] = [None; 4];
        let i3 = (m[3] % 4) as usize;
        e[i3] = Some((i3, m[3] / 4));
        let i2 = (m[2] % 4) as usize;
        e[i2] = Some((i2, m[2] / 4));
        let i1 = (m[1] % 4) as usize;
        e[i1] = Some((i1, m[1] / 4));
        let i0 = (m[0] % 4) as usize;
        e[i0] = Some((i0, m[0] / 4));
        e
    }

    /// Per box column, the bottommost occupied cell: `Some((column, row))`
    /// for columns the piece occupies, `None` for the others.
    pub fn lower_edge(&self) -> (e: [Option<(usize, u8)>; 4])
        requires
            self.wf(),
        ensures
            forall|c: int|
                0 <= c < 4 ==> e@[c] == (if col_occupied(self.cells(), c) {
                    Some((c as usize, col_max_row(self.cells(), c) as u8))
                } else {
                    None::<(usize, u8)>
                }),
    {
        proof {
            lemma_mask_wf(self.kind, self.orientation);
        }
        let m = self.mask;
        let mut e: [Option<(usize, u8)>; 4] = [None; 4];
        let i0 = (m[0] % 4) as usize;
        e[i0] = Some((i0, m[0] / 4));
        let i1 = (m[1] % 4) as usize;
        e[i1] = Some((i1, m[1] / 4));
        let i2 = (m[2] % 4) as usize;
        e[i2] = Some((i2, m[2] / 4));
        let i3 = (m[3] % 4) as usize;
        e[i3] = Some((i3, m[3] / 4));
        e
    }

    /// The piece's bounding-box rows all lie on the board, so movement
    /// checks may index the grid.
    pub open spec fn rows_on_board(self) -> bool {
        0 <= self.spec_position().spec_y() && self.spec_position().spec_y() <= 20
    }

    /// The piece can move one column to the right: for the rightmost cell
    /// of every occupied box row, the neighboring board cell to the right
    /// exists and is empty.
    pub open spec fn can_move_right(self, board: Board) -> bool {
        forall|r: int|
            0 <= r < 4 && #[trigger] row_occupied(self.cells(), r) ==> {
                let c = self.spec_position().spec_x() + row_max_col(self.cells(), r) + 1;
                &&& 0 <= c < 10
                &&& !board.grid()[self.spec_position().spec_y() + r][c]
            }
    }

    /// The piece can move one column to the left: for the leftmost cell
    /// of every occupied box row, the neighboring board cell to the left
    /// exists and is empty.
    pub open spec fn can_move_left(self, board: Board) -> bool {
        forall|r: int|
            0 <= r < 4 && #[trigger] row_occupied(self.cells(), r) ==> {
                let c = self.spec_position().spec_x() + row_min_col(self.cells(), r) - 1;
                &&& 0 <= c < 10
                &&& !board.grid()[self.spec_position().spec_y() + r][c]
            }
    }

    /// Moves the piece to the right, returning `Ok` if the move is
    /// executed, else `Err(TetrisError::InvalidRightMove)` if the piece
    /// cannot move due to an obstruction (an already placed piece or the
    /// right wall). A rejected move leaves the piece exactly as it was.
    pub fn move_right(&mut self, board: &Board) -> (r: Result<(), TetrisError>)
        requires
            old(self).wf(),
            old(self).rows_on_board(),
        ensures
            old(self).can_move_right(*board) ==> r == Ok::<(), TetrisError>(())
                && final(self).spec_position().spec_x() == old(self).spec_position().spec_x() + 1,
            !old(self).can_move_right(*board) ==> r == Err::<(), TetrisError>(
                TetrisError::InvalidRightMove,
            ) && *final(self) == *old(self),
            final(self).spec_kind() == old(self).spec_kind(),
            final(self).spec_orientation() == old(self).spec_orientation(),
            final(self).spec_position().spec_y() == old(self).spec_position().spec_y(),
            final(self).wf(),
            final(self).rows_on_board(),
    {
        let e = self.right_edge();
        let mut row_off: usize = 0;
        while row_off < 4
            invariant
                self == old(self),
                self.wf(),
                self.rows_on_board(),
                row_off <= 4,
                forall|r: int|
                    0 <= r < 4 ==> e@[r] == (if row_occupied(self.cells(), r) {
                        Some((r as usize, row_max_col(self.cells(), r) as u8))
                    } else {
                        None::<(usize, u8)>
                    }),
                forall|r: int|
                    0 <= r < row_off && #[trigger] row_occupied(self.cells(), r) ==> {
                        let c = self.spec_position().spec_x() + row_max_col(self.cells(), r) + 1;
                        &&& 0 <= c < 10
                        &&& !board.grid()[self.spec_position().spec_y() + r][c]
                    },
            decreases 4 - row_off,
        {
            match e[row_off] {
                None => {},
                Some((y_offset, x_offset)) => {
                    let row = (self.position.y() + y_offset as i32) as usize;
                    let col_to_move_to: i64 = self.position.x() as i64 + x_offset as i64 + 1;
                    if col_to_move_to < 0 || col_to_move_to >= 10 {
                        return Err(TetrisError::InvalidRightMove);
                    }
                    if board.is_occupied(row, col_to_move_to as usize) {
                        return Err(TetrisError::InvalidRightMove);
                    }
                },
            }
            row_off = row_off + 1;
        }
        proof {
            lemma_mask_wf(self.kind, self.orientation);
            lemma_edge_extremes(self.cells());
            assert(row_occupied(self.cells(), cell_row(self.cells(), 0)));
        }
        self.position.move_right();
        Ok(())
    }

    /// Moves the piece to the left, returning `Ok` if the move is
    /// executed, else `Err(TetrisError::InvalidLeftMove)` if the piece
    /// cannot move due to an obstruction (an already placed piece or the
    /// left wall). A rejected move leaves the piece exactly as it was.
    pub fn move_left(&mut self, board: &Board) -> (r: Result<(), TetrisError>)
        requires
            old(self).wf(),
            old(self).rows_on_board(),
        ensures
            old(self).can_move_left(*board) ==> r == Ok::<(), TetrisError>(())
                && final(self).spec_position().spec_x() == old(self).spec_position().spec_x() - 1,
            !old(self).can_move_left(*board) ==> r == Err::<(), TetrisError>(
                TetrisError::InvalidLeftMove,
            ) && *final(self) == *old(self),
            final(self).spec_kind() == old(self).spec_kind(),
            final(self).spec_orientation() == old(self).spec_orientation(),
            final(self).spec_position().spec_y() == old(self).spec_position().spec_y(),
            final(self).wf(),
            final(self).rows_on_board(),
    {
        let e = self.left_edge();
        let mut row_off: usize = 0;
        while row_off < 4
            invariant
                self == old(self),
                self.wf(),
                self.rows_on_board(),
                row_off <= 4,
                forall|r: int|
                    0 <= r < 4 ==> e@[r] == (if row_occupied(self.cells(), r) {
                        Some((r as usize, row_min_col(self.cells(), r) as u8))
                    } else {
                        None::<(usize, u8)>
                    }),
                forall|r: int|
                    0 <= r < row_off && #[trigger] row_occupied(self.cells(), r) ==> {
                        let c = self.spec_position().spec_x() + row_min_col(self.cells(), r) - 1;
                        &&& 0 <= c < 10
                        &&& !board.grid()[self.spec_position().spec_y() + r][c]
                    },
            decreases 4 - row_off,
        {
            match e[row_off] {
                None => {},
                Some((y_offset, x_offset)) => {
                    let row = (self.position.y() + y_offset as i32) as usize;
                    let curr_col: i64 = self.position.x() as i64 + x_offset as i64;
                    if curr_col <= 0 || curr_col > 10 {
                        return Err(TetrisError::InvalidLeftMove);
                    }
                    if board.is_occupied(row, (curr_col - 1) as usize) {
                        return Err(TetrisError::InvalidLeftMove);
                    }
                },
            }
            row_off = row_off + 1;
        }
        proof {
            lemma_mask_wf(self.kind, self.orientation);
            lemma_edge_extremes(self.cells());
            assert(row_occupied(self.cells(), cell_row(self.cells(), 0)));
        }
        self.position.move_left();
        Ok(())
    }

    /// Computes the piece's resting height over the cached column heights
    /// and moves the piece there: its y becomes the board row of its box
    /// top at rest. Returns the resting height. Purely arithmetic, O(4):
    /// no stepwise fall is simulated.
    ///
    /// Handing it a piece with cells off the sides of the board, or
    /// heights above the board, is a caller error.
    pub fn hard_drop(&mut self, column_heights: [u8; 10]) -> (dy: u8)
        requires
            old(self).wf(),
            forall|i: int|
                0 <= i < 4 ==> 0 <= old(self).spec_position().spec_x() + #[trigger] cell_col(
                    old(self).cells(),
                    i,
                ) < 10,
            forall|c: int| 0 <= c < 10 ==> column_heights@[c] <= 24,
        ensures
            dy == spec_drop_y(old(self).cells(), old(self).spec_position().spec_x(), column_heights@),
            dy <= 27,
            final(self).spec_kind() == old(self).spec_kind(),
            final(self).spec_orientation() == old(self).spec_orientation(),
            final(self).spec_position().spec_x() == old(self).spec_position().spec_x(),
            final(self).spec_position().spec_y() == 23 - dy,
            final(self).wf(),
    {
        proof {
            lemma_mask_wf(self.kind, self.orientation);
        }
        let m = self.mask;
        let x = self.position.x();
        let mut drop_y: u8 = 0;
        let mut i: usize = 0;
        while i < 4
            invariant
                self == old(self),
                self.wf(),
                forall|j: int|
                    0 <= j < 4 ==> 0 <= self.spec_position().spec_x() + #[trigger] cell_col(
                        self.cells(),
                        j,
                    ) < 10,
                forall|c: int| 0 <= c < 10 ==> column_heights@[c] <= 24,
                mask_wf(self.cells()),
                m@ == self.cells(),
                x == self.spec_position().spec_x(),
                i <= 4,
                drop_y == drop_y_upto(self.cells(), x as int, column_heights@, i as int),
                drop_y <= 27,
            decreases 4 - i,
        {
            proof {
                assert(0 <= x + cell_col(self.cells(), i as int) < 10);
            }
            let col = (x + (m[i] % 4) as i32) as usize;
            let v = m[i] / 4 + column_heights[col];
            if v > drop_y {
                drop_y = v;
            }
            i = i + 1;
        }
        self.position.set_y(23 - drop_y as i32);
        drop_y
    }

    /// Returns the positions of the piece's filled cells in board space:
    /// each mask cell offset by the piece's position.
    pub fn get_pos_mask(&self) -> (pm: [Position; 4])
        requires
            self.wf(),
            self.spec_position().spec_x() <= i32::MAX - 3,
            self.spec_position().spec_y() <= i32::MAX - 3,
        ensures
            forall|i: int|
                0 <= i < 4 ==> (#[trigger] pm@[i]).spec_x() == self.spec_position().spec_x()
                    + cell_col(self.cells(), i) && pm@[i].spec_y() == self.spec_position().spec_y()
                    + cell_row(self.cells(), i),
    {
        proof {
            lemma_mask_wf(self.kind, self.orientation);
        }
        let m = self.mask;
        let x = self.position.x();
        let y = self.position.y();
        let p0 = Position::at(x + (m[0] % 4) as i32, y + (m[0] / 4) as i32);
        let p1 = Position::at(x + (m[1] % 4) as i32, y + (m[1] / 4) as i32);
        let p2 = Position::at(x + (m[2] % 4) as i32, y + (m[2] / 4) as i32);
        let p3 = Position::at(x + (m[3] % 4) as i32, y + (m[3] / 4) as i32);
        [p0, p1, p2, p3]
    }
}

} // verus!
