use vstd::prelude::*;

verus! {

use crate::TetrisError;
use crate::piece::{
    cell_col, cell_row, col_min_row, col_occupied, drop_y_upto, lemma_cells_wf,
    lemma_col_min_row_is_cell, lemma_drop_y_lower, lemma_edge_extremes, mask_wf, spec_drop_y,
    Piece,
};
use crate::piece_type::{Orientation, PieceType};

/// Relies on std's `String::push`: appends the given character to the end
/// of the string.
pub assume_specification[ String::push ](s: &mut String, ch: char)
    ensures
        final(s)@ == old(s)@.push(ch),
;

/// Whether one of the first `n` cells of mask `m`, for a piece with
/// box-left column `x` and box-top row `py`, covers board cell (`r`, `c`).
pub open spec fn occupies_upto(m: Seq<u8>, x: int, py: int, r: int, c: int, n: int) -> bool {
    exists|i: int|
        0 <= i < n && r == py + #[trigger] cell_row(m, i) && c == x + cell_col(m, i)
}

/// Whether a piece with mask `m`, box-left column `x` and box-top row `py`
/// covers board cell (`r`, `c`).
pub open spec fn occupies_abs(m: Seq<u8>, x: int, py: int, r: int, c: int) -> bool {
    occupies_upto(m, x, py, r, c, 4)
}

/// Covering one more cell covers exactly the cells covered before plus
/// that cell.
proof fn lemma_occupies_step(m: Seq<u8>, x: int, py: int, r: int, c: int, n: int)
    requires
        0 <= n < 4,
    ensures
        occupies_upto(m, x, py, r, c, n + 1) == (occupies_upto(m, x, py, r, c, n) || (r == py
            + cell_row(m, n) && c == x + cell_col(m, n))),
{
    if occupies_upto(m, x, py, r, c, n + 1) {
        let i = choose|i: int|
            0 <= i < n + 1 && r == py + #[trigger] cell_row(m, i) && c == x + cell_col(m, i);
        if i < n {
            assert(occupies_upto(m, x, py, r, c, n));
        }
    }
}

/// The grid after the piece's four cells are written as occupied.
pub open spec fn spec_place_grid(g: Seq<Seq<bool>>, m: Seq<u8>, x: int, py: int) -> Seq<
    Seq<bool>,
> {
    Seq::new(24, |r: int| Seq::new(10, |c: int| g[r][c] || occupies_abs(m, x, py, r, c)))
}

/// The cached heights after the piece is written: every column the piece
/// touches reaches up to the piece's topmost cell in it; the others keep
/// their height.
pub open spec fn spec_place_heights(h: Seq<u8>, m: Seq<u8>, x: int, py: int) -> Seq<u8> {
    Seq::new(
        10,
        |c: int|
            if 0 <= c - x < 4 && col_occupied(m, c - x) {
                (24 - (py + col_min_row(m, c - x))) as u8
            } else {
                h[c]
            },
    )
}

/// Whether the piece's resting place lies fully on the board: all its
/// columns exist, and resolving the drop leaves every cell's row within
/// the grid. A drop that violates this signals a bug upstream (a piece
/// rotated out of the playfield, or an overfull stack) and is refused.
pub open spec fn spec_place_ok(m: Seq<u8>, x: int, h: Seq<u8>) -> bool {
    &&& forall|i: int| 0 <= i < 4 ==> 0 <= x + #[trigger] cell_col(m, i) < 10
    &&& forall|i: int|
        0 <= i < 4 ==> 0 <= 23 - spec_drop_y(m, x, h) + #[trigger] cell_row(m, i) < 24
}

/// Whether every cell of board row `row` is occupied.
pub open spec fn spec_row_full(row: Seq<bool>) -> bool {
    forall|c: int| 0 <= c < 10 ==> row[c]
}

/// Whether the piece covers board row `r` at all.
pub open spec fn piece_row(m: Seq<u8>, py: int, r: int) -> bool {
    exists|i: int| 0 <= i < 4 && r == py + #[trigger] cell_row(m, i)
}

/// Whether board row `r` is removed by line clearing: only rows the
/// just-placed piece covers are examined, and such a row goes iff it is
/// complete.
pub open spec fn row_cleared(g: Seq<Seq<bool>>, m: Seq<u8>, py: int, r: int) -> bool {
    piece_row(m, py, r) && spec_row_full(g[r])
}

/// The number of cleared rows with index in `[from, to)`.
pub open spec fn cleared_in(g: Seq<Seq<bool>>, m: Seq<u8>, py: int, from: int, to: int) -> int
    decreases to - from,
{
    if from >= to {
        0
    } else {
        (if row_cleared(g, m, py, from) {
            1int
        } else {
            0int
        }) + cleared_in(g, m, py, from + 1, to)
    }
}

/// How many rows line clearing removes.
pub open spec fn spec_cleared_count(g: Seq<Seq<bool>>, m: Seq<u8>, py: int) -> int {
    cleared_in(g, m, py, 0, 24)
}

/// The surviving rows with index at least `from`, in board order.
pub open spec fn kept_rows(g: Seq<Seq<bool>>, m: Seq<u8>, py: int, from: int) -> Seq<int>
    decreases 24 - from,
{
    if from >= 24 {
        Seq::empty()
    } else if row_cleared(g, m, py, from) {
        kept_rows(g, m, py, from + 1)
    } else {
        seq![from] + kept_rows(g, m, py, from + 1)
    }
}

/// A row with no occupied cell.
pub open spec fn empty_row() -> Seq<bool> {
    Seq::new(10, |c: int| false)
}

/// The grid after line clearing: the cleared rows are removed, the
/// surviving rows compact toward the floor, and as many fresh empty rows
/// appear at the top.
pub open spec fn spec_clear_grid(g: Seq<Seq<bool>>, m: Seq<u8>, py: int) -> Seq<Seq<bool>> {
    let k = spec_cleared_count(g, m, py);
    Seq::new(
        24,
        |j: int|
            if j < k {
                empty_row()
            } else {
                g[kept_rows(g, m, py, 0)[j - k]]
            },
    )
}

/// The cached heights after `k` rows are cleared: every column loses
/// exactly `k`.
pub open spec fn spec_clear_heights(h: Seq<u8>, k: int) -> Seq<u8> {
    Seq::new(10, |c: int| (h[c] - k) as u8)
}

/// At most `to - from` rows of `[from, to)` are cleared.
pub proof fn lemma_cleared_in_bound(g: Seq<Seq<bool>>, m: Seq<u8>, py: int, from: int, to: int)
    requires
        from <= to,
    ensures
        0 <= cleared_in(g, m, py, from, to) <= to - from,
    decreases to - from,
{
    if from < to {
        lemma_cleared_in_bound(g, m, py, from + 1, to);
    }
}

/// Counting cleared rows over `[a, c)` splits at any midpoint `b`.
pub proof fn lemma_cleared_in_split(g: Seq<Seq<bool>>, m: Seq<u8>, py: int, a: int, b: int, c: int)
    requires
        a <= b <= c,
    ensures
        cleared_in(g, m, py, a, c) == cleared_in(g, m, py, a, b) + cleared_in(g, m, py, b, c),
    decreases b - a,
{
    if a < b {
        lemma_cleared_in_split(g, m, py, a + 1, b, c);
    }
}

/// The surviving rows of `[from, 24)` number the total minus the cleared.
pub proof fn lemma_kept_len(g: Seq<Seq<bool>>, m: Seq<u8>, py: int, from: int)
    requires
        0 <= from <= 24,
    ensures
        kept_rows(g, m, py, from).len() == (24 - from) - cleared_in(g, m, py, from, 24),
    decreases 24 - from,
{
    lemma_cleared_in_bound(g, m, py, from, 24);
    if from < 24 {
        lemma_kept_len(g, m, py, from + 1);
    }
}

/// Every entry of `kept_rows` is a surviving row in `[from, 24)`.
pub proof fn lemma_kept_elems(g: Seq<Seq<bool>>, m: Seq<u8>, py: int, from: int)
    requires
        0 <= from <= 24,
    ensures
        forall|t: int|
            0 <= t < kept_rows(g, m, py, from).len() ==> {
                let r = #[trigger] kept_rows(g, m, py, from)[t];
                from <= r < 24 && !row_cleared(g, m, py, r)
            },
    decreases 24 - from,
{
    if from < 24 {
        lemma_kept_elems(g, m, py, from + 1);
        let rest = kept_rows(g, m, py, from + 1);
        assert forall|t: int| 0 <= t < kept_rows(g, m, py, from).len() implies {
            let r = #[trigger] kept_rows(g, m, py, from)[t];
            from <= r < 24 && !row_cleared(g, m, py, r)
        } by {
            if row_cleared(g, m, py, from) {
                assert(kept_rows(g, m, py, from)[t] == rest[t]);
            } else if t > 0 {
                assert(kept_rows(g, m, py, from) == seq![from] + rest);
                assert(kept_rows(g, m, py, from)[t] == rest[t - 1]);
            }
        }
    }
}

/// A surviving row `r` sits in `kept_rows(from)` at its own index minus
/// the cleared rows before it.
pub proof fn lemma_kept_index(g: Seq<Seq<bool>>, m: Seq<u8>, py: int, from: int, r: int)
    requires
        0 <= from <= r < 24,
        !row_cleared(g, m, py, r),
    ensures
        0 <= (r - from) - cleared_in(g, m, py, from, r) < kept_rows(g, m, py, from).len(),
        kept_rows(g, m, py, from)[(r - from) - cleared_in(g, m, py, from, r)] == r,
    decreases r - from,
{
    lemma_kept_len(g, m, py, from);
    lemma_cleared_in_bound(g, m, py, from, r);
    lemma_cleared_in_split(g, m, py, from, r, 24);
    lemma_cleared_in_bound(g, m, py, r + 1, 24);
    if from < r {
        lemma_kept_index(g, m, py, from + 1, r);
    } else {
        assert(cleared_in(g, m, py, r, 24) == (if row_cleared(g, m, py, r) {
            1int
        } else {
            0int
        }) + cleared_in(g, m, py, r + 1, 24));
    }
}

/// The index of a row within `kept_rows` is its own index minus the
/// cleared rows before it.
pub proof fn lemma_kept_index_unique(g: Seq<Seq<bool>>, m: Seq<u8>, py: int, from: int, t: int)
    requires
        0 <= from <= 24,
        0 <= t < kept_rows(g, m, py, from).len(),
    ensures
        t == (kept_rows(g, m, py, from)[t] - from) - cleared_in(
            g,
            m,
            py,
            from,
            kept_rows(g, m, py, from)[t],
        ),
    decreases 24 - from,
{
    lemma_kept_elems(g, m, py, from);
    let r = kept_rows(g, m, py, from)[t];
    if row_cleared(g, m, py, from) {
        assert(kept_rows(g, m, py, from)[t] == kept_rows(g, m, py, from + 1)[t]);
        lemma_kept_index_unique(g, m, py, from + 1, t);
        assert(cleared_in(g, m, py, from, r) == 1 + cleared_in(g, m, py, from + 1, r));
    } else {
        let rest = kept_rows(g, m, py, from + 1);
        assert(kept_rows(g, m, py, from) == seq![from] + rest);
        if t == 0 {
            assert(r == from);
            assert(cleared_in(g, m, py, from, from) == 0);
        } else {
            assert(kept_rows(g, m, py, from)[t] == rest[t - 1]);
            lemma_kept_index_unique(g, m, py, from + 1, t - 1);
            assert(cleared_in(g, m, py, from, r) == cleared_in(g, m, py, from + 1, r));
        }
    }
}

/// If no row is cleared, none are counted.
pub proof fn lemma_cleared_none(g: Seq<Seq<bool>>, m: Seq<u8>, py: int, from: int, to: int)
    requires
        from <= to,
        forall|r: int| from <= r < to ==> !row_cleared(g, m, py, r),
    ensures
        cleared_in(g, m, py, from, to) == 0,
    decreases to - from,
{
    if from < to {
        lemma_cleared_none(g, m, py, from + 1, to);
    }
}

/// If exactly row `r` is cleared, a range counts 1 iff it contains `r`.
pub proof fn lemma_cleared_single(
    g: Seq<Seq<bool>>,
    m: Seq<u8>,
    py: int,
    r: int,
    from: int,
    to: int,
)
    requires
        from <= to,
        row_cleared(g, m, py, r),
        forall|r2: int| 0 <= r2 < 24 && r2 != r ==> !row_cleared(g, m, py, r2),
        0 <= r < 24,
        0 <= from,
        to <= 24,
    ensures
        cleared_in(g, m, py, from, to) == if from <= r < to {
            1int
        } else {
            0int
        },
    decreases to - from,
{
    if from < to {
        lemma_cleared_single(g, m, py, r, from + 1, to);
    }
}

/// With nothing cleared, the surviving rows are all rows, in place.
pub proof fn lemma_kept_identity(g: Seq<Seq<bool>>, m: Seq<u8>, py: int, from: int)
    requires
        0 <= from <= 24,
        forall|r: int| from <= r < 24 ==> !row_cleared(g, m, py, r),
    ensures
        kept_rows(g, m, py, from).len() == 24 - from,
        forall|t: int| 0 <= t < 24 - from ==> #[trigger] kept_rows(g, m, py, from)[t] == from + t,
    decreases 24 - from,
{
    if from < 24 {
        lemma_kept_identity(g, m, py, from + 1);
        let rest = kept_rows(g, m, py, from + 1);
        assert(kept_rows(g, m, py, from) == seq![from] + rest);
        assert forall|t: int| 0 <= t < 24 - from implies #[trigger] kept_rows(g, m, py, from)[t]
            == from + t by {
            if t > 0 {
                assert(kept_rows(g, m, py, from)[t] == rest[t - 1]);
            }
        }
    }
}

/// If any row of `[a, b)` is cleared, there is a first one.
pub proof fn lemma_first_cleared(g: Seq<Seq<bool>>, m: Seq<u8>, py: int, a: int, b: int)
    requires
        a <= b,
        cleared_in(g, m, py, a, b) > 0,
    ensures
        exists|rc: int|
            a <= rc < b && #[trigger] row_cleared(g, m, py, rc) && cleared_in(g, m, py, a, rc)
                == 0,
    decreases b - a,
{
    if row_cleared(g, m, py, a) {
        assert(cleared_in(g, m, py, a, a) == 0);
    } else {
        lemma_first_cleared(g, m, py, a + 1, b);
        let rc = choose|rc: int|
            a + 1 <= rc < b && #[trigger] row_cleared(g, m, py, rc) && cleared_in(
                g,
                m,
                py,
                a + 1,
                rc,
            ) == 0;
        assert(cleared_in(g, m, py, a, rc) == 0);
    }
}

/// Represents a 10x20 Tetris game board, although the implementation height
/// is 24: the top 4 rows are hidden spawn rows.
///
/// `column_heights[c]` caches, for column `c`, the number of rows from the
/// floor up to and including the topmost occupied cell (0 for an empty
/// column). It is used to compute a piece's resting row arithmetically
/// instead of stepping it down row by row.
pub struct Board {
    board: [[bool; 10]; 24],
    column_heights: [u8; 10],
}

impl Board {
    /// The grid as a sequence of 24 rows of 10 cells each; `true` is an
    /// occupied cell. Row 0 is the top of the playfield.
    pub closed spec fn grid(self) -> Seq<Seq<bool>> {
        Seq::new(24, |r: int| self.board@[r]@)
    }

    /// The cached column heights.
    pub closed spec fn heights(self) -> Seq<u8> {
        self.column_heights@
    }

    /// Every cached height is at most the board height, and at least
    /// reaches every occupied cell of its column. The cache can only ever
    /// overshoot the true stack top, never undershoot it.
    pub open spec fn wf(self) -> bool {
        &&& forall|c: int| 0 <= c < 10 ==> self.heights()[c] <= 24
        &&& forall|r: int, c: int|
            0 <= r < 24 && 0 <= c < 10 && self.grid()[r][c] ==> self.heights()[c] >= 24 - r
    }

    /// Creates a new board with all cells empty.
    pub fn new() -> (b: Board)
        ensures
            b.wf(),
            forall|r: int, c: int| 0 <= r < 24 && 0 <= c < 10 ==> !b.grid()[r][c],
            forall|c: int| 0 <= c < 10 ==> b.heights()[c] == 0,
    {
        Board { board: [[false; 10]; 24], column_heights: [0; 10] }
    }

    /// Returns the width of the board, which is always 10.
    pub fn width(&self) -> (w: u8)
        ensures
            w == 10,
    {
        10
    }

    /// Returns the height of the board, which is always 24.
    pub fn height(&self) -> (h: u8)
        ensures
            h == 24,
    {
        24
    }

    /// Whether the cell at `row`, `col` is occupied by a placed piece.
    pub fn is_occupied(&self, row: usize, col: usize) -> (r: bool)
        requires
            row < 24,
            col < 10,
        ensures
            r == self.grid()[row as int][col as int],
    {
        self.board[row][col]
    }

    /// A copy of the cached column heights, one entry per column.
    pub fn column_heights(&self) -> (h: [u8; 10])
        ensures
            h@ == self.heights(),
    {
        self.column_heights
    }

    /// Whether hard-dropping the piece would leave all four of its cells
    /// on the board, so that `hard_drop` will accept it. Checking first
    /// lets a caller refuse the drop without touching any state.
    pub fn can_place(&self, piece: &Piece) -> (r: bool)
        requires
            self.wf(),
            piece.wf(),
        ensures
            r == spec_place_ok(piece.cells(), piece.spec_position().spec_x(), self.heights()),
    {
        let ghost m_s = piece.cells();
        let ghost x_s = piece.spec_position().spec_x();
        let ghost h0 = self.heights();
        proof {
            lemma_cells_wf(*piece);
        }
        let m = piece.mask();
        let x = piece.x();
        let mut i: usize = 0;
        #[verifier::loop_isolation(false)]
        while i < 4
            invariant
                i <= 4,
                forall|j: int| 0 <= j < i ==> 0 <= x_s + #[trigger] cell_col(m_s, j) < 10,
            decreases 4 - i,
        {
            let c = x as i64 + (m[i] % 4) as i64;
            if c < 0 || c >= 10 {
                proof {
                    assert(!(0 <= x_s + cell_col(m_s, i as int) < 10));
                }
                return false;
            }
            i = i + 1;
        }
        let mut drop_y: u8 = 0;
        let mut i: usize = 0;
        #[verifier::loop_isolation(false)]
        while i < 4
            invariant
                i <= 4,
                drop_y == drop_y_upto(m_s, x_s, h0, i as int),
                drop_y <= 27,
            decreases 4 - i,
        {
            proof {
                assert(0 <= x_s + cell_col(m_s, i as int) < 10);
            }
            let col = (x + (m[i] % 4) as i32) as usize;
            let v = m[i] / 4 + self.column_heights[col];
            if v > drop_y {
                drop_y = v;
            }
            i = i + 1;
        }
        let mut i: usize = 0;
        #[verifier::loop_isolation(false)]
        while i < 4
            invariant
                i <= 4,
                drop_y == spec_drop_y(m_s, x_s, h0),
                forall|j: int|
                    0 <= j < i ==> 0 <= 23 - spec_drop_y(m_s, x_s, h0) + #[trigger] cell_row(
                        m_s,
                        j,
                    ),
            decreases 4 - i,
        {
            if drop_y as i32 > 23 + (m[i] / 4) as i32 {
                proof {
                    assert(23 - spec_drop_y(m_s, x_s, h0) + cell_row(m_s, i as int) < 0);
                }
                return false;
            }
            i = i + 1;
        }
        proof {
            lemma_drop_y_lower(m_s, x_s, h0, 4);
            assert forall|j: int| 0 <= j < 4 implies 0 <= 23 - spec_drop_y(m_s, x_s, h0)
                + #[trigger] cell_row(m_s, j) < 24 by {
                assert(spec_drop_y(m_s, x_s, h0) >= cell_row(m_s, j) + h0[x_s + cell_col(m_s, j)]);
            }
        }
        true
    }

    /// Hard drops the passed piece, consuming it: resolves its resting
    /// row from the cached column heights, writes its four cells into the
    /// grid, raises the touched columns' cached heights to the piece's
    /// top, and clears the rows the piece completed.
    ///
    /// A piece whose resting place would fall outside the grid — one
    /// rotated off the sides of the playfield, or dropped on a stack
    /// grown past the top — signals a bug upstream or a topped-out game:
    /// it is refused with `Err(TetrisError::GameOver)` and the board is
    /// left exactly as it was.
    pub fn hard_drop(&mut self, piece: Piece) -> (res: Result<(), TetrisError>)
        requires
            old(self).wf(),
            piece.wf(),
        ensures
            final(self).wf(),
            ({
                let m = piece.cells();
                let x = piece.spec_position().spec_x();
                let h0 = old(self).heights();
                let g0 = old(self).grid();
                if spec_place_ok(m, x, h0) {
                    let py = 23 - spec_drop_y(m, x, h0);
                    let g1 = spec_place_grid(g0, m, x, py);
                    let h1 = spec_place_heights(h0, m, x, py);
                    let k = spec_cleared_count(g1, m, py);
                    &&& res == Ok::<(), TetrisError>(())
                    &&& final(self).grid() == spec_clear_grid(g1, m, py)
                    &&& final(self).heights() == spec_clear_heights(h1, k)
                } else {
                    &&& res == Err::<(), TetrisError>(TetrisError::GameOver)
                    &&& *final(self) == *old(self)
                }
            }),
    {
        let ghost g0 = self.grid();
        let ghost h0 = self.heights();
        let ghost m_s = piece.cells();
        let ghost x_s = piece.spec_position().spec_x();
        proof {
            lemma_cells_wf(piece);
        }
        let mut piece = piece;
        let m = piece.mask();
        let x = piece.x();
        // Every piece column must lie on the board.
        let mut i: usize = 0;
        #[verifier::loop_isolation(false)]
        while i < 4
            invariant
                i <= 4,
                *self == *old(self),
                piece.wf(),
                piece.cells() == m_s,
                piece.spec_position().spec_x() == x_s,
                m@ == m_s,
                mask_wf(m_s),
                x == x_s,
                h0 == self.heights(),
                forall|j: int| 0 <= j < i ==> 0 <= x_s + #[trigger] cell_col(m_s, j) < 10,
            decreases 4 - i,
        {
            let c = x as i64 + (m[i] % 4) as i64;
            if c < 0 || c >= 10 {
                proof {
                    assert(!(0 <= x_s + cell_col(m_s, i as int) < 10));
                }
                return Err(TetrisError::GameOver);
            }
            i = i + 1;
        }
        // Resolve the resting height.
        let dy = piece.hard_drop(self.column_heights);
        let ghost py = 23 - spec_drop_y(m_s, x_s, h0);
        // Every cell's resting row must lie on the board.
        let mut i: usize = 0;
        #[verifier::loop_isolation(false)]
        while i < 4
            invariant
                i <= 4,
                *self == *old(self),
                piece.wf(),
                piece.cells() == m_s,
                piece.spec_position().spec_x() == x_s,
                piece.spec_position().spec_y() == py,
                m@ == m_s,
                mask_wf(m_s),
                x == x_s,
                h0 == self.heights(),
                dy == spec_drop_y(m_s, x_s, h0),
                dy <= 27,
                py == 23 - dy,
                forall|j: int| 0 <= j < 4 ==> 0 <= x_s + #[trigger] cell_col(m_s, j) < 10,
                forall|j: int| 0 <= j < i ==> 0 <= py + #[trigger] cell_row(m_s, j),
            decreases 4 - i,
        {
            if dy as i32 > 23 + (m[i] / 4) as i32 {
                proof {
                    assert(py + cell_row(m_s, i as int) < 0);
                }
                return Err(TetrisError::GameOver);
            }
            i = i + 1;
        }
        proof {
            lemma_drop_y_lower(m_s, x_s, h0, 4);
            assert forall|j: int| 0 <= j < 4 implies 0 <= py + #[trigger] cell_row(m_s, j)
                < 24 by {
                assert(spec_drop_y(m_s, x_s, h0) >= cell_row(m_s, j) + h0[x_s + cell_col(m_s, j)]);
            }
            assert forall|j: int| 0 <= j < 4 implies #[trigger] cell_row(m_s, j) <= dy by {
                assert(spec_drop_y(m_s, x_s, h0) >= cell_row(m_s, j) + h0[x_s + cell_col(m_s, j)]);
            }
            assert(spec_place_ok(m_s, x_s, h0));
        }
        // Write the four cells into the grid.
        let mut i: usize = 0;
        while i < 4
            invariant
                i <= 4,
                piece.wf(),
                piece.cells() == m_s,
                piece.spec_position().spec_x() == x_s,
                piece.spec_position().spec_y() == py,
                m@ == m_s,
                mask_wf(m_s),
                x == x_s,
                h0 == self.heights(),
                dy == spec_drop_y(m_s, x_s, h0),
                dy <= 27,
                py == 23 - dy,
                forall|j: int| 0 <= j < 4 ==> 0 <= x_s + #[trigger] cell_col(m_s, j) < 10,
                forall|j: int| 0 <= j < 4 ==> 0 <= py + #[trigger] cell_row(m_s, j) < 24,
                forall|r: int, c: int|
                    0 <= r < 24 && 0 <= c < 10 ==> #[trigger] self.grid()[r][c] == (g0[r][c]
                        || occupies_upto(m_s, x_s, py, r, c, i as int)),
            decreases 4 - i,
        {
            proof {
                assert(0 <= py + cell_row(m_s, i as int) < 24);
                assert(0 <= x_s + cell_col(m_s, i as int) < 10);
            }
            let row = (23 - dy as i32 + (m[i] / 4) as i32) as usize;
            let col = (x + (m[i] % 4) as i32) as usize;
            let ghost prev_grid = self.grid();
            let mut row_cells = self.board[row];
            row_cells[col] = true;
            self.board[row] = row_cells;
            proof {
                assert forall|r: int, c: int| 0 <= r < 24 && 0 <= c < 10 implies
                    #[trigger] self.grid()[r][c] == (g0[r][c] || occupies_upto(
                    m_s,
                    x_s,
                    py,
                    r,
                    c,
                    i + 1,
                )) by {
                    lemma_occupies_step(m_s, x_s, py, r, c, i as int);
                    if r == row && c == col {
                        assert(self.grid()[r][c]);
                    } else {
                        assert(self.grid()[r][c] == prev_grid[r][c]);
                    }
                }
            }
            i = i + 1;
        }
        let ghost g1 = spec_place_grid(g0, m_s, x_s, py);
        proof {
            assert forall|r: int| 0 <= r < 24 implies self.grid()[r] =~= g1[r] by {
                assert(forall|c: int|
                    0 <= c < 10 ==> #[trigger] self.grid()[r][c] == (g0[r][c] || occupies_abs(
                        m_s,
                        x_s,
                        py,
                        r,
                        c,
                    )));
            }
            assert(self.grid() =~= g1);
        }
        // Raise the touched columns' cached heights to the piece's top.
        let mut co: usize = 0;
        while co < 4
            invariant
                co <= 4,
                piece.wf(),
                piece.cells() == m_s,
                piece.spec_position().spec_x() == x_s,
                piece.spec_position().spec_y() == py,
                m@ == m_s,
                mask_wf(m_s),
                x == x_s,
                self.grid() == g1,
                dy == spec_drop_y(m_s, x_s, h0),
                dy <= 27,
                py == 23 - dy,
                forall|j: int| 0 <= j < 4 ==> 0 <= x_s + #[trigger] cell_col(m_s, j) < 10,
                forall|j: int| 0 <= j < 4 ==> 0 <= py + #[trigger] cell_row(m_s, j) < 24,
                forall|j: int| 0 <= j < 4 ==> #[trigger] cell_row(m_s, j) <= dy,
                forall|c: int|
                    0 <= c < 10 ==> #[trigger] self.heights()[c] == (if 0 <= c - x_s < co
                        && col_occupied(m_s, c - x_s) {
                        (24 - (py + col_min_row(m_s, c - x_s))) as u8
                    } else {
                        h0[c]
                    }),
            decreases 4 - co,
        {
            let ghost coi = co as int;
            proof {
                assert(cell_col(m_s, 0) == m_s[0] as int % 4);
                assert(cell_col(m_s, 1) == m_s[1] as int % 4);
                assert(cell_col(m_s, 2) == m_s[2] as int % 4);
                assert(cell_col(m_s, 3) == m_s[3] as int % 4);
            }
            let cou8 = co as u8;
            let top_row: i32 = if m[0] % 4 == cou8 {
                proof {
                    assert(cell_col(m_s, 0) == coi);
                    assert(col_occupied(m_s, coi));
                    assert(col_min_row(m_s, coi) == cell_row(m_s, 0));
                }
                (m[0] / 4) as i32
            } else if m[1] % 4 == cou8 {
                proof {
                    assert(cell_col(m_s, 1) == coi);
                    assert(col_occupied(m_s, coi));
                    assert(col_min_row(m_s, coi) == cell_row(m_s, 1));
                }
                (m[1] / 4) as i32
            } else if m[2] % 4 == cou8 {
                proof {
                    assert(cell_col(m_s, 2) == coi);
                    assert(col_occupied(m_s, coi));
                    assert(col_min_row(m_s, coi) == cell_row(m_s, 2));
                }
                (m[2] / 4) as i32
            } else if m[3] % 4 == cou8 {
                proof {
                    assert(cell_col(m_s, 3) == coi);
                    assert(col_occupied(m_s, coi));
                    assert(col_min_row(m_s, coi) == cell_row(m_s, 3));
                }
                (m[3] / 4) as i32
            } else {
                proof {
                    if col_occupied(m_s, coi) {
                        let j = choose|j: int|
                            0 <= j < m_s.len() && #[trigger] cell_col(m_s, j) == coi;
                        assert(j == 0 || j == 1 || j == 2 || j == 3);
                        assert(false);
                    }
                }
                -1
            };
            if top_row >= 0 {
                proof {
                    assert(col_occupied(m_s, coi));
                    assert(top_row == col_min_row(m_s, coi));
                    lemma_col_min_row_is_cell(m_s, coi);
                    let j = choose|j: int|
                        0 <= j < 4 && #[trigger] cell_col(m_s, j) == coi && cell_row(m_s, j)
                            == col_min_row(m_s, coi);
                    assert(0 <= x_s + coi < 10);
                    assert(0 <= py + top_row < 24);
                    assert(top_row <= dy);
                }
                let ghost h_prev = self.heights();
                let cidx = (x + co as i32) as usize;
                self.column_heights[cidx] = dy - top_row as u8 + 1;
                proof {
                    assert(self.heights()[x_s + coi] == (24 - (py + col_min_row(m_s, coi))) as u8);
                    assert forall|c: int| 0 <= c < 10 implies #[trigger] self.heights()[c] == (
                    if 0 <= c - x_s < coi + 1 && col_occupied(m_s, c - x_s) {
                        (24 - (py + col_min_row(m_s, c - x_s))) as u8
                    } else {
                        h0[c]
                    }) by {
                        if c != x_s + coi {
                            assert(self.heights()[c] == h_prev[c]);
                            assert(c - x_s != coi);
                        }
                    }
                }
            } else {
                proof {
                    assert forall|c: int| 0 <= c < 10 implies #[trigger] self.heights()[c] == (
                    if 0 <= c - x_s < coi + 1 && col_occupied(m_s, c - x_s) {
                        (24 - (py + col_min_row(m_s, c - x_s))) as u8
                    } else {
                        h0[c]
                    }) by {
                        if c - x_s == coi {
                            assert(!col_occupied(m_s, c - x_s));
                        }
                    }
                }
            }
            co = co + 1;
        }
        let ghost h1 = spec_place_heights(h0, m_s, x_s, py);
        proof {
            assert(self.heights() =~= h1);
        }
        // The cache invariant holds for the just-placed board: the piece
        // came to rest above every stack it touched, and the new tops
        // reach all of its cells.
        proof {
            lemma_edge_extremes(m_s);
            assert forall|r: int, c: int|
                0 <= r < 24 && 0 <= c < 10 && #[trigger] self.grid()[r][c] implies self.heights()[c]
                >= 24 - r by {
                if g0[r][c] {
                    assert(h0[c] >= 24 - r);
                    if 0 <= c - x_s < 4 && col_occupied(m_s, c - x_s) {
                        let cc = c - x_s;
                        lemma_col_min_row_is_cell(m_s, cc);
                        let j = choose|j: int|
                            0 <= j < 4 && #[trigger] cell_col(m_s, j) == cc && cell_row(m_s, j)
                                == col_min_row(m_s, cc);
                        assert(spec_drop_y(m_s, x_s, h0) >= cell_row(m_s, j) + h0[x_s + cell_col(
                            m_s,
                            j,
                        )]);
                        assert(py + col_min_row(m_s, cc) <= 23 - h0[c]);
                    }
                } else {
                    let j = choose|j: int|
                        0 <= j < 4 && r == py + #[trigger] cell_row(m_s, j) && c == x_s + cell_col(
                            m_s,
                            j,
                        );
                    assert(col_occupied(m_s, c - x_s));
                    assert(col_min_row(m_s, c - x_s) <= cell_row(m_s, j));
                }
            }
            assert forall|c: int| 0 <= c < 10 implies #[trigger] self.heights()[c] <= 24 by {
                if 0 <= c - x_s < 4 && col_occupied(m_s, c - x_s) {
                    lemma_col_min_row_is_cell(m_s, c - x_s);
                    let j = choose|j: int|
                        0 <= j < 4 && #[trigger] cell_col(m_s, j) == c - x_s && cell_row(m_s, j)
                            == col_min_row(m_s, c - x_s);
                }
            }
            assert(self.wf());
        }
        // Clear the rows the piece completed.
        let _lines_cleared = self.clear_lines(piece);
        Ok(())
    }

    /// Removes the completed rows among those the just-placed piece
    /// covers: a row goes iff every one of its 10 cells is occupied. Rows
    /// above a cleared row fall toward the floor, fresh empty rows appear
    /// at the top, rows below are untouched, and every cached column
    /// height drops by the number of rows cleared. Returns that number.
    fn clear_lines(&mut self, piece: Piece) -> (k: u8)
        requires
            old(self).wf(),
            piece.wf(),
            forall|i: int|
                0 <= i < 4 ==> 0 <= piece.spec_position().spec_y() + #[trigger] cell_row(
                    piece.cells(),
                    i,
                ) < 24,
        ensures
            ({
                let g = old(self).grid();
                let m = piece.cells();
                let py = piece.spec_position().spec_y();
                &&& k == spec_cleared_count(g, m, py)
                &&& final(self).grid() == spec_clear_grid(g, m, py)
                &&& final(self).heights() == spec_clear_heights(
                    old(self).heights(),
                    spec_cleared_count(g, m, py),
                )
            }),
            final(self).wf(),
    {
        let ghost g = self.grid();
        let ghost m_s = piece.cells();
        let ghost py = piece.spec_position().spec_y();
        proof {
            lemma_cells_wf(piece);
        }
        let m = piece.mask();
        let y = piece.y();
        proof {
            assert(0 <= py + cell_row(m_s, 0) < 24);
            assert(0 <= cell_row(m_s, 0) < 4);
        }
        let mut new_board: [[bool; 10]; 24] = [[false; 10]; 24];
        let mut cleared: u8 = 0;
        let mut src: i32 = 23;
        while src >= 0
            invariant
                *self == *old(self),
                self.wf(),
                g == self.grid(),
                m_s == piece.cells(),
                py == piece.spec_position().spec_y(),
                mask_wf(m_s),
                m@ == m_s,
                y == py,
                -3 <= y <= 23,
                -1 <= src <= 23,
                cleared == cleared_in(g, m_s, py, src + 1, 24),
                0 <= cleared <= 23 - src,
                kept_rows(g, m_s, py, src + 1).len() == (23 - src) - cleared,
                forall|t: int|
                    0 <= t < kept_rows(g, m_s, py, src + 1).len()
                        ==> new_board@[24 - kept_rows(g, m_s, py, src + 1).len() + t]@ == g[(
                    #[trigger] kept_rows(g, m_s, py, src + 1)[t])],
                forall|j: int|
                    0 <= j < 24 - kept_rows(g, m_s, py, src + 1).len() ==> (
                    #[trigger] new_board@[j])@ == empty_row(),
            decreases src + 1,
        {
            let srcu = src as usize;
            let is_prow = y + (m[0] / 4) as i32 == src || y + (m[1] / 4) as i32 == src || y + (m[2]
                / 4) as i32 == src || y + (m[3] / 4) as i32 == src;
            proof {
                let s = src as int;
                if is_prow {
                    assert(py + cell_row(m_s, 0) == s || py + cell_row(m_s, 1) == s || py
                        + cell_row(m_s, 2) == s || py + cell_row(m_s, 3) == s);
                    assert(piece_row(m_s, py, s));
                }
                if piece_row(m_s, py, s) {
                    let i = choose|i: int| 0 <= i < 4 && s == py + #[trigger] cell_row(m_s, i);
                    assert(i == 0 || i == 1 || i == 2 || i == 3);
                    assert(is_prow);
                }
            }
            let mut full = false;
            if is_prow {
                full = true;
                let mut c: usize = 0;
                while c < 10
                    invariant
                        c <= 10,
                        *self == *old(self),
                        g == self.grid(),
                        0 <= src <= 23,
                        srcu == src,
                        full ==> forall|cc: int| 0 <= cc < c ==> g[src as int][cc],
                        !full ==> exists|cc: int| 0 <= cc < c && !(#[trigger] g[src as int][cc]),
                    decreases 10 - c,
                {
                    if !self.board[srcu][c] {
                        full = false;
                        proof {
                            assert(!g[src as int][c as int]);
                        }
                    }
                    c = c + 1;
                }
                proof {
                    if full {
                        assert(spec_row_full(g[src as int]));
                    } else {
                        let cc = choose|cc: int| 0 <= cc < 10 && !(#[trigger] g[src as int][cc]);
                        assert(!spec_row_full(g[src as int]));
                    }
                }
            }
            let ghost rest = kept_rows(g, m_s, py, src as int);
            if is_prow && full {
                proof {
                    assert(row_cleared(g, m_s, py, src as int));
                    assert(rest == kept_rows(g, m_s, py, src + 1));
                }
                cleared = cleared + 1;
            } else {
                proof {
                    assert(!row_cleared(g, m_s, py, src as int));
                    assert(rest == seq![src as int] + kept_rows(g, m_s, py, src + 1));
                    lemma_kept_len(g, m_s, py, src as int);
                }
                let dest = (src + cleared as i32) as usize;
                new_board[dest] = self.board[srcu];
                proof {
                    let len_new = rest.len();
                    assert(24 - len_new == dest);
                    assert(new_board@[dest as int]@ == g[src as int]);
                    assert forall|t: int| 0 <= t < len_new implies new_board@[24 - len_new + t]@
                        == g[(#[trigger] rest[t])] by {
                        if t == 0 {
                            assert(rest[0] == src as int);
                        } else {
                            assert(rest[t] == kept_rows(g, m_s, py, src + 1)[t - 1]);
                        }
                    }
                }
            }
            src = src - 1;
        }
        let ghost keep = kept_rows(g, m_s, py, 0);
        let ghost k_spec = spec_cleared_count(g, m_s, py);
        proof {
            lemma_kept_len(g, m_s, py, 0);
            assert(keep.len() == 24 - k_spec);
            assert(cleared == k_spec);
        }
        self.board = new_board;
        proof {
            assert forall|j: int| 0 <= j < 24 implies self.grid()[j] == spec_clear_grid(
                g,
                m_s,
                py,
            )[j] by {
                if j < k_spec {
                    assert(self.grid()[j] == new_board@[j]@);
                    assert(new_board@[j]@ == empty_row());
                } else {
                    assert(self.grid()[j] == new_board@[24 - keep.len() + (j - k_spec)]@);
                }
            }
            assert(self.grid() =~= spec_clear_grid(g, m_s, py));
        }
        // Every cleared row was complete, so every column's cached height
        // reaches at least up to the topmost cleared row; the decrement
        // below cannot underflow.
        proof {
            assert forall|c: int| 0 <= c < 10 implies old(self).heights()[c] >= k_spec by {
                if k_spec > 0 {
                    lemma_first_cleared(g, m_s, py, 0, 24);
                    let rc = choose|rc: int|
                        0 <= rc < 24 && #[trigger] row_cleared(g, m_s, py, rc) && cleared_in(
                            g,
                            m_s,
                            py,
                            0,
                            rc,
                        ) == 0;
                    assert(g[rc][c]);
                    assert(old(self).heights()[c] >= 24 - rc);
                    lemma_cleared_in_split(g, m_s, py, 0, rc, 24);
                    lemma_cleared_in_bound(g, m_s, py, rc, 24);
                }
            }
        }
        let ghost h1 = self.heights();
        proof {
            assert(h1 == old(self).heights());
            assert(forall|cc: int| 0 <= cc < 10 ==> h1[cc] >= k_spec);
        }
        let mut c: usize = 0;
        while c < 10
            invariant
                c <= 10,
                self.grid() == spec_clear_grid(g, m_s, py),
                cleared == k_spec,
                0 <= k_spec <= 24,
                forall|cc: int| 0 <= cc < 10 ==> h1[cc] >= k_spec,
                h1.len() == 10,
                self.heights().len() == 10,
                forall|cc: int| 0 <= cc < c ==> self.heights()[cc] == h1[cc] - k_spec,
                forall|cc: int| c <= cc < 10 ==> self.heights()[cc] == h1[cc],
            decreases 10 - c,
        {
            proof {
                assert(self.heights()[c as int] == h1[c as int]);
                assert(h1[c as int] >= k_spec);
            }
            self.column_heights[c] = self.column_heights[c] - cleared;
            c = c + 1;
        }
        proof {
            assert(h1 == old(self).heights());
            assert(self.heights() =~= spec_clear_heights(old(self).heights(), k_spec));
            lemma_kept_elems(g, m_s, py, 0);
            assert forall|r: int, cc: int|
                0 <= r < 24 && 0 <= cc < 10 && self.grid()[r][cc] implies self.heights()[cc] >= 24
                - r by {
                assert(self.grid()[r] == spec_clear_grid(g, m_s, py)[r]);
                if r < k_spec {
                    assert(self.grid()[r][cc] == empty_row()[cc]);
                } else {
                    let t = r - k_spec;
                    let rr = keep[t];
                    assert(g[rr][cc]);
                    assert(old(self).heights()[cc] >= 24 - rr);
                    lemma_kept_index_unique(g, m_s, py, 0, t);
                    assert(t == rr - cleared_in(g, m_s, py, 0, rr));
                    if cleared_in(g, m_s, py, 0, rr) > 0 {
                        lemma_first_cleared(g, m_s, py, 0, rr);
                        let rc = choose|rc: int|
                            0 <= rc < rr && #[trigger] row_cleared(g, m_s, py, rc) && cleared_in(
                                g,
                                m_s,
                                py,
                                0,
                                rc,
                            ) == 0;
                        assert(g[rc][cc]);
                        assert(old(self).heights()[cc] >= 24 - rc);
                        lemma_cleared_in_split(g, m_s, py, 0, rc, rr);
                        lemma_cleared_in_bound(g, m_s, py, rc, rr);
                    }
                }
            }
        }
        cleared
    }

    /// Returns the string representation of a row of the board: one glyph
    /// per column, a filled square for an occupied cell and a blank for an
    /// empty one.
    ///
    /// Asking for a row outside the board is a caller error.
    pub fn row_to_string(&self, row: usize) -> (s: String)
        requires
            row < 24,
        ensures
            s@.len() == 10,
            forall|c: int|
                0 <= c < 10 ==> s@[c] == (if self.grid()[row as int][c] {
                    '\u{25a0}'
                } else {
                    ' '
                }),
    {
        let mut row_string = String::new();
        let mut col: usize = 0;
        while col < 10
            invariant
                col <= 10,
                row < 24,
                row_string@.len() == col,
                forall|c: int|
                    0 <= c < col ==> row_string@[c] == (if self.grid()[row as int][c] {
                        '\u{25a0}'
                    } else {
                        ' '
                    }),
            decreases 10 - col,
        {
            row_string.push(if self.board[row][col] {
                '\u{25a0}'
            } else {
                ' '
            });
            col = col + 1;
        }
        row_string
    }
}

impl Default for Board {
    /// An empty board, as `Board::new` returns it.
    fn default() -> (b: Self)
        ensures
            b.wf(),
            forall|r: int, c: int| 0 <= r < 24 && 0 <= c < 10 ==> !b.grid()[r][c],
            forall|c: int| 0 <= c < 10 ==> b.heights()[c] == 0,
    {
        Board { board: [[false; 10]; 24], column_heights: [0; 10] }
    }
}

/// Dropping a flat I-piece onto four equally tall columns raises exactly
/// those four columns' cached heights by one and clears nothing, as long
/// as some column off the piece stands empty (so no row can complete)
/// and the stack leaves room. Starting from an empty board, repeated
/// flat I-drops therefore raise exactly their four columns, one per
/// drop, and never the others; `Board::hard_drop`'s contract plugs these
/// values in directly.
pub proof fn lemma_flat_i_drop(b: Board, p: Piece)
    requires
        b.wf(),
        p.wf(),
        p.spec_kind() == PieceType::I,
        p.spec_orientation() == Orientation::North,
        0 <= p.spec_position().spec_x() <= 6,
        forall|c: int|
            p.spec_position().spec_x() <= c < p.spec_position().spec_x() + 4
                ==> #[trigger] b.heights()[c] == b.heights()[p.spec_position().spec_x()],
        b.heights()[p.spec_position().spec_x()] <= 22,
        exists|c0: int|
            0 <= c0 < 10 && !(p.spec_position().spec_x() <= c0 < p.spec_position().spec_x() + 4)
                && #[trigger] b.heights()[c0] == 0,
    ensures
        spec_place_ok(p.cells(), p.spec_position().spec_x(), b.heights()),
        ({
            let m = p.cells();
            let x = p.spec_position().spec_x();
            let h = b.heights();
            let py = 23 - spec_drop_y(m, x, h);
            let g1 = spec_place_grid(b.grid(), m, x, py);
            let h1 = spec_place_heights(h, m, x, py);
            let k = spec_cleared_count(g1, m, py);
            &&& k == 0
            &&& forall|c: int|
                x <= c < x + 4 ==> #[trigger] spec_clear_heights(h1, k)[c] == h[x] + 1
            &&& forall|c: int|
                0 <= c < 10 && !(x <= c < x + 4) ==> #[trigger] spec_clear_heights(h1, k)[c]
                    == h[c]
            &&& spec_clear_grid(g1, m, py) == g1
        }),
{
    let m = p.cells();
    let x = p.spec_position().spec_x();
    let h = b.heights();
    lemma_cells_wf(p);
    assert(m =~= seq![4u8, 5u8, 6u8, 7u8]);
    assert(cell_row(m, 0) == 1 && cell_col(m, 0) == 0);
    assert(cell_row(m, 1) == 1 && cell_col(m, 1) == 1);
    assert(cell_row(m, 2) == 1 && cell_col(m, 2) == 2);
    assert(cell_row(m, 3) == 1 && cell_col(m, 3) == 3);
    let h0 = h[x] as int;
    assert(h[x + 0] == h[x] && h[x + 1] == h[x] && h[x + 2] == h[x] && h[x + 3] == h[x]);
    assert(drop_y_upto(m, x, h, 0) == 0);
    assert(drop_y_upto(m, x, h, 1) == 1 + h0);
    assert(drop_y_upto(m, x, h, 2) == 1 + h0);
    assert(drop_y_upto(m, x, h, 3) == 1 + h0);
    assert(drop_y_upto(m, x, h, 4) == 1 + h0);
    let dy = spec_drop_y(m, x, h);
    assert(dy == 1 + h0);
    let py = 23 - dy;
    assert forall|i: int| 0 <= i < 4 implies 0 <= x + #[trigger] cell_col(m, i) < 10 by {
        assert(i == 0 || i == 1 || i == 2 || i == 3);
    }
    assert forall|i: int| 0 <= i < 4 implies 0 <= 23 - dy + #[trigger] cell_row(m, i) < 24 by {
        assert(i == 0 || i == 1 || i == 2 || i == 3);
    }
    assert(spec_place_ok(m, x, h));
    let g1 = spec_place_grid(b.grid(), m, x, py);
    let h1 = spec_place_heights(h, m, x, py);
    // the columns the piece touches rise to one above the old stack
    assert(col_min_row(m, 0) == 1);
    assert(col_min_row(m, 1) == 1);
    assert(col_min_row(m, 2) == 1);
    assert(col_min_row(m, 3) == 1);
    assert forall|c: int| x <= c < x + 4 implies #[trigger] h1[c] == h[x] + 1 by {
        let co = c - x;
        assert(cell_col(m, co) == co);
        assert(col_occupied(m, co));
        assert(col_min_row(m, co) == 1);
        assert(24 - (py + 1) == h0 + 1);
    }
    assert forall|c: int| 0 <= c < 10 && !(x <= c < x + 4) implies #[trigger] h1[c] == h[c] by {
        if 0 <= c - x < 4 {
            assert(false);
        }
    }
    // no row can be complete: the witness column is empty everywhere
    let c0 = choose|c0: int|
        0 <= c0 < 10 && !(x <= c0 < x + 4) && #[trigger] b.heights()[c0] == 0;
    assert forall|r: int| 0 <= r < 24 implies !row_cleared(g1, m, py, r) by {
        if piece_row(m, py, r) {
            let i = choose|i: int| 0 <= i < 4 && r == py + #[trigger] cell_row(m, i);
            assert(r == py + 1);
            assert(!b.grid()[r][c0]);
            if occupies_abs(m, x, py, r, c0) {
                let j = choose|j: int|
                    0 <= j < 4 && r == py + #[trigger] cell_row(m, j) && c0 == x + cell_col(m, j);
                assert(false);
            }
            assert(!g1[r][c0]);
            assert(!spec_row_full(g1[r]));
        }
    }
    lemma_cleared_none(g1, m, py, 0, 24);
    lemma_kept_identity(g1, m, py, 0);
    assert(spec_clear_grid(g1, m, py) =~= g1);
    assert forall|c: int| 0 <= c < 10 implies #[trigger] spec_clear_heights(h1, 0)[c] == h1[c] by {
    }
}

/// Completing exactly one row clears exactly that row: rows below it are
/// untouched, every row above it falls by one, a fresh empty row appears
/// at the top, and every column's cached height drops by one.
/// `Board::hard_drop` applies this transition to the grid as it stands
/// right after the dropped piece's cells are written.
pub proof fn lemma_single_line_clear(g: Seq<Seq<bool>>, m: Seq<u8>, py: int, r: int, h: Seq<u8>)
    requires
        0 <= r < 24,
        row_cleared(g, m, py, r),
        forall|r2: int| 0 <= r2 < 24 && r2 != r ==> !row_cleared(g, m, py, r2),
        h.len() == 10,
        forall|c: int| 0 <= c < 10 ==> 1 <= #[trigger] h[c],
    ensures
        spec_cleared_count(g, m, py) == 1,
        forall|j: int| r < j < 24 ==> #[trigger] spec_clear_grid(g, m, py)[j] == g[j],
        forall|j: int| 1 <= j <= r ==> #[trigger] spec_clear_grid(g, m, py)[j] == g[j - 1],
        spec_clear_grid(g, m, py)[0] == empty_row(),
        forall|c: int| 0 <= c < 10 ==> #[trigger] spec_clear_heights(h, 1)[c] == h[c] - 1,
{
    lemma_cleared_single(g, m, py, r, 0, 24);
    assert(spec_cleared_count(g, m, py) == 1);
    assert forall|j: int| r < j < 24 implies #[trigger] spec_clear_grid(g, m, py)[j] == g[j] by {
        lemma_kept_index(g, m, py, 0, j);
        lemma_cleared_single(g, m, py, r, 0, j);
        assert(kept_rows(g, m, py, 0)[j - 1] == j);
    }
    assert forall|j: int| 1 <= j <= r implies #[trigger] spec_clear_grid(g, m, py)[j] == g[j
        - 1] by {
        lemma_kept_index(g, m, py, 0, j - 1);
        lemma_cleared_single(g, m, py, r, 0, j - 1);
        assert(kept_rows(g, m, py, 0)[j - 1] == j - 1);
    }
}

} // verus!
