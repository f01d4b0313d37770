use vstd::prelude::*;

verus! {

use crate::TetrisError;
use crate::TetrisInput;
use crate::bag::Bag;
use crate::board::{
    spec_clear_grid, spec_clear_heights, spec_cleared_count, spec_place_grid, spec_place_heights,
    spec_place_ok, Board,
};
use crate::input_supported;
use crate::piece::{spec_drop_y, Piece};
use crate::piece_type::PieceType;
use std::collections::VecDeque;

/// The simulation core of a falling-block game: a board, the active
/// piece, the hold slot, the upcoming-piece queue, and the shuffle bag
/// feeding it, driven by player intents as a small state machine.
pub struct TetrisGame {
    board: Board,
    hold_piece: Option<PieceType>,
    active_piece: Option<Piece>,
    piece_queue: VecDeque<PieceType>,
    bag: Bag,
    game_over: bool,
    can_hold: bool,
    queue_size: usize,
    frame: u64,
}

impl TetrisGame {
    /// The board, for use in contracts.
    pub closed spec fn spec_board(self) -> Board {
        self.board
    }

    /// The held kind, if any, for use in contracts.
    pub closed spec fn spec_hold(self) -> Option<PieceType> {
        self.hold_piece
    }

    /// The active piece, if any, for use in contracts.
    pub closed spec fn spec_active(self) -> Option<Piece> {
        self.active_piece
    }

    /// The upcoming kinds, next first, for use in contracts.
    pub closed spec fn spec_queue(self) -> Seq<PieceType> {
        self.piece_queue@
    }

    /// The bag, for use in contracts.
    pub closed spec fn spec_bag(self) -> Bag {
        self.bag
    }

    /// Whether the game has ended, for use in contracts.
    pub closed spec fn spec_game_over(self) -> bool {
        self.game_over
    }

    /// Whether a hold is currently allowed, for use in contracts.
    pub closed spec fn spec_can_hold(self) -> bool {
        self.can_hold
    }

    /// The configured preview length, for use in contracts.
    pub closed spec fn spec_queue_size(self) -> int {
        self.queue_size as int
    }

    /// The frame counter, for use in contracts.
    pub closed spec fn spec_frame(self) -> u64 {
        self.frame
    }

    /// The game's invariant: board and bag are well formed, the preview
    /// queue never exceeds its configured positive length, and while a
    /// piece is active the queue is full and the piece is a well-formed
    /// one whose bounding box lies within the board's rows.
    pub open spec fn wf(self) -> bool {
        &&& self.spec_board().wf()
        &&& self.spec_bag().wf()
        &&& 1 <= self.spec_queue_size()
        &&& self.spec_queue().len() <= self.spec_queue_size()
        &&& match self.spec_active() {
            Option::Some(p) => {
                &&& p.wf()
                &&& p.rows_on_board()
                &&& self.spec_queue().len() == self.spec_queue_size()
            },
            Option::None => true,
        }
    }

    /// All parts of the state that a lateral move or a rotation leaves
    /// alone are equal between `pre` and `post`.
    pub open spec fn frame_unchanged(pre: TetrisGame, post: TetrisGame) -> bool {
        &&& post.spec_board() == pre.spec_board()
        &&& post.spec_hold() == pre.spec_hold()
        &&& post.spec_queue() == pre.spec_queue()
        &&& post.spec_bag() == pre.spec_bag()
        &&& post.spec_game_over() == pre.spec_game_over()
        &&& post.spec_can_hold() == pre.spec_can_hold()
        &&& post.spec_queue_size() == pre.spec_queue_size()
        &&& post.spec_frame() == pre.spec_frame()
    }

    /// What a move-left command does: with no active piece it is refused;
    /// with one, the piece shifts one column left when nothing blocks it,
    /// and a blocked move is refused with the state exactly as it was.
    pub open spec fn post_move_left(
        pre: TetrisGame,
        post: TetrisGame,
        r: Result<(), TetrisError>,
    ) -> bool {
        match pre.spec_active() {
            Option::None => r == Err::<(), TetrisError>(TetrisError::GameNotStarted) && post
                == pre,
            Option::Some(p) => {
                &&& Self::frame_unchanged(pre, post)
                &&& if p.can_move_left(pre.spec_board()) {
                    &&& r == Ok::<(), TetrisError>(())
                    &&& post.spec_active() matches Some(p2) && p2.spec_kind() == p.spec_kind()
                        && p2.spec_orientation() == p.spec_orientation()
                        && p2.spec_position().spec_x() == p.spec_position().spec_x() - 1
                        && p2.spec_position().spec_y() == p.spec_position().spec_y()
                } else {
                    r == Err::<(), TetrisError>(TetrisError::InvalidLeftMove) && post == pre
                }
            },
        }
    }

    /// What a move-right command does, mirroring `post_move_left`.
    pub open spec fn post_move_right(
        pre: TetrisGame,
        post: TetrisGame,
        r: Result<(), TetrisError>,
    ) -> bool {
        match pre.spec_active() {
            Option::None => r == Err::<(), TetrisError>(TetrisError::GameNotStarted) && post
                == pre,
            Option::Some(p) => {
                &&& Self::frame_unchanged(pre, post)
                &&& if p.can_move_right(pre.spec_board()) {
                    &&& r == Ok::<(), TetrisError>(())
                    &&& post.spec_active() matches Some(p2) && p2.spec_kind() == p.spec_kind()
                        && p2.spec_orientation() == p.spec_orientation()
                        && p2.spec_position().spec_x() == p.spec_position().spec_x() + 1
                        && p2.spec_position().spec_y() == p.spec_position().spec_y()
                } else {
                    r == Err::<(), TetrisError>(TetrisError::InvalidRightMove) && post == pre
                }
            },
        }
    }

    /// What a rotation command does: the active piece's orientation moves
    /// to `o2` (its turned orientation) and nothing else changes. The
    /// engine deliberately checks no collision on rotation: it has no
    /// kick table.
    pub open spec fn post_rotate(
        pre: TetrisGame,
        post: TetrisGame,
        r: Result<(), TetrisError>,
        o2: crate::piece_type::Orientation,
    ) -> bool {
        match pre.spec_active() {
            Option::None => r == Err::<(), TetrisError>(TetrisError::GameNotStarted) && post
                == pre,
            Option::Some(p) => {
                &&& Self::frame_unchanged(pre, post)
                &&& r == Ok::<(), TetrisError>(())
                &&& post.spec_active() matches Some(p2) && p2.spec_kind() == p.spec_kind()
                    && p2.spec_orientation() == o2 && p2.spec_position() == p.spec_position()
                    && p2.wf()
            },
        }
    }

    /// What a hold command does: it is refused while holding is disabled;
    /// otherwise the active piece's kind goes to the hold slot, the
    /// previously held kind (or, with an empty slot, the next queued
    /// kind) spawns fresh, and holding is disabled until the next drop.
    pub open spec fn post_hold(
        pre: TetrisGame,
        post: TetrisGame,
        r: Result<(), TetrisError>,
    ) -> bool {
        if !pre.spec_can_hold() {
            r == Err::<(), TetrisError>(TetrisError::InvalidHold) && post == pre
        } else {
            match pre.spec_active() {
                Option::None => r == Err::<(), TetrisError>(TetrisError::GameNotStarted) && post
                    == pre,
                Option::Some(p) => {
                    &&& r == Ok::<(), TetrisError>(())
                    &&& post.spec_can_hold() == false
                    &&& post.spec_hold() == Some(p.spec_kind())
                    &&& post.spec_board() == pre.spec_board()
                    &&& post.spec_game_over() == pre.spec_game_over()
                    &&& post.spec_queue_size() == pre.spec_queue_size()
                    &&& post.spec_frame() == pre.spec_frame()
                    &&& match pre.spec_hold() {
                        Option::Some(h) => {
                            &&& post.spec_active() matches Some(p2) && p2.is_spawn(h)
                            &&& post.spec_queue() == pre.spec_queue()
                            &&& post.spec_bag() == pre.spec_bag()
                        },
                        Option::None => {
                            &&& pre.spec_queue().len() > 0 ==> (post.spec_active() matches Some(
                                p2,
                            ) && p2.is_spawn(pre.spec_queue()[0]))
                            &&& post.spec_queue().len() == pre.spec_queue_size()
                            &&& pre.spec_queue().skip(1).is_prefix_of(post.spec_queue())
                            &&& post.spec_bag().wf() && post.spec_bag().spec_size()
                                == pre.spec_bag().spec_size()
                        },
                    }
                },
            }
        }
    }

    /// What a hard-drop command does: the active piece is committed to
    /// the board exactly as `Board::hard_drop` describes, holding is
    /// re-enabled, and the next queued kind spawns fresh. A piece whose
    /// resting place would leave the grid is refused with the state
    /// exactly as it was.
    pub open spec fn post_hard_drop(
        pre: TetrisGame,
        post: TetrisGame,
        r: Result<(), TetrisError>,
    ) -> bool {
        match pre.spec_active() {
            Option::None => r == Err::<(), TetrisError>(TetrisError::GameNotStarted) && post
                == pre,
            Option::Some(p) => {
                let m = p.cells();
                let x = p.spec_position().spec_x();
                let h0 = pre.spec_board().heights();
                if spec_place_ok(m, x, h0) {
                    let py = 23 - spec_drop_y(m, x, h0);
                    let g1 = spec_place_grid(pre.spec_board().grid(), m, x, py);
                    let h1 = spec_place_heights(h0, m, x, py);
                    let k = spec_cleared_count(g1, m, py);
                    &&& r == Ok::<(), TetrisError>(())
                    &&& post.spec_board().grid() == spec_clear_grid(g1, m, py)
                    &&& post.spec_board().heights() == spec_clear_heights(h1, k)
                    &&& post.spec_can_hold() == true
                    &&& post.spec_hold() == pre.spec_hold()
                    &&& post.spec_game_over() == pre.spec_game_over()
                    &&& post.spec_queue_size() == pre.spec_queue_size()
                    &&& post.spec_frame() == pre.spec_frame()
                    &&& pre.spec_queue().len() > 0 ==> (post.spec_active() matches Some(p2)
                        && p2.is_spawn(pre.spec_queue()[0]))
                    &&& post.spec_queue().len() == pre.spec_queue_size()
                    &&& pre.spec_queue().skip(1).is_prefix_of(post.spec_queue())
                    &&& post.spec_bag().wf() && post.spec_bag().spec_size()
                        == pre.spec_bag().spec_size()
                } else {
                    r == Err::<(), TetrisError>(TetrisError::GameOver) && post == pre
                }
            },
        }
    }

    /// Creates a new sprint game with a specified bag and queue size.
    ///
    /// The bag size must fit `Bag::new`'s bounds, and a game with no
    /// preview queue could never promote a piece; both are caller errors.
    pub fn new(bag_size: u32, queue_size: usize) -> (g: Self)
        requires
            1 <= bag_size <= u32::MAX - 7,
            1 <= queue_size,
        ensures
            g.wf(),
            g.spec_hold() is None,
            g.spec_active() is None,
            g.spec_queue().len() == 0,
            g.spec_bag().spec_size() == bag_size,
            g.spec_bag().spec_curr() == 0,
            !g.spec_game_over(),
            g.spec_can_hold(),
            g.spec_queue_size() == queue_size,
            g.spec_frame() == 0,
            forall|r: int, c: int| 0 <= r < 24 && 0 <= c < 10 ==> !g.spec_board().grid()[r][c],
            forall|c: int| 0 <= c < 10 ==> g.spec_board().heights()[c] == 0,
    {
        TetrisGame {
            board: Board::new(),
            hold_piece: None,
            active_piece: None,
            piece_queue: VecDeque::new(),
            bag: Bag::new(bag_size),
            game_over: false,
            can_hold: true,
            queue_size,
            frame: 0,
        }
    }

    /// Creates a new TETR.IO sprint game with a bag size of 7 and queue
    /// size of 5.
    pub fn new_tetrio() -> (g: Self)
        ensures
            g.wf(),
            g.spec_hold() is None,
            g.spec_active() is None,
            g.spec_queue().len() == 0,
            g.spec_bag().spec_size() == 7,
            g.spec_bag().spec_curr() == 0,
            !g.spec_game_over(),
            g.spec_can_hold(),
            g.spec_queue_size() == 5,
            g.spec_frame() == 0,
            forall|r: int, c: int| 0 <= r < 24 && 0 <= c < 10 ==> !g.spec_board().grid()[r][c],
            forall|c: int| 0 <= c < 10 ==> g.spec_board().heights()[c] == 0,
    {
        TetrisGame {
            board: Board::new(),
            hold_piece: None,
            active_piece: None,
            piece_queue: VecDeque::new(),
            bag: Bag::new(7),
            game_over: false,
            can_hold: true,
            queue_size: 5,
            frame: 0,
        }
    }

    /// Fills the queue by drawing pieces from the game's bag until
    /// `self.piece_queue.len() == self.queue_size`. The kinds already
    /// queued keep their places; the drawn kinds append behind them.
    pub fn fill_queue(&mut self)
        requires
            old(self).wf(),
        ensures
            final(self).wf(),
            final(self).spec_queue().len() == final(self).spec_queue_size(),
            old(self).spec_queue().is_prefix_of(final(self).spec_queue()),
            final(self).spec_board() == old(self).spec_board(),
            final(self).spec_hold() == old(self).spec_hold(),
            final(self).spec_active() == old(self).spec_active(),
            final(self).spec_game_over() == old(self).spec_game_over(),
            final(self).spec_can_hold() == old(self).spec_can_hold(),
            final(self).spec_queue_size() == old(self).spec_queue_size(),
            final(self).spec_frame() == old(self).spec_frame(),
            final(self).spec_bag().wf(),
            final(self).spec_bag().spec_size() == old(self).spec_bag().spec_size(),
            old(self).spec_queue().len() == old(self).spec_queue_size() ==> *final(self) == *old(
                self,
            ),
    {
        #[verifier::loop_isolation(false)]
        while self.piece_queue.len() < self.queue_size
            invariant
                self.wf(),
                old(self).spec_queue().is_prefix_of(self.spec_queue()),
                self.spec_board() == old(self).spec_board(),
                self.spec_hold() == old(self).spec_hold(),
                self.spec_active() == old(self).spec_active(),
                self.spec_game_over() == old(self).spec_game_over(),
                self.spec_can_hold() == old(self).spec_can_hold(),
                self.spec_queue_size() == old(self).spec_queue_size(),
                self.spec_frame() == old(self).spec_frame(),
                self.spec_bag().wf(),
                self.spec_bag().spec_size() == old(self).spec_bag().spec_size(),
                old(self).spec_queue().len() == old(self).spec_queue_size() ==> *self == *old(
                    self,
                ),
            decreases self.queue_size - self.piece_queue.len(),
        {
            let kind = self.bag.draw();
            self.piece_queue.push_back(kind);
        }
    }

    /// Returns a reference to the game's board, `self.board`.
    pub fn board(&self) -> (b: &Board)
        ensures
            *b == self.spec_board(),
    {
        &self.board
    }

    /// Returns the type of the current hold piece if there is one, else
    /// `None`.
    pub fn hold_piece(&self) -> (h: Option<PieceType>)
        ensures
            h == self.spec_hold(),
    {
        self.hold_piece
    }

    /// Returns a reference to the current active piece if there is one,
    /// else `None`.
    pub fn active_piece(&self) -> (p: Option<&Piece>)
        ensures
            p is Some <==> self.spec_active() is Some,
            p matches Some(piece) ==> self.spec_active() == Some(*piece),
    {
        self.active_piece.as_ref()
    }

    /// Returns a reference to the upcoming piece queue.
    pub fn piece_queue(&self) -> (q: &VecDeque<PieceType>)
        ensures
            q@ == self.spec_queue(),
    {
        &self.piece_queue
    }

    /// Returns whether the game has ended.
    pub fn game_over(&self) -> (r: bool)
        ensures
            r == self.spec_game_over(),
    {
        self.game_over
    }

    /// Promotes the next queued kind to a fresh active piece at the spawn
    /// anchor and replenishes the queue; refused if a piece is already
    /// active.
    fn load_next_piece(&mut self) -> (r: Result<(), TetrisError>)
        requires
            old(self).wf(),
            old(self).spec_queue().len() == old(self).spec_queue_size(),
        ensures
            final(self).wf(),
            old(self).spec_active() is Some ==> r == Err::<(), TetrisError>(
                TetrisError::FailedToLoadPiece,
            ) && *final(self) == *old(self),
            old(self).spec_active() is None ==> {
                &&& r == Ok::<(), TetrisError>(())
                &&& final(self).spec_active() matches Some(p) && p.is_spawn(
                    old(self).spec_queue()[0],
                )
                &&& final(self).spec_queue().len() == final(self).spec_queue_size()
                &&& old(self).spec_queue().skip(1).is_prefix_of(final(self).spec_queue())
                &&& final(self).spec_board() == old(self).spec_board()
                &&& final(self).spec_hold() == old(self).spec_hold()
                &&& final(self).spec_game_over() == old(self).spec_game_over()
                &&& final(self).spec_can_hold() == old(self).spec_can_hold()
                &&& final(self).spec_queue_size() == old(self).spec_queue_size()
                &&& final(self).spec_frame() == old(self).spec_frame()
                &&& final(self).spec_bag().wf()
                &&& final(self).spec_bag().spec_size() == old(self).spec_bag().spec_size()
            },
    {
        if self.active_piece.is_some() {
            return Err(TetrisError::FailedToLoadPiece);
        }
        let kind = match self.piece_queue.pop_front() {
            Some(kind) => kind,
            None => vstd::pervasive::unreached(),
        };
        self.fill_queue();
        self.active_piece = Some(Piece::new(kind));
        Ok(())
    }

    /// Starts the game: fills the preview queue and promotes its first
    /// kind to the active piece. Refused after the game has ended, and
    /// refused as a double start while a piece is already active.
    pub fn start(&mut self) -> (r: Result<(), TetrisError>)
        requires
            old(self).wf(),
        ensures
            final(self).wf(),
            old(self).spec_game_over() ==> r == Err::<(), TetrisError>(TetrisError::GameOver)
                && *final(self) == *old(self),
            !old(self).spec_game_over() && old(self).spec_active() is Some ==> r == Err::<
                (),
                TetrisError,
            >(TetrisError::FailedToLoadPiece) && *final(self) == *old(self),
            !old(self).spec_game_over() && old(self).spec_active() is None ==> {
                &&& r == Ok::<(), TetrisError>(())
                &&& final(self).spec_active() matches Some(p) && exists|k: PieceType|
                    p.is_spawn(k)
                &&& old(self).spec_queue().len() > 0 ==> (final(self).spec_active() matches Some(
                    p,
                ) && p.is_spawn(old(self).spec_queue()[0]))
                &&& final(self).spec_board() == old(self).spec_board()
                &&& final(self).spec_hold() == old(self).spec_hold()
                &&& final(self).spec_game_over() == old(self).spec_game_over()
                &&& final(self).spec_can_hold() == old(self).spec_can_hold()
                &&& final(self).spec_queue_size() == old(self).spec_queue_size()
                &&& final(self).spec_frame() == old(self).spec_frame()
                &&& final(self).spec_queue().len() == final(self).spec_queue_size()
            },
    {
        if self.game_over {
            return Err(TetrisError::GameOver);
        }
        self.fill_queue();
        self.load_next_piece()
    }

    /// Ends the game. Terminal and irreversible: every later `start` or
    /// `next_frame` is refused.
    pub fn end_game(&mut self)
        ensures
            final(self).spec_game_over() == true,
            final(self).spec_board() == old(self).spec_board(),
            final(self).spec_hold() == old(self).spec_hold(),
            final(self).spec_active() == old(self).spec_active(),
            final(self).spec_queue() == old(self).spec_queue(),
            final(self).spec_bag() == old(self).spec_bag(),
            final(self).spec_can_hold() == old(self).spec_can_hold(),
            final(self).spec_queue_size() == old(self).spec_queue_size(),
            final(self).spec_frame() == old(self).spec_frame(),
    {
        self.game_over = true;
    }

    /// Moves the active piece one column to the left, if nothing blocks
    /// it; a blocked move is refused and changes nothing.
    pub fn move_left(&mut self) -> (r: Result<(), TetrisError>)
        requires
            old(self).wf(),
        ensures
            final(self).wf(),
            Self::post_move_left(*old(self), *final(self), r),
    {
        let board = &self.board;
        match &mut self.active_piece {
            None => Err(TetrisError::GameNotStarted),
            Some(p) => p.move_left(board),
        }
    }

    /// Moves the active piece one column to the right, if nothing blocks
    /// it; a blocked move is refused and changes nothing.
    pub fn move_right(&mut self) -> (r: Result<(), TetrisError>)
        requires
            old(self).wf(),
        ensures
            final(self).wf(),
            Self::post_move_right(*old(self), *final(self), r),
    {
        let board = &self.board;
        match &mut self.active_piece {
            None => Err(TetrisError::GameNotStarted),
            Some(p) => p.move_right(board),
        }
    }

    /// Rotates the active piece clockwise. No collision is checked.
    pub fn rotate_cw(&mut self) -> (r: Result<(), TetrisError>)
        requires
            old(self).wf(),
        ensures
            final(self).wf(),
            ({
                let o2 = match old(self).spec_active() {
                    Option::Some(p) => p.spec_orientation().spec_clockwise(),
                    Option::None => crate::piece_type::Orientation::North,
                };
                Self::post_rotate(*old(self), *final(self), r, o2)
            }),
    {
        match &mut self.active_piece {
            None => Err(TetrisError::GameNotStarted),
            Some(p) => p.rotate_cw(),
        }
    }

    /// Rotates the active piece counterclockwise. No collision is
    /// checked.
    pub fn rotate_ccw(&mut self) -> (r: Result<(), TetrisError>)
        requires
            old(self).wf(),
        ensures
            final(self).wf(),
            ({
                let o2 = match old(self).spec_active() {
                    Option::Some(p) => p.spec_orientation().spec_counterclockwise(),
                    Option::None => crate::piece_type::Orientation::North,
                };
                Self::post_rotate(*old(self), *final(self), r, o2)
            }),
    {
        match &mut self.active_piece {
            None => Err(TetrisError::GameNotStarted),
            Some(p) => p.rotate_ccw(),
        }
    }

    /// Rotates the active piece 180 degrees. No collision is checked.
    pub fn rotate_180(&mut self) -> (r: Result<(), TetrisError>)
        requires
            old(self).wf(),
        ensures
            final(self).wf(),
            ({
                let o2 = match old(self).spec_active() {
                    Option::Some(p) => p.spec_orientation().spec_opposite(),
                    Option::None => crate::piece_type::Orientation::North,
                };
                Self::post_rotate(*old(self), *final(self), r, o2)
            }),
    {
        match &mut self.active_piece {
            None => Err(TetrisError::GameNotStarted),
            Some(p) => p.rotate_180(),
        }
    }

    /// Swaps the active piece with the hold slot, promoting from the
    /// queue when the slot is empty. Valid only once between hard drops:
    /// a second hold is refused with `InvalidHold` and changes nothing.
    pub fn hold(&mut self) -> (r: Result<(), TetrisError>)
        requires
            old(self).wf(),
        ensures
            final(self).wf(),
            Self::post_hold(*old(self), *final(self), r),
    {
        if !self.can_hold {
            return Err(TetrisError::InvalidHold);
        }
        if self.active_piece.is_none() {
            return Err(TetrisError::GameNotStarted);
        }
        let active = match self.active_piece.take() {
            Some(p) => p,
            None => vstd::pervasive::unreached(),
        };
        let active_kind = active.kind();
        match self.hold_piece {
            Some(held) => {
                self.active_piece = Some(Piece::new(held));
            },
            None => {
                match self.load_next_piece() {
                    Ok(()) => {},
                    Err(_) => vstd::pervasive::unreached(),
                }
            },
        }
        self.hold_piece = Some(active_kind);
        self.can_hold = false;
        Ok(())
    }

    /// Commits the active piece to the board at its resting place,
    /// re-enables holding, and promotes the next queued piece. A piece
    /// whose resting place would leave the grid is refused and nothing
    /// changes.
    pub fn hard_drop(&mut self) -> (r: Result<(), TetrisError>)
        requires
            old(self).wf(),
        ensures
            final(self).wf(),
            Self::post_hard_drop(*old(self), *final(self), r),
    {
        match &self.active_piece {
            None => {
                return Err(TetrisError::GameNotStarted);
            },
            Some(p) => {
                if !self.board.can_place(p) {
                    return Err(TetrisError::GameOver);
                }
            },
        }
        let piece = match self.active_piece.take() {
            Some(p) => p,
            None => vstd::pervasive::unreached(),
        };
        match self.board.hard_drop(piece) {
            Ok(()) => {},
            Err(_) => vstd::pervasive::unreached(),
        }
        self.can_hold = true;
        match self.load_next_piece() {
            Ok(()) => {},
            Err(_) => vstd::pervasive::unreached(),
        }
        Ok(())
    }

    /// Routes one player intent to the command it names. Soft drops and
    /// snaps are not implemented; handing one in is a caller error.
    pub fn execute_input(&mut self, input: TetrisInput) -> (r: Result<(), TetrisError>)
        requires
            old(self).wf(),
            input_supported(input),
        ensures
            final(self).wf(),
            final(self).spec_frame() == old(self).spec_frame(),
            match input {
                TetrisInput::HardDrop => Self::post_hard_drop(*old(self), *final(self), r),
                TetrisInput::MoveLeft => Self::post_move_left(*old(self), *final(self), r),
                TetrisInput::MoveRight => Self::post_move_right(*old(self), *final(self), r),
                TetrisInput::RotateCW => ({
                    let o2 = match old(self).spec_active() {
                        Option::Some(p) => p.spec_orientation().spec_clockwise(),
                        Option::None => crate::piece_type::Orientation::North,
                    };
                    Self::post_rotate(*old(self), *final(self), r, o2)
                }),
                TetrisInput::RotateCCW => ({
                    let o2 = match old(self).spec_active() {
                        Option::Some(p) => p.spec_orientation().spec_counterclockwise(),
                        Option::None => crate::piece_type::Orientation::North,
                    };
                    Self::post_rotate(*old(self), *final(self), r, o2)
                }),
                TetrisInput::Rotate180 => ({
                    let o2 = match old(self).spec_active() {
                        Option::Some(p) => p.spec_orientation().spec_opposite(),
                        Option::None => crate::piece_type::Orientation::North,
                    };
                    Self::post_rotate(*old(self), *final(self), r, o2)
                }),
                TetrisInput::Hold => Self::post_hold(*old(self), *final(self), r),
                TetrisInput::Forfeit => ({
                    &&& r == Ok::<(), TetrisError>(())
                    &&& final(self).spec_game_over()
                    &&& final(self).spec_board() == old(self).spec_board()
                    &&& final(self).spec_hold() == old(self).spec_hold()
                    &&& final(self).spec_active() == old(self).spec_active()
                    &&& final(self).spec_queue() == old(self).spec_queue()
                    &&& final(self).spec_bag() == old(self).spec_bag()
                    &&& final(self).spec_can_hold() == old(self).spec_can_hold()
                    &&& final(self).spec_queue_size() == old(self).spec_queue_size()
                }),
                _ => true,
            },
    {
        match input {
            TetrisInput::SoftDrop => vstd::pervasive::unreached(),
            TetrisInput::HardDrop => self.hard_drop(),
            TetrisInput::MoveLeft => self.move_left(),
            TetrisInput::MoveRight => self.move_right(),
            TetrisInput::SnapRight => vstd::pervasive::unreached(),
            TetrisInput::SnapLeft => vstd::pervasive::unreached(),
            TetrisInput::RotateCW => self.rotate_cw(),
            TetrisInput::RotateCCW => self.rotate_ccw(),
            TetrisInput::Rotate180 => self.rotate_180(),
            TetrisInput::Hold => self.hold(),
            TetrisInput::Forfeit => {
                self.end_game();
                Ok(())
            },
        }
    }

    /// Advances the game by one frame, draining and executing the queued
    /// player intents in order (a rejected intent is dropped, not fatal).
    /// Refused before the game starts and after it ends, with the inputs
    /// untouched.
    pub fn next_frame(&mut self, inputs: &mut VecDeque<TetrisInput>) -> (r: Result<
        (),
        TetrisError,
    >)
        requires
            old(self).wf(),
            old(self).spec_frame() < u64::MAX,
            forall|i: int|
                0 <= i < old(inputs)@.len() ==> #[trigger] input_supported(old(inputs)@[i]),
        ensures
            final(self).wf(),
            old(self).spec_game_over() ==> r == Err::<(), TetrisError>(TetrisError::GameOver)
                && *final(self) == *old(self) && final(inputs)@ == old(inputs)@,
            !old(self).spec_game_over() && old(self).spec_active() is None ==> r == Err::<
                (),
                TetrisError,
            >(TetrisError::GameNotStarted) && *final(self) == *old(self) && final(inputs)@ == old(
                inputs,
            )@,
            !old(self).spec_game_over() && old(self).spec_active() is Some ==> {
                &&& r == Ok::<(), TetrisError>(())
                &&& final(self).spec_frame() == old(self).spec_frame() + 1
                &&& final(inputs)@.len() == 0
                &&& old(inputs)@.len() == 0 ==> ({
                    &&& final(self).spec_board() == old(self).spec_board()
                    &&& final(self).spec_hold() == old(self).spec_hold()
                    &&& final(self).spec_active() == old(self).spec_active()
                    &&& final(self).spec_queue() == old(self).spec_queue()
                    &&& final(self).spec_bag() == old(self).spec_bag()
                    &&& final(self).spec_game_over() == old(self).spec_game_over()
                    &&& final(self).spec_can_hold() == old(self).spec_can_hold()
                })
            },
    {
        if self.game_over {
            return Err(TetrisError::GameOver);
        }
        if self.active_piece().is_none() {
            return Err(TetrisError::GameNotStarted);
        }
        #[verifier::loop_isolation(false)]
        while inputs.len() > 0
            invariant
                self.wf(),
                self.spec_frame() == old(self).spec_frame(),
                forall|i: int|
                    0 <= i < inputs@.len() ==> #[trigger] input_supported(inputs@[i]),
                old(inputs)@.len() == 0 ==> *self == *old(self) && inputs@ == old(inputs)@,
            decreases inputs@.len(),
        {
            let input = match inputs.pop_front() {
                Some(input) => input,
                None => vstd::pervasive::unreached(),
            };
            let _ = self.execute_input(input);
        }
        self.frame = self.frame + 1;
        Ok(())
    }
}

impl Default for TetrisGame {
    /// A game with the default bag size of 7 and queue size of 5, as
    /// `TetrisGame::new` builds it.
    fn default() -> (g: Self)
        ensures
            g.wf(),
            g.spec_hold() is None,
            g.spec_active() is None,
            g.spec_queue().len() == 0,
            g.spec_bag().spec_size() == 7,
            !g.spec_game_over(),
            g.spec_can_hold(),
            g.spec_queue_size() == 5,
            g.spec_frame() == 0,
    {
        Self::new(7, 5)
    }
}

/// Hold is disabled until the next hard drop: after a successful hold,
/// any further hold is refused with `InvalidHold`, however often it is
/// tried, and leaves the state untouched.
pub proof fn lemma_hold_disables_hold(
    g0: TetrisGame,
    g1: TetrisGame,
    g2: TetrisGame,
    r1: Result<(), TetrisError>,
    r2: Result<(), TetrisError>,
)
    requires
        TetrisGame::post_hold(g0, g1, r1),
        r1 == Ok::<(), TetrisError>(()),
        TetrisGame::post_hold(g1, g2, r2),
    ensures
        r2 == Err::<(), TetrisError>(TetrisError::InvalidHold),
        g2 == g1,
{
}

/// A hard drop re-enables holding, and the next hold swaps the active
/// and held kinds: the piece spawned from the previously held kind
/// becomes active and the dropped-in piece's kind is held.
pub proof fn lemma_hold_after_drop_swaps(
    g0: TetrisGame,
    g1: TetrisGame,
    g2: TetrisGame,
    r1: Result<(), TetrisError>,
    r2: Result<(), TetrisError>,
    held: PieceType,
)
    requires
        TetrisGame::post_hard_drop(g0, g1, r1),
        r1 == Ok::<(), TetrisError>(()),
        g0.spec_active() is Some,
        g0.spec_hold() == Some(held),
        g1.spec_active() is Some,
        TetrisGame::post_hold(g1, g2, r2),
    ensures
        r2 == Ok::<(), TetrisError>(()),
        g2.spec_active() matches Some(p) && p.is_spawn(held),
        g1.spec_active() matches Some(q) && g2.spec_hold() == Some(q.spec_kind()),
{
}

} // verus!
