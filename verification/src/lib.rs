//! A verified falling-block puzzle simulation engine.
//!
//! The crate tracks a 10x24 playfield with cached column heights, the
//! geometry of the seven tetromino kinds across their four orientations,
//! collision-checked lateral movement, arithmetic hard drops with line
//! clearing, a fairness-constrained shuffle-bag randomizer, and a small
//! state machine that drives them from player intents. Every public
//! operation carries a contract describing exactly what it returns and
//! changes; rendering and input are left to callers.

use vstd::prelude::*;

pub mod bag;
pub mod board;
pub mod game;
pub mod piece;
pub mod piece_type;
pub mod position;

pub use bag::Bag;
pub use board::Board;
pub use game::TetrisGame;
pub use piece::Piece;
pub use piece_type::Orientation;
pub use piece_type::PieceType;
pub use position::Position;

verus! {

/// A recoverable rule violation reported by the engine.
///
/// Every rejected command leaves the game state exactly as it was before
/// the call.
#[derive(Debug, PartialEq, Eq, Structural)]
pub enum TetrisError {
    InvalidRightMove,
    InvalidLeftMove,
    InvalidCWRotation,
    InvalidCCWRotation,
    InvalidHold,
    FailedToLoadPiece,
    GameOver,
    GameNotStarted,
}

/// A player intent consumed by the game's input handling.
#[derive(Clone)]
pub enum TetrisInput {
    SoftDrop,
    HardDrop,
    MoveLeft,
    MoveRight,
    SnapRight,
    SnapLeft,
    RotateCW,
    RotateCCW,
    Rotate180,
    Hold,
    Forfeit,
}

/// The intents the engine implements. Soft drops and snaps are out of
/// scope, and handing one to the input dispatcher is a caller error.
pub open spec fn input_supported(input: TetrisInput) -> bool {
    match input {
        TetrisInput::SoftDrop => false,
        TetrisInput::SnapRight => false,
        TetrisInput::SnapLeft => false,
        _ => true,
    }
}

} // verus!
