use vstd::prelude::*;

verus! {

/// The recoverable outcomes of a move request.  Every one of them is raised
/// at exactly one step of the move pipeline and surfaces unchanged to the
/// caller.
#[derive(Clone, Copy, PartialEq, Eq, Structural, Debug)]
pub enum ErrorResponse {
    /// The movement starts on a position that has no piece.
    NoPiece,
    /// The movement starts on a position owned by the rival player.
    RivalPiece,
    /// The target position is invalid for the given piece.
    InvalidMove,
    /// The move would leave, or keep, the mover's own king under check.
    KingIsCheck,
    /// The rival king is under check and no reply escapes: the game ends.
    CheckMate,
    /// The move counter reached its ceiling, or the game is already over.
    GameOver,
}

} // verus!
