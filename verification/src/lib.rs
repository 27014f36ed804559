//! A move-legality and check/checkmate resolution engine for chess.
//!
//! The engine decides, for a requested move on an 8x8 board: whether the move
//! is legal for the side to move, whether it would leave the mover's own king
//! attacked, whether it places the rival in check, and whether that check is
//! checkmate.  The board travels as a 64-entry array of numeric piece codes
//! (0 = empty, 1-6 = white pawn..king, 7-12 = black pawn..king).

pub mod board;
pub mod game;
pub mod movement;
pub mod pieces;
pub mod player;

use vstd::prelude::*;

use crate::board::start_code;
use crate::game::{move_call_safe, move_to_outcome, Game};
use crate::pieces::piece::piece_name_view;

verus! {

/// The public face of the engine: one persisted game, and the operations
/// the surrounding platform calls on it.
pub struct Chess {
    pub game: Game,
}

impl Default for Chess {
    /// A fresh game in the standard starting position, white to move.
    fn default() -> (r: Self)
        ensures
            r.game.wf(),
            forall|i: int| 0 <= i < 64 ==> #[trigger] r.game.squares@[i] == start_code(i),
            r.game.turn == 0,
            r.game.player_turn == false,
            r.game.game_over == false,
            r.game.black_check == false,
            r.game.white_check == false,
    {
        Chess { game: Game::default() }
    }
}

impl Chess {
    /// Reset the game to the beginning.
    pub fn reset_game(&mut self) -> (r: String)
        ensures
            final(self).game.wf(),
            forall|i: int|
                0 <= i < 64 ==> #[trigger] final(self).game.squares@[i] == start_code(i),
            final(self).game.turn == 0,
            final(self).game.player_turn == false,
            final(self).game.game_over == false,
            final(self).game.black_check == false,
            final(self).game.white_check == false,
            r@ == "Reset successful."@,
    {
        self.game.reset_game_game()
    }

    /// Return the state of the game.
    pub fn get_game_status(&self) -> (r: Game)
        ensures
            crate::game::games_equal(self.game, r),
    {
        self.game.get_game_status_game()
    }

    /// Get the name of the piece in the given position.
    pub fn get_piece_name(&self, col: u8, row: u8) -> (r: String)
        requires
            self.game.wf(),
            col < 8,
            row < 8,
        ensures
            r@ == piece_name_view(self.game.squares@[row as int * 8 + col as int]),
    {
        self.game.get_piece_name_game(col, row)
    }

    /// Get the name of the piece at the given index.
    pub fn get_piece_name_index(&self, index: u8) -> (r: String)
        requires
            self.game.wf(),
            index < 64,
        ensures
            r@ == piece_name_view(self.game.squares@[index as int]),
    {
        self.game.get_piece_name_index_game(index)
    }

    /// Get the entire board as a string.
    pub fn get_board(&self) -> (r: String)
        requires
            self.game.wf(),
        ensures
            r@ == "\nBoard:\n"@ + crate::board::board_string_view(self.game.squares@) + "\n"@,
    {
        self.game.get_board_game()
    }

    /// Move a piece from position "current" to "target" by column and row.
    pub fn move_to(
        &mut self,
        current_col: u8,
        current_row: u8,
        target_col: u8,
        target_row: u8,
    ) -> (r: String)
        requires
            old(self).game.wf(),
            current_col < 8,
            current_row < 8,
            target_col < 8,
            target_row < 8,
            move_call_safe(
                old(self).game,
                current_row as int * 8 + current_col as int,
                target_row as int * 8 + target_col as int,
            ),
        ensures
            final(self).game.wf(),
            move_to_outcome(
                old(self).game,
                final(self).game,
                current_row as int * 8 + current_col as int,
                target_row as int * 8 + target_col as int,
                r@,
            ),
    {
        let current_index: u8 = current_row * 8 + current_col;
        let target_index: u8 = target_row * 8 + target_col;

        self.move_to_index(current_index, target_index)
    }

    /// Move a piece from position "current" to "target" by index.
    pub fn move_to_index(&mut self, current: u8, target: u8) -> (r: String)
        requires
            old(self).game.wf(),
            move_call_safe(old(self).game, current as int, target as int),
        ensures
            final(self).game.wf(),
            move_to_outcome(old(self).game, final(self).game, current as int, target as int, r@),
    {
        let response: String = self.game.move_to_game(current, target);

        response
    }
}

} // verus!
