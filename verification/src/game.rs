use vstd::prelude::*;
use vstd::string::StringExecFns;

use crate::board::{board_string_view, start_code, Board};
use crate::movement::rules::{
    apply_move, color_kings_safe, has_escape, threatens, valid_move_codes,
};
use crate::movement::step::Step;
use crate::pieces::piece::{code_color, piece_name_view, rival_of, Color, Piece};
use crate::player::errors::ErrorResponse;
use crate::player::players::{move_request_safe, Players};

verus! {

// squares holds each position of the board as a canonical code.
// turn counts how many movements the game has completed.
// player_turn: false for white, true for black.
// game_over: when set, no further move can be made.
// black_check / white_check: whether that side is currently under check,
// kept for status reporting.

/// The persisted game state between move requests.
pub struct Game {
    pub squares: Vec<u8>,
    pub turn: u8,
    pub player_turn: bool,
    pub game_over: bool,
    pub black_check: bool,
    pub white_check: bool,
}

/// The side a stored side-to-move boolean denotes.
pub open spec fn side_of(player_turn: bool) -> Color {
    if player_turn {
        Color::BLACK
    } else {
        Color::WHITE
    }
}

/// The text returned for each recoverable error.
pub open spec fn error_text(error: ErrorResponse) -> Seq<char> {
    match error {
        ErrorResponse::NoPiece => "No piece found in given position. "@,
        ErrorResponse::RivalPiece => "A rival player owns this piece. "@,
        ErrorResponse::InvalidMove => "Invalid move. "@,
        ErrorResponse::KingIsCheck => "King is currently under check"@,
        ErrorResponse::CheckMate => "CheckMate"@,
        ErrorResponse::GameOver => "Game is already over"@,
    }
}

/// The panic-freedom condition for one stored-state move call: where the
/// call proceeds past its own argument checks, no stage of the transaction
/// lets a king's move generation reach a rival king.
pub open spec fn move_call_safe(g: Game, current: int, target: int) -> bool {
    (!g.game_over && 0 <= current < 64 && 0 <= target < 64) ==> {
        &&& color_kings_safe(g.squares@, Color::WHITE)
        &&& color_kings_safe(g.squares@, Color::BLACK)
        &&& move_request_safe(g.squares@, side_of(g.player_turn), current, target)
    }
}

/// Two game states that agree on every stored value.
pub open spec fn games_equal(g0: Game, g1: Game) -> bool {
    &&& g1.squares@ == g0.squares@
    &&& g1.turn == g0.turn
    &&& g1.player_turn == g0.player_turn
    &&& g1.game_over == g0.game_over
    &&& g1.black_check == g0.black_check
    &&& g1.white_check == g0.white_check
}

/// What one stored-state move call does: which text comes back, and how the
/// stored position, side to move, counter and flags change, for every
/// request the state machine distinguishes.
pub open spec fn move_to_outcome(
    g0: Game,
    g1: Game,
    current: int,
    target: int,
    text: Seq<char>,
) -> bool {
    if g0.game_over {
        &&& games_equal(g0, g1)
        &&& text == "Game already over, check status or call reset."@
    } else if current > 63 || target > 63 {
        &&& games_equal(g0, g1)
        &&& text == "Invalid Arguments. Must be lower than 64."@
    } else {
        let b0 = g0.squares@;
        let m = side_of(g0.player_turn);
        let v = rival_of(m);
        let b1 = apply_move(b0, current, target);
        let okc = code_color(b0[current]) == m;
        let okv = valid_move_codes(b0, m, current, target);
        let self_check = threatens(b1, v);
        let rival_check = threatens(b1, m);
        let mate = rival_check && !has_escape(b1, v);
        let accepted = okv && !self_check;
        &&& (!okc ==> games_equal(g0, g1) && text == "A rival player owns this piece. "@)
        &&& (okc && !okv ==> games_equal(g0, g1) && text == "Invalid move. "@)
        &&& (okv && self_check ==> games_equal(g0, g1) && text == "King is currently under check"@)
        &&& (accepted ==> {
            &&& g1.squares@ == b1
            &&& (v is BLACK ==> g1.black_check == rival_check && g1.white_check == false)
            &&& (v is WHITE ==> g1.white_check == rival_check && g1.black_check == false)
        })
        &&& (accepted && mate ==> g1.game_over == true && g1.player_turn == g0.player_turn
            && g1.turn == g0.turn && text == "CheckMate"@)
        &&& (accepted && !mate && g0.turn + 1 == 255 ==> g1.game_over == true && g1.player_turn
            == (v is BLACK) && g1.turn == 255 && text == "Game is already over"@)
        &&& (accepted && !mate && g0.turn + 1 != 255 ==> g1.game_over == false && g1.player_turn
            == (v is BLACK) && g1.turn == g0.turn + 1 && text == "Move successful."@)
    }
}

impl Default for Game {
    /// A fresh game: the standard starting position, white to move.
    fn default() -> (r: Self)
        ensures
            r.wf(),
            r.squares@.len() == 64,
            forall|i: int| 0 <= i < 64 ==> #[trigger] r.squares@[i] == start_code(i),
            r.turn == 0,
            r.player_turn == false,
            r.game_over == false,
            r.black_check == false,
            r.white_check == false,
    {
        let squares: Vec<u8> = Game::default_squares();

        Game {
            squares,
            turn: 0,
            player_turn: false,
            game_over: false,
            black_check: false,
            white_check: false,
        }
    }
}

impl Game {
    /// Canonical codes in range, 64 squares, and a game past the counter
    /// ceiling is always marked over.
    pub open spec fn wf(&self) -> bool {
        &&& self.squares@.len() == 64
        &&& forall|i: int| 0 <= i < 64 ==> #[trigger] self.squares@[i] <= 12
        &&& (self.turn == 255 ==> self.game_over)
    }

    /// The standard starting position as a stored vector.
    fn default_squares() -> (r: Vec<u8>)
        ensures
            r@.len() == 64,
            forall|i: int| 0 <= i < 64 ==> #[trigger] r@[i] == start_code(i),
            forall|i: int| 0 <= i < 64 ==> #[trigger] r@[i] <= 12,
    {
        let start: [u8; 64] = Board::get_default_board();

        let mut squares: Vec<u8> = Vec::new();
        let mut index: usize = 0;

        while index < 64
            invariant
                index <= 64,
                squares@.len() == index,
                forall|j: int| 0 <= j < index ==> #[trigger] squares@[j] == start@[j],
                forall|j: int| 0 <= j < 64 ==> #[trigger] start@[j] == start_code(j),
            decreases 64 - index,
        {
            squares.push(start[index]);

            index += 1;
        }

        squares
    }

    /// Map an engine error to its user-facing text; checkmate and the
    /// counter ceiling also end the game.
    fn handle_error(&mut self, error: ErrorResponse) -> (r: String)
        ensures
            r@ == error_text(error),
            final(self).squares@ == old(self).squares@,
            final(self).turn == old(self).turn,
            final(self).player_turn == old(self).player_turn,
            final(self).black_check == old(self).black_check,
            final(self).white_check == old(self).white_check,
            final(self).game_over == (old(self).game_over || error is CheckMate
                || error is GameOver),
    {
        let message: &str = match error {
            ErrorResponse::NoPiece => "No piece found in given position. ",
            ErrorResponse::RivalPiece => "A rival player owns this piece. ",
            ErrorResponse::InvalidMove => "Invalid move. ",
            ErrorResponse::KingIsCheck => "King is currently under check",
            ErrorResponse::CheckMate => {
                self.game_over = true;
                "CheckMate"
            },
            ErrorResponse::GameOver => {
                self.game_over = true;
                "Game is already over"
            },
        };

        message.to_owned()
    }

    pub fn get_squares(&self) -> (r: Vec<u8>)
        ensures
            r@ == self.squares@,
    {
        let mut out: Vec<u8> = Vec::new();
        let mut index: usize = 0;

        while index < self.squares.len()
            invariant
                index <= self.squares@.len(),
                out@ == self.squares@.take(index as int),
            decreases self.squares@.len() - index,
        {
            out.push(self.squares[index]);

            proof {
                assert(out@ =~= self.squares@.take(index as int + 1));
            }

            index += 1;
        }

        proof {
            assert(out@ =~= self.squares@);
        }

        out
    }

    pub fn get_turn(&self) -> (r: u8)
        ensures
            r == self.turn,
    {
        self.turn
    }

    pub fn get_player_turn(&self) -> (r: bool)
        ensures
            r == self.player_turn,
    {
        self.player_turn
    }

    pub fn is_game_over(&self) -> (r: bool)
        ensures
            r == self.game_over,
    {
        self.game_over
    }

    pub fn is_black_check(&self) -> (r: bool)
        ensures
            r == self.black_check,
    {
        self.black_check
    }

    pub fn is_white_check(&self) -> (r: bool)
        ensures
            r == self.white_check,
    {
        self.white_check
    }

    /// Put the game back to the beginning.
    pub fn reset_game_game(&mut self) -> (r: String)
        ensures
            final(self).wf(),
            final(self).squares@.len() == 64,
            forall|i: int| 0 <= i < 64 ==> #[trigger] final(self).squares@[i] == start_code(i),
            final(self).turn == 0,
            final(self).player_turn == false,
            final(self).game_over == false,
            final(self).black_check == false,
            final(self).white_check == false,
            r@ == "Reset successful."@,
    {
        self.squares = Game::default_squares();
        self.turn = 0;
        self.player_turn = false;
        self.game_over = false;
        self.black_check = false;
        self.white_check = false;

        "Reset successful.".to_owned()
    }

    /// A copy of the whole game state, as handed to the status caller.
    pub fn get_game_status_game(&self) -> (r: Self)
        ensures
            r.squares@ == self.squares@,
            r.turn == self.turn,
            r.player_turn == self.player_turn,
            r.game_over == self.game_over,
            r.black_check == self.black_check,
            r.white_check == self.white_check,
    {
        let squares: Vec<u8> = self.get_squares();

        Game {
            squares,
            turn: self.turn,
            player_turn: self.player_turn,
            game_over: self.game_over,
            black_check: self.black_check,
            white_check: self.white_check,
        }
    }

    /// The stored position as a printable square of digits.
    pub fn get_board_game(&self) -> (r: String)
        requires
            self.wf(),
        ensures
            r@ == "\nBoard:\n"@ + board_string_view(self.squares@) + "\n"@,
    {
        let mut response: String = "\nBoard:\n".to_owned();

        let body: String = Board::get_board_string(self.squares.as_slice());

        response.append(body.as_str());
        response.append("\n");

        response
    }

    /// The name of the piece standing on the given column and row.
    pub fn get_piece_name_game(&self, col: u8, row: u8) -> (r: String)
        requires
            self.wf(),
            col < 8,
            row < 8,
        ensures
            r@ == piece_name_view(self.squares@[row as int * 8 + col as int]),
    {
        let index: u8 = row * 8 + col;

        self.get_piece_name_index_game(index)
    }

    /// The name of the piece standing on the given board index.
    pub fn get_piece_name_index_game(&self, index: u8) -> (r: String)
        requires
            self.wf(),
            index < 64,
        ensures
            r@ == piece_name_view(self.squares@[index as int]),
    {
        let piece_number: u8 = self.squares[index as usize];

        Piece::get_piece_name(piece_number)
    }

    /// Copy the committed board and turn state back into the stored game.
    fn store_board(&mut self, board: &Board, players: &Players)
        requires
            players.wf(),
        ensures
            final(self).squares@ == board.canon(),
            final(self).player_turn == (players.turn.current_player is BLACK),
            final(self).turn == players.turn.value,
            final(self).black_check == players.turn.black_check,
            final(self).white_check == players.turn.white_check,
            final(self).game_over == old(self).game_over,
    {
        let board_array: [u8; 64] = board.get_board_array();

        self.squares.clear();

        let mut index: usize = 0;

        while index < 64
            invariant
                index <= 64,
                self.squares@ == board_array@.take(index as int),
                self.turn == old(self).turn,
                self.player_turn == old(self).player_turn,
                self.game_over == old(self).game_over,
                self.black_check == old(self).black_check,
                self.white_check == old(self).white_check,
            decreases 64 - index,
        {
            self.squares.push(board_array[index]);

            proof {
                assert(self.squares@ =~= board_array@.take(index as int + 1));
            }

            index += 1;
        }

        proof {
            assert(self.squares@ =~= board_array@);
        }

        let (player_turn, turn): (bool, u8) = players.get_turn_status();

        self.player_turn = player_turn;
        self.turn = turn;
        self.black_check = players.turn.is_black_check();
        self.white_check = players.turn.is_white_check();
    }

    /// Run one move request against the stored state: build the board and
    /// the players, run the transaction, and store the result.  A rejected
    /// move leaves the stored state unchanged; checkmate and the counter
    /// ceiling commit the move and end the game.
    pub fn move_to_game(&mut self, current: u8, target: u8) -> (r: String)
        requires
            old(self).wf(),
            move_call_safe(*old(self), current as int, target as int),
        ensures
            final(self).wf(),
            move_to_outcome(*old(self), *final(self), current as int, target as int, r@),
    {
        if self.game_over {
            return "Game already over, check status or call reset.".to_owned();
        }

        if (current > 63) || (target > 63) {
            return "Invalid Arguments. Must be lower than 64.".to_owned();
        }

        let current_player: bool = self.player_turn;
        let turn: u8 = self.turn;

        let mut squares: [u8; 64] = [0; 64];
        let mut index: usize = 0;

        while index < 64
            invariant
                index <= 64,
                self.squares@.len() == 64,
                forall|j: int| 0 <= j < 64 ==> #[trigger] self.squares@[j] <= 12,
                forall|j: int| 0 <= j < index ==> #[trigger] squares@[j] == self.squares@[j],
            decreases 64 - index,
        {
            squares[index] = self.squares[index];

            index += 1;
        }

        proof {
            assert(squares@ =~= self.squares@);
        }

        let mut board: Board = Board::new(squares);

        let mut players: Players = Players::new(&board, current_player, turn);

        let step: Step = Step::new_index(current, target, &board);

        let result: Result<(), ErrorResponse> = players.move_to(&mut board, step);

        match result {
            Result::Err(err) => {
                match err {
                    ErrorResponse::CheckMate | ErrorResponse::GameOver => {
                        // These two commit the move before the game ends, so
                        // the position and turn state are kept.
                        self.store_board(&board, &players);
                    },
                    _ => {},
                }

                self.handle_error(err)
            },
            Result::Ok(()) => {
                self.store_board(&board, &players);

                "Move successful.".to_owned()
            },
        }
    }
}

} // verus!
