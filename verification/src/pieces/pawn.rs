use vstd::prelude::*;

use crate::board::Board;
use crate::movement::report::Report;
use crate::movement::rules::{
    pawn_forward, pawn_start_row, piece_dests, piece_gives_check, probe_dests,
};
use crate::movement::step::{lemma_probe_append, steps_for, Step};
use crate::pieces::piece::{code_color, Color, Piece, PieceView};
use crate::pieces::piece_ext::PieceExt;

verus! {

/// A pawn: moves one square forward onto an empty square, two from its
/// starting rank (both squares empty), and captures one square diagonally
/// forward.
#[derive(Clone, Copy, PartialEq, Eq, Structural)]
pub struct Pawn {
    pub color: Color,
    pub current_column: u8,
    pub current_row: u8,
}

impl PieceExt for Pawn {
    open spec fn pv(&self) -> PieceView {
        PieceView {
            code: if self.color is WHITE {
                1
            } else {
                7
            },
            col: self.current_column,
            row: self.current_row,
        }
    }

    open spec fn wf(&self) -> bool {
        (self.color is WHITE || self.color is BLACK) && self.current_column < 8
            && self.current_row < 8
    }

    open spec fn accepts_code(code: u8) -> bool {
        code == 1 || code == 7
    }

    fn new(piece_number: u8, target_column: u8, target_row: u8) -> (r: Self) {
        let color: Color = if piece_number == 1 {
            Color::WHITE
        } else {
            Color::BLACK
        };

        Pawn { color, current_column: target_column, current_row: target_row }
    }

    fn get_piece_number(&self) -> (r: u8) {
        match self.color {
            Color::WHITE => 1,
            Color::BLACK => 7,
            Color::EMPTY => unreached(),
        }
    }

    fn get_column(&self) -> (r: u8) {
        self.current_column
    }

    fn get_row(&self) -> (r: u8) {
        self.current_row
    }

    fn get_color(&self) -> (r: Color) {
        self.color
    }

    fn is_king(&self) -> (r: bool) {
        false
    }
}

impl Pawn {
    /// Whether the pawn still stands on its side's starting rank, which is
    /// determined by colour, not by move history.
    pub fn is_first_move(&self) -> (r: bool)
        requires
            self.wf(),
        ensures
            r == (self.pv().row as int == pawn_start_row(code_color(self.pv().code))),
    {
        match self.color {
            Color::WHITE => self.current_row == 6,
            Color::BLACK => self.current_row == 1,
            Color::EMPTY => unreached(),
        }
    }

    /// Every destination this pawn can reach: one square forward onto an
    /// empty square; two squares forward from the starting rank when both
    /// squares are empty; and one square diagonally forward onto a rival
    /// piece only.  In probe mode only the check flag is kept.
    pub fn get_movement_report(&self, board: &Board, search_checkmate: bool) -> (r: Report)
        requires
            board.wf(),
            self.wf(),
        ensures
            r.piece == Piece::PAWN(*self),
            r.search_checkmate == search_checkmate,
            r.check == piece_gives_check(board.work(), self.pv()),
            r.steps@ == (if search_checkmate {
                Seq::<Step>::empty()
            } else {
                steps_for(Piece::PAWN(*self), board.built(), piece_dests(board.work(), self.pv()))
            }),
    {
        let mut report: Report = Report::new(Piece::PAWN(self.clone()), search_checkmate);

        let col = self.get_column();
        let row = self.get_row();

        // Black advances down the board, white up.
        let step: i8 = match self.color {
            Color::EMPTY => unreached(),
            Color::BLACK => 1,
            Color::WHITE => -1,
        };

        let front_step: i8 = row as i8 + step;

        let ghost b = board.work();
        let ghost built = board.built();
        let ghost p = Piece::PAWN(*self);
        let ghost color = code_color(p.pv().code);
        let ghost c0 = col as int;
        let ghost r0 = row as int;
        let ghost d = pawn_forward(color);
        let ghost mut acc: Seq<(int, int)> = Seq::empty();

        proof {
            assert(steps_for(p, built, acc) =~= Seq::<Step>::empty());
        }

        // One square forward, onto an empty square only; remember whether
        // the square ahead is open, for the two-square advance below.
        let front_open: bool = report.include_step(board, col as i8, front_step, false, true);
        proof {
            lemma_probe_append(p, built, b, color, acc, c0, r0 + d, false, true);
            acc = acc + probe_dests(b, color, c0, r0 + d, false, true);
        }

        if front_open && self.is_first_move() {
            // From the starting rank the pawn may take an extra step
            // forward, over the empty intervening square.
            report.include_step(board, col as i8, front_step + step, false, true);
            proof {
                lemma_probe_append(p, built, b, color, acc, c0, r0 + 2 * d, false, true);
                acc = acc + probe_dests(b, color, c0, r0 + 2 * d, false, true);
            }
        }

        report.include_step(board, col as i8 + 1, front_step, true, false);
        proof {
            lemma_probe_append(p, built, b, color, acc, c0 + 1, r0 + d, true, false);
            acc = acc + probe_dests(b, color, c0 + 1, r0 + d, true, false);
        }

        report.include_step(board, col as i8 - 1, front_step, true, false);
        proof {
            lemma_probe_append(p, built, b, color, acc, c0 - 1, r0 + d, true, false);
            acc = acc + probe_dests(b, color, c0 - 1, r0 + d, true, false);
        }

        proof {
            assert(acc =~= piece_dests(b, self.pv()));
        }

        report
    }
}

} // verus!
