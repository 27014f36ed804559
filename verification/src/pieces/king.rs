use vstd::prelude::*;

use crate::board::Board;
use crate::movement::report::Report;
use crate::movement::rules::{piece_dests, piece_gives_check};
use crate::movement::step::{steps_for, Step};
use crate::pieces::piece::{Color, Piece, PieceView};
use crate::pieces::piece_ext::PieceExt;

verus! {

/// A king: moves one square in any direction.
#[derive(Clone, Copy, PartialEq, Eq, Structural)]
pub struct King {
    pub color: Color,
    pub current_column: u8,
    pub current_row: u8,
}

impl PieceExt for King {
    open spec fn pv(&self) -> PieceView {
        PieceView {
            code: if self.color is WHITE {
                6
            } else {
                12
            },
            col: self.current_column,
            row: self.current_row,
        }
    }

    open spec fn wf(&self) -> bool {
        (self.color is WHITE || self.color is BLACK) && self.current_column < 8
            && self.current_row < 8
    }

    open spec fn accepts_code(code: u8) -> bool {
        code == 6 || code == 12
    }

    fn new(piece_number: u8, target_column: u8, target_row: u8) -> (r: Self) {
        let color: Color = if piece_number == 6 {
            Color::WHITE
        } else {
            Color::BLACK
        };

        King { color, current_column: target_column, current_row: target_row }
    }

    fn get_piece_number(&self) -> (r: u8) {
        match self.color {
            Color::WHITE => 6,
            Color::BLACK => 12,
            Color::EMPTY => unreached(),
        }
    }

    fn get_column(&self) -> (r: u8) {
        self.current_column
    }

    fn get_row(&self) -> (r: u8) {
        self.current_row
    }

    fn get_color(&self) -> (r: Color) {
        self.color
    }

    fn is_king(&self) -> (r: bool) {
        true
    }
}

impl King {
    /// Every destination this king can reach: one square in each of the
    /// eight directions.  A king's own move generation must never reach a
    /// king, so positions where it would are excluded.
    pub fn get_movement_report(&self, board: &Board, search_checkmate: bool) -> (r: Report)
        requires
            board.wf(),
            self.wf(),
            !piece_gives_check(board.work(), self.pv()),
        ensures
            r.piece == Piece::KING(*self),
            r.search_checkmate == search_checkmate,
            r.check == piece_gives_check(board.work(), self.pv()),
            r.steps@ == (if search_checkmate {
                Seq::<Step>::empty()
            } else {
                steps_for(Piece::KING(*self), board.built(), piece_dests(board.work(), self.pv()))
            }),
    {
        let mut report: Report = Report::new(Piece::KING(self.clone()), search_checkmate);

        report.apply_valid_ortogonal_positions(1, board);

        report.apply_valid_diagonal_positions(1, board);

        if report.is_check() {
            // Somehow the king managed to flag check; this must never happen.
            return unreached();
        }

        proof {
            if search_checkmate {
                assert(report.steps@ =~= Seq::<Step>::empty());
            } else {
                crate::movement::step::lemma_steps_for_add(
                    Piece::KING(*self),
                    board.built(),
                    crate::movement::rules::ortho_dests(
                        board.work(),
                        crate::pieces::piece::code_color(self.pv().code),
                        self.pv().col as int,
                        self.pv().row as int,
                        1,
                    ),
                    crate::movement::rules::diag_dests(
                        board.work(),
                        crate::pieces::piece::code_color(self.pv().code),
                        self.pv().col as int,
                        self.pv().row as int,
                        1,
                    ),
                );
                assert(report.steps@ =~= steps_for(
                    Piece::KING(*self),
                    board.built(),
                    piece_dests(board.work(), self.pv()),
                ));
            }
        }

        report
    }
}

} // verus!
