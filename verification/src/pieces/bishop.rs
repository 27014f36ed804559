use vstd::prelude::*;

use crate::board::Board;
use crate::movement::report::Report;
use crate::movement::rules::{piece_dests, piece_gives_check};
use crate::movement::step::{steps_for, Step};
use crate::pieces::piece::{Color, Piece, PieceView};
use crate::pieces::piece_ext::PieceExt;

verus! {

/// A bishop: slides along diagonals up to seven squares.
#[derive(Clone, Copy, PartialEq, Eq, Structural)]
pub struct Bishop {
    pub color: Color,
    pub current_column: u8,
    pub current_row: u8,
}

impl PieceExt for Bishop {
    open spec fn pv(&self) -> PieceView {
        PieceView {
            code: if self.color is WHITE {
                4
            } else {
                10
            },
            col: self.current_column,
            row: self.current_row,
        }
    }

    open spec fn wf(&self) -> bool {
        (self.color is WHITE || self.color is BLACK) && self.current_column < 8
            && self.current_row < 8
    }

    open spec fn accepts_code(code: u8) -> bool {
        code == 4 || code == 10
    }

    fn new(piece_number: u8, target_column: u8, target_row: u8) -> (r: Self) {
        let color: Color = if piece_number == 4 {
            Color::WHITE
        } else {
            Color::BLACK
        };

        Bishop { color, current_column: target_column, current_row: target_row }
    }

    fn get_piece_number(&self) -> (r: u8) {
        match self.color {
            Color::WHITE => 4,
            Color::BLACK => 10,
            Color::EMPTY => unreached(),
        }
    }

    fn get_column(&self) -> (r: u8) {
        self.current_column
    }

    fn get_row(&self) -> (r: u8) {
        self.current_row
    }

    fn get_color(&self) -> (r: Color) {
        self.color
    }

    fn is_king(&self) -> (r: bool) {
        false
    }
}

impl Bishop {
    /// Every destination this bishop can reach: the four diagonal rays, up to
    /// seven squares each.  In probe mode only the check flag is kept.
    pub fn get_movement_report(&self, board: &Board, search_checkmate: bool) -> (r: Report)
        requires
            board.wf(),
            self.wf(),
        ensures
            r.piece == Piece::BISHOP(*self),
            r.search_checkmate == search_checkmate,
            r.check == piece_gives_check(board.work(), self.pv()),
            r.steps@ == (if search_checkmate {
                Seq::<Step>::empty()
            } else {
                steps_for(Piece::BISHOP(*self), board.built(), piece_dests(board.work(), self.pv()))
            }),
    {
        let mut report: Report = Report::new(Piece::BISHOP(self.clone()), search_checkmate);

        report.apply_valid_diagonal_positions(7, board);

        proof {
            if search_checkmate {
                assert(report.steps@ =~= Seq::<Step>::empty());
            } else {
                assert(report.steps@ =~= steps_for(
                    Piece::BISHOP(*self),
                    board.built(),
                    piece_dests(board.work(), self.pv()),
                ));
            }
        }

        report
    }
}

} // verus!
