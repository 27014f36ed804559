use vstd::prelude::*;

use crate::board::Board;
use crate::movement::report::Report;
use crate::movement::rules::{piece_dests, piece_gives_check, probe_dests};
use crate::movement::step::{lemma_probe_append, steps_for, Step};
use crate::pieces::piece::{code_color, Color, Piece, PieceView};
use crate::pieces::piece_ext::PieceExt;

verus! {

/// A knight: jumps to one of eight fixed offsets.
#[derive(Clone, Copy, PartialEq, Eq, Structural)]
pub struct Knight {
    pub color: Color,
    pub current_column: u8,
    pub current_row: u8,
}

impl PieceExt for Knight {
    open spec fn pv(&self) -> PieceView {
        PieceView {
            code: if self.color is WHITE {
                3
            } else {
                9
            },
            col: self.current_column,
            row: self.current_row,
        }
    }

    open spec fn wf(&self) -> bool {
        (self.color is WHITE || self.color is BLACK) && self.current_column < 8
            && self.current_row < 8
    }

    open spec fn accepts_code(code: u8) -> bool {
        code == 3 || code == 9
    }

    fn new(piece_number: u8, target_column: u8, target_row: u8) -> (r: Self) {
        let color: Color = if piece_number == 3 {
            Color::WHITE
        } else {
            Color::BLACK
        };

        Knight { color, current_column: target_column, current_row: target_row }
    }

    fn get_piece_number(&self) -> (r: u8) {
        match self.color {
            Color::WHITE => 3,
            Color::BLACK => 9,
            Color::EMPTY => unreached(),
        }
    }

    fn get_column(&self) -> (r: u8) {
        self.current_column
    }

    fn get_row(&self) -> (r: u8) {
        self.current_row
    }

    fn get_color(&self) -> (r: Color) {
        self.color
    }

    fn is_king(&self) -> (r: bool) {
        false
    }
}

impl Knight {
    /// Every destination this knight can jump to: the eight fixed offsets,
    /// probed one by one.  In probe mode only the check flag is kept.
    pub fn get_movement_report(&self, board: &Board, search_checkmate: bool) -> (r: Report)
        requires
            board.wf(),
            self.wf(),
        ensures
            r.piece == Piece::KNIGHT(*self),
            r.search_checkmate == search_checkmate,
            r.check == piece_gives_check(board.work(), self.pv()),
            r.steps@ == (if search_checkmate {
                Seq::<Step>::empty()
            } else {
                steps_for(Piece::KNIGHT(*self), board.built(), piece_dests(board.work(), self.pv()))
            }),
    {
        let mut report: Report = Report::new(Piece::KNIGHT(self.clone()), search_checkmate);

        let row: i8 = self.current_row as i8;
        let col: i8 = self.current_column as i8;

        let ghost b = board.work();
        let ghost built = board.built();
        let ghost p = Piece::KNIGHT(*self);
        let ghost color = code_color(p.pv().code);
        let ghost c0 = col as int;
        let ghost r0 = row as int;
        let ghost mut acc: Seq<(int, int)> = Seq::empty();

        proof {
            assert(steps_for(p, built, acc) =~= Seq::<Step>::empty());
        }

        // X: position on the board; K: where the knight stands;
        // 1 to 8: every position the knight may try to occupy.
        //
        // - - - - - - - -
        // - - - 8 - 7 - -
        // - - 4 - - - 2 -
        // - - - - K - - -
        // - - 3 - - - 1 -
        // - - - 6 - 5 - -
        // - - - - - - - -

        report.include_step(board, col + 2, row + 1, false, false);
        proof {
            lemma_probe_append(p, built, b, color, acc, c0 + 2, r0 + 1, false, false);
            acc = acc + probe_dests(b, color, c0 + 2, r0 + 1, false, false);
        }

        report.include_step(board, col + 2, row - 1, false, false);
        proof {
            lemma_probe_append(p, built, b, color, acc, c0 + 2, r0 - 1, false, false);
            acc = acc + probe_dests(b, color, c0 + 2, r0 - 1, false, false);
        }

        report.include_step(board, col - 2, row + 1, false, false);
        proof {
            lemma_probe_append(p, built, b, color, acc, c0 - 2, r0 + 1, false, false);
            acc = acc + probe_dests(b, color, c0 - 2, r0 + 1, false, false);
        }

        report.include_step(board, col - 2, row - 1, false, false);
        proof {
            lemma_probe_append(p, built, b, color, acc, c0 - 2, r0 - 1, false, false);
            acc = acc + probe_dests(b, color, c0 - 2, r0 - 1, false, false);
        }

        report.include_step(board, col + 1, row + 2, false, false);
        proof {
            lemma_probe_append(p, built, b, color, acc, c0 + 1, r0 + 2, false, false);
            acc = acc + probe_dests(b, color, c0 + 1, r0 + 2, false, false);
        }

        report.include_step(board, col - 1, row + 2, false, false);
        proof {
            lemma_probe_append(p, built, b, color, acc, c0 - 1, r0 + 2, false, false);
            acc = acc + probe_dests(b, color, c0 - 1, r0 + 2, false, false);
        }

        report.include_step(board, col + 1, row - 2, false, false);
        proof {
            lemma_probe_append(p, built, b, color, acc, c0 + 1, r0 - 2, false, false);
            acc = acc + probe_dests(b, color, c0 + 1, r0 - 2, false, false);
        }

        report.include_step(board, col - 1, row - 2, false, false);
        proof {
            lemma_probe_append(p, built, b, color, acc, c0 - 1, r0 - 2, false, false);
            acc = acc + probe_dests(b, color, c0 - 1, r0 - 2, false, false);
        }

        proof {
            assert(acc =~= piece_dests(b, self.pv()));
        }

        report
    }
}

} // verus!
