use vstd::prelude::*;

use crate::pieces::piece::{Color, PieceView};
use crate::pieces::piece_ext::PieceExt;

verus! {

/// An empty square.  It carries only its position.
#[derive(Clone, Copy, PartialEq, Eq, Structural)]
pub struct Empty {
    pub current_column: u8,
    pub current_row: u8,
}

impl PieceExt for Empty {
    open spec fn pv(&self) -> PieceView {
        PieceView { code: 0, col: self.current_column, row: self.current_row }
    }

    open spec fn wf(&self) -> bool {
        self.current_column < 8 && self.current_row < 8
    }

    open spec fn accepts_code(code: u8) -> bool {
        code == 0
    }

    fn new(piece_number: u8, target_column: u8, target_row: u8) -> (r: Self) {
        Empty { current_column: target_column, current_row: target_row }
    }

    fn get_piece_number(&self) -> (r: u8) {
        0
    }

    fn get_column(&self) -> (r: u8) {
        self.current_column
    }

    fn get_row(&self) -> (r: u8) {
        self.current_row
    }

    fn get_color(&self) -> (r: Color) {
        Color::EMPTY
    }

    fn is_king(&self) -> (r: bool) {
        false
    }
}

} // verus!
