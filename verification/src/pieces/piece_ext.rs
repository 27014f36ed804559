use vstd::prelude::*;

use crate::pieces::piece::{code_color, code_is_king, Color, PieceView};

verus! {

/// The behaviour shared by every piece kind: each piece knows its canonical
/// numeric code, its colour and its position, all summarised by the
/// [`PieceView`] returned by `pv`.
pub trait PieceExt: Sized {
    /// The piece's data as plain values: canonical code, column and row.
    spec fn pv(&self) -> PieceView;

    /// Internal consistency: the stored colour agrees with the piece kind and
    /// the position is on the board.
    spec fn wf(&self) -> bool;

    /// Which canonical codes this piece kind may be built from.
    spec fn accepts_code(code: u8) -> bool;

    /// Create a new instance of this piece kind.
    fn new(piece_number: u8, target_column: u8, target_row: u8) -> (r: Self)
        requires
            Self::accepts_code(piece_number),
            target_column < 8,
            target_row < 8,
        ensures
            r.wf(),
            r.pv() == (PieceView { code: piece_number, col: target_column, row: target_row }),
    ;

    fn get_piece_number(&self) -> (r: u8)
        requires
            self.wf(),
        ensures
            r == self.pv().code,
    ;

    fn get_column(&self) -> (r: u8)
        ensures
            r == self.pv().col,
    ;

    fn get_row(&self) -> (r: u8)
        ensures
            r == self.pv().row,
    ;

    fn get_color(&self) -> (r: Color)
        requires
            self.wf(),
        ensures
            r == code_color(self.pv().code),
    ;

    fn is_king(&self) -> (r: bool)
        requires
            self.wf(),
        ensures
            r == code_is_king(self.pv().code),
    ;

    fn is_color(&self, target_color: &Color) -> (r: bool)
        requires
            self.wf(),
        ensures
            r == (code_color(self.pv().code) == *target_color),
    {
        let self_color: Color = self.get_color();

        self_color == *target_color
    }
}

} // verus!
