use vstd::prelude::*;

use crate::pieces::bishop::Bishop;
use crate::pieces::empty::Empty;
use crate::pieces::king::King;
use crate::pieces::knight::Knight;
use crate::pieces::pawn::Pawn;
use crate::pieces::piece_ext::PieceExt;
use crate::pieces::queen::Queen;
use crate::pieces::rook::Rook;

verus! {

// Canonical piece codes:
//   empty:  0
//   white:  1 pawn, 2 rook, 3 knight, 4 bishop, 5 queen, 6 king
//   black:  7 pawn, 8 rook, 9 knight, 10 bishop, 11 queen, 12 king

/// Which side a piece (or a square) belongs to.  `EMPTY` marks an empty
/// square; it is never a side to move.
#[derive(Clone, Copy, PartialEq, Eq, Structural, Debug)]
pub enum Color {
    EMPTY,
    WHITE,
    BLACK,
}

/// The data carried by every piece, as plain values: the canonical numeric
/// code, and the position on the board.
pub ghost struct PieceView {
    pub code: u8,
    pub col: u8,
    pub row: u8,
}

/// Whether `code` is one of the thirteen canonical piece codes.
pub open spec fn valid_code(code: u8) -> bool {
    code <= 12
}

/// The side a canonical code belongs to.
pub open spec fn code_color(code: u8) -> Color {
    if code == 0 {
        Color::EMPTY
    } else if code <= 6 {
        Color::WHITE
    } else {
        Color::BLACK
    }
}

/// Whether a canonical code denotes a king.
pub open spec fn code_is_king(code: u8) -> bool {
    code == 6 || code == 12
}

/// The opposing side.  `EMPTY` has no rival.
pub open spec fn rival_of(c: Color) -> Color {
    match c {
        Color::EMPTY => Color::EMPTY,
        Color::WHITE => Color::BLACK,
        Color::BLACK => Color::WHITE,
    }
}

/// Whether the two colours are opposing sides.
pub open spec fn are_rival_colors(a: Color, b: Color) -> bool {
    (a is WHITE && b is BLACK) || (a is BLACK && b is WHITE)
}

/// The polymorphic piece: a closed set of kinds, each carrying its own data.
#[derive(Clone, Copy, PartialEq, Eq, Structural)]
pub enum Piece {
    BISHOP(Bishop),
    EMPTY(Empty),
    KING(King),
    KNIGHT(Knight),
    PAWN(Pawn),
    QUEEN(Queen),
    ROOK(Rook),
}

/// The unique well-formed piece value for a canonical code and a position.
pub open spec fn piece_of_code(code: u8, col: u8, row: u8) -> Piece {
    if code == 0 {
        Piece::EMPTY(Empty { current_column: col, current_row: row })
    } else if code == 1 || code == 7 {
        Piece::PAWN(Pawn { color: code_color(code), current_column: col, current_row: row })
    } else if code == 2 || code == 8 {
        Piece::ROOK(Rook { color: code_color(code), current_column: col, current_row: row })
    } else if code == 3 || code == 9 {
        Piece::KNIGHT(Knight { color: code_color(code), current_column: col, current_row: row })
    } else if code == 4 || code == 10 {
        Piece::BISHOP(Bishop { color: code_color(code), current_column: col, current_row: row })
    } else if code == 5 || code == 11 {
        Piece::QUEEN(Queen { color: code_color(code), current_column: col, current_row: row })
    } else {
        Piece::KING(King { color: code_color(code), current_column: col, current_row: row })
    }
}

impl Default for Piece {
    /// An empty square at the board's origin.
    fn default() -> (r: Self)
        ensures
            r == piece_of_code(0, 0, 0),
            r.wf(),
    {
        let r = Piece::new(0, 0, 0);

        proof {
            lemma_piece_canonical(r);
        }

        r
    }
}

/// A well-formed piece is exactly the canonical piece value for its view.
pub proof fn lemma_piece_canonical(p: Piece)
    requires
        p.wf(),
    ensures
        p == piece_of_code(p.pv().code, p.pv().col, p.pv().row),
        valid_code(p.pv().code),
{
}

impl Piece {
    /// Whether this piece and the target belong to opposing sides.  Asking
    /// this of an empty square is an internal-consistency failure, so empty
    /// callers are excluded.
    pub fn are_rivals(&self, target: &Piece) -> (r: bool)
        requires
            self.wf(),
            target.wf(),
            code_color(self.pv().code) != Color::EMPTY,
        ensures
            r == are_rival_colors(code_color(self.pv().code), code_color(target.pv().code)),
    {
        let target_color: Color = target.get_color();
        let self_color: Color = self.get_color();

        match (self_color, target_color) {
            (Color::BLACK, Color::WHITE) => true,
            (Color::WHITE, Color::BLACK) => true,
            (Color::EMPTY, _) => unreached(),
            (_, _) => false,
        }
    }

    /// The movement report of this piece against the board: every reachable
    /// destination (unless probing) and whether the piece threatens the enemy
    /// king.  Asking an empty square for its movement, or a king whose move
    /// generation would reach a king, is an internal-consistency failure and
    /// is excluded.
    pub fn get_movement_report(&self, board: &crate::board::Board, search_checkmate: bool) -> (r:
        crate::movement::report::Report)
        requires
            board.wf(),
            self.wf(),
            self.pv().code != 0,
            code_is_king(self.pv().code) ==> !crate::movement::rules::piece_gives_check(
                board.work(),
                self.pv(),
            ),
        ensures
            r.piece == *self,
            r.search_checkmate == search_checkmate,
            r.check == crate::movement::rules::piece_gives_check(board.work(), self.pv()),
            r.steps@ == (if search_checkmate {
                Seq::<crate::movement::step::Step>::empty()
            } else {
                crate::movement::step::steps_for(
                    *self,
                    board.built(),
                    crate::movement::rules::piece_dests(board.work(), self.pv()),
                )
            }),
    {
        match self {
            Piece::EMPTY(_) => unreached(),
            Piece::PAWN(value) => value.get_movement_report(board, search_checkmate),
            Piece::ROOK(value) => value.get_movement_report(board, search_checkmate),
            Piece::KNIGHT(value) => value.get_movement_report(board, search_checkmate),
            Piece::BISHOP(value) => value.get_movement_report(board, search_checkmate),
            Piece::QUEEN(value) => value.get_movement_report(board, search_checkmate),
            Piece::KING(value) => value.get_movement_report(board, search_checkmate),
        }
    }

    /// The human-readable name of the piece a canonical code denotes.
    pub fn get_piece_name(piece_number: u8) -> (r: String)
        requires
            valid_code(piece_number),
        ensures
            r@ == piece_name_view(piece_number),
    {
        match piece_number {
            0 => "Empty".to_owned(),
            1 => "White Pawn".to_owned(),
            2 => "White Rook".to_owned(),
            3 => "White Knight".to_owned(),
            4 => "White Bishop".to_owned(),
            5 => "White Queen".to_owned(),
            6 => "White King".to_owned(),
            7 => "Black Pawn".to_owned(),
            8 => "Black Rook".to_owned(),
            9 => "Black Knight".to_owned(),
            10 => "Black Bishop".to_owned(),
            11 => "Black Queen".to_owned(),
            _ => "Black King".to_owned(),
        }
    }
}

/// The characters of the name that `Piece::get_piece_name` returns.
pub open spec fn piece_name_view(code: u8) -> Seq<char> {
    if code == 0 {
        "Empty"@
    } else if code == 1 {
        "White Pawn"@
    } else if code == 2 {
        "White Rook"@
    } else if code == 3 {
        "White Knight"@
    } else if code == 4 {
        "White Bishop"@
    } else if code == 5 {
        "White Queen"@
    } else if code == 6 {
        "White King"@
    } else if code == 7 {
        "Black Pawn"@
    } else if code == 8 {
        "Black Rook"@
    } else if code == 9 {
        "Black Knight"@
    } else if code == 10 {
        "Black Bishop"@
    } else if code == 11 {
        "Black Queen"@
    } else {
        "Black King"@
    }
}

impl PieceExt for Piece {
    open spec fn pv(&self) -> PieceView {
        match self {
            Piece::EMPTY(value) => value.pv(),
            Piece::PAWN(value) => value.pv(),
            Piece::ROOK(value) => value.pv(),
            Piece::KNIGHT(value) => value.pv(),
            Piece::BISHOP(value) => value.pv(),
            Piece::QUEEN(value) => value.pv(),
            Piece::KING(value) => value.pv(),
        }
    }

    open spec fn wf(&self) -> bool {
        match self {
            Piece::EMPTY(value) => value.wf(),
            Piece::PAWN(value) => value.wf(),
            Piece::ROOK(value) => value.wf(),
            Piece::KNIGHT(value) => value.wf(),
            Piece::BISHOP(value) => value.wf(),
            Piece::QUEEN(value) => value.wf(),
            Piece::KING(value) => value.wf(),
        }
    }

    open spec fn accepts_code(code: u8) -> bool {
        valid_code(code)
    }

    fn new(piece_number: u8, target_column: u8, target_row: u8) -> (r: Self) {
        match piece_number {
            0 => Piece::EMPTY(Empty::new(piece_number, target_column, target_row)),
            1 | 7 => Piece::PAWN(Pawn::new(piece_number, target_column, target_row)),
            2 | 8 => Piece::ROOK(Rook::new(piece_number, target_column, target_row)),
            3 | 9 => Piece::KNIGHT(Knight::new(piece_number, target_column, target_row)),
            4 | 10 => Piece::BISHOP(Bishop::new(piece_number, target_column, target_row)),
            5 | 11 => Piece::QUEEN(Queen::new(piece_number, target_column, target_row)),
            _ => Piece::KING(King::new(piece_number, target_column, target_row)),
        }
    }

    fn get_piece_number(&self) -> (r: u8) {
        match self {
            Piece::EMPTY(value) => value.get_piece_number(),
            Piece::PAWN(value) => value.get_piece_number(),
            Piece::ROOK(value) => value.get_piece_number(),
            Piece::KNIGHT(value) => value.get_piece_number(),
            Piece::BISHOP(value) => value.get_piece_number(),
            Piece::QUEEN(value) => value.get_piece_number(),
            Piece::KING(value) => value.get_piece_number(),
        }
    }

    fn get_column(&self) -> (r: u8) {
        match self {
            Piece::EMPTY(value) => value.get_column(),
            Piece::PAWN(value) => value.get_column(),
            Piece::ROOK(value) => value.get_column(),
            Piece::KNIGHT(value) => value.get_column(),
            Piece::BISHOP(value) => value.get_column(),
            Piece::QUEEN(value) => value.get_column(),
            Piece::KING(value) => value.get_column(),
        }
    }

    fn get_row(&self) -> (r: u8) {
        match self {
            Piece::EMPTY(value) => value.get_row(),
            Piece::PAWN(value) => value.get_row(),
            Piece::ROOK(value) => value.get_row(),
            Piece::KNIGHT(value) => value.get_row(),
            Piece::BISHOP(value) => value.get_row(),
            Piece::QUEEN(value) => value.get_row(),
            Piece::KING(value) => value.get_row(),
        }
    }

    fn get_color(&self) -> (r: Color) {
        match self {
            Piece::EMPTY(value) => value.get_color(),
            Piece::PAWN(value) => value.get_color(),
            Piece::ROOK(value) => value.get_color(),
            Piece::KNIGHT(value) => value.get_color(),
            Piece::BISHOP(value) => value.get_color(),
            Piece::QUEEN(value) => value.get_color(),
            Piece::KING(value) => value.get_color(),
        }
    }

    fn is_king(&self) -> (r: bool) {
        match self {
            Piece::EMPTY(value) => value.is_king(),
            Piece::PAWN(value) => value.is_king(),
            Piece::ROOK(value) => value.is_king(),
            Piece::KNIGHT(value) => value.is_king(),
            Piece::BISHOP(value) => value.is_king(),
            Piece::QUEEN(value) => value.is_king(),
            Piece::KING(value) => value.is_king(),
        }
    }
}

} // verus!
