use vstd::prelude::*;
use vstd::string::StringExecFns;

use crate::movement::report::Report;
use crate::movement::rules::square_index;
use crate::pieces::piece::{piece_of_code, valid_code, Color, Piece};
use crate::pieces::piece_ext::PieceExt;

verus! {

// Canonical piece codes:
//   empty:  0
//   white:  1 pawn, 2 rook, 3 knight, 4 bishop, 5 queen, 6 king
//   black:  7 pawn, 8 rook, 9 knight, 10 bishop, 11 queen, 12 king
//
// The starting position, row 0 first:
//   8 9 A B C A 9 8
//   7 7 7 7 7 7 7 7
//   0 0 0 0 0 0 0 0
//   0 0 0 0 0 0 0 0
//   0 0 0 0 0 0 0 0
//   0 0 0 0 0 0 0 0
//   1 1 1 1 1 1 1 1
//   2 3 4 5 6 4 3 2

/// The 8x8 position in two synchronized forms: `squares` holds the canonical
/// numeric codes (the durable truth), `built_squares` the typed pieces used
/// by movement computation.  The working array is mutated tentatively during
/// legality simulation; the canonical array changes only when a move is
/// committed for real.
pub struct Board {
    pub squares: [u8; 64],
    pub built_squares: [Piece; 64],
}

/// The canonical code of the white piece starting on `col` of the back rank.
pub open spec fn back_rank_code(col: int) -> u8 {
    if col == 0 || col == 7 {
        2
    } else if col == 1 || col == 6 {
        3
    } else if col == 2 || col == 5 {
        4
    } else if col == 3 {
        5
    } else {
        6
    }
}

/// The canonical code standing on board index `i` in the starting position.
pub open spec fn start_code(i: int) -> u8 {
    let col = i % 8;
    let row = i / 8;
    if row == 0 {
        (back_rank_code(col) + 6) as u8
    } else if row == 1 {
        7
    } else if row == 6 {
        1
    } else if row == 7 {
        back_rank_code(col)
    } else {
        0
    }
}

/// The character printed for one square: hexadecimal, so that every
/// canonical code takes a single digit.
pub open spec fn hex_view(code: u8) -> Seq<char> {
    if code == 0 {
        "0"@
    } else if code == 1 {
        "1"@
    } else if code == 2 {
        "2"@
    } else if code == 3 {
        "3"@
    } else if code == 4 {
        "4"@
    } else if code == 5 {
        "5"@
    } else if code == 6 {
        "6"@
    } else if code == 7 {
        "7"@
    } else if code == 8 {
        "8"@
    } else if code == 9 {
        "9"@
    } else if code == 10 {
        "A"@
    } else if code == 11 {
        "B"@
    } else if code == 12 {
        "C"@
    } else if code == 13 {
        "D"@
    } else if code == 14 {
        "E"@
    } else {
        "F"@
    }
}

/// The text of one printed row from column `col` on: space-separated digits
/// closed by a line break.
pub open spec fn row_view(squares: Seq<u8>, row: int, col: int) -> Seq<char>
    decreases 8 - col,
{
    if col >= 8 {
        "\n"@
    } else {
        (if col == 0 {
            Seq::<char>::empty()
        } else {
            " "@
        }) + hex_view(squares[row * 8 + col]) + row_view(squares, row, col + 1)
    }
}

/// The text of the printed rows from `row` on.
pub open spec fn rows_view(squares: Seq<u8>, row: int) -> Seq<char>
    decreases 8 - row,
{
    if row >= 8 {
        Seq::<char>::empty()
    } else {
        row_view(squares, row, 0) + rows_view(squares, row + 1)
    }
}

/// The whole printed board: a blank line, the eight rows, a blank line.
pub open spec fn board_string_view(squares: Seq<u8>) -> Seq<char> {
    "\n"@ + rows_view(squares, 0) + "\n"@
}

/// Whether the canonical code and the typed piece denote the same kind, the
/// test used by lazy reconciliation.
pub open spec fn same_kind(code: u8, p: Piece) -> bool {
    match p {
        Piece::EMPTY(_) => code == 0,
        Piece::PAWN(_) => code == 1 || code == 7,
        Piece::ROOK(_) => code == 2 || code == 8,
        Piece::KNIGHT(_) => code == 3 || code == 9,
        Piece::BISHOP(_) => code == 4 || code == 10,
        Piece::QUEEN(_) => code == 5 || code == 11,
        Piece::KING(_) => code == 6 || code == 12,
    }
}

impl Default for Board {
    /// The board in the standard starting position.
    fn default() -> (r: Self)
        ensures
            r.wf(),
            forall|i: int| 0 <= i < 64 ==> #[trigger] r.canon()[i] == start_code(i),
            r.work() == r.canon(),
    {
        let squares: [u8; 64] = Board::get_default_board();

        proof {
            assert forall|i: int| 0 <= i < 64 implies #[trigger] squares@[i] <= 12 by {}
        }

        Board::new(squares)
    }
}

impl Board {
    /// The canonical codes, as a sequence.
    pub open spec fn canon(&self) -> Seq<u8> {
        self.squares@
    }

    /// The typed working position, as a sequence.
    pub open spec fn built(&self) -> Seq<Piece> {
        self.built_squares@
    }

    /// The canonical codes of the working position.
    pub open spec fn work(&self) -> Seq<u8> {
        Seq::new(64, |i: int| self.built_squares@[i].pv().code)
    }

    /// Internal consistency: canonical codes in range, and every working
    /// piece well formed and standing on its own square.
    pub open spec fn wf(&self) -> bool {
        &&& forall|i: int| 0 <= i < 64 ==> #[trigger] self.squares@[i] <= 12
        &&& forall|i: int|
            0 <= i < 64 ==> (#[trigger] self.built_squares@[i]).wf()
                && self.built_squares@[i].pv().col as int == i % 8
                && self.built_squares@[i].pv().row as int == i / 8
    }

    /// The standard starting layout.
    pub fn get_default_board() -> (r: [u8; 64])
        ensures
            forall|i: int| 0 <= i < 64 ==> #[trigger] r@[i] == start_code(i),
    {
        let r: [u8; 64] = [
            8, 9, 10, 11, 12, 10, 9, 8,
            7, 7,  7,  7,  7,  7, 7, 7,
            0, 0,  0,  0,  0,  0, 0, 0,
            0, 0,  0,  0,  0,  0, 0, 0,
            0, 0,  0,  0,  0,  0, 0, 0,
            0, 0,  0,  0,  0,  0, 0, 0,
            1, 1,  1,  1,  1,  1, 1, 1,
            2, 3,  4,  5,  6,  4, 3, 2,
        ];

        proof {
            assert forall|i: int| 0 <= i < 64 implies #[trigger] r@[i] == start_code(i) by {
                let col = i % 8;
                let row = i / 8;
                assert(i == row * 8 + col);
            }
        }

        r
    }

    /// Build the typed working array that a canonical array implies.
    pub fn new_built_squares(squares: &[u8; 64]) -> (r: [Piece; 64])
        requires
            forall|i: int| 0 <= i < 64 ==> #[trigger] squares@[i] <= 12,
        ensures
            forall|i: int|
                0 <= i < 64 ==> #[trigger] r@[i] == piece_of_code(
                    squares@[i],
                    (i % 8) as u8,
                    (i / 8) as u8,
                ),
    {
        let empty: Piece = Piece::default();
        let mut built_squares: [Piece; 64] = [empty; 64];
        // An array created like this holds 64 copies of the same value, so
        // first give every empty placeholder its own column and row.
        let mut index: usize = 0;

        while index < 64
            invariant
                index <= 64,
                forall|j: int|
                    0 <= j < index ==> #[trigger] built_squares@[j] == piece_of_code(
                        0,
                        (j % 8) as u8,
                        (j / 8) as u8,
                    ),
            decreases 64 - index,
        {
            let col: u8 = (index % 8) as u8;
            let row: u8 = (index / 8) as u8;

            let empty_replacement: Piece = Piece::new(0, col, row);
            built_squares[index] = empty_replacement;

            index += 1;
        }

        // Put the pieces in the board.
        Self::build(squares, &mut built_squares);

        built_squares
    }

    /// Reconcile the working array with the canonical array: an entry is
    /// rebuilt only where its occupant's kind differs from what the canonical
    /// code implies.
    fn build(squares: &[u8; 64], built_squares: &mut [Piece; 64])
        requires
            forall|i: int| 0 <= i < 64 ==> #[trigger] squares@[i] <= 12,
        ensures
            forall|i: int|
                0 <= i < 64 ==> #[trigger] final(built_squares)@[i] == (if same_kind(
                    squares@[i],
                    old(built_squares)@[i],
                ) {
                    old(built_squares)@[i]
                } else {
                    piece_of_code(squares@[i], (i % 8) as u8, (i / 8) as u8)
                }),
    {
        let mut index: usize = 0;

        while index < 64
            invariant
                index <= 64,
                forall|i: int| 0 <= i < 64 ==> #[trigger] squares@[i] <= 12,
                forall|j: int|
                    index <= j < 64 ==> #[trigger] built_squares@[j] == old(built_squares)@[j],
                forall|j: int|
                    0 <= j < index ==> #[trigger] built_squares@[j] == (if same_kind(
                        squares@[j],
                        old(built_squares)@[j],
                    ) {
                        old(built_squares)@[j]
                    } else {
                        piece_of_code(squares@[j], (j % 8) as u8, (j / 8) as u8)
                    }),
            decreases 64 - index,
        {
            let piece_number: u8 = squares[index];

            // If piece_number already names the occupant's kind, keep it.
            match (piece_number, &built_squares[index]) {
                (0, Piece::EMPTY(_))
                | (1, Piece::PAWN(_)) | (7, Piece::PAWN(_))
                | (2, Piece::ROOK(_)) | (8, Piece::ROOK(_))
                | (3, Piece::KNIGHT(_)) | (9, Piece::KNIGHT(_))
                | (4, Piece::BISHOP(_)) | (10, Piece::BISHOP(_))
                | (5, Piece::QUEEN(_)) | (11, Piece::QUEEN(_))
                | (6, Piece::KING(_)) | (12, Piece::KING(_)) => {},
                (_, _) => {
                    let column: u8 = (index % 8) as u8;
                    let row: u8 = (index / 8) as u8;

                    // The number does not refer to the same kind of piece, so
                    // replace the entry with the expected value.
                    built_squares[index] = Piece::new(piece_number, column, row);
                },
            }

            index += 1;
        }
    }

    pub fn new(squares: [u8; 64]) -> (r: Self)
        requires
            forall|i: int| 0 <= i < 64 ==> #[trigger] squares@[i] <= 12,
        ensures
            r.wf(),
            r.canon() == squares@,
            r.work() == squares@,
            forall|i: int|
                0 <= i < 64 ==> #[trigger] r.built()[i] == piece_of_code(
                    squares@[i],
                    (i % 8) as u8,
                    (i / 8) as u8,
                ),
    {
        let built_squares: [Piece; 64] = Self::new_built_squares(&squares);

        let r = Board { squares, built_squares };

        proof {
            assert(r.work() =~= squares@);
        }

        r
    }

    pub fn get_board_array(&self) -> (r: [u8; 64])
        ensures
            r@ == self.canon(),
    {
        self.squares
    }

    /// The single hexadecimal digit for one square's code.
    fn hex(number: u8) -> (r: &'static str)
        requires
            number <= 15,
        ensures
            r@ == hex_view(number),
    {
        match number {
            0 => "0",
            1 => "1",
            2 => "2",
            3 => "3",
            4 => "4",
            5 => "5",
            6 => "6",
            7 => "7",
            8 => "8",
            9 => "9",
            10 => "A",
            11 => "B",
            12 => "C",
            13 => "D",
            14 => "E",
            _ => "F",
        }
    }

    /// Turn the first 64 entries of a board slice into a printable square of
    /// hexadecimal digits, one row per line.
    pub fn get_board_string(squares: &[u8]) -> (r: String)
        requires
            squares@.len() >= 64,
            forall|i: int| 0 <= i < 64 ==> #[trigger] squares@[i] <= 15,
        ensures
            r@ == board_string_view(squares@),
    {
        let ghost target = board_string_view(squares@);

        let mut response: String = "\n".to_owned();

        let mut row: usize = 0;

        while row < 8
            invariant
                row <= 8,
                squares@.len() >= 64,
                forall|i: int| 0 <= i < 64 ==> #[trigger] squares@[i] <= 15,
                target == board_string_view(squares@),
                response@ + rows_view(squares@, row as int) + "\n"@ == target,
            decreases 8 - row,
        {
            let mut col: usize = 0;

            while col < 8
                invariant
                    row < 8,
                    col <= 8,
                    squares@.len() >= 64,
                    forall|i: int| 0 <= i < 64 ==> #[trigger] squares@[i] <= 15,
                    target == board_string_view(squares@),
                    response@ + row_view(squares@, row as int, col as int) + rows_view(
                        squares@,
                        row as int + 1,
                    ) + "\n"@ == target,
                decreases 8 - col,
            {
                let ghost before = response@;

                if col > 0 {
                    response.append(" ");
                }

                response.append(Self::hex(squares[row * 8 + col]));

                proof {
                    assert(response@ + row_view(squares@, row as int, col as int + 1) + rows_view(
                        squares@,
                        row as int + 1,
                    ) + "\n"@ =~= before + row_view(squares@, row as int, col as int) + rows_view(
                        squares@,
                        row as int + 1,
                    ) + "\n"@);
                }

                col += 1;
            }

            let ghost before = response@;

            response.append("\n");

            proof {
                assert(response@ + rows_view(squares@, row as int + 1) + "\n"@ =~= before
                    + row_view(squares@, row as int, 8) + rows_view(squares@, row as int + 1)
                    + "\n"@);
            }

            row += 1;
        }

        let ghost before = response@;

        response.append("\n");

        proof {
            assert(rows_view(squares@, 8) =~= Seq::<char>::empty());
            assert(response@ =~= before + rows_view(squares@, 8) + "\n"@);
        }

        response
    }

    pub fn get_piece(&self, col: u8, row: u8) -> (r: Piece)
        requires
            self.wf(),
            col < 8,
            row < 8,
        ensures
            r == self.built()[square_index(col as int, row as int)],
    {
        let piece: Piece = self.get_piece_index(row * 8 + col);
        piece
    }

    pub fn get_piece_index(&self, index: u8) -> (r: Piece)
        requires
            self.wf(),
            index < 64,
        ensures
            r == self.built()[index as int],
    {
        let piece: Piece = self.built_squares[index as usize];
        piece
    }

    /// Collect this board's pieces of one definite colour, in board order.
    fn push_pieces(&self, pieces: &mut Vec<Piece>, color: &Color)
        requires
            self.wf(),
        ensures
            final(pieces)@ == old(pieces)@ + crate::movement::rules::color_pieces(self.built(), *color),
    {
        let ghost built = self.built();
        let mut index: usize = 0;

        while index < 64
            invariant
                self.wf(),
                built == self.built(),
                index <= 64,
                pieces@ == old(pieces)@ + crate::movement::rules::color_pieces_up_to(
                    built,
                    *color,
                    index as int,
                ),
            decreases 64 - index,
        {
            let piece: &Piece = &self.built_squares[index];

            if piece.is_color(color) {
                pieces.push(*piece);
            }

            index += 1;
        }
    }

    pub fn push_black_pieces(&self, pieces: &mut Vec<Piece>)
        requires
            self.wf(),
        ensures
            final(pieces)@ == crate::movement::rules::color_pieces(self.built(), Color::BLACK),
    {
        pieces.clear();

        self.push_pieces(pieces, &Color::BLACK);
    }

    pub fn push_white_pieces(&self, pieces: &mut Vec<Piece>)
        requires
            self.wf(),
        ensures
            final(pieces)@ == crate::movement::rules::color_pieces(self.built(), Color::WHITE),
    {
        pieces.clear();

        self.push_pieces(pieces, &Color::WHITE);
    }

    /// Replace one working-array square with a freshly built piece.  This is
    /// the tentative, reversible mutation channel used by simulation.
    pub fn replace_piece(&mut self, piece_number: u8, col: u8, row: u8)
        requires
            old(self).wf(),
            valid_code(piece_number),
            col < 8,
            row < 8,
        ensures
            final(self).wf(),
            final(self).canon() == old(self).canon(),
            final(self).built() == old(self).built().update(
                square_index(col as int, row as int),
                piece_of_code(piece_number, col, row),
            ),
            final(self).work() == old(self).work().update(
                square_index(col as int, row as int),
                piece_number,
            ),
    {
        let index: usize = Report::col_row_to_index(col, row) as usize;

        self.built_squares[index] = Piece::new(piece_number, col, row);

        proof {
            assert(self.work() =~= old(self).work().update(
                square_index(col as int, row as int),
                piece_number,
            ));
        }
    }

    /// Write one canonical-array square.  This is the durable mutation
    /// channel, used once a move is confirmed legal.
    pub fn finalize_movement(&mut self, piece_number: u8, col: u8, row: u8)
        requires
            old(self).wf(),
            valid_code(piece_number),
            col < 8,
            row < 8,
        ensures
            final(self).wf(),
            final(self).built() == old(self).built(),
            final(self).work() == old(self).work(),
            final(self).canon() == old(self).canon().update(
                square_index(col as int, row as int),
                piece_number,
            ),
    {
        let index: usize = Report::col_row_to_index(col, row) as usize;

        self.squares[index] = piece_number;
    }
}

} // verus!
