use vstd::prelude::*;

use crate::board::Board;
use crate::movement::rules::{
    apply_move, color_kings_safe, probe_adds_step, probe_dests, square_index, threatens,
};
use crate::pieces::piece::{
    code_color, lemma_piece_canonical, piece_of_code, rival_of, Color, Piece,
};
use crate::pieces::piece_ext::PieceExt;
use crate::player::player::Player;

verus! {

/// A single candidate move for one piece: a snapshot of the moving piece and
/// of the occupant of the destination square, captured at generation time.
#[derive(Clone, Copy)]
pub struct Step {
    pub current_piece: Piece,
    pub target_piece: Piece,
    pub moved: bool,
}

/// Both snapshots are internally consistent.
pub open spec fn step_wf(s: Step) -> bool {
    s.current_piece.wf() && s.target_piece.wf()
}

/// The board index the step starts from.
pub open spec fn from_index(s: Step) -> int {
    square_index(s.current_piece.pv().col as int, s.current_piece.pv().row as int)
}

/// The board index the step ends on.
pub open spec fn to_index(s: Step) -> int {
    square_index(s.target_piece.pv().col as int, s.target_piece.pv().row as int)
}

/// The step's snapshots agree with the working position `built`.
pub open spec fn step_matches(s: Step, built: Seq<Piece>) -> bool {
    built[from_index(s)] == s.current_piece && built[to_index(s)] == s.target_piece
}

/// The step the generator records for the piece and a destination: the piece
/// itself, and the occupant of the destination square.
pub open spec fn step_for(piece: Piece, built: Seq<Piece>, d: (int, int)) -> Step {
    Step { current_piece: piece, target_piece: built[d.1 * 8 + d.0], moved: false }
}

/// The steps the generator records for a piece and a list of destinations.
pub open spec fn steps_for(piece: Piece, built: Seq<Piece>, dests: Seq<(int, int)>) -> Seq<Step> {
    dests.map_values(|d: (int, int)| step_for(piece, built, d))
}

/// Recording steps distributes over concatenation of destination lists.
pub proof fn lemma_steps_for_add(
    piece: Piece,
    built: Seq<Piece>,
    d1: Seq<(int, int)>,
    d2: Seq<(int, int)>,
)
    ensures
        steps_for(piece, built, d1 + d2) == steps_for(piece, built, d1) + steps_for(
            piece,
            built,
            d2,
        ),
{
    assert(steps_for(piece, built, d1 + d2) =~= steps_for(piece, built, d1) + steps_for(
        piece,
        built,
        d2,
    ));
}

/// Recording a single destination records a single step.
pub proof fn lemma_steps_for_one(piece: Piece, built: Seq<Piece>, d: (int, int))
    ensures
        steps_for(piece, built, seq![d]) == seq![step_for(piece, built, d)],
{
    assert(steps_for(piece, built, seq![d]) =~= seq![step_for(piece, built, d)]);
}

/// Appending one probe's destinations extends the recorded steps by exactly
/// the step the probe adds, if any.
pub proof fn lemma_probe_append(
    p: Piece,
    built: Seq<Piece>,
    b: Seq<u8>,
    color: Color,
    acc: Seq<(int, int)>,
    c: int,
    r: int,
    no_empty: bool,
    no_rival: bool,
)
    ensures
        steps_for(p, built, acc + probe_dests(b, color, c, r, no_empty, no_rival)) == (
        if probe_adds_step(b, color, c, r, no_empty, no_rival) {
            steps_for(p, built, acc).push(step_for(p, built, (c, r)))
        } else {
            steps_for(p, built, acc)
        }),
{
    lemma_steps_for_add(p, built, acc, probe_dests(b, color, c, r, no_empty, no_rival));
    if probe_adds_step(b, color, c, r, no_empty, no_rival) {
        lemma_steps_for_one(p, built, (c, r));
        assert(steps_for(p, built, acc) + seq![step_for(p, built, (c, r))] =~= steps_for(
            p,
            built,
            acc,
        ).push(step_for(p, built, (c, r))));
    } else {
        assert(steps_for(p, built, acc) + steps_for(p, built, Seq::<(int, int)>::empty())
            =~= steps_for(p, built, acc));
    }
}

/// Round-trip law: tentatively committing any single step that agrees with
/// the board and then reverting it restores the working position, both the
/// canonical codes and the typed pieces, to exactly its prior state.
pub proof fn lemma_commit_revert_restores(built: Seq<Piece>, b: Seq<u8>, s: Step)
    requires
        built.len() == 64,
        b.len() == 64,
        forall|i: int| 0 <= i < 64 ==> #[trigger] b[i] == built[i].pv().code,
        step_wf(s),
        step_matches(s, built),
    ensures
        apply_move(b, from_index(s), to_index(s)).update(
            from_index(s),
            s.current_piece.pv().code,
        ).update(to_index(s), s.target_piece.pv().code) == b,
        built.update(
            from_index(s),
            piece_of_code(0, s.current_piece.pv().col, s.current_piece.pv().row),
        ).update(
            to_index(s),
            piece_of_code(
                s.current_piece.pv().code,
                s.target_piece.pv().col,
                s.target_piece.pv().row,
            ),
        ).update(
            from_index(s),
            piece_of_code(
                s.current_piece.pv().code,
                s.current_piece.pv().col,
                s.current_piece.pv().row,
            ),
        ).update(
            to_index(s),
            piece_of_code(
                s.target_piece.pv().code,
                s.target_piece.pv().col,
                s.target_piece.pv().row,
            ),
        ) == built,
{
    crate::pieces::piece::lemma_piece_canonical(s.current_piece);
    crate::pieces::piece::lemma_piece_canonical(s.target_piece);

    assert(apply_move(b, from_index(s), to_index(s)).update(
        from_index(s),
        s.current_piece.pv().code,
    ).update(to_index(s), s.target_piece.pv().code) =~= b);

    assert(built.update(
        from_index(s),
        piece_of_code(0, s.current_piece.pv().col, s.current_piece.pv().row),
    ).update(
        to_index(s),
        piece_of_code(
            s.current_piece.pv().code,
            s.target_piece.pv().col,
            s.target_piece.pv().row,
        ),
    ).update(
        from_index(s),
        piece_of_code(
            s.current_piece.pv().code,
            s.current_piece.pv().col,
            s.current_piece.pv().row,
        ),
    ).update(
        to_index(s),
        piece_of_code(
            s.target_piece.pv().code,
            s.target_piece.pv().col,
            s.target_piece.pv().row,
        ),
    ) =~= built);
}

/// Position-only equality: two steps are the same request when origin and
/// destination coordinates agree, whatever concrete piece data is embedded.
pub open spec fn pos_eq(a: Step, b: Step) -> bool {
    &&& a.current_piece.pv().col == b.current_piece.pv().col
    &&& a.current_piece.pv().row == b.current_piece.pv().row
    &&& a.target_piece.pv().col == b.target_piece.pv().col
    &&& a.target_piece.pv().row == b.target_piece.pv().row
}

impl PartialEq for Step {
    fn eq(&self, other: &Self) -> (r: bool) {
        let self_current_column: u8 = self.current_piece.get_column();
        let self_current_row: u8 = self.current_piece.get_row();

        let self_target_column: u8 = self.target_piece.get_column();
        let self_target_row: u8 = self.target_piece.get_row();

        let other_current_column: u8 = other.current_piece.get_column();
        let other_current_row: u8 = other.current_piece.get_row();

        let other_target_column: u8 = other.target_piece.get_column();
        let other_target_row: u8 = other.target_piece.get_row();

        (self_current_column == other_current_column) && (self_current_row == other_current_row)
            && (self_target_column == other_target_column) && (self_target_row == other_target_row)
    }
}

impl vstd::std_specs::cmp::PartialEqSpecImpl for Step {
    open spec fn obeys_eq_spec() -> bool {
        true
    }

    open spec fn eq_spec(&self, other: &Step) -> bool {
        pos_eq(*self, *other)
    }
}

impl Step {
    pub fn new(current: Piece, target: Piece) -> (r: Self)
        ensures
            r == (Step { current_piece: current, target_piece: target, moved: false }),
    {
        Step { current_piece: current, target_piece: target, moved: false }
    }

    /// Build a step from two board indices, snapshotting both occupants.
    pub fn new_index(current: u8, target: u8, board: &Board) -> (r: Self)
        requires
            board.wf(),
            current < 64,
            target < 64,
        ensures
            r == (Step {
                current_piece: board.built()[current as int],
                target_piece: board.built()[target as int],
                moved: false,
            }),
            step_wf(r),
            step_matches(r, board.built()),
            from_index(r) == current as int,
            to_index(r) == target as int,
    {
        let current_piece: Piece = board.get_piece_index(current);
        let target_piece: Piece = board.get_piece_index(target);

        Step { current_piece, target_piece, moved: false }
    }

    /// Tentatively perform the step on the working position only: the origin
    /// square becomes empty, the destination square takes the moving piece.
    pub fn commit_move(&mut self, board: &mut Board)
        requires
            old(board).wf(),
            old(self).current_piece.wf(),
            old(self).target_piece.wf(),
        ensures
            final(board).wf(),
            final(board).canon() == old(board).canon(),
            final(board).built() == old(board).built().update(
                from_index(*old(self)),
                piece_of_code(
                    0,
                    old(self).current_piece.pv().col,
                    old(self).current_piece.pv().row,
                ),
            ).update(
                to_index(*old(self)),
                piece_of_code(
                    old(self).current_piece.pv().code,
                    old(self).target_piece.pv().col,
                    old(self).target_piece.pv().row,
                ),
            ),
            final(board).work() == old(board).work().update(from_index(*old(self)), 0u8).update(
                to_index(*old(self)),
                old(self).current_piece.pv().code,
            ),
            *final(self) == (Step {
                current_piece: old(self).current_piece,
                target_piece: old(self).target_piece,
                moved: true,
            }),
    {
        let start_col: u8 = self.current_piece.get_column();
        let start_row: u8 = self.current_piece.get_row();
        let piece_number: u8 = self.current_piece.get_piece_number();
        let end_col: u8 = self.target_piece.get_column();
        let end_row: u8 = self.target_piece.get_row();

        board.replace_piece(0, start_col, start_row);
        board.replace_piece(piece_number, end_col, end_row);

        self.moved = true;

        proof {
            assert(board.work() =~= old(board).work().update(from_index(*old(self)), 0u8).update(
                to_index(*old(self)),
                old(self).current_piece.pv().code,
            ));
        }
    }

    /// Undo a tentative step on the working position: both squares take their
    /// snapshotted occupants back.
    pub fn revert_move(&mut self, board: &mut Board)
        requires
            old(board).wf(),
            old(self).current_piece.wf(),
            old(self).target_piece.wf(),
        ensures
            final(board).wf(),
            final(board).canon() == old(board).canon(),
            final(board).built() == old(board).built().update(
                from_index(*old(self)),
                piece_of_code(
                    old(self).current_piece.pv().code,
                    old(self).current_piece.pv().col,
                    old(self).current_piece.pv().row,
                ),
            ).update(
                to_index(*old(self)),
                piece_of_code(
                    old(self).target_piece.pv().code,
                    old(self).target_piece.pv().col,
                    old(self).target_piece.pv().row,
                ),
            ),
            final(board).work() == old(board).work().update(
                from_index(*old(self)),
                old(self).current_piece.pv().code,
            ).update(to_index(*old(self)), old(self).target_piece.pv().code),
            *final(self) == (Step {
                current_piece: old(self).current_piece,
                target_piece: old(self).target_piece,
                moved: false,
            }),
    {
        let start_piece_number: u8 = self.current_piece.get_piece_number();
        let start_col: u8 = self.current_piece.get_column();
        let start_row: u8 = self.current_piece.get_row();

        let end_piece_number: u8 = self.target_piece.get_piece_number();
        let end_col: u8 = self.target_piece.get_column();
        let end_row: u8 = self.target_piece.get_row();

        board.replace_piece(start_piece_number, start_col, start_row);
        board.replace_piece(end_piece_number, end_col, end_row);

        self.moved = false;

        proof {
            assert(board.work() =~= old(board).work().update(
                from_index(*old(self)),
                old(self).current_piece.pv().code,
            ).update(to_index(*old(self)), old(self).target_piece.pv().code));
        }
    }

    /// Perform the step on the canonical position: the durable counterpart of
    /// `commit_move`, used once a move is confirmed legal.
    pub fn commit_finalize(&mut self, board: &mut Board)
        requires
            old(board).wf(),
            old(self).current_piece.wf(),
            old(self).target_piece.wf(),
        ensures
            final(board).wf(),
            final(board).built() == old(board).built(),
            final(board).work() == old(board).work(),
            final(board).canon() == old(board).canon().update(from_index(*old(self)), 0u8).update(
                to_index(*old(self)),
                old(self).current_piece.pv().code,
            ),
            *final(self) == *old(self),
    {
        let start_col: u8 = self.current_piece.get_column();
        let start_row: u8 = self.current_piece.get_row();
        let piece_number: u8 = self.current_piece.get_piece_number();
        let end_col: u8 = self.target_piece.get_column();
        let end_row: u8 = self.target_piece.get_row();

        board.finalize_movement(0, start_col, start_row);
        board.finalize_movement(piece_number, end_col, end_row);
    }

    /// Undo the step on the canonical position.
    pub fn revert_finalize(&mut self, board: &mut Board)
        requires
            old(board).wf(),
            old(self).current_piece.wf(),
            old(self).target_piece.wf(),
        ensures
            final(board).wf(),
            final(board).built() == old(board).built(),
            final(board).work() == old(board).work(),
            final(board).canon() == old(board).canon().update(
                from_index(*old(self)),
                old(self).current_piece.pv().code,
            ).update(to_index(*old(self)), old(self).target_piece.pv().code),
            *final(self) == *old(self),
    {
        let start_piece_number: u8 = self.current_piece.get_piece_number();
        let start_col: u8 = self.current_piece.get_column();
        let start_row: u8 = self.current_piece.get_row();

        let end_piece_number: u8 = self.target_piece.get_piece_number();
        let end_col: u8 = self.target_piece.get_column();
        let end_row: u8 = self.target_piece.get_row();

        board.finalize_movement(start_piece_number, start_col, start_row);
        board.finalize_movement(end_piece_number, end_col, end_row);
    }

    /// Simulate this step, ask whether the opposing side would still
    /// threaten the mover's king afterwards, and undo the simulation.  The
    /// board leaves exactly as it came, on every path.  Returns true when
    /// the step removes every attack on the mover's king.
    pub fn can_avoid_checkmate(&mut self, board: &mut Board) -> (r: bool)
        requires
            old(board).wf(),
            step_wf(*old(self)),
            code_color(old(self).current_piece.pv().code) != Color::EMPTY,
            step_matches(*old(self), old(board).built()),
            color_kings_safe(
                apply_move(old(board).work(), from_index(*old(self)), to_index(*old(self))),
                rival_of(code_color(old(self).current_piece.pv().code)),
            ),
        ensures
            final(board).wf(),
            final(board).built() == old(board).built(),
            final(board).work() == old(board).work(),
            final(board).canon() == old(board).canon(),
            *final(self) == (Step { moved: false, ..*old(self) }),
            r == !threatens(
                apply_move(old(board).work(), from_index(*old(self)), to_index(*old(self))),
                rival_of(code_color(old(self).current_piece.pv().code)),
            ),
    {
        let current_color: Color = self.current_piece.get_color();

        let rival_color: Color = match current_color {
            Color::EMPTY => unreached(),
            Color::BLACK => Color::WHITE,
            Color::WHITE => Color::BLACK,
        };

        self.commit_move(board);

        proof {
            assert(board.work() =~= apply_move(
                old(board).work(),
                from_index(*old(self)),
                to_index(*old(self)),
            ));
        }

        let mut rival_player: Player = Player::new(rival_color, board);

        // In probe mode no step lists are built; only the check flag counts.
        rival_player.build_reports(board, true);

        self.revert_move(board);

        proof {
            lemma_piece_canonical(old(self).current_piece);
            lemma_piece_canonical(old(self).target_piece);
            assert(board.work() =~= old(board).work());
            assert(board.built() =~= old(board).built());
        }

        // If this step really clears the mover's check state, the rival's
        // probe finds no threat.
        !rival_player.is_check()
    }
}

} // verus!
