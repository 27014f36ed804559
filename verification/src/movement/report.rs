use vstd::prelude::*;

use crate::board::Board;
use crate::movement::rules::{
    diag_check, diag_dests, ortho_check, ortho_dests, probe_adds_step, probe_continues,
    probe_sets_check, ray_check, ray_dests, square_index,
};
use crate::movement::rules::{apply_move, color_kings_safe, threatens};
use crate::movement::step::{from_index, step_for, step_matches, step_wf, steps_for, to_index, Step};
use crate::pieces::piece::{code_color, rival_of, Color, Piece};
use crate::pieces::piece_ext::PieceExt;

verus! {

/// How one probe of a ray, at distance `k`, decomposes the recorded steps
/// and the check flag of the rest of the ray.
proof fn lemma_ray_step_unfold(
    b: Seq<u8>,
    built: Seq<Piece>,
    p: Piece,
    color: Color,
    c0: int,
    r0: int,
    g: int,
    dn: int,
    k: int,
    m: int,
)
    requires
        k <= m,
    ensures
        steps_for(p, built, ray_dests(b, color, c0, r0, g, dn, k, m)) == (if probe_continues(
            b,
            c0 + k * g,
            r0 + k * dn,
        ) {
            seq![step_for(p, built, (c0 + k * g, r0 + k * dn))] + steps_for(
                p,
                built,
                ray_dests(b, color, c0, r0, g, dn, k + 1, m),
            )
        } else if probe_adds_step(b, color, c0 + k * g, r0 + k * dn, false, false) {
            seq![step_for(p, built, (c0 + k * g, r0 + k * dn))]
        } else {
            Seq::<Step>::empty()
        }),
        ray_check(b, color, c0, r0, g, dn, k, m) == (if probe_continues(
            b,
            c0 + k * g,
            r0 + k * dn,
        ) {
            ray_check(b, color, c0, r0, g, dn, k + 1, m)
        } else {
            probe_sets_check(b, color, c0 + k * g, r0 + k * dn, false)
        }),
{
    let c = c0 + k * g;
    let r = r0 + k * dn;
    if probe_continues(b, c, r) {
        crate::movement::step::lemma_steps_for_add(
            p,
            built,
            seq![(c, r)],
            ray_dests(b, color, c0, r0, g, dn, k + 1, m),
        );
        crate::movement::step::lemma_steps_for_one(p, built, (c, r));
    } else if probe_adds_step(b, color, c, r, false, false) {
        crate::movement::step::lemma_steps_for_one(p, built, (c, r));
    } else {
        assert(steps_for(p, built, Seq::<(int, int)>::empty()) =~= Seq::<Step>::empty());
    }
}

/// The movement report of a single piece: the piece itself, whether it
/// threatens the enemy king, and — unless the query is a checkmate probe —
/// the ordered list of its reachable steps.
#[derive(Clone)]
pub struct Report {
    pub piece: Piece,
    pub check: bool,
    pub steps: Vec<Step>,
    pub search_checkmate: bool,
}

impl Report {
    pub fn new(piece: Piece, search_checkmate: bool) -> (r: Self)
        ensures
            r.piece == piece,
            r.check == false,
            r.steps@ == Seq::<Step>::empty(),
            r.search_checkmate == search_checkmate,
    {
        Report { piece, check: false, steps: Vec::new(), search_checkmate }
    }

    pub fn is_check(&self) -> (r: bool)
        ensures
            r == self.check,
    {
        self.check
    }

    pub fn set_check(&mut self)
        ensures
            *final(self) == (Report { check: true, ..*old(self) }),
    {
        self.check = true;
    }

    /// Classify one candidate destination against the board and record it.
    /// Off-board squares are excluded.  An empty square becomes a step unless
    /// `no_empty` forbids it (a pawn's diagonals); a rival square becomes a
    /// capture step unless `no_rival` forbids it (a pawn's forward steps),
    /// and a rival king also flags check; an allied square is excluded.  In
    /// probe mode (`search_checkmate`) no step is materialized, only the
    /// check flag.  Returns true exactly when a ray may continue past the
    /// candidate: on an empty, on-board square.
    pub fn include_step(
        &mut self,
        board: &Board,
        target_column: i8,
        target_row: i8,
        no_empty: bool,
        no_rival: bool,
    ) -> (r: bool)
        requires
            board.wf(),
            old(self).piece.wf(),
            code_color(old(self).piece.pv().code) != Color::EMPTY,
        ensures
            r == probe_continues(board.work(), target_column as int, target_row as int),
            final(self).piece == old(self).piece,
            final(self).search_checkmate == old(self).search_checkmate,
            final(self).check == (old(self).check || probe_sets_check(
                board.work(),
                code_color(old(self).piece.pv().code),
                target_column as int,
                target_row as int,
                no_rival,
            )),
            final(self).steps@ == (if probe_adds_step(
                board.work(),
                code_color(old(self).piece.pv().code),
                target_column as int,
                target_row as int,
                no_empty,
                no_rival,
            ) && !old(self).search_checkmate {
                old(self).steps@.push(
                    step_for(
                        old(self).piece,
                        board.built(),
                        (target_column as int, target_row as int),
                    ),
                )
            } else {
                old(self).steps@
            }),
    {
        let current_color: Color = self.piece.get_color();

        if (target_column < 0) || (target_row < 0) || (target_column > 7) || (target_row > 7) {
            // target_column or target_row is outside the board's boundaries.
            return false;
        }

        let target_piece: Piece = board.get_piece(target_column as u8, target_row as u8);

        let target_color: Color = target_piece.get_color();

        match (current_color, target_color) {
            (Color::EMPTY, _) => unreached(),
            (Color::BLACK, Color::WHITE) | (Color::WHITE, Color::BLACK) => {
                // Rival position: a capture ends the ray.
                if !no_rival {
                    if target_piece.is_king() {
                        self.set_check();
                    }

                    if !self.search_checkmate {
                        // A checkmate probe never materializes steps.
                        let step: Step = Step::new(self.piece, target_piece);

                        self.steps.push(step);
                    }
                }
                false
            },
            (Color::BLACK, Color::BLACK) | (Color::WHITE, Color::WHITE) => {
                // Allied position: excluded, and the ray stops.
                false
            },
            (_, Color::EMPTY) => {
                // Empty position: the ray may continue.
                if !no_empty {
                    if !self.search_checkmate {
                        let step: Step = Step::new(self.piece, target_piece);

                        self.steps.push(step);
                    }
                }
                true
            },
        }
    }

    /// Walk the positions along one direction, probing distances 1..=
    /// `max_steps` and stopping at the board edge, at an ally, or just past
    /// the first rival.
    pub fn count_steps(&mut self, go_right: i8, go_down: i8, max_steps: i8, board: &Board)
        requires
            board.wf(),
            old(self).piece.wf(),
            code_color(old(self).piece.pv().code) != Color::EMPTY,
            -1 <= go_right <= 1,
            -1 <= go_down <= 1,
            0 <= max_steps <= 7,
        ensures
            final(self).piece == old(self).piece,
            final(self).search_checkmate == old(self).search_checkmate,
            final(self).check == (old(self).check || ray_check(
                board.work(),
                code_color(old(self).piece.pv().code),
                old(self).piece.pv().col as int,
                old(self).piece.pv().row as int,
                go_right as int,
                go_down as int,
                1,
                max_steps as int,
            )),
            final(self).steps@ == old(self).steps@ + (if old(self).search_checkmate {
                Seq::<Step>::empty()
            } else {
                steps_for(
                    old(self).piece,
                    board.built(),
                    ray_dests(
                        board.work(),
                        code_color(old(self).piece.pv().code),
                        old(self).piece.pv().col as int,
                        old(self).piece.pv().row as int,
                        go_right as int,
                        go_down as int,
                        1,
                        max_steps as int,
                    ),
                )
            }),
    {
        let start_col: u8 = self.piece.get_column();
        let start_row: u8 = self.piece.get_row();

        let ghost b = board.work();
        let ghost built = board.built();
        let ghost p = old(self).piece;
        let ghost color = code_color(p.pv().code);
        let ghost c0 = p.pv().col as int;
        let ghost r0 = p.pv().row as int;
        let ghost g = go_right as int;
        let ghost dn = go_down as int;
        let ghost m = max_steps as int;

        let mut counter: i8 = 1;

        while counter <= max_steps
            invariant_except_break
                1 <= counter <= max_steps + 1,
                (old(self).check || ray_check(b, color, c0, r0, g, dn, 1, m)) == (self.check
                    || ray_check(b, color, c0, r0, g, dn, counter as int, m)),
                old(self).steps@ + (if old(self).search_checkmate {
                    Seq::<Step>::empty()
                } else {
                    steps_for(p, built, ray_dests(b, color, c0, r0, g, dn, 1, m))
                }) == self.steps@ + (if old(self).search_checkmate {
                    Seq::<Step>::empty()
                } else {
                    steps_for(p, built, ray_dests(b, color, c0, r0, g, dn, counter as int, m))
                }),
            invariant
                board.wf(),
                b == board.work(),
                built == board.built(),
                p.wf(),
                color == code_color(p.pv().code),
                color != Color::EMPTY,
                c0 == p.pv().col as int,
                r0 == p.pv().row as int,
                g == go_right as int,
                dn == go_down as int,
                m == max_steps as int,
                -1 <= go_right <= 1,
                -1 <= go_down <= 1,
                0 <= max_steps <= 7,
                1 <= counter <= 8,
                self.piece == p,
                self.search_checkmate == old(self).search_checkmate,
                start_col == p.pv().col,
                start_row == p.pv().row,
                start_col < 8,
                start_row < 8,
            ensures
                (old(self).check || ray_check(b, color, c0, r0, g, dn, 1, m)) == self.check,
                old(self).steps@ + (if old(self).search_checkmate {
                    Seq::<Step>::empty()
                } else {
                    steps_for(p, built, ray_dests(b, color, c0, r0, g, dn, 1, m))
                }) == self.steps@,
            decreases max_steps + 1 - counter,
        {
            proof {
                // the directions are unit steps, so the offsets stay small
                assert(-8 <= go_right as int * counter as int <= 8) by (nonlinear_arith)
                    requires
                        -1 <= go_right as int <= 1,
                        1 <= counter as int <= 8,
                ;
                assert(-8 <= go_down as int * counter as int <= 8) by (nonlinear_arith)
                    requires
                        -1 <= go_down as int <= 1,
                        1 <= counter as int <= 8,
                ;
            }

            let col: i8 = start_col as i8 + go_right * counter;
            let row: i8 = start_row as i8 + go_down * counter;

            let ghost k = counter as int;

            let cont = self.include_step(board, col, row, false, false);

            proof {
                assert(col as int == c0 + k * g);
                assert(row as int == r0 + k * dn);
                if !old(self).search_checkmate {
                    lemma_ray_step_unfold(b, built, p, color, c0, r0, g, dn, k, m);
                }
            }

            if !cont {
                // The probe did not meet an empty position: stop counting.
                break;
            }

            counter += 1;
        }
    }

    /// Whether this report answers the requested step: the report must be for
    /// the very piece the step starts from, and some recorded step must agree
    /// with the request on all four position coordinates.
    pub fn is_step_here(&self, step: &Step) -> (r: bool)
        requires
            self.piece.wf(),
            step.current_piece.wf(),
        ensures
            r == (self.piece == step.current_piece && exists|k: int|
                0 <= k < self.steps@.len() && #[trigger] crate::movement::step::pos_eq(
                    self.steps@[k],
                    *step,
                )),
    {
        // Will not even count if the piece is not the same.
        let same_piece: bool = self.piece.get_piece_number()
            == step.current_piece.get_piece_number() && self.piece.get_column()
            == step.current_piece.get_column() && self.piece.get_row()
            == step.current_piece.get_row();

        proof {
            crate::pieces::piece::lemma_piece_canonical(self.piece);
            crate::pieces::piece::lemma_piece_canonical(step.current_piece);
        }

        if !same_piece {
            return false;
        }

        let mut index: usize = 0;

        while index < self.steps.len()
            invariant
                self.piece == step.current_piece,
                index <= self.steps@.len(),
                forall|k: int|
                    0 <= k < index ==> !crate::movement::step::pos_eq(self.steps@[k], *step),
            decreases self.steps@.len() - index,
        {
            if self.steps[index] == *step {
                proof {
                    assert(crate::movement::step::pos_eq(self.steps@[index as int], *step));
                }
                return true;
            }

            index += 1;
        }

        false
    }

    /// Probe the four orthogonal directions, right, left, down and up, each
    /// as a ray of up to `max_steps` squares.  Rook, queen and king use this.
    pub fn apply_valid_ortogonal_positions(&mut self, max_steps: i8, board: &Board)
        requires
            board.wf(),
            old(self).piece.wf(),
            code_color(old(self).piece.pv().code) != Color::EMPTY,
            0 <= max_steps <= 7,
        ensures
            final(self).piece == old(self).piece,
            final(self).search_checkmate == old(self).search_checkmate,
            final(self).check == (old(self).check || ortho_check(
                board.work(),
                code_color(old(self).piece.pv().code),
                old(self).piece.pv().col as int,
                old(self).piece.pv().row as int,
                max_steps as int,
            )),
            final(self).steps@ == old(self).steps@ + (if old(self).search_checkmate {
                Seq::<Step>::empty()
            } else {
                steps_for(
                    old(self).piece,
                    board.built(),
                    ortho_dests(
                        board.work(),
                        code_color(old(self).piece.pv().code),
                        old(self).piece.pv().col as int,
                        old(self).piece.pv().row as int,
                        max_steps as int,
                    ),
                )
            }),
    {
        let ghost b = board.work();
        let ghost built = board.built();
        let ghost p = old(self).piece;
        let ghost color = code_color(p.pv().code);
        let ghost c0 = p.pv().col as int;
        let ghost r0 = p.pv().row as int;
        let ghost m = max_steps as int;

        // Count all steps available to the right of the piece.
        self.count_steps(1, 0, max_steps, board);

        // Count all steps available to the left of the piece.
        self.count_steps(-1, 0, max_steps, board);

        // Count all steps available below the piece.
        self.count_steps(0, 1, max_steps, board);

        // Count all the steps available above the piece.
        self.count_steps(0, -1, max_steps, board);

        proof {
            if !old(self).search_checkmate {
                let d1 = ray_dests(b, color, c0, r0, 1, 0, 1, m);
                let d2 = ray_dests(b, color, c0, r0, -1, 0, 1, m);
                let d3 = ray_dests(b, color, c0, r0, 0, 1, 1, m);
                let d4 = ray_dests(b, color, c0, r0, 0, -1, 1, m);
                crate::movement::step::lemma_steps_for_add(p, built, d1, d2);
                crate::movement::step::lemma_steps_for_add(p, built, d1 + d2, d3);
                crate::movement::step::lemma_steps_for_add(p, built, d1 + d2 + d3, d4);
                assert(self.steps@ =~= old(self).steps@ + steps_for(
                    p,
                    built,
                    ortho_dests(b, color, c0, r0, m),
                ));
            } else {
                assert(self.steps@ =~= old(self).steps@ + Seq::<Step>::empty());
            }
        }
    }

    /// Probe the four diagonal directions, down-right, down-left, up-right
    /// and up-left, each as a ray of up to `max_steps` squares.  Bishop,
    /// queen and king use this.
    pub fn apply_valid_diagonal_positions(&mut self, max_steps: i8, board: &Board)
        requires
            board.wf(),
            old(self).piece.wf(),
            code_color(old(self).piece.pv().code) != Color::EMPTY,
            0 <= max_steps <= 7,
        ensures
            final(self).piece == old(self).piece,
            final(self).search_checkmate == old(self).search_checkmate,
            final(self).check == (old(self).check || diag_check(
                board.work(),
                code_color(old(self).piece.pv().code),
                old(self).piece.pv().col as int,
                old(self).piece.pv().row as int,
                max_steps as int,
            )),
            final(self).steps@ == old(self).steps@ + (if old(self).search_checkmate {
                Seq::<Step>::empty()
            } else {
                steps_for(
                    old(self).piece,
                    board.built(),
                    diag_dests(
                        board.work(),
                        code_color(old(self).piece.pv().code),
                        old(self).piece.pv().col as int,
                        old(self).piece.pv().row as int,
                        max_steps as int,
                    ),
                )
            }),
    {
        let ghost b = board.work();
        let ghost built = board.built();
        let ghost p = old(self).piece;
        let ghost color = code_color(p.pv().code);
        let ghost c0 = p.pv().col as int;
        let ghost r0 = p.pv().row as int;
        let ghost m = max_steps as int;

        // Count steps available down right.
        self.count_steps(1, 1, max_steps, board);

        // Count steps available down left.
        self.count_steps(-1, 1, max_steps, board);

        // Count steps available up right.
        self.count_steps(1, -1, max_steps, board);

        // Count steps available up left.
        self.count_steps(-1, -1, max_steps, board);

        proof {
            if !old(self).search_checkmate {
                let d1 = ray_dests(b, color, c0, r0, 1, 1, 1, m);
                let d2 = ray_dests(b, color, c0, r0, -1, 1, 1, m);
                let d3 = ray_dests(b, color, c0, r0, 1, -1, 1, m);
                let d4 = ray_dests(b, color, c0, r0, -1, -1, 1, m);
                crate::movement::step::lemma_steps_for_add(p, built, d1, d2);
                crate::movement::step::lemma_steps_for_add(p, built, d1 + d2, d3);
                crate::movement::step::lemma_steps_for_add(p, built, d1 + d2 + d3, d4);
                assert(self.steps@ =~= old(self).steps@ + steps_for(
                    p,
                    built,
                    diag_dests(b, color, c0, r0, m),
                ));
            } else {
                assert(self.steps@ =~= old(self).steps@ + Seq::<Step>::empty());
            }
        }
    }

    /// Whether any of this report's steps, once simulated, removes every
    /// attack on its own side's king.  Each step is committed tentatively,
    /// probed, and reverted; the board leaves exactly as it came.
    pub fn can_avoid_checkmate(&self, board: &mut Board) -> (r: bool)
        requires
            old(board).wf(),
            forall|k: int|
                0 <= k < self.steps@.len() ==> {
                    let s = #[trigger] self.steps@[k];
                    &&& step_wf(s)
                    &&& code_color(s.current_piece.pv().code) != Color::EMPTY
                    &&& step_matches(s, old(board).built())
                    &&& color_kings_safe(
                        apply_move(old(board).work(), from_index(s), to_index(s)),
                        rival_of(code_color(s.current_piece.pv().code)),
                    )
                },
        ensures
            final(board).wf(),
            final(board).built() == old(board).built(),
            final(board).work() == old(board).work(),
            final(board).canon() == old(board).canon(),
            r == exists|k: int|
                0 <= k < self.steps@.len() && !threatens(
                    apply_move(
                        old(board).work(),
                        from_index(#[trigger] self.steps@[k]),
                        to_index(self.steps@[k]),
                    ),
                    rival_of(code_color(self.steps@[k].current_piece.pv().code)),
                ),
    {
        let mut k: usize = 0;

        while k < self.steps.len()
            invariant
                board.wf(),
                board.built() == old(board).built(),
                board.work() == old(board).work(),
                board.canon() == old(board).canon(),
                k <= self.steps@.len(),
                forall|t: int|
                    0 <= t < self.steps@.len() ==> {
                        let s = #[trigger] self.steps@[t];
                        &&& step_wf(s)
                        &&& code_color(s.current_piece.pv().code) != Color::EMPTY
                        &&& step_matches(s, old(board).built())
                        &&& color_kings_safe(
                            apply_move(old(board).work(), from_index(s), to_index(s)),
                            rival_of(code_color(s.current_piece.pv().code)),
                        )
                    },
                forall|t: int|
                    0 <= t < k ==> threatens(
                        apply_move(
                            old(board).work(),
                            from_index(#[trigger] self.steps@[t]),
                            to_index(self.steps@[t]),
                        ),
                        rival_of(code_color(self.steps@[t].current_piece.pv().code)),
                    ),
            decreases self.steps@.len() - k,
        {
            let mut step: Step = self.steps[k];

            if step.can_avoid_checkmate(board) {
                // At least one movement saves this side from its check
                // status: it is not checkmate.
                return true;
            }

            k += 1;
        }

        false
    }

    /// An element-for-element copy of this report.
    pub fn duplicate(&self) -> (r: Report)
        ensures
            r.piece == self.piece,
            r.check == self.check,
            r.steps@ == self.steps@,
            r.search_checkmate == self.search_checkmate,
    {
        let mut steps: Vec<Step> = Vec::new();
        let mut k: usize = 0;

        while k < self.steps.len()
            invariant
                k <= self.steps@.len(),
                steps@ == self.steps@.take(k as int),
            decreases self.steps@.len() - k,
        {
            steps.push(self.steps[k]);

            proof {
                assert(steps@ =~= self.steps@.take(k as int + 1));
            }

            k += 1;
        }

        proof {
            assert(steps@ =~= self.steps@);
        }

        Report {
            piece: self.piece,
            check: self.check,
            steps,
            search_checkmate: self.search_checkmate,
        }
    }

    /// Turn a column and a row into the index of the square in the board.
    pub fn col_row_to_index(col: u8, row: u8) -> (r: u8)
        requires
            col < 8,
            row < 8,
        ensures
            r as int == square_index(col as int, row as int),
            r < 64,
    {
        row * 8 + col
    }
}

} // verus!
