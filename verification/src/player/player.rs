use vstd::prelude::*;

use crate::board::Board;
use crate::movement::report::Report;
use crate::movement::rules::{
    apply_move, color_kings_safe, color_pieces, escape_probes_safe, has_escape, in_bounds,
    lemma_color_pieces_props, lemma_piece_dests_in_bounds, piece_dests, piece_gives_check,
    piece_square, pv_at, square_index, threatens,
};
use crate::movement::step::{
    from_index, pos_eq, step_matches, step_wf, steps_for, to_index, Step,
};
use crate::pieces::piece::rival_of;
use crate::pieces::piece::{code_color, Color, Piece};
use crate::pieces::piece_ext::PieceExt;
use crate::player::errors::ErrorResponse;

verus! {

/// The working position and the piece array describe the same well-formed
/// board: every piece stands on its own square and carries the square's
/// canonical code.
pub open spec fn board_shape(b: Seq<u8>, built: Seq<Piece>) -> bool {
    &&& built.len() == 64
    &&& b.len() == 64
    &&& forall|i: int|
        0 <= i < 64 ==> (#[trigger] built[i]).wf() && built[i].pv().col as int == i % 8
            && built[i].pv().row as int == i / 8
    &&& forall|i: int| 0 <= i < 64 ==> #[trigger] b[i] == built[i].pv().code
}

/// Idempotence law: rebuilding a side's reports is a pure function of the
/// board, the colour and the probe mode.  Two rebuilds against the same
/// unchanged board — with no commit in between — yield identical piece
/// lists and identical report sets, whatever state either side held before.
pub proof fn lemma_rebuild_idempotent(p1: Player, p2: Player, b: Seq<u8>, built: Seq<Piece>)
    requires
        p1.reports_built_for(b, built),
        p2.reports_built_for(b, built),
        p1.color == p2.color,
        p1.search_checkmate == p2.search_checkmate,
    ensures
        p1.pieces@ == p2.pieces@,
        p1.latest_reports@.len() == p2.latest_reports@.len(),
        forall|j: int|
            0 <= j < p1.latest_reports@.len() ==> {
                &&& (#[trigger] p1.latest_reports@[j]).piece == p2.latest_reports@[j].piece
                &&& p1.latest_reports@[j].check == p2.latest_reports@[j].check
                &&& p1.latest_reports@[j].steps@ == p2.latest_reports@[j].steps@
                &&& p1.latest_reports@[j].search_checkmate
                    == p2.latest_reports@[j].search_checkmate
            },
{
}

/// What every recorded step of a freshly built report set is: its origin
/// snapshot is the report's own piece, standing on its own square of the
/// player's colour; its target snapshot is the occupant of a generated
/// destination; and both snapshots agree with the board.
pub proof fn lemma_reports_step_facts(pl: Player, b: Seq<u8>, built: Seq<Piece>)
    requires
        board_shape(b, built),
        pl.reports_built_for(b, built),
        pl.color != Color::EMPTY,
    ensures
        forall|j: int, k: int|
            #![trigger pl.latest_reports@[j].steps@[k]]
            0 <= j < pl.latest_reports@.len() && 0 <= k < pl.latest_reports@[j].steps@.len()
                ==> {
                let s = pl.latest_reports@[j].steps@[k];
                let q = pl.latest_reports@[j].piece;
                let d = piece_dests(b, q.pv())[k];
                &&& s.current_piece == q
                &&& step_wf(s)
                &&& code_color(s.current_piece.pv().code) == pl.color
                &&& 0 <= piece_square(q) < 64
                &&& built[piece_square(q)] == q
                &&& q.pv() == pv_at(b, piece_square(q))
                &&& in_bounds(d.0, d.1)
                &&& s.target_piece == built[d.1 * 8 + d.0]
                &&& from_index(s) == piece_square(q)
                &&& to_index(s) == square_index(d.0, d.1)
                &&& step_matches(s, built)
                &&& 0 <= k < piece_dests(b, q.pv()).len()
                &&& piece_dests(b, q.pv()).contains(d)
            },
{
    lemma_color_pieces_props(built, b, pl.color, 64);

    assert forall|j: int, k: int|
        #![trigger pl.latest_reports@[j].steps@[k]]
        0 <= j < pl.latest_reports@.len() && 0 <= k
            < pl.latest_reports@[j].steps@.len() implies {
        let s = pl.latest_reports@[j].steps@[k];
        let q = pl.latest_reports@[j].piece;
        let d = piece_dests(b, q.pv())[k];
        &&& s.current_piece == q
        &&& step_wf(s)
        &&& code_color(s.current_piece.pv().code) == pl.color
        &&& 0 <= piece_square(q) < 64
        &&& built[piece_square(q)] == q
        &&& q.pv() == pv_at(b, piece_square(q))
        &&& in_bounds(d.0, d.1)
        &&& s.target_piece == built[d.1 * 8 + d.0]
        &&& from_index(s) == piece_square(q)
        &&& to_index(s) == square_index(d.0, d.1)
        &&& step_matches(s, built)
        &&& 0 <= k < piece_dests(b, q.pv()).len()
        &&& piece_dests(b, q.pv()).contains(d)
    } by {
        let rep = pl.latest_reports@[j];
        let q = rep.piece;
        let dests = piece_dests(b, q.pv());
        let s = rep.steps@[k];

        lemma_piece_dests_in_bounds(b, q.pv());

        assert(rep.steps@ == steps_for(q, built, dests));
        assert(s == crate::movement::step::step_for(q, built, dests[k]));

        let d = dests[k];
        let ti = d.1 * 8 + d.0;

        assert(built[ti].pv().col as int == ti % 8 && built[ti].pv().row as int == ti / 8);
        vstd::arithmetic::div_mod::lemma_fundamental_div_mod_converse(ti, 8, d.1, d.0);

        assert(dests[k] == d);
        assert(dests.contains(d));
    }
}

/// The step-matching test over freshly built reports answers exactly the
/// declarative validity of the request: the origin square holds the
/// player's own piece and the destination square is one of its generated
/// destinations.
#[verifier::rlimit(80)]
pub proof fn lemma_step_valid_bridge(pl: Player, b: Seq<u8>, built: Seq<Piece>, s: Step)
    requires
        board_shape(b, built),
        pl.reports_built_for(b, built),
        !pl.search_checkmate,
        pl.color != Color::EMPTY,
        step_wf(s),
        step_matches(s, built),
    ensures
        (exists|j: int, k: int|
            #![trigger pl.latest_reports@[j].steps@[k]]
            0 <= j < pl.latest_reports@.len() && 0 <= k < pl.latest_reports@[j].steps@.len()
                && pl.latest_reports@[j].piece == s.current_piece && pos_eq(
                pl.latest_reports@[j].steps@[k],
                s,
            )) <==> (code_color(b[from_index(s)]) == pl.color && piece_dests(
            b,
            pv_at(b, from_index(s)),
        ).contains(((to_index(s) % 8), (to_index(s) / 8)))),
{
    lemma_color_pieces_props(built, b, pl.color, 64);
    lemma_reports_step_facts(pl, b, built);

    let fi = from_index(s);
    let ti = to_index(s);

    vstd::arithmetic::div_mod::lemma_fundamental_div_mod_converse(
        fi,
        8,
        s.current_piece.pv().row as int,
        s.current_piece.pv().col as int,
    );
    vstd::arithmetic::div_mod::lemma_fundamental_div_mod_converse(
        ti,
        8,
        s.target_piece.pv().row as int,
        s.target_piece.pv().col as int,
    );

    assert(pv_at(b, fi) == s.current_piece.pv());

    if exists|j: int, k: int|
        #![trigger pl.latest_reports@[j].steps@[k]]
        0 <= j < pl.latest_reports@.len() && 0 <= k < pl.latest_reports@[j].steps@.len()
            && pl.latest_reports@[j].piece == s.current_piece && pos_eq(
            pl.latest_reports@[j].steps@[k],
            s,
        ) {
        let (j, k) = choose|j: int, k: int|
            #![trigger pl.latest_reports@[j].steps@[k]]
            0 <= j < pl.latest_reports@.len() && 0 <= k < pl.latest_reports@[j].steps@.len()
                && pl.latest_reports@[j].piece == s.current_piece && pos_eq(
                pl.latest_reports@[j].steps@[k],
                s,
            );
        let q = pl.latest_reports@[j].piece;
        let w = pl.latest_reports@[j].steps@[k];
        let d = piece_dests(b, q.pv())[k];

        assert(piece_square(q) == fi);
        assert(w.target_piece == built[d.1 * 8 + d.0]);
        vstd::arithmetic::div_mod::lemma_fundamental_div_mod_converse(d.1 * 8 + d.0, 8, d.1, d.0);
        assert(w.target_piece.pv().col as int == d.0 && w.target_piece.pv().row as int == d.1);
        assert(d.0 == s.target_piece.pv().col as int && d.1 == s.target_piece.pv().row as int);
        assert(d == ((ti % 8), (ti / 8)));
        assert(piece_dests(b, pv_at(b, fi)).contains(((ti % 8), (ti / 8))));
    }

    if code_color(b[fi]) == pl.color && piece_dests(b, pv_at(b, fi)).contains(
        ((ti % 8), (ti / 8)),
    ) {
        let q = built[fi];
        assert(q == s.current_piece);
        assert(color_pieces(built, pl.color).contains(q));
        let j = choose|j: int|
            0 <= j < color_pieces(built, pl.color).len() && color_pieces(built, pl.color)[j]
                == q;
        let dests = piece_dests(b, q.pv());
        assert(q.pv() == pv_at(b, fi));
        let k = choose|k: int| 0 <= k < dests.len() && dests[k] == ((ti % 8), (ti / 8));
        let w = pl.latest_reports@[j].steps@[k];
        assert(w.target_piece == built[(ti / 8) * 8 + (ti % 8)]);
        vstd::arithmetic::div_mod::lemma_fundamental_div_mod(ti, 8);
        assert((ti / 8) * 8 + (ti % 8) == ti);
        assert(w.target_piece == s.target_piece);
        assert(pos_eq(w, s));
    }
}

/// The escape search over freshly built reports answers exactly whether the
/// side has a reply that removes every attack on its own king.
#[verifier::rlimit(80)]
pub proof fn lemma_escape_bridge(pl: Player, b: Seq<u8>, built: Seq<Piece>)
    requires
        board_shape(b, built),
        pl.reports_built_for(b, built),
        !pl.search_checkmate,
        pl.color != Color::EMPTY,
    ensures
        (exists|j: int, k: int|
            #![trigger pl.latest_reports@[j].steps@[k]]
            0 <= j < pl.latest_reports@.len() && 0 <= k < pl.latest_reports@[j].steps@.len()
                && !threatens(
                apply_move(
                    b,
                    from_index(pl.latest_reports@[j].steps@[k]),
                    to_index(pl.latest_reports@[j].steps@[k]),
                ),
                rival_of(code_color(pl.latest_reports@[j].steps@[k].current_piece.pv().code)),
            )) <==> has_escape(b, pl.color),
{
    lemma_color_pieces_props(built, b, pl.color, 64);
    lemma_reports_step_facts(pl, b, built);

    if exists|j: int, k: int|
        #![trigger pl.latest_reports@[j].steps@[k]]
        0 <= j < pl.latest_reports@.len() && 0 <= k < pl.latest_reports@[j].steps@.len()
            && !threatens(
            apply_move(
                b,
                from_index(pl.latest_reports@[j].steps@[k]),
                to_index(pl.latest_reports@[j].steps@[k]),
            ),
            rival_of(code_color(pl.latest_reports@[j].steps@[k].current_piece.pv().code)),
        ) {
        let (j, k) = choose|j: int, k: int|
            #![trigger pl.latest_reports@[j].steps@[k]]
            0 <= j < pl.latest_reports@.len() && 0 <= k < pl.latest_reports@[j].steps@.len()
                && !threatens(
                apply_move(
                    b,
                    from_index(pl.latest_reports@[j].steps@[k]),
                    to_index(pl.latest_reports@[j].steps@[k]),
                ),
                rival_of(code_color(pl.latest_reports@[j].steps@[k].current_piece.pv().code)),
            );
        let q = pl.latest_reports@[j].piece;
        let i = piece_square(q);
        let d = piece_dests(b, q.pv())[k];

        assert(piece_dests(b, pv_at(b, i)).contains(d));
        assert(!threatens(apply_move(b, i, square_index(d.0, d.1)), rival_of(pl.color)));
        assert(has_escape(b, pl.color));
    }

    if has_escape(b, pl.color) {
        let (i, d) = choose|i: int, d: (int, int)|
            0 <= i < 64 && code_color(b[i]) == pl.color && #[trigger] piece_dests(
                b,
                pv_at(b, i),
            ).contains(d) && !threatens(
                apply_move(b, i, square_index(d.0, d.1)),
                rival_of(pl.color),
            );
        let q = built[i];

        assert(q.pv() == pv_at(b, i));
        assert(color_pieces(built, pl.color).contains(q));
        let j = choose|j: int|
            0 <= j < color_pieces(built, pl.color).len() && color_pieces(built, pl.color)[j]
                == q;
        let dests = piece_dests(b, q.pv());
        let k = choose|k: int| 0 <= k < dests.len() && dests[k] == d;
        let w = pl.latest_reports@[j].steps@[k];

        assert(piece_square(q) == i);
        assert(from_index(w) == i && to_index(w) == square_index(d.0, d.1));
        assert(!threatens(
            apply_move(b, from_index(w), to_index(w)),
            rival_of(code_color(w.current_piece.pv().code)),
        ));
    }
}

/// When every candidate reply of this side may be probed, every recorded
/// step of its freshly built reports meets the probing preconditions.
#[verifier::rlimit(80)]
pub proof fn lemma_escape_probe_requires(pl: Player, b: Seq<u8>, built: Seq<Piece>, mover: Color)
    requires
        board_shape(b, built),
        pl.reports_built_for(b, built),
        !pl.search_checkmate,
        pl.color != Color::EMPTY,
        mover == rival_of(pl.color),
        escape_probes_safe(b, pl.color, mover),
    ensures
        forall|j: int, k: int|
            #![trigger pl.latest_reports@[j].steps@[k]]
            0 <= j < pl.latest_reports@.len() && 0 <= k < pl.latest_reports@[j].steps@.len()
                ==> {
                let s = pl.latest_reports@[j].steps@[k];
                &&& step_wf(s)
                &&& code_color(s.current_piece.pv().code) != Color::EMPTY
                &&& step_matches(s, built)
                &&& color_kings_safe(
                    apply_move(b, from_index(s), to_index(s)),
                    rival_of(code_color(s.current_piece.pv().code)),
                )
            },
{
    lemma_reports_step_facts(pl, b, built);

    assert forall|j: int, k: int|
        #![trigger pl.latest_reports@[j].steps@[k]]
        0 <= j < pl.latest_reports@.len() && 0 <= k
            < pl.latest_reports@[j].steps@.len() implies {
        let s = pl.latest_reports@[j].steps@[k];
        &&& step_wf(s)
        &&& code_color(s.current_piece.pv().code) != Color::EMPTY
        &&& step_matches(s, built)
        &&& color_kings_safe(
            apply_move(b, from_index(s), to_index(s)),
            rival_of(code_color(s.current_piece.pv().code)),
        )
    } by {
        let s = pl.latest_reports@[j].steps@[k];
        let q = pl.latest_reports@[j].piece;
        let i = piece_square(q);
        let d = piece_dests(b, q.pv())[k];

        assert(piece_dests(b, pv_at(b, i)).contains(d));
        assert(color_kings_safe(apply_move(b, i, square_index(d.0, d.1)), mover));
    }
}

/// One side's aggregate: its pieces on the board, the movement reports last
/// built for them, and the derived flag meaning "this side threatens the
/// opposing king".
pub struct Player {
    pub color: Color,
    pub pieces: Vec<Piece>,
    pub latest_reports: Vec<Report>,
    pub check: bool,
    pub search_checkmate: bool,
}

impl Player {
    /// The reports stand exactly for the pieces, freshly generated against
    /// the working position `b` of the board whose pieces are `built`.
    pub open spec fn reports_built_for(&self, b: Seq<u8>, built: Seq<Piece>) -> bool {
        &&& self.pieces@ == color_pieces(built, self.color)
        &&& self.latest_reports@.len() == (if self.search_checkmate {
            0int
        } else {
            color_pieces(built, self.color).len() as int
        })
        &&& forall|j: int|
            0 <= j < self.latest_reports@.len() ==> {
                let q = color_pieces(built, self.color)[j];
                let rep = #[trigger] self.latest_reports@[j];
                &&& rep.piece == q
                &&& rep.check == piece_gives_check(b, q.pv())
                &&& rep.search_checkmate == self.search_checkmate
                &&& rep.steps@ == steps_for(q, built, piece_dests(b, q.pv()))
            }
    }

    pub fn new(color: Color, board: &Board) -> (r: Self)
        requires
            board.wf(),
            color != Color::EMPTY,
        ensures
            r.color == color,
            r.pieces@ == color_pieces(board.built(), color),
            r.latest_reports@ == Seq::<Report>::empty(),
            r.check == false,
            r.search_checkmate == false,
    {
        let mut player: Player = Player {
            color,
            pieces: Vec::with_capacity(16),
            latest_reports: Vec::new(),
            check: false,
            search_checkmate: false,
        };

        player.build_pieces(board);

        player
    }

    fn unset_check(&mut self)
        ensures
            *final(self) == (Player { check: false, ..*old(self) }),
    {
        self.check = false;
    }

    pub fn is_check(&mut self) -> (r: bool)
        ensures
            r == old(self).check,
            *final(self) == *old(self),
    {
        self.check
    }

    pub fn set_check(&mut self)
        ensures
            *final(self) == (Player { check: true, ..*old(self) }),
    {
        self.check = true;
    }

    /// Check the board for all pieces of this player's colour, replacing the
    /// previous list wholesale.
    fn build_pieces(&mut self, board: &Board)
        requires
            board.wf(),
            old(self).color != Color::EMPTY,
        ensures
            final(self).color == old(self).color,
            final(self).check == old(self).check,
            final(self).search_checkmate == old(self).search_checkmate,
            final(self).latest_reports@ == old(self).latest_reports@,
            final(self).pieces@ == color_pieces(board.built(), old(self).color),
    {
        match self.color {
            Color::BLACK => board.push_black_pieces(&mut self.pieces),
            Color::WHITE => board.push_white_pieces(&mut self.pieces),
            Color::EMPTY => unreached(),
        }
    }

    /// Regenerate this side's piece list and every piece's movement report,
    /// and derive the aggregate check flag: whether some piece of this side
    /// threatens the opposing king.  In probe mode (`search_checkmate`) no
    /// report is stored, only the flag is computed.
    pub fn build_reports(&mut self, board: &Board, search_checkmate: bool)
        requires
            board.wf(),
            old(self).color != Color::EMPTY,
            color_kings_safe(board.work(), old(self).color),
        ensures
            final(self).color == old(self).color,
            final(self).search_checkmate == search_checkmate,
            final(self).check == threatens(board.work(), old(self).color),
            final(self).reports_built_for(board.work(), board.built()),
    {
        self.search_checkmate = search_checkmate;
        self.build_pieces(board);

        self.unset_check();
        self.latest_reports.clear();

        let mut check = false;

        let ghost b = board.work();
        let ghost built = board.built();
        let ghost color = old(self).color;
        let ghost ps = color_pieces(built, color);

        proof {
            lemma_color_pieces_props(built, b, color, 64);
            assert forall|i: int| 0 <= i < 64 implies #[trigger] b[i] == built[i].pv().code by {}
        }

        let mut idx: usize = 0;

        while idx < self.pieces.len()
            invariant
                board.wf(),
                b == board.work(),
                built == board.built(),
                color == self.color,
                color != Color::EMPTY,
                color_kings_safe(b, color),
                ps == color_pieces(built, color),
                self.pieces@ == ps,
                idx <= ps.len(),
                self.search_checkmate == search_checkmate,
                self.check == false,
                check == exists|t: int|
                    0 <= t < idx && piece_gives_check(b, (#[trigger] ps[t]).pv()),
                self.latest_reports@.len() == (if search_checkmate {
                    0int
                } else {
                    idx as int
                }),
                forall|j: int|
                    0 <= j < self.latest_reports@.len() ==> {
                        let q = ps[j];
                        let rep = #[trigger] self.latest_reports@[j];
                        &&& rep.piece == q
                        &&& rep.check == piece_gives_check(b, q.pv())
                        &&& rep.search_checkmate == search_checkmate
                        &&& rep.steps@ == steps_for(q, built, piece_dests(b, q.pv()))
                    },
            decreases ps.len() - idx,
        {
            let piece: Piece = self.pieces[idx];

            proof {
                lemma_color_pieces_props(built, b, color, 64);
                let sq = piece_square(piece);
                assert(built[sq] == piece && code_color(b[sq]) == color && piece.pv() == pv_at(
                    b,
                    sq,
                ));
                assert(piece.wf());
                assert(b[sq] == piece.pv().code);
            }

            let report: Report = piece.get_movement_report(board, search_checkmate);

            if report.is_check() {
                check = true;
            }

            if !search_checkmate {
                // No report is stored while searching for checkmate.
                self.latest_reports.push(report);
            }

            idx += 1;
        }

        if check {
            self.set_check();
        }

        proof {
            lemma_color_pieces_props(built, b, color, 64);
            if check {
                let t = choose|t: int|
                    0 <= t < ps.len() && piece_gives_check(b, (#[trigger] ps[t]).pv());
                let sq = piece_square(ps[t]);
                assert(code_color(b[sq]) == color && piece_gives_check(b, pv_at(b, sq)));
                assert(threatens(b, color));
            } else {
                if threatens(b, color) {
                    let i = choose|i: int|
                        0 <= i < 64 && code_color(b[i]) == color && #[trigger] piece_gives_check(
                            b,
                            pv_at(b, i),
                        );
                    assert(ps.contains(built[i]));
                    let t = choose|t: int| 0 <= t < ps.len() && ps[t] == built[i];
                    assert(built[i].pv() == pv_at(b, i));
                    assert(piece_gives_check(b, (ps[t]).pv()));
                    assert(false);
                }
            }
        }
    }

    /// Whether the requested step is one this player may take: the step's
    /// origin must hold a piece of this player's colour — otherwise the
    /// request names a rival's piece — and the step must appear in the
    /// reports last built.
    pub fn is_step_valid(&self, step: &Step) -> (r: Result<bool, ErrorResponse>)
        requires
            !self.search_checkmate,
            step.current_piece.wf(),
            forall|j: int|
                0 <= j < self.latest_reports@.len() ==> (#[trigger] self.latest_reports@[j])
                    .piece.wf(),
        ensures
            r == (if code_color(step.current_piece.pv().code) != self.color {
                Result::<bool, ErrorResponse>::Err(ErrorResponse::RivalPiece)
            } else if exists|j: int, k: int|
                #![trigger self.latest_reports@[j].steps@[k]]
                0 <= j < self.latest_reports@.len() && 0 <= k
                    < self.latest_reports@[j].steps@.len() && self.latest_reports@[j].piece
                    == step.current_piece && pos_eq(self.latest_reports@[j].steps@[k], *step) {
                Result::<bool, ErrorResponse>::Ok(true)
            } else {
                Result::<bool, ErrorResponse>::Ok(false)
            }),
    {
        if self.search_checkmate {
            // The reports hold no steps while searching for checkmate, so
            // nothing could ever be found here.
            return unreached();
        }

        if self.color != step.current_piece.get_color() {
            return Result::Err(ErrorResponse::RivalPiece);
        }

        let mut j: usize = 0;

        while j < self.latest_reports.len()
            invariant
                j <= self.latest_reports@.len(),
                step.current_piece.wf(),
                code_color(step.current_piece.pv().code) == self.color,
                forall|t: int|
                    0 <= t < self.latest_reports@.len() ==> (#[trigger] self.latest_reports@[t])
                        .piece.wf(),
                forall|t: int, k: int|
                    #![trigger self.latest_reports@[t].steps@[k]]
                    0 <= t < j && 0 <= k < self.latest_reports@[t].steps@.len()
                        ==> !(self.latest_reports@[t].piece == step.current_piece && pos_eq(
                        self.latest_reports@[t].steps@[k],
                        *step,
                    )),
            decreases self.latest_reports@.len() - j,
        {
            if self.latest_reports[j].is_step_here(step) {
                proof {
                    let jj = j as int;
                    let k = choose|k: int|
                        0 <= k < self.latest_reports@[jj].steps@.len() && pos_eq(
                            self.latest_reports@[jj].steps@[k],
                            *step,
                        );
                    assert(0 <= jj < self.latest_reports@.len() && 0 <= k
                        < self.latest_reports@[jj].steps@.len() && self.latest_reports@[jj].piece
                        == step.current_piece && pos_eq(
                        self.latest_reports@[jj].steps@[k],
                        *step,
                    ));
                    assert(exists|j2: int, k2: int|
                        #![trigger self.latest_reports@[j2].steps@[k2]]
                        0 <= j2 < self.latest_reports@.len() && 0 <= k2
                            < self.latest_reports@[j2].steps@.len()
                            && self.latest_reports@[j2].piece == step.current_piece && pos_eq(
                            self.latest_reports@[j2].steps@[k2],
                            *step,
                        ));
                }
                return Result::Ok(true);
            }

            j += 1;
        }

        Result::Ok(false)
    }

    /// Whether any step across all of this player's reports, once
    /// simulated, removes every attack on this side's king.  The board
    /// leaves exactly as it came.
    pub fn can_avoid_checkmate(&mut self, board: &mut Board) -> (r: bool)
        requires
            old(board).wf(),
            !old(self).search_checkmate,
            forall|j: int, k: int|
                #![trigger old(self).latest_reports@[j].steps@[k]]
                0 <= j < old(self).latest_reports@.len() && 0 <= k < old(
                    self,
                ).latest_reports@[j].steps@.len() ==> {
                    let s = old(self).latest_reports@[j].steps@[k];
                    &&& step_wf(s)
                    &&& code_color(s.current_piece.pv().code) != Color::EMPTY
                    &&& step_matches(s, old(board).built())
                    &&& color_kings_safe(
                        apply_move(old(board).work(), from_index(s), to_index(s)),
                        rival_of(code_color(s.current_piece.pv().code)),
                    )
                },
        ensures
            final(board).wf(),
            final(board).built() == old(board).built(),
            final(board).work() == old(board).work(),
            final(board).canon() == old(board).canon(),
            *final(self) == *old(self),
            r == exists|j: int, k: int|
                #![trigger old(self).latest_reports@[j].steps@[k]]
                0 <= j < old(self).latest_reports@.len() && 0 <= k < old(
                    self,
                ).latest_reports@[j].steps@.len() && !threatens(
                    apply_move(
                        old(board).work(),
                        from_index(old(self).latest_reports@[j].steps@[k]),
                        to_index(old(self).latest_reports@[j].steps@[k]),
                    ),
                    rival_of(
                        code_color(
                            old(self).latest_reports@[j].steps@[k].current_piece.pv().code,
                        ),
                    ),
                ),
    {
        if self.search_checkmate {
            // The reports hold no steps while searching for checkmate, so
            // nothing could ever be found here.
            return unreached();
        }

        let mut j: usize = 0;

        while j < self.latest_reports.len()
            invariant
                board.wf(),
                board.built() == old(board).built(),
                board.work() == old(board).work(),
                board.canon() == old(board).canon(),
                *self == *old(self),
                j <= self.latest_reports@.len(),
                forall|t: int, k: int|
                    #![trigger self.latest_reports@[t].steps@[k]]
                    0 <= t < self.latest_reports@.len() && 0 <= k
                        < self.latest_reports@[t].steps@.len() ==> {
                        let s = self.latest_reports@[t].steps@[k];
                        &&& step_wf(s)
                        &&& code_color(s.current_piece.pv().code) != Color::EMPTY
                        &&& step_matches(s, old(board).built())
                        &&& color_kings_safe(
                            apply_move(old(board).work(), from_index(s), to_index(s)),
                            rival_of(code_color(s.current_piece.pv().code)),
                        )
                    },
                forall|t: int, k: int|
                    #![trigger self.latest_reports@[t].steps@[k]]
                    0 <= t < j && 0 <= k < self.latest_reports@[t].steps@.len() ==> threatens(
                        apply_move(
                            old(board).work(),
                            from_index(self.latest_reports@[t].steps@[k]),
                            to_index(self.latest_reports@[t].steps@[k]),
                        ),
                        rival_of(
                            code_color(
                                self.latest_reports@[t].steps@[k].current_piece.pv().code,
                            ),
                        ),
                    ),
            decreases self.latest_reports@.len() - j,
        {
            if self.latest_reports[j].can_avoid_checkmate(board) {
                // At least one movement saves this player from its check
                // status: it is not checkmate.
                proof {
                    let jj = j as int;
                    let k = choose|k: int|
                        0 <= k < self.latest_reports@[jj].steps@.len() && !threatens(
                            apply_move(
                                old(board).work(),
                                from_index(#[trigger] self.latest_reports@[jj].steps@[k]),
                                to_index(self.latest_reports@[jj].steps@[k]),
                            ),
                            rival_of(
                                code_color(
                                    self.latest_reports@[jj].steps@[k].current_piece.pv().code,
                                ),
                            ),
                        );
                    assert(0 <= jj < old(self).latest_reports@.len() && 0 <= k < old(
                        self,
                    ).latest_reports@[jj].steps@.len() && !threatens(
                        apply_move(
                            old(board).work(),
                            from_index(old(self).latest_reports@[jj].steps@[k]),
                            to_index(old(self).latest_reports@[jj].steps@[k]),
                        ),
                        rival_of(
                            code_color(
                                old(self).latest_reports@[jj].steps@[k].current_piece.pv().code,
                            ),
                        ),
                    ));
                }
                return true;
            }

            j += 1;
        }

        false
    }

    /// A copy of the reports last built.
    pub fn get_movement_report(&self) -> (r: Vec<Report>)
        ensures
            r@.len() == self.latest_reports@.len(),
            forall|j: int|
                0 <= j < r@.len() ==> {
                    let rep = #[trigger] r@[j];
                    &&& rep.piece == self.latest_reports@[j].piece
                    &&& rep.check == self.latest_reports@[j].check
                    &&& rep.steps@ == self.latest_reports@[j].steps@
                    &&& rep.search_checkmate == self.latest_reports@[j].search_checkmate
                },
    {
        let mut out: Vec<Report> = Vec::new();
        let mut j: usize = 0;

        while j < self.latest_reports.len()
            invariant
                j <= self.latest_reports@.len(),
                out@.len() == j,
                forall|t: int|
                    0 <= t < out@.len() ==> {
                        let rep = #[trigger] out@[t];
                        &&& rep.piece == self.latest_reports@[t].piece
                        &&& rep.check == self.latest_reports@[t].check
                        &&& rep.steps@ == self.latest_reports@[t].steps@
                        &&& rep.search_checkmate == self.latest_reports@[t].search_checkmate
                    },
            decreases self.latest_reports@.len() - j,
        {
            out.push(self.latest_reports[j].duplicate());

            j += 1;
        }

        out
    }
}

} // verus!
