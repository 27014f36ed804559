use vstd::prelude::*;

use crate::board::Board;
use crate::movement::rules::{
    apply_move, color_kings_safe, escape_probes_safe, has_escape, lemma_color_pieces_props,
    threatens, valid_move_codes,
};
use crate::movement::step::{from_index, step_matches, step_wf, to_index, Step};
use crate::pieces::piece::{code_color, rival_of, Color};
use crate::pieces::piece_ext::PieceExt;
use crate::player::errors::ErrorResponse;
use crate::player::player::{
    board_shape, lemma_escape_bridge, lemma_escape_probe_requires, lemma_step_valid_bridge,
    Player,
};
use crate::player::turn::Turn;

verus! {

/// The full panic-freedom condition for one move request against the
/// working position `b0`: at every stage the transaction can reach, no
/// king's move generation reaches a rival king.
pub open spec fn move_request_safe(b0: Seq<u8>, m: Color, fi: int, ti: int) -> bool {
    let v = rival_of(m);
    let b1 = apply_move(b0, fi, ti);
    &&& color_kings_safe(b0, m)
    &&& (valid_move_codes(b0, m, fi, ti) ==> color_kings_safe(b1, v))
    &&& (valid_move_codes(b0, m, fi, ti) && !threatens(b1, v) ==> color_kings_safe(b1, m))
    &&& (valid_move_codes(b0, m, fi, ti) && !threatens(b1, v) && threatens(b1, m)
        ==> escape_probes_safe(b1, v, m))
}

/// What one move request does to the board, the turn and the result, stated
/// over the position `b0` the request found.
pub open spec fn move_outcome(
    turn0: Turn,
    turn1: Turn,
    b0: Seq<u8>,
    canon0: Seq<u8>,
    work1: Seq<u8>,
    canon1: Seq<u8>,
    s: Step,
    r: Result<(), ErrorResponse>,
) -> bool {
    let m = turn0.current_player;
    let v = rival_of(m);
    let fi = from_index(s);
    let ti = to_index(s);
    let b1 = apply_move(b0, fi, ti);
    let okc = code_color(s.current_piece.pv().code) == m;
    let okv = valid_move_codes(b0, m, fi, ti);
    let self_check = threatens(b1, v);
    let rival_check = threatens(b1, m);
    let mate = rival_check && !has_escape(b1, v);
    let accepted = okv && !self_check;
    &&& (!okc <==> r == Result::<(), ErrorResponse>::Err(ErrorResponse::RivalPiece))
    &&& ((okc && !okv) <==> r == Result::<(), ErrorResponse>::Err(ErrorResponse::InvalidMove))
    &&& ((okv && self_check) <==> r == Result::<(), ErrorResponse>::Err(
        ErrorResponse::KingIsCheck,
    ))
    &&& (!accepted ==> work1 == b0 && canon1 == canon0 && turn1 == turn0)
    &&& (accepted ==> {
        &&& work1 == b1
        &&& canon1 == b1
        &&& turn1.checkmate == (turn0.checkmate || mate)
        &&& (v is BLACK ==> turn1.black_check == rival_check && turn1.white_check == false)
        &&& (v is WHITE ==> turn1.white_check == rival_check && turn1.black_check == false)
    })
    &&& ((accepted && mate) <==> r == Result::<(), ErrorResponse>::Err(ErrorResponse::CheckMate))
    &&& (accepted && mate ==> turn1.current_player == m && turn1.value == turn0.value)
    &&& (accepted && !mate ==> turn1.current_player == v && turn1.value == turn0.value + 1)
    &&& ((accepted && !mate && turn0.value + 1 == 255) <==> r == Result::<(), ErrorResponse>::Err(
        ErrorResponse::GameOver,
    ))
    &&& ((accepted && !mate && turn0.value + 1 != 255) <==> r == Result::<(), ErrorResponse>::Ok(
        (),
    ))
}

/// The move-transaction orchestrator: both sides' aggregates and the turn
/// state.
pub struct Players {
    pub black: Player,
    pub white: Player,
    pub turn: Turn,
}

impl Players {
    /// Each aggregate carries its own side, and a definite side is to move.
    pub open spec fn wf(&self) -> bool {
        &&& self.black.color == Color::BLACK
        &&& self.white.color == Color::WHITE
        &&& self.turn.wf()
    }

    pub fn new(board: &Board, current_player: bool, turn: u8) -> (r: Self)
        requires
            board.wf(),
            color_kings_safe(board.work(), Color::BLACK),
            color_kings_safe(board.work(), Color::WHITE),
        ensures
            r.wf(),
            r.black.check == threatens(board.work(), Color::BLACK),
            r.white.check == threatens(board.work(), Color::WHITE),
            r.black.search_checkmate == false,
            r.white.search_checkmate == false,
            r.black.reports_built_for(board.work(), board.built()),
            r.white.reports_built_for(board.work(), board.built()),
            r.turn == (Turn {
                current_player: if current_player {
                    Color::BLACK
                } else {
                    Color::WHITE
                },
                value: turn,
                black_check: false,
                white_check: false,
                checkmate: false,
            }),
    {
        let mut black: Player = Player::new(Color::BLACK, board);

        black.build_reports(board, false);

        let mut white: Player = Player::new(Color::WHITE, board);

        white.build_reports(board, false);

        let turn: Turn = Turn::new(current_player, turn);

        Players { black, white, turn }
    }

    /// Run one full move transaction for the side to move: rebuild the
    /// mover's reports, match the requested step against them, reject a move
    /// that would leave the mover's own king attacked, commit, and test the
    /// rival for check and checkmate.  Any rejected move leaves board and
    /// turn exactly as they were.
    pub fn move_to(&mut self, board: &mut Board, target: Step) -> (r: Result<(), ErrorResponse>)
        requires
            old(self).wf(),
            old(board).wf(),
            old(board).work() == old(board).canon(),
            step_wf(target),
            step_matches(target, old(board).built()),
            old(self).turn.value < 255,
            move_request_safe(
                old(board).work(),
                old(self).turn.current_player,
                from_index(target),
                to_index(target),
            ),
        ensures
            final(self).wf(),
            final(board).wf(),
            final(board).work() == final(board).canon(),
            move_outcome(
                old(self).turn,
                final(self).turn,
                old(board).work(),
                old(board).canon(),
                final(board).work(),
                final(board).canon(),
                target,
                r,
            ),
    {
        let player_color: Color = self.turn.get_current_player_color();

        match player_color {
            Color::EMPTY => unreached(),
            Color::BLACK => Self::run_move(
                &mut self.black,
                &mut self.white,
                &mut self.turn,
                board,
                target,
            ),
            Color::WHITE => Self::run_move(
                &mut self.white,
                &mut self.black,
                &mut self.turn,
                board,
                target,
            ),
        }
    }

    /// The move pipeline proper, for a mover and rival aggregate.
    fn run_move(
        mover: &mut Player,
        rival: &mut Player,
        turn: &mut Turn,
        board: &mut Board,
        target: Step,
    ) -> (r: Result<(), ErrorResponse>)
        requires
            old(board).wf(),
            old(board).work() == old(board).canon(),
            old(mover).color != Color::EMPTY,
            old(rival).color == rival_of(old(mover).color),
            old(turn).wf(),
            old(turn).current_player == old(mover).color,
            old(turn).value < 255,
            step_wf(target),
            step_matches(target, old(board).built()),
            move_request_safe(
                old(board).work(),
                old(mover).color,
                from_index(target),
                to_index(target),
            ),
        ensures
            final(board).wf(),
            final(board).work() == final(board).canon(),
            final(mover).color == old(mover).color,
            final(rival).color == old(rival).color,
            final(turn).wf(),
            move_outcome(
                *old(turn),
                *final(turn),
                old(board).work(),
                old(board).canon(),
                final(board).work(),
                final(board).canon(),
                target,
                r,
            ),
            r == Result::<(), ErrorResponse>::Err(ErrorResponse::RivalPiece) || r == Result::<
                (),
                ErrorResponse,
            >::Err(ErrorResponse::InvalidMove) || r == Result::<(), ErrorResponse>::Err(
                ErrorResponse::KingIsCheck,
            ) ==> final(board).built() == old(board).built(),
    {
        let ghost b0 = old(board).work();
        let ghost built0 = old(board).built();
        let ghost m = old(mover).color;
        let ghost v = rival_of(m);
        let ghost fi = from_index(target);
        let ghost ti = to_index(target);
        let ghost b1 = apply_move(b0, fi, ti);

        let mut step: Step = target;

        mover.build_reports(board, false);

        proof {
            assert(board_shape(b0, built0));
            lemma_color_pieces_props(built0, b0, m, 64);
            assert forall|j: int|
                0 <= j < mover.latest_reports@.len() implies (#[trigger] mover.latest_reports@[j])
                .piece.wf() by {
                let q = crate::movement::rules::color_pieces(built0, m)[j];
                assert(built0[crate::movement::rules::piece_square(q)] == q);
            }
        }

        // is_step_valid checks every stored report for the requested step;
        // a step for a square this side does not own fails right here.
        let valid: Result<bool, ErrorResponse> = mover.is_step_valid(&step);

        proof {
            lemma_step_valid_bridge(*mover, b0, built0, step);
        }

        match valid {
            Result::Err(err) => {
                return Result::Err(err);
            },
            Result::Ok(false) => {
                return Result::Err(ErrorResponse::InvalidMove);
            },
            Result::Ok(true) => {},
        }

        // Self-check simulation: tentatively commit, probe the rival, revert.
        // A move that leaves or keeps the mover's own king attacked is
        // rejected with the board unchanged.
        if !step.can_avoid_checkmate(board) {
            return Result::Err(ErrorResponse::KingIsCheck);
        }

        // The movement is valid and does not expose the mover's king.
        // Commit it for real on both channels.
        step.commit_move(board);
        step.commit_finalize(board);

        proof {
            assert(board.work() =~= b1);
            assert(board.canon() =~= b1);
        }

        let ghost built1 = board.built();

        // Rebuild the mover against the committed board: its aggregate flag
        // now says whether the move gives check to the rival's king.
        mover.build_reports(board, false);

        proof {
            assert(board_shape(b1, built1));
        }

        let rival_in_check: bool = mover.is_check();

        // Rebuild the rival's reports against the committed board: they
        // carry the replies probed below when the rival is in check.
        rival.build_reports(board, false);

        // Status flags: the mover cannot be in check here (the simulation
        // above would have rejected the move); the rival is in check exactly
        // when the mover's aggregate flag is set.
        match rival.color {
            Color::EMPTY => unreached(),
            Color::BLACK => {
                if rival_in_check {
                    turn.set_black_check();
                } else {
                    turn.unset_black_check();
                }
                turn.unset_white_check();
            },
            Color::WHITE => {
                if rival_in_check {
                    turn.set_white_check();
                } else {
                    turn.unset_white_check();
                }
                turn.unset_black_check();
            },
        }

        if rival_in_check {
            // Probe every reply of the rival for an escape; no escape means
            // checkmate and the game ends.
            proof {
                lemma_escape_probe_requires(*rival, b1, built1, m);
            }

            if !rival.can_avoid_checkmate(board) {
                proof {
                    lemma_escape_bridge(*rival, b1, built1);
                }
                turn.set_checkmate();
                return Result::Err(ErrorResponse::CheckMate);
            }

            proof {
                lemma_escape_bridge(*rival, b1, built1);
            }
        }

        // The move went through: flip the side to move and count it.
        match turn.next_turn() {
            Result::Err(err) => {
                return Result::Err(err);
            },
            Result::Ok(()) => {},
        }

        Result::Ok(())
    }

    /// The side to move (false for white, true for black) and the move
    /// counter, as the persistence layer stores them.
    pub fn get_turn_status(&self) -> (r: (bool, u8))
        requires
            self.wf(),
        ensures
            r.0 == (self.turn.current_player is BLACK),
            r.1 == self.turn.value,
    {
        let player_turn: bool = self.turn.get_current_player_boolean();
        let turn: u8 = self.turn.get_value();

        (player_turn, turn)
    }
}

} // verus!
