use vstd::prelude::*;

use crate::pieces::piece::{
    are_rival_colors, code_color, code_is_king, rival_of, Color, Piece, PieceView,
};
use crate::pieces::piece_ext::PieceExt;

verus! {

// The mathematical model of the movement rules.  A position is a sequence of
// 64 canonical codes, indexed row-major: the square (col, row) sits at index
// row * 8 + col.  Every specification about reachable destinations, checks
// and move transactions is stated over such sequences.

/// Whether a coordinate pair lies on the board.
pub open spec fn in_bounds(col: int, row: int) -> bool {
    0 <= col < 8 && 0 <= row < 8
}

/// The board index of a coordinate pair.
pub open spec fn square_index(col: int, row: int) -> int {
    row * 8 + col
}

/// The canonical code held at a coordinate pair.
pub open spec fn code_at(b: Seq<u8>, col: int, row: int) -> u8 {
    b[row * 8 + col]
}

/// The view of the piece standing at board index `i`.
pub open spec fn pv_at(b: Seq<u8>, i: int) -> PieceView {
    PieceView { code: b[i], col: (i % 8) as u8, row: (i / 8) as u8 }
}

// ---------------------------------------------------------------------------
// Single destination probes.
//
// A candidate destination is classified against the board: off-board squares
// are excluded; an empty square is a destination unless the rule forbids
// empty targets (`no_empty`, a pawn's diagonals); a rival square is a capture
// destination unless the rule forbids captures (`no_rival`, a pawn's forward
// steps); an allied square is excluded.

/// Whether the probe records the candidate as a reachable destination.
pub open spec fn probe_adds_step(
    b: Seq<u8>,
    color: Color,
    col: int,
    row: int,
    no_empty: bool,
    no_rival: bool,
) -> bool {
    in_bounds(col, row) && {
        let target = code_color(code_at(b, col, row));
        if target is EMPTY {
            !no_empty
        } else {
            are_rival_colors(color, target) && !no_rival
        }
    }
}

/// Whether the probe reaches the rival's king, flagging check.
pub open spec fn probe_sets_check(
    b: Seq<u8>,
    color: Color,
    col: int,
    row: int,
    no_rival: bool,
) -> bool {
    in_bounds(col, row) && are_rival_colors(color, code_color(code_at(b, col, row))) && !no_rival
        && code_is_king(code_at(b, col, row))
}

/// Whether a ray may continue past the candidate: only through an empty,
/// on-board square.
pub open spec fn probe_continues(b: Seq<u8>, col: int, row: int) -> bool {
    in_bounds(col, row) && code_at(b, col, row) == 0
}

/// The destinations a single probe contributes: one or none.
pub open spec fn probe_dests(
    b: Seq<u8>,
    color: Color,
    col: int,
    row: int,
    no_empty: bool,
    no_rival: bool,
) -> Seq<(int, int)> {
    if probe_adds_step(b, color, col, row, no_empty, no_rival) {
        seq![(col, row)]
    } else {
        Seq::empty()
    }
}

// ---------------------------------------------------------------------------
// Ray casts: walk squares at increasing distance k = 1, 2, ... along one
// direction, keeping every empty square, keeping the first rival square and
// stopping there, and stopping without keeping an allied or off-board square.

/// The destinations of a ray from (col0, row0) along (go_right, go_down),
/// probing distances k..=m.
pub open spec fn ray_dests(
    b: Seq<u8>,
    color: Color,
    col0: int,
    row0: int,
    go_right: int,
    go_down: int,
    k: int,
    m: int,
) -> Seq<(int, int)>
    decreases m + 1 - k,
{
    if k > m {
        Seq::empty()
    } else {
        let col = col0 + k * go_right;
        let row = row0 + k * go_down;
        if !in_bounds(col, row) {
            Seq::empty()
        } else if code_at(b, col, row) == 0 {
            seq![(col, row)] + ray_dests(b, color, col0, row0, go_right, go_down, k + 1, m)
        } else if are_rival_colors(color, code_color(code_at(b, col, row))) {
            seq![(col, row)]
        } else {
            Seq::empty()
        }
    }
}

/// Whether the ray reaches the rival's king.
pub open spec fn ray_check(
    b: Seq<u8>,
    color: Color,
    col0: int,
    row0: int,
    go_right: int,
    go_down: int,
    k: int,
    m: int,
) -> bool
    decreases m + 1 - k,
{
    if k > m {
        false
    } else {
        let col = col0 + k * go_right;
        let row = row0 + k * go_down;
        if !in_bounds(col, row) {
            false
        } else if code_at(b, col, row) == 0 {
            ray_check(b, color, col0, row0, go_right, go_down, k + 1, m)
        } else {
            are_rival_colors(color, code_color(code_at(b, col, row)))
                && code_is_king(code_at(b, col, row))
        }
    }
}

// ---------------------------------------------------------------------------
// Direction bundles, in the order the generator walks them.

/// Right, left, down, up: each a ray of up to `m` squares.
pub open spec fn ortho_dests(b: Seq<u8>, color: Color, col0: int, row0: int, m: int) -> Seq<
    (int, int),
> {
    ray_dests(b, color, col0, row0, 1, 0, 1, m) + ray_dests(b, color, col0, row0, -1, 0, 1, m)
        + ray_dests(b, color, col0, row0, 0, 1, 1, m) + ray_dests(b, color, col0, row0, 0, -1, 1, m)
}

pub open spec fn ortho_check(b: Seq<u8>, color: Color, col0: int, row0: int, m: int) -> bool {
    ||| ray_check(b, color, col0, row0, 1, 0, 1, m)
    ||| ray_check(b, color, col0, row0, -1, 0, 1, m)
    ||| ray_check(b, color, col0, row0, 0, 1, 1, m)
    ||| ray_check(b, color, col0, row0, 0, -1, 1, m)
}

/// Down-right, down-left, up-right, up-left: each a ray of up to `m` squares.
pub open spec fn diag_dests(b: Seq<u8>, color: Color, col0: int, row0: int, m: int) -> Seq<
    (int, int),
> {
    ray_dests(b, color, col0, row0, 1, 1, 1, m) + ray_dests(b, color, col0, row0, -1, 1, 1, m)
        + ray_dests(b, color, col0, row0, 1, -1, 1, m) + ray_dests(
        b,
        color,
        col0,
        row0,
        -1,
        -1,
        1,
        m,
    )
}

pub open spec fn diag_check(b: Seq<u8>, color: Color, col0: int, row0: int, m: int) -> bool {
    ||| ray_check(b, color, col0, row0, 1, 1, 1, m)
    ||| ray_check(b, color, col0, row0, -1, 1, 1, m)
    ||| ray_check(b, color, col0, row0, 1, -1, 1, m)
    ||| ray_check(b, color, col0, row0, -1, -1, 1, m)
}

// ---------------------------------------------------------------------------
// The knight's eight fixed offsets, in the order the generator probes them.

pub open spec fn knight_dests(b: Seq<u8>, color: Color, col0: int, row0: int) -> Seq<(int, int)> {
    probe_dests(b, color, col0 + 2, row0 + 1, false, false) + probe_dests(
        b,
        color,
        col0 + 2,
        row0 - 1,
        false,
        false,
    ) + probe_dests(b, color, col0 - 2, row0 + 1, false, false) + probe_dests(
        b,
        color,
        col0 - 2,
        row0 - 1,
        false,
        false,
    ) + probe_dests(b, color, col0 + 1, row0 + 2, false, false) + probe_dests(
        b,
        color,
        col0 - 1,
        row0 + 2,
        false,
        false,
    ) + probe_dests(b, color, col0 + 1, row0 - 2, false, false) + probe_dests(
        b,
        color,
        col0 - 1,
        row0 - 2,
        false,
        false,
    )
}

pub open spec fn knight_check(b: Seq<u8>, color: Color, col0: int, row0: int) -> bool {
    ||| probe_sets_check(b, color, col0 + 2, row0 + 1, false)
    ||| probe_sets_check(b, color, col0 + 2, row0 - 1, false)
    ||| probe_sets_check(b, color, col0 - 2, row0 + 1, false)
    ||| probe_sets_check(b, color, col0 - 2, row0 - 1, false)
    ||| probe_sets_check(b, color, col0 + 1, row0 + 2, false)
    ||| probe_sets_check(b, color, col0 - 1, row0 + 2, false)
    ||| probe_sets_check(b, color, col0 + 1, row0 - 2, false)
    ||| probe_sets_check(b, color, col0 - 1, row0 - 2, false)
}

// ---------------------------------------------------------------------------
// The pawn: forward onto empty squares only, two from the starting rank with
// an empty intervening square, and diagonal captures only.

/// The pawn's forward row direction: black advances down, white up.
pub open spec fn pawn_forward(color: Color) -> int {
    if color is BLACK {
        1
    } else {
        -1
    }
}

/// The rank a pawn of this colour starts on.
pub open spec fn pawn_start_row(color: Color) -> int {
    if color is BLACK {
        1
    } else {
        6
    }
}

pub open spec fn pawn_dests(b: Seq<u8>, color: Color, col0: int, row0: int) -> Seq<(int, int)> {
    let d = pawn_forward(color);
    probe_dests(b, color, col0, row0 + d, false, true) + (if row0 == pawn_start_row(color)
        && probe_continues(b, col0, row0 + d) {
        probe_dests(b, color, col0, row0 + 2 * d, false, true)
    } else {
        Seq::empty()
    }) + probe_dests(b, color, col0 + 1, row0 + d, true, false) + probe_dests(
        b,
        color,
        col0 - 1,
        row0 + d,
        true,
        false,
    )
}

pub open spec fn pawn_check(b: Seq<u8>, color: Color, col0: int, row0: int) -> bool {
    ||| probe_sets_check(b, color, col0 + 1, row0 + pawn_forward(color), false)
    ||| probe_sets_check(b, color, col0 - 1, row0 + pawn_forward(color), false)
}

// ---------------------------------------------------------------------------
// Per-piece dispatch.

/// Every destination reachable by the piece `p` on the position `b`, in the
/// order the generator records them.
pub open spec fn piece_dests(b: Seq<u8>, p: PieceView) -> Seq<(int, int)> {
    let color = code_color(p.code);
    let col0 = p.col as int;
    let row0 = p.row as int;
    if p.code == 1 || p.code == 7 {
        pawn_dests(b, color, col0, row0)
    } else if p.code == 2 || p.code == 8 {
        ortho_dests(b, color, col0, row0, 7)
    } else if p.code == 3 || p.code == 9 {
        knight_dests(b, color, col0, row0)
    } else if p.code == 4 || p.code == 10 {
        diag_dests(b, color, col0, row0, 7)
    } else if p.code == 5 || p.code == 11 {
        ortho_dests(b, color, col0, row0, 7) + diag_dests(b, color, col0, row0, 7)
    } else if p.code == 6 || p.code == 12 {
        ortho_dests(b, color, col0, row0, 1) + diag_dests(b, color, col0, row0, 1)
    } else {
        Seq::empty()
    }
}

/// Whether the piece `p` reaches the rival's king on the position `b`.
pub open spec fn piece_gives_check(b: Seq<u8>, p: PieceView) -> bool {
    let color = code_color(p.code);
    let col0 = p.col as int;
    let row0 = p.row as int;
    if p.code == 1 || p.code == 7 {
        pawn_check(b, color, col0, row0)
    } else if p.code == 2 || p.code == 8 {
        ortho_check(b, color, col0, row0, 7)
    } else if p.code == 3 || p.code == 9 {
        knight_check(b, color, col0, row0)
    } else if p.code == 4 || p.code == 10 {
        diag_check(b, color, col0, row0, 7)
    } else if p.code == 5 || p.code == 11 {
        ortho_check(b, color, col0, row0, 7) || diag_check(b, color, col0, row0, 7)
    } else if p.code == 6 || p.code == 12 {
        ortho_check(b, color, col0, row0, 1) || diag_check(b, color, col0, row0, 1)
    } else {
        false
    }
}

// ---------------------------------------------------------------------------
// Whole-side predicates.

/// Whether the side `color` threatens the opposing king: some piece of that
/// colour reaches a rival king.  Equivalently, the opposing side is in check.
pub open spec fn threatens(b: Seq<u8>, color: Color) -> bool {
    exists|i: int|
        0 <= i < 64 && code_color(b[i]) == color && #[trigger] piece_gives_check(b, pv_at(b, i))
}

/// Whether every king of the side `color` stays clear of the rival king: a
/// king's own move generation reaching a king is an internal-consistency
/// failure, so positions where it would happen are excluded up front.
pub open spec fn color_kings_safe(b: Seq<u8>, color: Color) -> bool {
    forall|i: int|
        0 <= i < 64 && code_color(#[trigger] b[i]) == color && code_is_king(b[i])
            ==> !piece_gives_check(b, pv_at(b, i))
}

pub open spec fn board_kings_safe(b: Seq<u8>) -> bool {
    color_kings_safe(b, Color::WHITE) && color_kings_safe(b, Color::BLACK)
}

// ---------------------------------------------------------------------------
// Move transactions at the canonical-code level.

/// The position after moving the occupant of `fi` to `ti`: the origin is
/// emptied, the destination overwritten.
pub open spec fn apply_move(b: Seq<u8>, fi: int, ti: int) -> Seq<u8> {
    b.update(fi, 0).update(ti, b[fi])
}

/// Whether the request (origin index, target index) matches a generated
/// destination of the mover's side.
pub open spec fn valid_move_codes(b: Seq<u8>, color: Color, fi: int, ti: int) -> bool {
    code_color(b[fi]) == color && piece_dests(b, pv_at(b, fi)).contains(((ti % 8), (ti / 8)))
}

/// Whether the side `color`, in check, has a reply that removes every attack
/// on its king: some piece of that colour has a destination whose simulated
/// commit leaves the rival no longer threatening.
pub open spec fn has_escape(b: Seq<u8>, color: Color) -> bool {
    exists|i: int, d: (int, int)|
        0 <= i < 64 && code_color(b[i]) == color && #[trigger] piece_dests(
            b,
            pv_at(b, i),
        ).contains(d) && !threatens(apply_move(b, i, square_index(d.0, d.1)), rival_of(color))
}

/// Every candidate reply of `color` may be probed: after simulating it, no
/// king of `mover`'s side stands next to a rival king.
pub open spec fn escape_probes_safe(b: Seq<u8>, color: Color, mover: Color) -> bool {
    forall|i: int, d: (int, int)|
        0 <= i < 64 && code_color(b[i]) == color && #[trigger] piece_dests(
            b,
            pv_at(b, i),
        ).contains(d) ==> color_kings_safe(apply_move(b, i, square_index(d.0, d.1)), mover)
}

/// The full panic-freedom condition for one move request: at every stage the
/// transaction reaches, no king's move generation reaches a rival king.
pub open spec fn move_safety(b: Seq<u8>, color: Color, fi: int, ti: int) -> bool {
    let b1 = apply_move(b, fi, ti);
    &&& board_kings_safe(b)
    &&& (valid_move_codes(b, color, fi, ti) ==> color_kings_safe(b1, rival_of(color)))
    &&& (valid_move_codes(b, color, fi, ti) && !threatens(b1, rival_of(color)) ==> {
        &&& color_kings_safe(b1, color)
        &&& (threatens(b1, color) ==> escape_probes_safe(b1, rival_of(color), color))
    })
}

// ---------------------------------------------------------------------------
// One side's pieces, in board order.

/// The pieces of the side `color` among the first `n` squares, in board
/// order.
pub open spec fn color_pieces_up_to(built: Seq<Piece>, color: Color, n: int) -> Seq<Piece>
    decreases n,
{
    if n <= 0 {
        Seq::empty()
    } else {
        let rest = color_pieces_up_to(built, color, n - 1);
        if code_color(built[n - 1].pv().code) == color {
            rest.push(built[n - 1])
        } else {
            rest
        }
    }
}

/// The pieces of the side `color` on the whole board, in board order.
pub open spec fn color_pieces(built: Seq<Piece>, color: Color) -> Seq<Piece> {
    color_pieces_up_to(built, color, 64)
}

/// The board index a piece stands on, by its own coordinates.
pub open spec fn piece_square(q: Piece) -> int {
    square_index(q.pv().col as int, q.pv().row as int)
}

/// Every piece collected for a colour stands on the board at its own square,
/// which holds that colour; and every square of that colour contributes its
/// piece to the collection.
pub proof fn lemma_color_pieces_props(built: Seq<Piece>, b: Seq<u8>, color: Color, n: int)
    requires
        built.len() == 64,
        b.len() == 64,
        0 <= n <= 64,
        forall|i: int|
            0 <= i < 64 ==> (#[trigger] built[i]).wf() && built[i].pv().col as int == i % 8
                && built[i].pv().row as int == i / 8,
        forall|i: int| 0 <= i < 64 ==> #[trigger] b[i] == built[i].pv().code,
    ensures
        forall|j: int|
            0 <= j < color_pieces_up_to(built, color, n).len() ==> {
                let q = #[trigger] color_pieces_up_to(built, color, n)[j];
                &&& 0 <= piece_square(q) < n
                &&& built[piece_square(q)] == q
                &&& code_color(b[piece_square(q)]) == color
                &&& q.pv() == pv_at(b, piece_square(q))
            },
        forall|i: int|
            0 <= i < n && code_color(#[trigger] b[i]) == color ==> color_pieces_up_to(
                built,
                color,
                n,
            ).contains(built[i]),
    decreases n,
{
    if n > 0 {
        lemma_color_pieces_props(built, b, color, n - 1);

        let prev = color_pieces_up_to(built, color, n - 1);
        let cur = color_pieces_up_to(built, color, n);
        let q = built[n - 1];

        vstd::arithmetic::div_mod::lemma_fundamental_div_mod(n - 1, 8);
        assert(piece_square(q) == n - 1);

        if code_color(b[n - 1]) == color {
            assert(cur == prev.push(q));
            assert(q.pv() == pv_at(b, n - 1));

            assert forall|j: int| 0 <= j < cur.len() implies {
                let w = #[trigger] cur[j];
                &&& 0 <= piece_square(w) < n
                &&& built[piece_square(w)] == w
                &&& code_color(b[piece_square(w)]) == color
                &&& w.pv() == pv_at(b, piece_square(w))
            } by {
                if j < prev.len() {
                    assert(cur[j] == prev[j]);
                } else {
                    assert(cur[j] == q);
                }
            }

            assert forall|i: int|
                0 <= i < n && code_color(#[trigger] b[i]) == color implies cur.contains(
                built[i],
            ) by {
                if i < n - 1 {
                    let t = choose|t: int| 0 <= t < prev.len() && prev[t] == built[i];
                    assert(cur[t] == built[i]);
                } else {
                    assert(cur[prev.len() as int] == built[i]);
                }
            }
        } else {
            assert(cur == prev);
        }
    }
}

/// Destinations produced by a ray all lie on the board.
proof fn lemma_ray_dests_in_bounds(
    b: Seq<u8>,
    color: Color,
    col0: int,
    row0: int,
    go_right: int,
    go_down: int,
    k: int,
    m: int,
)
    ensures
        forall|j: int|
            0 <= j < ray_dests(b, color, col0, row0, go_right, go_down, k, m).len()
                ==> in_bounds(
                (#[trigger] ray_dests(b, color, col0, row0, go_right, go_down, k, m)[j]).0,
                ray_dests(b, color, col0, row0, go_right, go_down, k, m)[j].1,
            ),
    decreases m + 1 - k,
{
    if k <= m {
        lemma_ray_dests_in_bounds(b, color, col0, row0, go_right, go_down, k + 1, m);

        let cur = ray_dests(b, color, col0, row0, go_right, go_down, k, m);
        let rest = ray_dests(b, color, col0, row0, go_right, go_down, k + 1, m);
        let c = col0 + k * go_right;
        let r = row0 + k * go_down;

        if in_bounds(c, r) && code_at(b, c, r) == 0 {
            assert forall|j: int| 0 <= j < cur.len() implies in_bounds(
                (#[trigger] cur[j]).0,
                cur[j].1,
            ) by {
                if j > 0 {
                    assert(cur[j] == rest[j - 1]);
                }
            }
        }
    }
}

/// Destinations of the orthogonal direction bundle all lie on the board.
proof fn lemma_ortho_dests_in_bounds(b: Seq<u8>, color: Color, c0: int, r0: int, m: int)
    ensures
        forall|j: int|
            0 <= j < ortho_dests(b, color, c0, r0, m).len() ==> in_bounds(
                (#[trigger] ortho_dests(b, color, c0, r0, m)[j]).0,
                ortho_dests(b, color, c0, r0, m)[j].1,
            ),
{
    lemma_ray_dests_in_bounds(b, color, c0, r0, 1, 0, 1, m);
    lemma_ray_dests_in_bounds(b, color, c0, r0, -1, 0, 1, m);
    lemma_ray_dests_in_bounds(b, color, c0, r0, 0, 1, 1, m);
    lemma_ray_dests_in_bounds(b, color, c0, r0, 0, -1, 1, m);
}

/// Destinations of the diagonal direction bundle all lie on the board.
proof fn lemma_diag_dests_in_bounds(b: Seq<u8>, color: Color, c0: int, r0: int, m: int)
    ensures
        forall|j: int|
            0 <= j < diag_dests(b, color, c0, r0, m).len() ==> in_bounds(
                (#[trigger] diag_dests(b, color, c0, r0, m)[j]).0,
                diag_dests(b, color, c0, r0, m)[j].1,
            ),
{
    lemma_ray_dests_in_bounds(b, color, c0, r0, 1, 1, 1, m);
    lemma_ray_dests_in_bounds(b, color, c0, r0, -1, 1, 1, m);
    lemma_ray_dests_in_bounds(b, color, c0, r0, 1, -1, 1, m);
    lemma_ray_dests_in_bounds(b, color, c0, r0, -1, -1, 1, m);
}

/// Boundary law: a candidate destination with column or row off the board is
/// never included in a piece's reachable destinations, whatever the piece
/// kind.
/// Destinations of the knight's eight probes all lie on the board.
#[verifier::rlimit(50)]
proof fn lemma_knight_dests_in_bounds(b: Seq<u8>, color: Color, c0: int, r0: int)
    ensures
        forall|j: int|
            0 <= j < knight_dests(b, color, c0, r0).len() ==> in_bounds(
                (#[trigger] knight_dests(b, color, c0, r0)[j]).0,
                knight_dests(b, color, c0, r0)[j].1,
            ),
{
}

/// Destinations of the pawn's probes all lie on the board.
#[verifier::rlimit(50)]
proof fn lemma_pawn_dests_in_bounds(b: Seq<u8>, color: Color, c0: int, r0: int)
    ensures
        forall|j: int|
            0 <= j < pawn_dests(b, color, c0, r0).len() ==> in_bounds(
                (#[trigger] pawn_dests(b, color, c0, r0)[j]).0,
                pawn_dests(b, color, c0, r0)[j].1,
            ),
{
}

/// Whether the square `d` holds a king of the side opposing `color`.
pub open spec fn rival_king_at(b: Seq<u8>, color: Color, d: (int, int)) -> bool {
    are_rival_colors(color, code_color(code_at(b, d.0, d.1))) && code_is_king(code_at(b, d.0, d.1))
}

/// A ray flags check exactly when one of its destinations holds the rival
/// king.
proof fn lemma_ray_check_iff(
    b: Seq<u8>,
    color: Color,
    col0: int,
    row0: int,
    go_right: int,
    go_down: int,
    k: int,
    m: int,
)
    ensures
        ray_check(b, color, col0, row0, go_right, go_down, k, m) <==> exists|j: int|
            0 <= j < ray_dests(b, color, col0, row0, go_right, go_down, k, m).len()
                && rival_king_at(
                b,
                color,
                #[trigger] ray_dests(b, color, col0, row0, go_right, go_down, k, m)[j],
            ),
    decreases m + 1 - k,
{
    if k <= m {
        lemma_ray_check_iff(b, color, col0, row0, go_right, go_down, k + 1, m);

        let cur = ray_dests(b, color, col0, row0, go_right, go_down, k, m);
        let rest = ray_dests(b, color, col0, row0, go_right, go_down, k + 1, m);
        let c = col0 + k * go_right;
        let r = row0 + k * go_down;

        if in_bounds(c, r) && code_at(b, c, r) == 0 {
            assert(cur == seq![(c, r)] + rest);
            assert(!rival_king_at(b, color, (c, r)));

            if ray_check(b, color, col0, row0, go_right, go_down, k + 1, m) {
                let j = choose|j: int|
                    0 <= j < rest.len() && rival_king_at(b, color, #[trigger] rest[j]);
                assert(cur[j + 1] == rest[j]);
                assert(rival_king_at(b, color, cur[j + 1]));
            }

            if exists|j: int| 0 <= j < cur.len() && rival_king_at(b, color, #[trigger] cur[j]) {
                let j = choose|j: int|
                    0 <= j < cur.len() && rival_king_at(b, color, #[trigger] cur[j]);
                if j == 0 {
                    assert(cur[0] == (c, r));
                } else {
                    assert(cur[j] == rest[j - 1]);
                }
            }
        } else if in_bounds(c, r) && are_rival_colors(color, code_color(code_at(b, c, r))) {
            if code_is_king(code_at(b, c, r)) {
                assert(cur[0] == (c, r));
                assert(rival_king_at(b, color, cur[0]));
            }
        }
    }
}

/// A probe flags check exactly when its destination, if any, holds the
/// rival king.
proof fn lemma_probe_check_iff(
    b: Seq<u8>,
    color: Color,
    col: int,
    row: int,
    no_empty: bool,
    no_rival: bool,
)
    ensures
        probe_sets_check(b, color, col, row, no_rival) <==> exists|j: int|
            0 <= j < probe_dests(b, color, col, row, no_empty, no_rival).len() && rival_king_at(
                b,
                color,
                #[trigger] probe_dests(b, color, col, row, no_empty, no_rival)[j],
            ),
{
    let dests = probe_dests(b, color, col, row, no_empty, no_rival);

    if probe_sets_check(b, color, col, row, no_rival) {
        assert(dests[0] == (col, row));
        assert(rival_king_at(b, color, dests[0]));
    }
}

/// Splitting a destination list splits the search for a rival king.
proof fn lemma_king_search_split(
    b: Seq<u8>,
    color: Color,
    d1: Seq<(int, int)>,
    d2: Seq<(int, int)>,
)
    ensures
        (exists|j: int|
            0 <= j < (d1 + d2).len() && rival_king_at(b, color, #[trigger] (d1 + d2)[j])) <==> ((
        exists|j: int| 0 <= j < d1.len() && rival_king_at(b, color, #[trigger] d1[j])) || (
        exists|j: int| 0 <= j < d2.len() && rival_king_at(b, color, #[trigger] d2[j]))),
{
    if exists|j: int| 0 <= j < (d1 + d2).len() && rival_king_at(b, color, #[trigger] (d1 + d2)[j]) {
        let j = choose|j: int|
            0 <= j < (d1 + d2).len() && rival_king_at(b, color, #[trigger] (d1 + d2)[j]);
        if j < d1.len() {
            assert((d1 + d2)[j] == d1[j]);
        } else {
            assert((d1 + d2)[j] == d2[j - d1.len()]);
        }
    }
    if exists|j: int| 0 <= j < d1.len() && rival_king_at(b, color, #[trigger] d1[j]) {
        let j = choose|j: int| 0 <= j < d1.len() && rival_king_at(b, color, #[trigger] d1[j]);
        assert((d1 + d2)[j] == d1[j]);
    }
    if exists|j: int| 0 <= j < d2.len() && rival_king_at(b, color, #[trigger] d2[j]) {
        let j = choose|j: int| 0 <= j < d2.len() && rival_king_at(b, color, #[trigger] d2[j]);
        assert((d1 + d2)[d1.len() + j] == d2[j]);
    }
}

/// The orthogonal bundle flags check exactly when one of its destinations
/// holds the rival king.
proof fn lemma_ortho_check_iff(b: Seq<u8>, color: Color, c0: int, r0: int, m: int)
    ensures
        ortho_check(b, color, c0, r0, m) <==> exists|j: int|
            0 <= j < ortho_dests(b, color, c0, r0, m).len() && rival_king_at(
                b,
                color,
                #[trigger] ortho_dests(b, color, c0, r0, m)[j],
            ),
{
    let d1 = ray_dests(b, color, c0, r0, 1, 0, 1, m);
    let d2 = ray_dests(b, color, c0, r0, -1, 0, 1, m);
    let d3 = ray_dests(b, color, c0, r0, 0, 1, 1, m);
    let d4 = ray_dests(b, color, c0, r0, 0, -1, 1, m);
    lemma_ray_check_iff(b, color, c0, r0, 1, 0, 1, m);
    lemma_ray_check_iff(b, color, c0, r0, -1, 0, 1, m);
    lemma_ray_check_iff(b, color, c0, r0, 0, 1, 1, m);
    lemma_ray_check_iff(b, color, c0, r0, 0, -1, 1, m);
    lemma_king_search_split(b, color, d1, d2);
    lemma_king_search_split(b, color, d1 + d2, d3);
    lemma_king_search_split(b, color, d1 + d2 + d3, d4);
}

/// The diagonal bundle flags check exactly when one of its destinations
/// holds the rival king.
proof fn lemma_diag_check_iff(b: Seq<u8>, color: Color, c0: int, r0: int, m: int)
    ensures
        diag_check(b, color, c0, r0, m) <==> exists|j: int|
            0 <= j < diag_dests(b, color, c0, r0, m).len() && rival_king_at(
                b,
                color,
                #[trigger] diag_dests(b, color, c0, r0, m)[j],
            ),
{
    let d1 = ray_dests(b, color, c0, r0, 1, 1, 1, m);
    let d2 = ray_dests(b, color, c0, r0, -1, 1, 1, m);
    let d3 = ray_dests(b, color, c0, r0, 1, -1, 1, m);
    let d4 = ray_dests(b, color, c0, r0, -1, -1, 1, m);
    lemma_ray_check_iff(b, color, c0, r0, 1, 1, 1, m);
    lemma_ray_check_iff(b, color, c0, r0, -1, 1, 1, m);
    lemma_ray_check_iff(b, color, c0, r0, 1, -1, 1, m);
    lemma_ray_check_iff(b, color, c0, r0, -1, -1, 1, m);
    lemma_king_search_split(b, color, d1, d2);
    lemma_king_search_split(b, color, d1 + d2, d3);
    lemma_king_search_split(b, color, d1 + d2 + d3, d4);
}

/// The knight's probes flag check exactly when one of their destinations
/// holds the rival king.
#[verifier::rlimit(80)]
proof fn lemma_knight_check_iff(b: Seq<u8>, color: Color, c0: int, r0: int)
    ensures
        knight_check(b, color, c0, r0) <==> exists|j: int|
            0 <= j < knight_dests(b, color, c0, r0).len() && rival_king_at(
                b,
                color,
                #[trigger] knight_dests(b, color, c0, r0)[j],
            ),
{
    let p1 = probe_dests(b, color, c0 + 2, r0 + 1, false, false);
    let p2 = probe_dests(b, color, c0 + 2, r0 - 1, false, false);
    let p3 = probe_dests(b, color, c0 - 2, r0 + 1, false, false);
    let p4 = probe_dests(b, color, c0 - 2, r0 - 1, false, false);
    let p5 = probe_dests(b, color, c0 + 1, r0 + 2, false, false);
    let p6 = probe_dests(b, color, c0 - 1, r0 + 2, false, false);
    let p7 = probe_dests(b, color, c0 + 1, r0 - 2, false, false);
    let p8 = probe_dests(b, color, c0 - 1, r0 - 2, false, false);
    lemma_probe_check_iff(b, color, c0 + 2, r0 + 1, false, false);
    lemma_probe_check_iff(b, color, c0 + 2, r0 - 1, false, false);
    lemma_probe_check_iff(b, color, c0 - 2, r0 + 1, false, false);
    lemma_probe_check_iff(b, color, c0 - 2, r0 - 1, false, false);
    lemma_probe_check_iff(b, color, c0 + 1, r0 + 2, false, false);
    lemma_probe_check_iff(b, color, c0 - 1, r0 + 2, false, false);
    lemma_probe_check_iff(b, color, c0 + 1, r0 - 2, false, false);
    lemma_probe_check_iff(b, color, c0 - 1, r0 - 2, false, false);
    lemma_king_search_split(b, color, p1, p2);
    lemma_king_search_split(b, color, p1 + p2, p3);
    lemma_king_search_split(b, color, p1 + p2 + p3, p4);
    lemma_king_search_split(b, color, p1 + p2 + p3 + p4, p5);
    lemma_king_search_split(b, color, p1 + p2 + p3 + p4 + p5, p6);
    lemma_king_search_split(b, color, p1 + p2 + p3 + p4 + p5 + p6, p7);
    lemma_king_search_split(b, color, p1 + p2 + p3 + p4 + p5 + p6 + p7, p8);
}

/// The pawn's probes flag check exactly when one of its diagonal capture
/// destinations holds the rival king; its forward advances, onto empty
/// squares only, never do.
#[verifier::rlimit(80)]
proof fn lemma_pawn_check_iff(b: Seq<u8>, color: Color, c0: int, r0: int)
    ensures
        pawn_check(b, color, c0, r0) <==> exists|j: int|
            0 <= j < pawn_dests(b, color, c0, r0).len() && rival_king_at(
                b,
                color,
                #[trigger] pawn_dests(b, color, c0, r0)[j],
            ),
{
    let d = pawn_forward(color);
    let p1 = probe_dests(b, color, c0, r0 + d, false, true);
    let p2 = if r0 == pawn_start_row(color) && probe_continues(b, c0, r0 + d) {
        probe_dests(b, color, c0, r0 + 2 * d, false, true)
    } else {
        Seq::<(int, int)>::empty()
    };
    let p3 = probe_dests(b, color, c0 + 1, r0 + d, true, false);
    let p4 = probe_dests(b, color, c0 - 1, r0 + d, true, false);

    // A forward probe admits empty squares only, never a king.
    assert(forall|j: int| 0 <= j < p1.len() ==> !rival_king_at(b, color, #[trigger] p1[j]));
    assert(forall|j: int| 0 <= j < p2.len() ==> !rival_king_at(b, color, #[trigger] p2[j]));

    lemma_probe_check_iff(b, color, c0 + 1, r0 + d, true, false);
    lemma_probe_check_iff(b, color, c0 - 1, r0 + d, true, false);
    lemma_king_search_split(b, color, p1, p2);
    lemma_king_search_split(b, color, p1 + p2, p3);
    lemma_king_search_split(b, color, p1 + p2 + p3, p4);
}

/// Check law: a piece's threatens-enemy-king flag is set exactly when one
/// of its reachable destinations holds the rival king — a side gives check
/// exactly when it could capture the opposing king on its next move.
#[verifier::rlimit(80)]
pub proof fn lemma_check_iff_king_capture(b: Seq<u8>, p: PieceView)
    ensures
        piece_gives_check(b, p) <==> exists|j: int|
            0 <= j < piece_dests(b, p).len() && rival_king_at(
                b,
                code_color(p.code),
                #[trigger] piece_dests(b, p)[j],
            ),
{
    let color = code_color(p.code);
    let c0 = p.col as int;
    let r0 = p.row as int;
    lemma_ortho_check_iff(b, color, c0, r0, 7);
    lemma_diag_check_iff(b, color, c0, r0, 7);
    lemma_ortho_check_iff(b, color, c0, r0, 1);
    lemma_diag_check_iff(b, color, c0, r0, 1);
    lemma_knight_check_iff(b, color, c0, r0);
    lemma_pawn_check_iff(b, color, c0, r0);
    if p.code == 5 || p.code == 11 {
        lemma_king_search_split(
            b,
            color,
            ortho_dests(b, color, c0, r0, 7),
            diag_dests(b, color, c0, r0, 7),
        );
    }
    if p.code == 6 || p.code == 12 {
        lemma_king_search_split(
            b,
            color,
            ortho_dests(b, color, c0, r0, 1),
            diag_dests(b, color, c0, r0, 1),
        );
    }
}

/// A side threatens the opposing king exactly when one of its pieces has a
/// reachable destination holding a rival king — check means the king could
/// be captured on the very next move.
pub proof fn lemma_threatens_iff_king_capture(b: Seq<u8>, color: Color)
    ensures
        threatens(b, color) <==> exists|i: int, d: (int, int)|
            0 <= i < 64 && code_color(b[i]) == color && #[trigger] piece_dests(
                b,
                pv_at(b, i),
            ).contains(d) && rival_king_at(b, color, d),
{
    if threatens(b, color) {
        let i = choose|i: int|
            0 <= i < 64 && code_color(b[i]) == color && #[trigger] piece_gives_check(
                b,
                pv_at(b, i),
            );
        lemma_check_iff_king_capture(b, pv_at(b, i));
        let j = choose|j: int|
            0 <= j < piece_dests(b, pv_at(b, i)).len() && rival_king_at(
                b,
                code_color(pv_at(b, i).code),
                #[trigger] piece_dests(b, pv_at(b, i))[j],
            );
        let d = piece_dests(b, pv_at(b, i))[j];
        assert(piece_dests(b, pv_at(b, i)).contains(d));
    }

    if exists|i: int, d: (int, int)|
        0 <= i < 64 && code_color(b[i]) == color && #[trigger] piece_dests(b, pv_at(b, i)).contains(
            d,
        ) && rival_king_at(b, color, d) {
        let (i, d) = choose|i: int, d: (int, int)|
            0 <= i < 64 && code_color(b[i]) == color && #[trigger] piece_dests(
                b,
                pv_at(b, i),
            ).contains(d) && rival_king_at(b, color, d);
        lemma_check_iff_king_capture(b, pv_at(b, i));
        let j = choose|j: int|
            0 <= j < piece_dests(b, pv_at(b, i)).len() && piece_dests(b, pv_at(b, i))[j] == d;
        assert(rival_king_at(b, code_color(pv_at(b, i).code), piece_dests(b, pv_at(b, i))[j]));
        assert(piece_gives_check(b, pv_at(b, i)));
    }
}

/// Pawn law: every destination a pawn generates is a one-square advance, a
/// two-square advance from the starting rank over two empty squares, or a
/// diagonal capture.  A pawn off its starting rank never generates a
/// two-square advance; a straight advance never lands on an occupied
/// square; a diagonal step never lands on an empty one.
#[verifier::rlimit(50)]
pub proof fn lemma_pawn_moves_shape(b: Seq<u8>, color: Color, c0: int, r0: int)
    ensures
        forall|j: int|
            0 <= j < pawn_dests(b, color, c0, r0).len() ==> {
                let d = #[trigger] pawn_dests(b, color, c0, r0)[j];
                let f = pawn_forward(color);
                &&& (d.1 == r0 + f || (r0 == pawn_start_row(color) && d.1 == r0 + 2 * f
                    && probe_continues(b, c0, r0 + f)))
                &&& (d.1 == r0 + 2 * f ==> d.0 == c0)
                &&& (d.0 == c0 ==> code_at(b, d.0, d.1) == 0)
                &&& (d.0 != c0 ==> are_rival_colors(color, code_color(code_at(b, d.0, d.1))))
            },
{
}

#[verifier::rlimit(50)]
pub proof fn lemma_piece_dests_in_bounds(b: Seq<u8>, p: PieceView)
    ensures
        forall|j: int|
            0 <= j < piece_dests(b, p).len() ==> in_bounds(
                (#[trigger] piece_dests(b, p)[j]).0,
                piece_dests(b, p)[j].1,
            ),
{
    let color = code_color(p.code);
    let c0 = p.col as int;
    let r0 = p.row as int;
    lemma_ortho_dests_in_bounds(b, color, c0, r0, 7);
    lemma_diag_dests_in_bounds(b, color, c0, r0, 7);
    lemma_ortho_dests_in_bounds(b, color, c0, r0, 1);
    lemma_diag_dests_in_bounds(b, color, c0, r0, 1);
    lemma_knight_dests_in_bounds(b, color, c0, r0);
    lemma_pawn_dests_in_bounds(b, color, c0, r0);
}

} // verus!
