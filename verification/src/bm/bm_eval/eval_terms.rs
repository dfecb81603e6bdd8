use crate::bm::bitboard::{group_bb, lemma_bb_nonzero, popcnt, spec_count};
use crate::bm::chess_types::bb_has;
use crate::bm::bm_eval::eval_consts::BISHOP_PAIR;
use crate::bm::chess_types::{Board, Color, Piece, PAWN};
use vstd::prelude::*;

verus! {

/// The pieces of kind `k` and color `c`.
pub open spec fn own(board: Board, c: Color, k: Piece) -> u64 {
    board.pieces[k as int] & board.colors[c.spec_index()]
}

pub open spec fn capped(x: int, cap: int) -> int {
    if x < cap {
        x
    } else {
        cap
    }
}

pub open spec fn bishop_pair(board: Board, c: Color) -> int {
    if spec_count(own(board, c, 2), 64) > 1 {
        1
    } else {
        0
    }
}

/// Only the two kings are left, or the kings and one knight or bishop.
pub open spec fn spec_insufficient_material(board: Board) -> bool {
    let n = spec_count(board.spec_occupied(), 64);
    n == 2 || (n == 3 && board.pieces[3] | board.pieces[4] | board.pieces[0] == 0)
}

/// The game phase: 24 with all pieces on the board, less as they leave.
pub open spec fn spec_phase(board: Board) -> int {
    capped(
        spec_count(board.pieces[1], 64) + spec_count(board.pieces[2], 64) + spec_count(board.pieces[3], 64) * 2
            + spec_count(board.pieces[4], 64) * 4,
        24,
    )
}

proof fn lemma_count_three(bb: u64, a: int, b: int, c: int, n: int)
    requires
        0 <= a < 64,
        0 <= b < 64,
        0 <= c < 64,
        a != b,
        a != c,
        b != c,
        bb_has(bb, a),
        bb_has(bb, b),
        bb_has(bb, c),
        0 <= n <= 64,
    ensures
        spec_count(bb, n) >= (if a < n { 1int } else { 0 }) + (if b < n { 1int } else { 0 }) + (if c < n {
            1int
        } else {
            0
        }),
    decreases n,
{
    if n > 0 {
        lemma_count_three(bb, a, b, c, n - 1);
    }
}

/// A position counts as insufficient material only when no pawn, rook or queen is left: a
/// position with both kings and any pawn, rook or queen on the board is never a draw by
/// material.
pub proof fn lemma_insufficient_material_has_no_pawn_rook_queen(board: Board)
    requires
        board.wf(),
        board.pieces[5] & board.colors[0] != 0,
        board.pieces[5] & board.colors[1] != 0,
    ensures
        spec_insufficient_material(board) ==> board.pieces[0] == 0 && board.pieces[3] == 0 && board.pieces[4] == 0,
{
    broadcast use group_bb;

    let occ = board.spec_occupied();
    let n = spec_count(occ, 64);
    if spec_insufficient_material(board) {
        if n == 3 {
            let x = board.pieces[3];
            let y = board.pieces[4];
            let z = board.pieces[0];
            assert(x | y | z == 0 ==> x == 0 && y == 0 && z == 0) by (bit_vector);
        } else {
            lemma_bb_nonzero(board.pieces[5] & board.colors[0]);
            lemma_bb_nonzero(board.pieces[5] & board.colors[1]);
            let wk = choose|t: int| 0 <= t < 64 && #[trigger] bb_has(board.pieces[5] & board.colors[0], t);
            let bk = choose|t: int| 0 <= t < 64 && #[trigger] bb_has(board.pieces[5] & board.colors[1], t);
            assert(bb_has(board.colors[0] & board.colors[1], wk) == (bb_has(board.colors[0], wk) && bb_has(board.colors[1], wk)));
            assert(wk != bk);
            assert(bb_has(occ, wk));
            assert(bb_has(occ, bk));
            let u = board.pieces[0] | board.pieces[1] | board.pieces[2] | board.pieces[3] | board.pieces[4] | board.pieces[5];
            assert forall|k: int, t: int| 0 <= k < 5 && 0 <= t < 64 && #[trigger] bb_has(board.pieces[k], t) implies
                bb_has(occ, t) && !bb_has(board.pieces[5], t) by {
                assert(bb_has(u, t));
                assert(board.pieces[k] & board.pieces[5] == 0);
                assert(bb_has(board.pieces[k] & board.pieces[5], t) == (bb_has(board.pieces[k], t) && bb_has(board.pieces[5], t)));
                assert(!bb_has(0u64, t)) by {
                    lemma_bb_nonzero(0u64);
                }
            }
            assert forall|k: int| k == 0 || k == 3 || k == 4 implies board.pieces[k] == 0 by {
                if board.pieces[k] != 0 {
                    lemma_bb_nonzero(board.pieces[k]);
                    let p = choose|t: int| 0 <= t < 64 && #[trigger] bb_has(board.pieces[k], t);
                    lemma_count_three(occ, wk, bk, p, 64);
                }
            }
        }
    }
}

pub fn insufficient_material(board: &Board) -> (r: bool)
    ensures
        r == spec_insufficient_material(*board),
{
    let n = popcnt(board.occupied());
    if n == 2 {
        true
    } else if n == 3 {
        (board.pieces(crate::bm::chess_types::ROOK) | board.pieces(crate::bm::chess_types::QUEEN) | board.pieces(PAWN))
            == 0
    } else {
        false
    }
}

#[verifier::rlimit(50)]
pub fn evaluate_bishops(board: &Board) -> (r: (i32, i32))
    ensures
        r.0 == (bishop_pair(*board, Color::White) - bishop_pair(*board, Color::Black)) * BISHOP_PAIR[0],
        r.1 == (bishop_pair(*board, Color::White) - bishop_pair(*board, Color::Black)) * BISHOP_PAIR[1],
{
    let bishops = board.pieces(2);
    let w_pair: i32 = if popcnt(bishops & board.colors(Color::White)) > 1 {
        1
    } else {
        0
    };
    let b_pair: i32 = if popcnt(bishops & board.colors(Color::Black)) > 1 {
        1
    } else {
        0
    };
    let d = w_pair - b_pair;
    if d == 1 {
        (BISHOP_PAIR[0] as i32, BISHOP_PAIR[1] as i32)
    } else if d == -1 {
        (-(BISHOP_PAIR[0] as i32), -(BISHOP_PAIR[1] as i32))
    } else {
        (0, 0)
    }
}

#[verifier::rlimit(50)]
pub fn phase(board: &Board) -> (r: i16)
    ensures
        r == spec_phase(*board),
        0 <= r <= 24,
{
    let p = popcnt(board.pieces(1)) + popcnt(board.pieces(2)) + popcnt(board.pieces(3)) * 2 + popcnt(
        board.pieces(4),
    ) * 4;
    if p < 24 {
        p as i16
    } else {
        24
    }
}

} // verus!
