use crate::bm::attacks::{piece_attacks, piece_step};
use crate::bm::bitboard::{bits, first_from, group_bb, lemma_first_from, lsb};
use crate::bm::chess_types::{bb_has, BitBoard, Board, Color, Move, Piece, Square, KING};
use vstd::prelude::*;

verus! {

broadcast use group_bb;

pub const PAWN: i16 = 96;
pub const MINOR: i16 = 323;
pub const ROOK: i16 = 551;
pub const QUEEN: i16 = 864;

/// The value of a piece kind in exchanges.
pub open spec fn spec_piece_pts(piece: Piece) -> i16 {
    if piece == 0 {
        PAWN
    } else if piece == 1 || piece == 2 {
        MINOR
    } else if piece == 3 {
        ROOK
    } else if piece == 4 {
        QUEEN
    } else {
        16383
    }
}

/// Returns the piece values used by [compare_see](compare_see) and [move_value](move_value)
pub fn piece_pts(piece: Piece) -> (r: i16)
    ensures
        r == spec_piece_pts(piece),
{
    match piece {
        0 => PAWN,
        1 => MINOR,
        2 => MINOR,
        3 => ROOK,
        4 => QUEEN,
        _ => i16::MAX / 2,
    }
}

/// Returns the value of the piece being captured
///
/// If there is no piece to capture, returns 0
pub fn move_value(board: &Board, make_move: Move) -> (r: i16)
    requires
        make_move.wf(),
    ensures
        r == match board.spec_piece_on(make_move.to as int) {
            Some(p) => spec_piece_pts(p),
            None => 0,
        },
{
    match board.piece_on(make_move.to) {
        Some(piece) => piece_pts(piece),
        None => 0,
    }
}

/// The squares holding a piece of kind `k` and color `stm`, still on the board (in
/// `blockers`), that attack `target`.
pub open spec fn candidates(board: Board, target: int, stm: Color, blockers: u64, k: Piece) -> spec_fn(int) -> bool {
    |s: int|
        0 <= s < 64 && bb_has(board.pieces[k as int] & board.colors[stm.spec_index()] & blockers, s)
            && piece_step(k, stm.spec_opp(), target, s, blockers)
}

/// The least valuable attacker of `target` of color `stm` from kind `k` on, with the lowest
/// square of that kind.
pub open spec fn next_attacker_from(board: Board, target: int, stm: Color, blockers: u64, k: Piece) -> Option<(Piece, int)>
    decreases 6 - k,
{
    if k >= 6 {
        None
    } else if first_from(candidates(board, target, stm, blockers, k), 0) < 64 {
        Some((k, first_from(candidates(board, target, stm, blockers, k), 0)))
    } else {
        next_attacker_from(board, target, stm, blockers, (k + 1) as Piece)
    }
}

proof fn lemma_next_attacker_from_least(board: Board, target: int, stm: Color, blockers: u64, k: Piece)
    requires
        k <= 6,
    ensures
        match next_attacker_from(board, target, stm, blockers, k) {
            Some((a, sq)) => {
                &&& k <= a < 6
                &&& 0 <= sq < 64
                &&& bb_has(board.pieces[a as int] & board.colors[stm.spec_index()] & blockers, sq)
                &&& piece_step(a, stm.spec_opp(), target, sq, blockers)
                &&& forall|j: Piece, s: int|
                    k <= j < a && 0 <= s < 64 && #[trigger] bb_has(board.pieces[j as int] & board.colors[stm.spec_index()] & blockers, s)
                        ==> !piece_step(j, stm.spec_opp(), target, s, blockers)
                &&& forall|s: int|
                    0 <= s < sq && #[trigger] bb_has(board.pieces[a as int] & board.colors[stm.spec_index()] & blockers, s)
                        ==> !piece_step(a, stm.spec_opp(), target, s, blockers)
            },
            None => forall|j: Piece, s: int|
                k <= j < 6 && 0 <= s < 64 && #[trigger] bb_has(board.pieces[j as int] & board.colors[stm.spec_index()] & blockers, s)
                    ==> !piece_step(j, stm.spec_opp(), target, s, blockers),
        },
    decreases 6 - k,
{
    if k < 6 {
        let p = candidates(board, target, stm, blockers, k);
        lemma_first_from(p, 0);
        if first_from(p, 0) >= 64 {
            lemma_next_attacker_from_least(board, target, stm, blockers, (k + 1) as Piece);
            assert forall|s: int| 0 <= s < 64 && bb_has(board.pieces[k as int] & board.colors[stm.spec_index()] & blockers, s)
                implies !piece_step(k, stm.spec_opp(), target, s, blockers) by {
                assert(!p(s));
            }
        } else {
            let sq = first_from(p, 0);
            assert forall|s: int| 0 <= s < sq && bb_has(board.pieces[k as int] & board.colors[stm.spec_index()] & blockers, s)
                implies !piece_step(k, stm.spec_opp(), target, s, blockers) by {
                assert(!p(s));
            }
        }
    }
}

/// The exchange always recaptures with a least valuable piece: the chosen attacker of
/// color `stm` is still on the board and reaches `target`, no piece of a kind listed before
/// it (pawn, knight, bishop, rook, queen, king) and so of no lower value does, and among
/// its kind it stands on the lowest square; when none is chosen, no piece of `stm`
/// reaches `target`.
pub proof fn lemma_next_attacker_least_valuable(board: Board, target: int, stm: Color, blockers: u64)
    ensures
        match next_attacker_from(board, target, stm, blockers, 0) {
            Some((a, sq)) => {
                &&& a < 6
                &&& 0 <= sq < 64
                &&& bb_has(board.pieces[a as int] & board.colors[stm.spec_index()] & blockers, sq)
                &&& piece_step(a, stm.spec_opp(), target, sq, blockers)
                &&& forall|j: Piece, s: int|
                    0 <= j < 6 && 0 <= s < 64 && #[trigger] bb_has(board.pieces[j as int] & board.colors[stm.spec_index()] & blockers, s)
                        && piece_step(j, stm.spec_opp(), target, s, blockers) ==> a <= j && spec_piece_pts(a) <= spec_piece_pts(j)
                &&& forall|s: int|
                    0 <= s < sq && #[trigger] bb_has(board.pieces[a as int] & board.colors[stm.spec_index()] & blockers, s)
                        ==> !piece_step(a, stm.spec_opp(), target, s, blockers)
            },
            None => forall|j: Piece, s: int|
                0 <= j < 6 && 0 <= s < 64 && #[trigger] bb_has(board.pieces[j as int] & board.colors[stm.spec_index()] & blockers, s)
                    ==> !piece_step(j, stm.spec_opp(), target, s, blockers),
        },
{
    lemma_next_attacker_from_least(board, target, stm, blockers, 0);
}

/// The exchange on `target` from step `i` on, where `gain` is the material won so far by
/// the side that started it, `piece` stands on `target` and `stm` is to capture next;
/// true when the starter ends with at least `bound`.
pub open spec fn see_ge(
    board: Board,
    target: int,
    bound: int,
    i: int,
    gain: int,
    piece: Option<Piece>,
    blockers: u64,
    stm: Color,
) -> bool
    decreases 16 - i,
{
    if i >= 16 {
        gain >= bound
    } else if i % 2 == 1 && gain < bound {
        false
    } else if i % 2 == 0 && gain >= bound {
        true
    } else {
        match next_attacker_from(board, target, stm, blockers, 0) {
            None => gain >= bound,
            Some((a, sq)) => {
                let v = match piece {
                    Some(p) => spec_piece_pts(p) as int,
                    None => 0,
                };
                see_ge(
                    board,
                    target,
                    bound,
                    i + 1,
                    if i % 2 == 0 {
                        gain + v
                    } else {
                        gain - v
                    },
                    Some(a),
                    blockers & !(1u64 << (sq as u64)),
                    stm.spec_opp(),
                )
            },
        }
    }
}

/// Whether the static exchange after `make_move` wins at least `bound`.
pub open spec fn spec_compare_see(board: Board, make_move: Move, bound: int) -> bool {
    let stm = board.side_to_move;
    let target = make_move.to as int;
    let piece = board.spec_piece_on(make_move.from as int);
    let gain = if bb_has(board.colors[stm.spec_opp().spec_index()], target) {
        match board.spec_piece_on(target) {
            Some(p) => spec_piece_pts(p) as int,
            None => 0,
        }
    } else {
        0
    };
    if piece == Some(KING) {
        gain >= bound
    } else {
        see_ge(
            board,
            target,
            bound,
            1,
            gain,
            piece,
            board.spec_occupied() & !(1u64 << (make_move.from as u64)),
            stm.spec_opp(),
        )
    }
}

/// The exchange never wins more than the piece first taken: a move passes the threshold
/// `bound` only when the captured piece (nothing for a move to an empty or own square) is
/// worth at least `bound`; and when no piece of the other side can take back on the
/// target, the move passes exactly when the captured piece is worth at least `bound`.
pub proof fn lemma_compare_see_first_capture(board: Board, make_move: Move, bound: int)
    requires
        make_move.wf(),
    ensures
        ({
            let stm = board.side_to_move;
            let target = make_move.to as int;
            let gain = if bb_has(board.colors[stm.spec_opp().spec_index()], target) {
                match board.spec_piece_on(target) {
                    Some(p) => spec_piece_pts(p) as int,
                    None => 0,
                }
            } else {
                0
            };
            let blockers = board.spec_occupied() & !(1u64 << (make_move.from as u64));
            &&& spec_compare_see(board, make_move, bound) ==> gain >= bound
            &&& (forall|j: Piece, s: int|
                0 <= j < 6 && 0 <= s < 64 && #[trigger] bb_has(
                    board.pieces[j as int] & board.colors[stm.spec_opp().spec_index()] & blockers,
                    s,
                ) ==> !piece_step(j, stm, target, s, blockers)) ==> (spec_compare_see(board, make_move, bound)
                == (gain >= bound))
        }),
{
    let stm = board.side_to_move;
    let blockers = board.spec_occupied() & !(1u64 << (make_move.from as u64));
    lemma_next_attacker_least_valuable(board, make_move.to as int, stm.spec_opp(), blockers);
    assert(stm.spec_opp().spec_opp() == stm);
}

proof fn lemma_see_ge_monotone(
    board: Board,
    target: int,
    b1: int,
    b2: int,
    i: int,
    gain: int,
    piece: Option<Piece>,
    blockers: u64,
    stm: Color,
)
    requires
        b1 <= b2,
    ensures
        see_ge(board, target, b2, i, gain, piece, blockers, stm) ==> see_ge(board, target, b1, i, gain, piece, blockers, stm),
    decreases 16 - i,
{
    if i < 16 {
        match next_attacker_from(board, target, stm, blockers, 0) {
            None => {},
            Some((a, sq)) => {
                let v = match piece {
                    Some(p) => spec_piece_pts(p) as int,
                    None => 0,
                };
                lemma_see_ge_monotone(
                    board,
                    target,
                    b1,
                    b2,
                    i + 1,
                    if i % 2 == 0 {
                        gain + v
                    } else {
                        gain - v
                    },
                    Some(a),
                    blockers & !(1u64 << (sq as u64)),
                    stm.spec_opp(),
                );
            },
        }
    }
}

/// An exchange that wins at least some bound wins at least every smaller bound.
pub proof fn lemma_compare_see_monotone(board: Board, make_move: Move, b1: int, b2: int)
    requires
        b1 <= b2,
    ensures
        spec_compare_see(board, make_move, b2) ==> spec_compare_see(board, make_move, b1),
{
    let stm = board.side_to_move;
    let gain = if bb_has(board.colors[stm.spec_opp().spec_index()], make_move.to as int) {
        match board.spec_piece_on(make_move.to as int) {
            Some(p) => spec_piece_pts(p) as int,
            None => 0,
        }
    } else {
        0
    };
    lemma_see_ge_monotone(
        board,
        make_move.to as int,
        b1,
        b2,
        1,
        gain,
        board.spec_piece_on(make_move.from as int),
        board.spec_occupied() & !(1u64 << (make_move.from as u64)),
        stm.spec_opp(),
    );
}

/// The least valuable attacker of `target` of color `stm` among `blockers`, and its square.
fn next_attacker(board: &Board, target: Square, stm: Color, blockers: BitBoard) -> (r: Option<(Piece, Square)>)
    requires
        target < 64,
    ensures
        match r {
            Some((a, sq)) => a < 6 && sq < 64 && next_attacker_from(*board, target as int, stm, blockers, 0) == Some(
                (a, sq as int),
            ),
            None => next_attacker_from(*board, target as int, stm, blockers, 0) is None,
        },
{
    let opp = stm.opp();
    let mut k: u8 = 0;
    while k < 6
        invariant
            k <= 6,
            target < 64,
            opp == stm.spec_opp(),
            next_attacker_from(*board, target as int, stm, blockers, 0) == next_attacker_from(
                *board,
                target as int,
                stm,
                blockers,
                k,
            ),
        decreases 6 - k,
    {
        let pieces = board.pieces(k) & board.colors(stm);
        let potential = piece_attacks(k, opp, target, blockers) & pieces & blockers;
        assert(bits(potential) =~= candidates(*board, target as int, stm, blockers, k));
        if let Some(sq) = lsb(potential) {
            return Some((k, sq));
        }
        k += 1;
    }
    None
}

/// Returns true if SEE value is at least bound
///
/// Will always prioritize the least valuable aggressor
///
/// Doesn't take promotions and pins into account
pub fn compare_see(board: &Board, make_move: Move, bound: i16) -> (r: bool)
    requires
        make_move.wf(),
    ensures
        r == spec_compare_see(*board, make_move, bound as int),
{
    let target = make_move.to;
    let mut piece = board.piece_on(make_move.from);
    let is_quiet = !crate::bm::chess_types::has(board.colors(board.side_to_move.opp()), target);
    let mut gain: i32 = if is_quiet {
        0
    } else {
        match board.piece_on(target) {
            Some(p) => piece_pts(p) as i32,
            None => 0,
        }
    };
    if piece == Some(KING) {
        return gain >= bound as i32;
    }
    let mut blockers = board.occupied() & !(1u64 << (make_move.from as u64));
    let mut stm = board.side_to_move.opp();
    let ghost goal = spec_compare_see(*board, make_move, bound as int);
    let mut i: u8 = 1;
    while i < 16
        invariant
            1 <= i <= 16,
            target < 64,
            -16384 * (i as int) <= gain <= 16384 * (i as int),
            match piece {
                Some(p) => p < 6,
                None => true,
            },
            goal == spec_compare_see(*board, make_move, bound as int),
            goal == see_ge(*board, target as int, bound as int, i as int, gain as int, piece, blockers, stm),
        decreases 16 - i,
    {
        let start_stm = i % 2 == 0;
        if !start_stm && gain < bound as i32 {
            return false;
        }
        if start_stm && gain >= bound as i32 {
            return true;
        }
        match next_attacker(board, target, stm, blockers) {
            Some((attacker, sq)) => {
                let value: i32 = match piece {
                    Some(p) => piece_pts(p) as i32,
                    None => 0,
                };
                if start_stm {
                    gain = gain + value;
                } else {
                    gain = gain - value;
                }
                blockers = blockers & !(1u64 << (sq as u64));
                piece = Some(attacker);
                stm = stm.opp();
            },
            None => {
                return gain >= bound as i32;
            },
        }
        i += 1;
    }
    gain >= bound as i32
}

} // verus!
