use crate::bm::attacks::{attacked_from, attacks_from, file_of, pawn_step, rank_of};
use crate::bm::bitboard::{group_bb, FILE_A, FILE_H};
use crate::bm::chess_types::{bb_has, BitBoard, Board, Color, BISHOP, KNIGHT, PAWN, QUEEN, ROOK};
use vstd::prelude::*;

verus! {

broadcast use group_bb;

/// The squares attacked by the pawns of `pawns`, all of color `color`.
pub fn pawn_threats(pawns: BitBoard, color: Color) -> (r: BitBoard)
    ensures
        forall|t: int| 0 <= t < 64 ==> (#[trigger] bb_has(r, t) <==> attacked_from(pawns, PAWN, color, t, 0)),
{
    let r = match color {
        Color::White => ((pawns & !FILE_A) << 7u64) | ((pawns & !FILE_H) << 9u64),
        Color::Black => ((pawns & !FILE_A) >> 9u64) | ((pawns & !FILE_H) >> 7u64),
    };
    assert forall|t: int| 0 <= t < 64 implies (#[trigger] bb_has(r, t) <==> attacked_from(pawns, PAWN, color, t, 0)) by {
        match color {
            Color::White => {
                if bb_has(r, t) {
                    if t >= 7 && bb_has(pawns & !FILE_A, t - 7) {
                        assert(pawn_step(color, t - 7, t));
                    } else {
                        assert(pawn_step(color, t - 9, t));
                    }
                }
                if attacked_from(pawns, PAWN, color, t, 0) {
                    let s = choose|s: int| 0 <= s < 64 && #[trigger] bb_has(pawns, s) && crate::bm::attacks::piece_step(PAWN, color, s, t, 0);
                    if file_of(t) < file_of(s) {
                        assert(s == t - 7);
                    } else {
                        assert(s == t - 9);
                    }
                }
            },
            Color::Black => {
                if bb_has(r, t) {
                    if t + 9 < 64 && bb_has(pawns & !FILE_A, t + 9) {
                        assert(pawn_step(color, t + 9, t));
                    } else {
                        assert(pawn_step(color, t + 7, t));
                    }
                }
                if attacked_from(pawns, PAWN, color, t, 0) {
                    let s = choose|s: int| 0 <= s < 64 && #[trigger] bb_has(pawns, s) && crate::bm::attacks::piece_step(PAWN, color, s, t, 0);
                    if file_of(t) < file_of(s) {
                        assert(s == t + 9);
                    } else {
                        assert(s == t + 7);
                    }
                }
            },
        }
    }
    r
}

/// The squares one rank ahead of the pawns of `pawns` (of color `color`) that stand off
/// the A file.
pub fn pawn_pushes(pawns: BitBoard, color: Color) -> (r: BitBoard)
    ensures
        forall|t: int|
            0 <= t < 64 ==> (#[trigger] bb_has(r, t) <==> match color {
                Color::White => t >= 8 && bb_has(pawns, t - 8) && file_of(t) != 0,
                Color::Black => t + 8 < 64 && bb_has(pawns, t + 8) && file_of(t) != 0,
            }),
{
    match color {
        Color::White => (pawns & !FILE_A) << 8u64,
        Color::Black => (pawns & !FILE_A) >> 8u64,
    }
}

pub open spec fn color_of(board: Board, stm: bool) -> Color {
    if stm {
        board.side_to_move
    } else {
        board.side_to_move.spec_opp()
    }
}

/// The promotion squares: the empty squares the pawns of the side to move (`stm`) or of the
/// other side push to, and the enemy pieces they capture.
pub fn promo_threats(board: &Board, stm: bool) -> (r: BitBoard)
    ensures
        ({
            let color = color_of(*board, stm);
            let pawns = board.pieces[0] & board.colors[color.spec_index()];
            forall|t: int|
                0 <= t < 64 ==> (#[trigger] bb_has(r, t) <==> ((match color {
                    Color::White => t >= 8 && bb_has(pawns, t - 8) && file_of(t) != 0,
                    Color::Black => t + 8 < 64 && bb_has(pawns, t + 8) && file_of(t) != 0,
                } && !bb_has(board.spec_occupied(), t)) || (attacked_from(pawns, PAWN, color, t, 0) && bb_has(
                    board.colors[color.spec_opp().spec_index()],
                    t,
                ))))
        }),
{
    let color = if stm {
        board.side_to_move
    } else {
        board.side_to_move.opp()
    };
    let pawns = board.pieces(PAWN) & board.colors(color);
    let quiet_promos = pawn_pushes(pawns, color) & !board.occupied();
    let noisy_promos = pawn_threats(pawns, color) & board.colors(color.opp());
    quiet_promos | noisy_promos
}

/// A square of `side` that the other side threatens: a piece attacked by a pawn, a rook or
/// queen attacked by a knight or bishop, or a queen attacked by a rook.
pub open spec fn spec_threatened(board: Board, by: Color, t: int) -> bool {
    let own = board.colors[by.spec_index()];
    let occ = board.spec_occupied();
    let minors = board.pieces[1] | board.pieces[2];
    let majors = board.pieces[3] | board.pieces[4];
    &&& bb_has(board.colors[by.spec_opp().spec_index()], t)
    &&& {
        ||| (bb_has(minors | majors, t) && attacked_from(board.pieces[0] & own, PAWN, by, t, 0))
        ||| (bb_has(majors, t) && (attacked_from(board.pieces[1] & own, KNIGHT, by, t, occ) || attacked_from(
            board.pieces[2] & own,
            BISHOP,
            by,
            t,
            occ,
        )))
        ||| (bb_has(board.pieces[4], t) && attacked_from(board.pieces[3] & own, ROOK, by, t, occ))
    }
}

/// `pair` holds the pieces of black that white threatens, then those of white that black
/// threatens.
pub open spec fn is_threat_pair(board: Board, pair: (u64, u64)) -> bool {
    &&& forall|t: int| 0 <= t < 64 ==> (#[trigger] bb_has(pair.0, t) <==> spec_threatened(board, Color::White, t))
    &&& forall|t: int| 0 <= t < 64 ==> (#[trigger] bb_has(pair.1, t) <==> spec_threatened(board, Color::Black, t))
}

/// The threats depend only on where the pieces stand.
pub proof fn lemma_threat_pair_same_pieces(b1: Board, b2: Board, pair: (u64, u64))
    requires
        b1.pieces == b2.pieces,
        b1.colors == b2.colors,
        is_threat_pair(b1, pair),
    ensures
        is_threat_pair(b2, pair),
{
    assert forall|t: int| 0 <= t < 64 implies spec_threatened(b1, Color::White, t) == spec_threatened(b2, Color::White, t) && spec_threatened(b1, Color::Black, t) == spec_threatened(b2, Color::Black, t) by {
        assert(b1.spec_occupied() == b2.spec_occupied());
    }
}

/// The pieces of black that white threatens, and the pieces of white that black threatens.
pub fn threats(board: &Board) -> (r: (BitBoard, BitBoard))
    ensures
        forall|t: int| 0 <= t < 64 ==> (#[trigger] bb_has(r.0, t) <==> spec_threatened(*board, Color::White, t)),
        forall|t: int| 0 <= t < 64 ==> (#[trigger] bb_has(r.1, t) <==> spec_threatened(*board, Color::Black, t)),
{
    let occupied = board.occupied();
    let white = board.colors(Color::White);
    let black = board.colors(Color::Black);
    let pawns = board.pieces(PAWN);
    let knights = board.pieces(KNIGHT);
    let bishops = board.pieces(BISHOP);
    let rooks = board.pieces(ROOK);
    let queens = board.pieces(QUEEN);
    let minors = knights | bishops;
    let majors = rooks | queens;
    let pieces = minors | majors;

    let w_pawn_attacks = pawn_threats(pawns & white, Color::White);
    let b_pawn_attacks = pawn_threats(pawns & black, Color::Black);

    let mut w_minor_attacks: u64 = 0;
    let mut b_minor_attacks: u64 = 0;
    if majors & black != 0 {
        w_minor_attacks = attacks_from(knights & white, KNIGHT, Color::White, occupied) | attacks_from(
            bishops & white,
            BISHOP,
            Color::White,
            occupied,
        );
    }
    if majors & white != 0 {
        b_minor_attacks = attacks_from(knights & black, KNIGHT, Color::Black, occupied) | attacks_from(
            bishops & black,
            BISHOP,
            Color::Black,
            occupied,
        );
    }
    let mut w_rook_attacks: u64 = 0;
    let mut b_rook_attacks: u64 = 0;
    if queens & black != 0 {
        w_rook_attacks = attacks_from(rooks & white, ROOK, Color::White, occupied);
    }
    if queens & white != 0 {
        b_rook_attacks = attacks_from(rooks & black, ROOK, Color::Black, occupied);
    }
    let w = ((w_pawn_attacks & pieces) | (w_minor_attacks & majors) | (w_rook_attacks & queens)) & black;
    let b = ((b_pawn_attacks & pieces) | (b_minor_attacks & majors) | (b_rook_attacks & queens)) & white;
    assert forall|t: int| 0 <= t < 64 implies (#[trigger] bb_has(w, t) <==> spec_threatened(*board, Color::White, t)) by {
        if majors & black == 0 {
            assert(!bb_has(majors & black, t));
        }
        if queens & black == 0 {
            assert(!bb_has(queens & black, t));
        }
    }
    assert forall|t: int| 0 <= t < 64 implies (#[trigger] bb_has(b, t) <==> spec_threatened(*board, Color::Black, t)) by {
        if majors & white == 0 {
            assert(!bb_has(majors & white, t));
        }
        if queens & white == 0 {
            assert(!bb_has(queens & white, t));
        }
    }
    (w, b)
}

} // verus!
