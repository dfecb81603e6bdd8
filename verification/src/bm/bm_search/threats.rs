use crate::bm::attacks::{attacked_from, attacks_from};
use crate::bm::bitboard::group_bb;
use crate::bm::chess_types::{bb_has, BitBoard, Board, Color, BISHOP, KNIGHT, PAWN, QUEEN, ROOK};
use vstd::prelude::*;

verus! {

broadcast use group_bb;

/// The threatened pieces of one side, and among them those attacked by a less valuable piece.
#[derive(Debug, Copy, Clone)]
pub struct Threats {
    pub all: BitBoard,
    pub strong: BitBoard,
}

/// A square that a pawn, knight, bishop, rook or queen of `side` attacks (kings aside).
pub open spec fn spec_defended(board: Board, side: Color, t: int) -> bool {
    let own = board.colors[side.spec_index()];
    let occ = board.spec_occupied();
    ||| attacked_from(board.pieces[0] & own, PAWN, side, t, occ)
    ||| attacked_from(board.pieces[1] & own, KNIGHT, side, t, occ)
    ||| attacked_from((board.pieces[2] | board.pieces[4]) & own, BISHOP, side, t, occ)
    ||| attacked_from((board.pieces[3] | board.pieces[4]) & own, ROOK, side, t, occ)
}

/// The squares that `side` defends.
pub fn defended(board: &Board, side: Color) -> (r: BitBoard)
    ensures
        forall|t: int| 0 <= t < 64 ==> (#[trigger] bb_has(r, t) <==> spec_defended(*board, side, t)),
{
    let occupied = board.occupied();
    let color = board.colors(side);
    let pawns = board.pieces(PAWN);
    let knights = board.pieces(KNIGHT);
    let bishops = board.pieces(BISHOP);
    let rooks = board.pieces(ROOK);
    let queens = board.pieces(QUEEN);
    attacks_from(pawns & color, PAWN, side, occupied) | attacks_from(knights & color, KNIGHT, side, occupied)
        | attacks_from((bishops | queens) & color, BISHOP, side, occupied) | attacks_from(
        (rooks | queens) & color,
        ROOK,
        side,
        occupied,
    )
}

/// A piece of the other side that `by` attacks with a less valuable piece: any piece by a
/// pawn, a rook or queen by a knight or bishop, a queen by a rook.
pub open spec fn spec_strong_threat(board: Board, by: Color, t: int) -> bool {
    let own = board.colors[by.spec_index()];
    let occ = board.spec_occupied();
    let minors = board.pieces[1] | board.pieces[2];
    let majors = board.pieces[3] | board.pieces[4];
    &&& bb_has(board.colors[by.spec_opp().spec_index()], t)
    &&& {
        ||| (bb_has(minors | majors, t) && attacked_from(board.pieces[0] & own, PAWN, by, t, occ))
        ||| (bb_has(majors, t) && (attacked_from(board.pieces[1] & own, KNIGHT, by, t, occ) || attacked_from(
            board.pieces[2] & own,
            BISHOP,
            by,
            t,
            occ,
        )))
        ||| (bb_has(board.pieces[4], t) && attacked_from(board.pieces[3] & own, ROOK, by, t, occ))
    }
}

/// A square of the other side, not in `defended`, that a pawn, knight, bishop or rook of
/// `by` attacks.
pub open spec fn spec_weak_threat(board: Board, by: Color, defended: u64, t: int) -> bool {
    let own = board.colors[by.spec_index()];
    let occ = board.spec_occupied();
    &&& bb_has(board.colors[by.spec_opp().spec_index()], t)
    &&& !bb_has(defended, t)
    &&& {
        ||| attacked_from(board.pieces[0] & own, PAWN, by, t, occ)
        ||| attacked_from(board.pieces[1] & own, KNIGHT, by, t, occ)
        ||| attacked_from(board.pieces[2] & own, BISHOP, by, t, occ)
        ||| attacked_from(board.pieces[3] & own, ROOK, by, t, occ)
    }
}

/// The threats of `threats_of` against the other side, whose defended squares are `defended`.
pub fn threats(board: &Board, threats_of: Color, defended: BitBoard) -> (r: Threats)
    ensures
        forall|t: int| 0 <= t < 64 ==> (#[trigger] bb_has(r.strong, t) <==> spec_strong_threat(*board, threats_of, t)),
        forall|t: int|
            0 <= t < 64 ==> (#[trigger] bb_has(r.all, t) <==> (spec_strong_threat(*board, threats_of, t)
                || spec_weak_threat(*board, threats_of, defended, t))),
{
    let occupied = board.occupied();
    let color = board.colors(threats_of);
    let n_color = board.colors(threats_of.opp());
    let pawns = board.pieces(PAWN);
    let knights = board.pieces(KNIGHT);
    let bishops = board.pieces(BISHOP);
    let rooks = board.pieces(ROOK);
    let queens = board.pieces(QUEEN);
    let minors = knights | bishops;
    let majors = rooks | queens;
    let pieces = minors | majors;

    let pawn_attacks = attacks_from(pawns & color, PAWN, threats_of, occupied);
    let minor_attacks = attacks_from(knights & color, KNIGHT, threats_of, occupied) | attacks_from(
        bishops & color,
        BISHOP,
        threats_of,
        occupied,
    );
    let rook_attacks = attacks_from(rooks & color, ROOK, threats_of, occupied);

    let strong_threats = ((pawn_attacks & pieces) | (minor_attacks & majors) | (rook_attacks & queens)) & n_color;
    let weak_threats = (pawn_attacks | minor_attacks | rook_attacks) & n_color & !defended;
    Threats { all: weak_threats | strong_threats, strong: strong_threats }
}

} // verus!
