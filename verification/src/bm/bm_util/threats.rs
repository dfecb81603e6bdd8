use crate::bm::attacks::{attacked_from, attacks_from};
use crate::bm::bitboard::group_bb;
use crate::bm::bm_util::tactics::pawn_threats;
use crate::bm::chess_types::{bb_has, BitBoard, Board, Color, BISHOP, KNIGHT, PAWN, QUEEN, ROOK};
use vstd::prelude::*;

verus! {

broadcast use group_bb;

/// The pieces each side threatens: by pawns, and by sliders.
#[derive(Debug, Copy, Clone)]
pub struct Threats {
    w_threats: BitBoard,
    b_threats: BitBoard,
    w_slider_threats: BitBoard,
    b_slider_threats: BitBoard,
}

impl Threats {
    /// The pieces that `color`'s pawns threaten.
    pub closed spec fn pawn_view(self, color: Color) -> BitBoard {
        match color {
            Color::White => self.w_threats,
            Color::Black => self.b_threats,
        }
    }

    /// The pieces that `color`'s bishops and rooks threaten.
    pub closed spec fn slider_view(self, color: Color) -> BitBoard {
        match color {
            Color::White => self.w_slider_threats,
            Color::Black => self.b_slider_threats,
        }
    }

    pub fn all(&self, color: Color) -> (r: BitBoard)
        ensures
            r == self.pawn_view(color) | self.slider_view(color),
    {
        match color {
            Color::White => self.w_threats | self.w_slider_threats,
            Color::Black => self.b_threats | self.b_slider_threats,
        }
    }

    pub fn slider_threats(&self, color: Color) -> (r: BitBoard)
        ensures
            r == self.slider_view(color),
    {
        match color {
            Color::White => self.w_slider_threats,
            Color::Black => self.b_slider_threats,
        }
    }
}

/// A knight, bishop, rook or queen of the other side that a pawn of `by` attacks.
pub open spec fn spec_pawn_threat(board: Board, by: Color, t: int) -> bool {
    let pieces = board.pieces[1] | board.pieces[2] | board.pieces[3] | board.pieces[4];
    &&& bb_has(board.colors[by.spec_opp().spec_index()], t)
    &&& bb_has(pieces, t)
    &&& attacked_from(board.pieces[0] & board.colors[by.spec_index()], PAWN, by, t, 0)
}

/// A rook or queen of the other side that a bishop of `by` attacks, or a queen of the
/// other side that a rook of `by` attacks.
pub open spec fn spec_slider_threat(board: Board, by: Color, t: int) -> bool {
    let own = board.colors[by.spec_index()];
    let occ = board.spec_occupied();
    &&& bb_has(board.colors[by.spec_opp().spec_index()], t)
    &&& {
        ||| (bb_has(board.pieces[3] | board.pieces[4], t) && attacked_from(board.pieces[2] & own, BISHOP, by, t, occ))
        ||| (bb_has(board.pieces[4], t) && attacked_from(board.pieces[3] & own, ROOK, by, t, occ))
    }
}

pub fn threats(board: &Board) -> (r: Threats)
    ensures
        forall|t: int|
            0 <= t < 64 ==> (#[trigger] bb_has(r.pawn_view(Color::White), t) <==> spec_pawn_threat(*board, Color::White, t)),
        forall|t: int|
            0 <= t < 64 ==> (#[trigger] bb_has(r.pawn_view(Color::Black), t) <==> spec_pawn_threat(*board, Color::Black, t)),
        forall|t: int|
            0 <= t < 64 ==> (#[trigger] bb_has(r.slider_view(Color::White), t) <==> spec_slider_threat(*board, Color::White, t)),
        forall|t: int|
            0 <= t < 64 ==> (#[trigger] bb_has(r.slider_view(Color::Black), t) <==> spec_slider_threat(*board, Color::Black, t)),
{
    let occupied = board.occupied();
    let white = board.colors(Color::White);
    let black = board.colors(Color::Black);
    let pawns = board.pieces(PAWN);
    let knights = board.pieces(KNIGHT);
    let bishops = board.pieces(BISHOP);
    let rooks = board.pieces(ROOK);
    let queens = board.pieces(QUEEN);
    let minors = knights | bishops;
    let majors = rooks | queens;
    let pieces = minors | majors;

    let w_pawn_attacks = pawn_threats(pawns & white, Color::White);
    let b_pawn_attacks = pawn_threats(pawns & black, Color::Black);

    let mut w_bishop_attacks: u64 = 0;
    let mut b_bishop_attacks: u64 = 0;
    if majors & black != 0 {
        w_bishop_attacks = attacks_from(bishops & white, BISHOP, Color::White, occupied);
    }
    if majors & white != 0 {
        b_bishop_attacks = attacks_from(bishops & black, BISHOP, Color::Black, occupied);
    }
    let mut w_rook_attacks: u64 = 0;
    let mut b_rook_attacks: u64 = 0;
    if queens & black != 0 {
        w_rook_attacks = attacks_from(rooks & white, ROOK, Color::White, occupied);
    }
    if queens & white != 0 {
        b_rook_attacks = attacks_from(rooks & black, ROOK, Color::Black, occupied);
    }
    let w_threats = w_pawn_attacks & pieces & black;
    let b_threats = b_pawn_attacks & pieces & white;
    let w_slider_threats = ((w_bishop_attacks & majors) | (w_rook_attacks & queens)) & black;
    let b_slider_threats = ((b_bishop_attacks & majors) | (b_rook_attacks & queens)) & white;
    let r = Threats { w_threats, b_threats, w_slider_threats, b_slider_threats };
    assert forall|t: int| 0 <= t < 64 implies (#[trigger] bb_has(r.slider_view(Color::White), t) <==> spec_slider_threat(
        *board,
        Color::White,
        t,
    )) by {
        if majors & black == 0 {
            assert(!bb_has(majors & black, t));
        }
        if queens & black == 0 {
            assert(!bb_has(queens & black, t));
        }
    }
    assert forall|t: int| 0 <= t < 64 implies (#[trigger] bb_has(r.slider_view(Color::Black), t) <==> spec_slider_threat(
        *board,
        Color::Black,
        t,
    )) by {
        if majors & white == 0 {
            assert(!bb_has(majors & white, t));
        }
        if queens & white == 0 {
            assert(!bb_has(queens & white, t));
        }
    }
    r
}

} // verus!
