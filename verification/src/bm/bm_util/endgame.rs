use crate::bm::bitboard::group_bb;
use crate::bm::chess_types::{Board, Color, BISHOP, KING, PAWN};
use vstd::prelude::*;

verus! {

broadcast use group_bb;

/// The light squares.
pub const WHITE: u64 = 0xAA55AA55AA55AA55;

/// Only kings, pawns and bishops are left, each side has bishops, and all of one side's
/// bishops stand on squares of one color while all of the other side's stand on the other.
pub open spec fn spec_is_ocb(board: Board) -> bool {
    let kings = board.pieces[5];
    let pawns = board.pieces[0];
    let bishops = board.pieces[2];
    let w = board.colors[0] & bishops;
    let b = board.colors[1] & bishops;
    &&& board.spec_occupied() == kings | pawns | bishops
    &&& w != 0 && b != 0
    &&& ((w & WHITE == 0 && b & !WHITE == 0) || (w & !WHITE == 0 && b & WHITE == 0))
}

/// Whether the position is an ending with bishops of opposite colors.
pub fn is_ocb(board: &Board) -> (r: bool)
    ensures
        r == spec_is_ocb(*board),
{
    let kings = board.pieces(KING);
    let pawns = board.pieces(PAWN);
    let bishops = board.pieces(BISHOP);
    if board.occupied() == (kings | pawns | bishops) {
        let w_bishops = board.colors(Color::White) & bishops;
        let b_bishops = board.colors(Color::Black) & bishops;
        if !(w_bishops == 0 || b_bishops == 0) {
            return ((w_bishops & WHITE) == 0 && (b_bishops & !WHITE) == 0) || ((w_bishops & !WHITE) == 0 && (b_bishops
                & WHITE) == 0);
        }
    }
    false
}

} // verus!
