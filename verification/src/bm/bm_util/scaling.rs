use crate::bm::bitboard::{popcnt, spec_count};
use crate::bm::chess_types::Board;
use vstd::prelude::*;

verus! {

pub const BASE: i16 = 103;
pub const PAWNS: i16 = 1;
pub const KNIGHTS: i16 = 2;
pub const BISHOPS: i16 = 1;
pub const ROOKS: i16 = 6;
pub const QUEENS: i16 = 5;

/// A base of 103 plus a weight for each pawn, knight, bishop, rook and queen on the board.
pub fn scaling(board: &Board) -> (r: i16)
    ensures
        r == BASE + spec_count(board.pieces[0], 64) * PAWNS + spec_count(board.pieces[1], 64) * KNIGHTS
            + spec_count(board.pieces[2], 64) * BISHOPS + spec_count(board.pieces[3], 64) * ROOKS
            + spec_count(board.pieces[4], 64) * QUEENS,
{
    let mut scaling = BASE;
    scaling += popcnt(board.pieces(0)) as i16 * PAWNS;
    scaling += popcnt(board.pieces(1)) as i16 * KNIGHTS;
    scaling += popcnt(board.pieces(2)) as i16 * BISHOPS;
    scaling += popcnt(board.pieces(3)) as i16 * ROOKS;
    scaling += popcnt(board.pieces(4)) as i16 * QUEENS;
    scaling
}

} // verus!
