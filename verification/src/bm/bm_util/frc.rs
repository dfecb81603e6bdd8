use crate::bm::chess_types::{bb_has, has, Board, Color, BISHOP, PAWN};
use vstd::prelude::*;

verus! {

pub const CORNER_BISHOP_FACTOR: i16 = 50;

pub open spec fn corner(board: Board, c: int, bishop_sq: int, pawn_sq: int) -> bool {
    bb_has(board.pieces[2] & board.colors[c], bishop_sq) && bb_has(board.pieces[0] & board.colors[c], pawn_sq)
}

/// The penalty for a bishop shut in its corner by its own pawn (a1 by b2, h1 by g2, a8 by
/// b7, h8 by g7), from the side to move's view.
pub open spec fn spec_frc_corner_bishop(board: Board) -> int {
    let score = (if corner(board, 0, 0, 9) { -50int } else { 0 }) + (if corner(board, 0, 7, 14) { -50int } else { 0 })
        + (if corner(board, 1, 56, 49) { 50int } else { 0 }) + (if corner(board, 1, 63, 54) { 50int } else { 0 });
    match board.side_to_move {
        Color::White => score,
        Color::Black => -score,
    }
}

pub fn frc_corner_bishop(board: &Board) -> (r: i16)
    ensures
        r == spec_frc_corner_bishop(*board),
{
    let mut score: i16 = 0;
    let white = board.colors(Color::White);
    let black = board.colors(Color::Black);
    let w_pawns = board.pieces(PAWN) & white;
    let b_pawns = board.pieces(PAWN) & black;
    let w_bishops = board.pieces(BISHOP) & white;
    let b_bishops = board.pieces(BISHOP) & black;
    if has(w_bishops, 0) && has(w_pawns, 9) {
        score -= CORNER_BISHOP_FACTOR;
    }
    if has(w_bishops, 7) && has(w_pawns, 14) {
        score -= CORNER_BISHOP_FACTOR;
    }
    if has(b_bishops, 56) && has(b_pawns, 49) {
        score += CORNER_BISHOP_FACTOR;
    }
    if has(b_bishops, 63) && has(b_pawns, 54) {
        score += CORNER_BISHOP_FACTOR;
    }
    match board.side_to_move {
        Color::White => score,
        Color::Black => -score,
    }
}

} // verus!
