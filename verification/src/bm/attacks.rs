use crate::bm::bitboard::group_bb;
use crate::bm::chess_types::{bb_has, BitBoard, Color, Piece, Square};
use vstd::prelude::*;

verus! {

broadcast use group_bb;

pub open spec fn file_of(s: int) -> int {
    s % 8
}

pub open spec fn rank_of(s: int) -> int {
    s / 8
}

pub open spec fn abs(x: int) -> int {
    if x < 0 {
        -x
    } else {
        x
    }
}

/// `b` lies strictly between `a` and `c`.
pub open spec fn strictly_between(a: int, b: int, c: int) -> bool {
    (a < b && b < c) || (c < b && b < a)
}

/// A knight on `s` attacks `t`.
pub open spec fn knight_step(s: int, t: int) -> bool {
    let df = abs(file_of(t) - file_of(s));
    let dr = abs(rank_of(t) - rank_of(s));
    (df == 1 && dr == 2) || (df == 2 && dr == 1)
}

/// A king on `s` attacks `t`.
pub open spec fn king_step(s: int, t: int) -> bool {
    abs(file_of(t) - file_of(s)) <= 1 && abs(rank_of(t) - rank_of(s)) <= 1 && s != t
}

/// A pawn of `color` on `s` attacks `t`: one file aside, one rank forward.
pub open spec fn pawn_step(color: Color, s: int, t: int) -> bool {
    abs(file_of(t) - file_of(s)) == 1 && rank_of(t) - rank_of(s) == match color {
        Color::White => 1int,
        Color::Black => -1int,
    }
}

/// `u` lies strictly inside the segment from `s` to `t`, where both share a rank or a file.
pub open spec fn between_ortho(s: int, t: int, u: int) -> bool {
    ||| (rank_of(u) == rank_of(s) && rank_of(t) == rank_of(s) && strictly_between(
        file_of(s),
        file_of(u),
        file_of(t),
    ))
    ||| (file_of(u) == file_of(s) && file_of(t) == file_of(s) && strictly_between(
        rank_of(s),
        rank_of(u),
        rank_of(t),
    ))
}

/// `u` lies strictly inside the diagonal segment from `s` to `t`.
pub open spec fn between_diag(s: int, t: int, u: int) -> bool {
    &&& abs(file_of(u) - file_of(s)) == abs(rank_of(u) - rank_of(s))
    &&& abs(file_of(u) - file_of(t)) == abs(rank_of(u) - rank_of(t))
    &&& strictly_between(file_of(s), file_of(u), file_of(t))
    &&& strictly_between(rank_of(s), rank_of(u), rank_of(t))
}

/// A rook on `s` attacks `t`: they share a rank or a file and no blocker stands between.
pub open spec fn rook_step(s: int, t: int, blockers: u64) -> bool {
    &&& s != t
    &&& (rank_of(s) == rank_of(t) || file_of(s) == file_of(t))
    &&& forall|u: int| 0 <= u < 64 && #[trigger] between_ortho(s, t, u) ==> !bb_has(blockers, u)
}

/// A bishop on `s` attacks `t`: they share a diagonal and no blocker stands between.
pub open spec fn bishop_step(s: int, t: int, blockers: u64) -> bool {
    &&& s != t
    &&& abs(file_of(t) - file_of(s)) == abs(rank_of(t) - rank_of(s))
    &&& forall|u: int| 0 <= u < 64 && #[trigger] between_diag(s, t, u) ==> !bb_has(blockers, u)
}

/// A piece of kind `piece` and color `color` on `s` attacks `t`, with `blockers` occupied.
pub open spec fn piece_step(piece: Piece, color: Color, s: int, t: int, blockers: u64) -> bool {
    if piece == 0 {
        pawn_step(color, s, t)
    } else if piece == 1 {
        knight_step(s, t)
    } else if piece == 2 {
        bishop_step(s, t, blockers)
    } else if piece == 3 {
        rook_step(s, t, blockers)
    } else if piece == 4 {
        bishop_step(s, t, blockers) || rook_step(s, t, blockers)
    } else {
        king_step(s, t)
    }
}

/// Calls `cozy_chess::get_knight_moves`: the squares a knight on `sq` attacks.
#[verifier::external_body]
pub(crate) fn knight_moves(sq: Square) -> (r: BitBoard)
    requires
        sq < 64,
    ensures
        forall|t: int| 0 <= t < 64 ==> (#[trigger] bb_has(r, t) <==> knight_step(sq as int, t)),
{
    cozy_chess::get_knight_moves(cozy_chess::Square::index(sq as usize)).0
}

/// Calls `cozy_chess::get_king_moves`: the squares a king on `sq` attacks.
#[verifier::external_body]
pub(crate) fn king_moves(sq: Square) -> (r: BitBoard)
    requires
        sq < 64,
    ensures
        forall|t: int| 0 <= t < 64 ==> (#[trigger] bb_has(r, t) <==> king_step(sq as int, t)),
{
    cozy_chess::get_king_moves(cozy_chess::Square::index(sq as usize)).0
}

/// Calls `cozy_chess::get_pawn_attacks`: the squares a pawn of `color` on `sq` attacks.
#[verifier::external_body]
pub(crate) fn pawn_attacks(sq: Square, color: Color) -> (r: BitBoard)
    requires
        sq < 64,
    ensures
        forall|t: int| 0 <= t < 64 ==> (#[trigger] bb_has(r, t) <==> pawn_step(color, sq as int, t)),
{
    let c = match color {
        Color::White => cozy_chess::Color::White,
        Color::Black => cozy_chess::Color::Black,
    };
    cozy_chess::get_pawn_attacks(cozy_chess::Square::index(sq as usize), c).0
}

/// Calls `cozy_chess::get_bishop_moves`: the diagonal squares reached from `sq`, each ray
/// ending at (and including) its first blocker.
#[verifier::external_body]
pub(crate) fn bishop_moves(sq: Square, blockers: BitBoard) -> (r: BitBoard)
    requires
        sq < 64,
    ensures
        forall|t: int| 0 <= t < 64 ==> (#[trigger] bb_has(r, t) <==> bishop_step(sq as int, t, blockers)),
{
    cozy_chess::get_bishop_moves(cozy_chess::Square::index(sq as usize), cozy_chess::BitBoard(blockers)).0
}

/// Calls `cozy_chess::get_rook_moves`: the rank and file squares reached from `sq`, each
/// ray ending at (and including) its first blocker.
#[verifier::external_body]
pub(crate) fn rook_moves(sq: Square, blockers: BitBoard) -> (r: BitBoard)
    requires
        sq < 64,
    ensures
        forall|t: int| 0 <= t < 64 ==> (#[trigger] bb_has(r, t) <==> rook_step(sq as int, t, blockers)),
{
    cozy_chess::get_rook_moves(cozy_chess::Square::index(sq as usize), cozy_chess::BitBoard(blockers)).0
}

/// The squares a piece of kind `piece` and color `color` on `sq` attacks.
pub fn piece_attacks(piece: Piece, color: Color, sq: Square, blockers: BitBoard) -> (r: BitBoard)
    requires
        piece < 6,
        sq < 64,
    ensures
        forall|t: int|
            0 <= t < 64 ==> (#[trigger] bb_has(r, t) <==> piece_step(piece, color, sq as int, t, blockers)),
{
    if piece == 0 {
        pawn_attacks(sq, color)
    } else if piece == 1 {
        knight_moves(sq)
    } else if piece == 2 {
        bishop_moves(sq, blockers)
    } else if piece == 3 {
        rook_moves(sq, blockers)
    } else if piece == 4 {
        let b = bishop_moves(sq, blockers);
        let r = rook_moves(sq, blockers);
        b | r
    } else {
        king_moves(sq)
    }
}

/// Some square of `from` holds a piece (`piece`, `color`) that attacks `t`.
pub open spec fn attacked_from(from: u64, piece: Piece, color: Color, t: int, blockers: u64) -> bool {
    exists|s: int| 0 <= s < 64 && #[trigger] bb_has(from, s) && piece_step(piece, color, s, t, blockers)
}

/// The union of the attacks of pieces of one kind and color standing on the squares of `from`.
pub fn attacks_from(from: BitBoard, piece: Piece, color: Color, blockers: BitBoard) -> (r: BitBoard)
    requires
        piece < 6,
    ensures
        forall|t: int|
            0 <= t < 64 ==> (#[trigger] bb_has(r, t) <==> attacked_from(from, piece, color, t, blockers)),
{
    let mut acc: u64 = 0;
    let mut i: u8 = 0;
    while i < 64
        invariant
            i <= 64,
            piece < 6,
            forall|t: int|
                0 <= t < 64 ==> (#[trigger] bb_has(acc, t) <==> exists|s: int|
                    0 <= s < i && #[trigger] bb_has(from, s) && piece_step(piece, color, s, t, blockers)),
        decreases 64 - i,
    {
        if (from >> (i as u64)) & 1 == 1 {
            let a = piece_attacks(piece, color, i, blockers);
            let ghost old_acc = acc;
            acc = acc | a;
            assert forall|t: int| 0 <= t < 64 implies (#[trigger] bb_has(acc, t) <==> exists|s: int|
                0 <= s < i + 1 && #[trigger] bb_has(from, s) && piece_step(piece, color, s, t, blockers)) by {
                if piece_step(piece, color, i as int, t, blockers) {
                    assert(bb_has(from, i as int));
                }
            }
        } else {
            assert forall|t: int| 0 <= t < 64 implies (#[trigger] bb_has(acc, t) <==> exists|s: int|
                0 <= s < i + 1 && #[trigger] bb_has(from, s) && piece_step(piece, color, s, t, blockers)) by {
                assert(!bb_has(from, i as int));
            }
        }
        i += 1;
    }
    acc
}

} // verus!
