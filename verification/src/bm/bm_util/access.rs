use crate::bm::attacks::{attacked_from, attacks_from};
use crate::bm::bitboard::{group_bb, lemma_bb_nonzero};
use crate::bm::chess_types::{
    bb_has, BitBoard, Board, Color, Piece, BISHOP, KING, KNIGHT, PAWN, QUEEN, ROOK,
};
use vstd::prelude::*;

verus! {

broadcast use group_bb;

/// The squares of `r` are exactly those that satisfy `p`.
pub open spec fn holds_exactly(r: u64, p: spec_fn(int) -> bool) -> bool {
    forall|t: int| 0 <= t < 64 ==> #[trigger] bb_has(r, t) == p(t)
}

/// The bitboard whose squares are exactly those that satisfy `p`.
pub open spec fn bb_of(p: spec_fn(int) -> bool) -> u64 {
    choose|r: u64| #[trigger] holds_exactly(r, p)
}

proof fn lemma_bb_xor(a: u64, b: u64, t: int)
    requires
        0 <= t < 64,
    ensures
        bb_has(a ^ b, t) == (bb_has(a, t) != bb_has(b, t)),
{
    let s = t as u64;
    assert((((a ^ b) >> s) & 1 == 1) == (((a >> s) & 1 == 1) != ((b >> s) & 1 == 1))) by (bit_vector);
}

/// Two bitboards with the same squares are equal.
pub proof fn lemma_bb_ext(a: u64, b: u64)
    requires
        forall|t: int| 0 <= t < 64 ==> #[trigger] bb_has(a, t) == bb_has(b, t),
    ensures
        a == b,
{
    if a != b {
        assert((a ^ b) != 0) by (bit_vector)
            requires
                a != b,
        ;
        lemma_bb_nonzero(a ^ b);
        let t = choose|t: int| 0 <= t < 64 && #[trigger] bb_has(a ^ b, t);
        lemma_bb_xor(a, b, t);
    }
}

/// A bitboard whose squares are those that satisfy `p` is `bb_of(p)`.
pub proof fn lemma_bb_of(x: u64, p: spec_fn(int) -> bool)
    requires
        forall|t: int| 0 <= t < 64 ==> #[trigger] bb_has(x, t) == p(t),
    ensures
        bb_of(p) == x,
{
    assert(holds_exactly(x, p));
    let r = bb_of(p);
    assert(holds_exactly(r, p));
    assert forall|t: int| 0 <= t < 64 implies #[trigger] bb_has(r, t) == bb_has(x, t) by {}
    lemma_bb_ext(r, x);
}

/// A set of squares that can be read off a board.
pub trait BbRepr {
    spec fn spec_bit_board(board: Board) -> u64;

    fn get_bit_board(board: &Board) -> (r: BitBoard)
        ensures
            r == Self::spec_bit_board(*board),
    ;
}

/// The squares attacked by pieces on `squares`, with `blockers` occupied.
pub trait Attacker {
    spec fn spec_attacks(squares: u64, blockers: u64) -> u64;

    fn get_attacks(squares: BitBoard, blockers: BitBoard) -> (r: BitBoard)
        ensures
            r == Self::spec_attacks(squares, blockers),
    ;
}

/// One of the two sides of the board.
pub trait Side {}

/// The squares of both sets.
pub struct And<T: BbRepr, U: BbRepr>(pub T, pub U);

/// The squares of either set.
pub struct Or<T: BbRepr, U: BbRepr>(pub T, pub U);

/// The squares outside a set.
pub struct Not<T: BbRepr>(pub T);

/// The squares attacked by the pieces `Piece` standing on `Squares`, with `Blockers` occupied.
pub struct AttacksOf<Squares: BbRepr, Blockers: BbRepr, Piece: Attacker>(
    pub Squares,
    pub Blockers,
    pub Piece,
);

pub struct Full {}

pub struct Empty {}

pub struct All {}

pub struct White {}

pub struct Black {}

pub struct Pawns {}

pub struct Knights {}

pub struct Bishops {}

pub struct Rooks {}

pub struct Queens {}

pub struct Kings {}

impl<T: Attacker, U: Attacker> Attacker for (T, U) {
    open spec fn spec_attacks(squares: u64, blockers: u64) -> u64 {
        T::spec_attacks(squares, blockers) | U::spec_attacks(squares, blockers)
    }

    fn get_attacks(squares: BitBoard, blockers: BitBoard) -> (r: BitBoard) {
        T::get_attacks(squares, blockers) | U::get_attacks(squares, blockers)
    }
}

impl<T: BbRepr, U: BbRepr> BbRepr for And<T, U> {
    open spec fn spec_bit_board(board: Board) -> u64 {
        T::spec_bit_board(board) & U::spec_bit_board(board)
    }

    fn get_bit_board(board: &Board) -> (r: BitBoard) {
        T::get_bit_board(board) & U::get_bit_board(board)
    }
}

impl<T: BbRepr, U: BbRepr> BbRepr for Or<T, U> {
    open spec fn spec_bit_board(board: Board) -> u64 {
        T::spec_bit_board(board) | U::spec_bit_board(board)
    }

    fn get_bit_board(board: &Board) -> (r: BitBoard) {
        T::get_bit_board(board) | U::get_bit_board(board)
    }
}

impl<T: BbRepr> BbRepr for Not<T> {
    open spec fn spec_bit_board(board: Board) -> u64 {
        !T::spec_bit_board(board)
    }

    fn get_bit_board(board: &Board) -> (r: BitBoard) {
        !T::get_bit_board(board)
    }
}

impl<Squares: BbRepr, Blockers: BbRepr, P: Attacker> BbRepr for AttacksOf<Squares, Blockers, P> {
    open spec fn spec_bit_board(board: Board) -> u64 {
        P::spec_attacks(Squares::spec_bit_board(board), Blockers::spec_bit_board(board))
    }

    fn get_bit_board(board: &Board) -> (r: BitBoard) {
        P::get_attacks(Squares::get_bit_board(board), Blockers::get_bit_board(board))
    }
}

impl BbRepr for Full {
    open spec fn spec_bit_board(board: Board) -> u64 {
        0xFFFF_FFFF_FFFF_FFFFu64
    }

    fn get_bit_board(board: &Board) -> (r: BitBoard) {
        0xFFFF_FFFF_FFFF_FFFFu64
    }
}

impl BbRepr for Empty {
    open spec fn spec_bit_board(board: Board) -> u64 {
        0u64
    }

    fn get_bit_board(board: &Board) -> (r: BitBoard) {
        0u64
    }
}

impl BbRepr for All {
    open spec fn spec_bit_board(board: Board) -> u64 {
        board.spec_occupied()
    }

    fn get_bit_board(board: &Board) -> (r: BitBoard) {
        board.occupied()
    }
}

impl BbRepr for White {
    open spec fn spec_bit_board(board: Board) -> u64 {
        board.colors[0]
    }

    fn get_bit_board(board: &Board) -> (r: BitBoard) {
        board.colors(Color::White)
    }
}

impl BbRepr for Black {
    open spec fn spec_bit_board(board: Board) -> u64 {
        board.colors[1]
    }

    fn get_bit_board(board: &Board) -> (r: BitBoard) {
        board.colors(Color::Black)
    }
}

impl BbRepr for Pawns {
    open spec fn spec_bit_board(board: Board) -> u64 {
        board.pieces[PAWN as int]
    }

    fn get_bit_board(board: &Board) -> (r: BitBoard) {
        board.pieces(PAWN)
    }
}

impl BbRepr for Knights {
    open spec fn spec_bit_board(board: Board) -> u64 {
        board.pieces[KNIGHT as int]
    }

    fn get_bit_board(board: &Board) -> (r: BitBoard) {
        board.pieces(KNIGHT)
    }
}

impl BbRepr for Bishops {
    open spec fn spec_bit_board(board: Board) -> u64 {
        board.pieces[BISHOP as int]
    }

    fn get_bit_board(board: &Board) -> (r: BitBoard) {
        board.pieces(BISHOP)
    }
}

impl BbRepr for Rooks {
    open spec fn spec_bit_board(board: Board) -> u64 {
        board.pieces[ROOK as int]
    }

    fn get_bit_board(board: &Board) -> (r: BitBoard) {
        board.pieces(ROOK)
    }
}

impl BbRepr for Queens {
    open spec fn spec_bit_board(board: Board) -> u64 {
        board.pieces[QUEEN as int]
    }

    fn get_bit_board(board: &Board) -> (r: BitBoard) {
        board.pieces(QUEEN)
    }
}

impl BbRepr for Kings {
    open spec fn spec_bit_board(board: Board) -> u64 {
        board.pieces[KING as int]
    }

    fn get_bit_board(board: &Board) -> (r: BitBoard) {
        board.pieces(KING)
    }
}

impl Side for White {}

impl Side for Black {}

/// The squares attacked by pieces of kind `piece` (of `color`) standing on `squares`.
pub open spec fn spec_piece_attacks(squares: u64, piece: Piece, color: Color, blockers: u64) -> u64 {
    bb_of(|t: int| attacked_from(squares, piece, color, t, blockers))
}

/// The union of the piece attacks, as `spec_piece_attacks` states it.
fn union_attacks(squares: BitBoard, piece: Piece, color: Color, blockers: BitBoard) -> (r: BitBoard)
    requires
        piece < 6,
    ensures
        r == spec_piece_attacks(squares, piece, color, blockers),
{
    let r = attacks_from(squares, piece, color, blockers);
    proof {
        lemma_bb_of(r, |t: int| attacked_from(squares, piece, color, t, blockers));
    }
    r
}

/// The pawn attacks of one side that land on occupied squares (`blockers`).
pub open spec fn spec_pawn_captures(squares: u64, color: Color, blockers: u64) -> u64 {
    spec_piece_attacks(squares, PAWN, color, blockers) & blockers
}

impl Attacker for (White, Pawns) {
    open spec fn spec_attacks(squares: u64, blockers: u64) -> u64 {
        spec_pawn_captures(squares, Color::White, blockers)
    }

    fn get_attacks(squares: BitBoard, blockers: BitBoard) -> (r: BitBoard) {
        union_attacks(squares, PAWN, Color::White, blockers) & blockers
    }
}

impl Attacker for (Black, Pawns) {
    open spec fn spec_attacks(squares: u64, blockers: u64) -> u64 {
        spec_pawn_captures(squares, Color::Black, blockers)
    }

    fn get_attacks(squares: BitBoard, blockers: BitBoard) -> (r: BitBoard) {
        union_attacks(squares, PAWN, Color::Black, blockers) & blockers
    }
}

impl Attacker for Knights {
    open spec fn spec_attacks(squares: u64, blockers: u64) -> u64 {
        spec_piece_attacks(squares, KNIGHT, Color::White, blockers)
    }

    fn get_attacks(squares: BitBoard, blockers: BitBoard) -> (r: BitBoard) {
        union_attacks(squares, KNIGHT, Color::White, blockers)
    }
}

impl Attacker for Bishops {
    open spec fn spec_attacks(squares: u64, blockers: u64) -> u64 {
        spec_piece_attacks(squares, BISHOP, Color::White, blockers)
    }

    fn get_attacks(squares: BitBoard, blockers: BitBoard) -> (r: BitBoard) {
        union_attacks(squares, BISHOP, Color::White, blockers)
    }
}

impl Attacker for Rooks {
    open spec fn spec_attacks(squares: u64, blockers: u64) -> u64 {
        spec_piece_attacks(squares, ROOK, Color::White, blockers)
    }

    fn get_attacks(squares: BitBoard, blockers: BitBoard) -> (r: BitBoard) {
        union_attacks(squares, ROOK, Color::White, blockers)
    }
}

impl Attacker for Queens {
    open spec fn spec_attacks(squares: u64, blockers: u64) -> u64 {
        spec_piece_attacks(squares, QUEEN, Color::White, blockers)
    }

    fn get_attacks(squares: BitBoard, blockers: BitBoard) -> (r: BitBoard) {
        union_attacks(squares, QUEEN, Color::White, blockers)
    }
}

impl Attacker for Kings {
    open spec fn spec_attacks(squares: u64, blockers: u64) -> u64 {
        spec_piece_attacks(squares, KING, Color::White, blockers)
    }

    fn get_attacks(squares: BitBoard, blockers: BitBoard) -> (r: BitBoard) {
        union_attacks(squares, KING, Color::White, blockers)
    }
}

/// The squares attacked by the pawns of one side (captures onto occupied squares).
pub type PawnAttacks<S> = AttacksOf<And<S, Pawns>, All, (S, Pawns)>;

pub type KnightAttacks<S> = AttacksOf<And<S, Knights>, All, Knights>;

pub type BishopAttacks<S> = AttacksOf<And<S, Bishops>, All, Bishops>;

pub type RookAttacks<S> = AttacksOf<And<S, Rooks>, All, Rooks>;

pub type QueenAttacks<S> = AttacksOf<And<S, Queens>, All, Queens>;

pub type KingAttacks<S> = AttacksOf<And<S, Kings>, All, Kings>;

} // verus!
