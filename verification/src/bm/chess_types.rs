use vstd::prelude::*;

verus! {

/// Squares are numbered `rank * 8 + file`, from A1 = 0 to H8 = 63.
pub type Square = u8;

/// Pieces are numbered Pawn = 0, Knight, Bishop, Rook, Queen, King = 5.
pub type Piece = u8;

pub const PAWN: Piece = 0;
pub const KNIGHT: Piece = 1;
pub const BISHOP: Piece = 2;
pub const ROOK: Piece = 3;
pub const QUEEN: Piece = 4;
pub const KING: Piece = 5;

pub const SQUARE_NUM: usize = 64;
pub const PIECE_NUM: usize = 6;
pub const COLOR_NUM: usize = 2;

/// A bitboard: bit `sq` is set when square `sq` is in the set.
pub type BitBoard = u64;

#[derive(Clone, Copy, Debug, PartialEq, Eq, Structural)]
pub enum Color {
    White,
    Black,
}

impl Color {
    pub open spec fn spec_index(self) -> int {
        match self {
            Color::White => 0,
            Color::Black => 1,
        }
    }

    pub fn index(self) -> (r: usize)
        ensures
            r == self.spec_index(),
    {
        match self {
            Color::White => 0,
            Color::Black => 1,
        }
    }

    pub open spec fn spec_opp(self) -> Color {
        match self {
            Color::White => Color::Black,
            Color::Black => Color::White,
        }
    }

    /// The other color (`!color`).
    pub fn opp(self) -> (r: Color)
        ensures
            r == self.spec_opp(),
    {
        match self {
            Color::White => Color::Black,
            Color::Black => Color::White,
        }
    }
}

/// A move from one square to another, with an optional promotion piece.
#[derive(Clone, Copy, Debug, PartialEq, Eq, Structural)]
pub struct Move {
    pub from: Square,
    pub to: Square,
    pub promotion: Option<Piece>,
}

impl Move {
    /// Squares are on the board and a promotion names a piece.
    pub open spec fn wf(self) -> bool {
        &&& self.from < 64
        &&& self.to < 64
        &&& match self.promotion {
            Some(p) => p < 6,
            None => true,
        }
    }
}

/// What the search remembers of a played move.
#[derive(Clone, Copy, Debug, PartialEq, Eq, Structural)]
pub struct MoveData {
    pub from: Square,
    pub to: Square,
    pub promotion: Option<Piece>,
    pub piece: Piece,
    pub capture: bool,
}

impl MoveData {
    pub open spec fn wf(self) -> bool {
        &&& self.from < 64
        &&& self.to < 64
        &&& self.piece < 6
        &&& match self.promotion {
            Some(p) => p < 6,
            None => true,
        }
    }
}

/// Bit `sq` of `bb`.
pub open spec fn bb_has(bb: u64, sq: int) -> bool {
    (bb >> (sq as u64)) & 1 == 1
}

/// The facts of a position that the engine's logic reads: one bitboard per piece kind,
/// one per color, the side to move and the position's hash.
#[derive(Clone, Copy, Debug, PartialEq, Eq)]
pub struct Board {
    pub pieces: [BitBoard; 6],
    pub colors: [BitBoard; 2],
    pub side_to_move: Color,
    pub hash: u64,
    pub checkers: BitBoard,
    pub halfmove_clock: u8,
}

impl Board {
    /// Piece bitboards are pairwise disjoint, color bitboards are disjoint,
    /// and both cover the same occupied squares.
    pub open spec fn wf(self) -> bool {
        &&& forall|i: int, j: int| 0 <= i < j < 6 ==> #[trigger] self.pieces[i] & #[trigger] self.pieces[j] == 0
        &&& self.colors[0] & self.colors[1] == 0
        &&& self.pieces[0] | self.pieces[1] | self.pieces[2] | self.pieces[3] | self.pieces[4] | self.pieces[5]
            == self.colors[0] | self.colors[1]
    }

    pub open spec fn spec_occupied(self) -> BitBoard {
        self.colors[0] | self.colors[1]
    }

    /// The piece kind on a square, if any (the first piece bitboard that holds it).
    pub open spec fn spec_piece_on(self, sq: int) -> Option<Piece> {
        if bb_has(self.pieces[0], sq) {
            Some(0u8)
        } else if bb_has(self.pieces[1], sq) {
            Some(1u8)
        } else if bb_has(self.pieces[2], sq) {
            Some(2u8)
        } else if bb_has(self.pieces[3], sq) {
            Some(3u8)
        } else if bb_has(self.pieces[4], sq) {
            Some(4u8)
        } else if bb_has(self.pieces[5], sq) {
            Some(5u8)
        } else {
            None
        }
    }

    pub fn occupied(&self) -> (r: BitBoard)
        ensures
            r == self.spec_occupied(),
    {
        self.colors[0] | self.colors[1]
    }

    pub fn pieces(&self, piece: Piece) -> (r: BitBoard)
        requires
            piece < 6,
        ensures
            r == self.pieces[piece as int],
    {
        self.pieces[piece as usize]
    }

    pub fn colors(&self, color: Color) -> (r: BitBoard)
        ensures
            r == self.colors[color.spec_index()],
    {
        self.colors[color.index()]
    }

    pub fn piece_on(&self, sq: Square) -> (r: Option<Piece>)
        requires
            sq < 64,
        ensures
            r == self.spec_piece_on(sq as int),
    {
        let mut i: usize = 0;
        while i < 6
            invariant
                i <= 6,
                sq < 64,
                forall|j: int| 0 <= j < i ==> !bb_has(self.pieces[j], sq as int),
            decreases 6 - i,
        {
            if has(self.pieces[i], sq) {
                return Some(i as u8);
            }
            i += 1;
        }
        None
    }
}

/// Whether square `sq` is in `bb`.
pub fn has(bb: BitBoard, sq: Square) -> (r: bool)
    requires
        sq < 64,
    ensures
        r == bb_has(bb, sq as int),
{
    (bb >> (sq as u64)) & 1 == 1
}

/// The bitboard holding only `sq`.
pub fn square_bb(sq: Square) -> (r: BitBoard)
    requires
        sq < 64,
    ensures
        r == 1u64 << (sq as u64),
{
    1u64 << (sq as u64)
}

} // verus!
