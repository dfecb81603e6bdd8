use crate::bm::bm_eval::eval_parts::{b_ahead_of, king_zone, w_ahead_of};
use crate::bm::bm_search::tactics::{lemma_swap_back, swap_attacker, swap_attacker_from, swap_back};
use crate::bm::chess_types::{bb_has, BitBoard, Board, Color, Move, Piece, KING, PAWN};
use vstd::prelude::*;

verus! {

/// The queen-side files `a` to `d`.
pub const QUEEN_SIDE_FILES: BitBoard = 0x0F0F_0F0F_0F0F_0F0F;

/// The king-side files `e` to `h`.
pub const KING_SIDE_FILES: BitBoard = 0xF0F0_F0F0_F0F0_F0F0;

/// The masks of the basic evaluation: for each square the squares ahead of it on its own
/// and neighbouring files (for white and for black), and for each file the flank it is on.
pub struct BasicEvalData {
    pub w_ahead: Vec<BitBoard>,
    pub b_ahead: Vec<BitBoard>,
    pub king_flank: Vec<BitBoard>,
}

impl BasicEvalData {
    pub open spec fn wf(&self) -> bool {
        &&& self.w_ahead.len() == 64
        &&& self.b_ahead.len() == 64
        &&& self.king_flank.len() == 8
        &&& forall|k: int, t: int| 0 <= k < 64 && 0 <= t < 64 ==> (#[trigger] bb_has(self.w_ahead[k], t) <==> w_ahead_of(k, t))
        &&& forall|k: int, t: int| 0 <= k < 64 && 0 <= t < 64 ==> (#[trigger] bb_has(self.b_ahead[k], t) <==> b_ahead_of(k, t))
        &&& forall|f: int| 0 <= f < 8 ==> #[trigger] self.king_flank[f] == (if f < 4 { QUEEN_SIDE_FILES } else { KING_SIDE_FILES })
    }
}

/// Builds the masks of the basic evaluation.
pub fn get_basic_eval_data() -> (r: BasicEvalData)
    ensures
        r.wf(),
{
    let mut data = BasicEvalData { w_ahead: Vec::new(), b_ahead: Vec::new(), king_flank: Vec::new() };
    let mut file: usize = 0;
    while file < 8
        invariant
            file <= 8,
            data.king_flank.len() == file,
            data.w_ahead.len() == 0,
            data.b_ahead.len() == 0,
            forall|f: int| 0 <= f < file ==> #[trigger] data.king_flank[f] == (if f < 4 { QUEEN_SIDE_FILES } else { KING_SIDE_FILES }),
        decreases 8 - file,
    {
        data.king_flank.push(if file < 4 { QUEEN_SIDE_FILES } else { KING_SIDE_FILES });
        file += 1;
    }
    let mut king: u8 = 0;
    while king < 64
        invariant
            king <= 64,
            data.w_ahead.len() == king,
            data.b_ahead.len() == king,
            data.king_flank.len() == 8,
            forall|f: int| 0 <= f < 8 ==> #[trigger] data.king_flank[f] == (if f < 4 { QUEEN_SIDE_FILES } else { KING_SIDE_FILES }),
            forall|k: int, t: int| 0 <= k < king && 0 <= t < 64 ==> (#[trigger] bb_has(data.w_ahead[k], t) <==> w_ahead_of(k, t)),
            forall|k: int, t: int| 0 <= k < king && 0 <= t < 64 ==> (#[trigger] bb_has(data.b_ahead[k], t) <==> b_ahead_of(k, t)),
        decreases 64 - king,
    {
        let zone = king_zone(king);
        data.w_ahead.push(zone.0);
        data.b_ahead.push(zone.1);
        king += 1;
    }
    data
}

/// The basic evaluator. It holds the value of each piece kind in its exchange count.
pub struct BasicEval {
    pub piece_values: [i32; 6],
}

/// The length of the basic evaluator's swap list.
pub const BASIC_SWAP_LEN: usize = 32;

/// The squares of the castling moves (the kings' and their destinations' squares); a king
/// move between two of them is played as castling.
pub open spec fn castle_square(sq: int) -> bool {
    sq == 2 || sq == 4 || sq == 6 || sq == 58 || sq == 60 || sq == 62
}

/// The piece kind that stands on the target after `mv`: the promotion piece when a pawn
/// promotes, else the moving piece.
pub open spec fn placed_kind(board: Board, mv: Move) -> Piece {
    let mover = board.spec_piece_on(mv.from as int)->0;
    if mover == PAWN && mv.promotion is Some {
        mv.promotion->0
    } else {
        mover
    }
}

/// The swap list of the basic evaluator from entry `i` on: each entry is the value of the
/// piece that stands on the target minus the entry before; the recapturer is the least
/// valuable piece kind that reaches the target, on its lowest square.
pub open spec fn basic_swap_list(
    board: Board,
    target: int,
    values: Seq<int>,
    i: int,
    gains: Seq<int>,
    last: int,
    color: Color,
    blockers: u64,
) -> (Seq<int>, int)
    decreases BASIC_SWAP_LEN - i,
{
    if i >= BASIC_SWAP_LEN || i < 1 {
        (gains, 0)
    } else {
        let g = gains.push(last - gains[i - 1]);
        match swap_attacker_from(board, target, color, blockers, 0) {
            Some((k, sq)) => basic_swap_list(
                board,
                target,
                values,
                i + 1,
                g,
                values[k as int],
                color.spec_opp(),
                blockers & !(1u64 << (sq as u64)),
            ),
            None => (g, i),
        }
    }
}

/// No capture of the exchange from entry `i` on takes a king: `last` is the kind that the
/// `i`-th capture put on the target.
pub open spec fn basic_swap_takes_no_king(board: Board, target: int, i: int, last: Piece, color: Color, blockers: u64) -> bool
    decreases BASIC_SWAP_LEN - i,
{
    if i + 1 >= BASIC_SWAP_LEN || i < 1 {
        true
    } else {
        match swap_attacker_from(board, target, color, blockers, 0) {
            Some((k, sq)) => last != KING && basic_swap_takes_no_king(
                board,
                target,
                i + 1,
                k,
                color.spec_opp(),
                blockers & !(1u64 << (sq as u64)),
            ),
            None => true,
        }
    }
}

/// The static exchange value of `mv` as the basic evaluator counts it.
pub open spec fn spec_basic_see(board: Board, mv: Move, values: Seq<int>) -> int {
    let target = mv.to as int;
    let g0 = values[board.spec_piece_on(target)->0 as int];
    let (gains, index) = basic_swap_list(
        board,
        target,
        values,
        1,
        seq![g0],
        values[placed_kind(board, mv) as int],
        board.side_to_move.spec_opp(),
        board.spec_occupied() & !(1u64 << (mv.from as u64)),
    );
    swap_back(gains, index - 1)[0]
}

/// Both sides have a king.
pub open spec fn has_kings(board: Board) -> bool {
    &&& board.pieces[KING as int] & board.colors[0] != 0
    &&& board.pieces[KING as int] & board.colors[1] != 0
}

/// The exchange that `mv` starts can be played out: the moving piece is of the side to
/// move, the move is not a king move between castling squares, both kings stand and no
/// capture of the exchange takes one.
pub open spec fn basic_see_ok(board: Board, mv: Move) -> bool {
    let mover = board.spec_piece_on(mv.from as int)->0;
    &&& board.spec_piece_on(mv.from as int) is Some
    &&& bb_has(board.colors[board.side_to_move.spec_index()], mv.from as int)
    &&& board.spec_piece_on(mv.to as int) is Some
    &&& board.spec_piece_on(mv.to as int) != Some(KING)
    &&& !(mover == KING && castle_square(mv.from as int) && castle_square(mv.to as int))
    &&& has_kings(board)
    &&& basic_swap_takes_no_king(
        board,
        mv.to as int,
        1,
        placed_kind(board, mv),
        board.side_to_move.spec_opp(),
        board.spec_occupied() & !(1u64 << (mv.from as u64)),
    )
}

impl BasicEval {
    pub open spec fn values(&self) -> Seq<int> {
        Seq::new(6, |k: int| self.piece_values[k] as int)
    }

    /// The piece values are small enough that no entry of a swap list overflows `i32`.
    pub open spec fn wf(&self) -> bool {
        forall|k: int| 0 <= k < 6 ==> -0x100_0000 <= #[trigger] self.piece_values[k] <= 0x100_0000
    }
}

proof fn lemma_basic_swap_list(
    board: Board,
    target: int,
    values: Seq<int>,
    i: int,
    gains: Seq<int>,
    last: int,
    color: Color,
    blockers: u64,
)
    requires
        1 <= i,
        gains.len() == i,
    ensures
        ({
            let (g, index) = basic_swap_list(board, target, values, i, gains, last, color, blockers);
            &&& g.len() >= i
            &&& forall|j: int| 0 <= j < i ==> #[trigger] g[j] == gains[j]
            &&& (index == 0 || (index >= i && index < g.len()))
        }),
    decreases BASIC_SWAP_LEN - i,
{
    if i < BASIC_SWAP_LEN {
        let g = gains.push(last - gains[i - 1]);
        match swap_attacker_from(board, target, color, blockers, 0) {
            Some((k, sq)) => {
                lemma_basic_swap_list(
                    board,
                    target,
                    values,
                    i + 1,
                    g,
                    values[k as int],
                    color.spec_opp(),
                    blockers & !(1u64 << (sq as u64)),
                );
            },
            None => {},
        }
    }
}

impl BasicEval {
    /// The static exchange value of `make_move` as the basic evaluator counts it: the
    /// material the side to move wins when both sides recapture on the target square with
    /// their least valuable piece, each free to stop (swap list of at most 32 entries; a
    /// pawn that promotes counts as the promotion piece; a queen counts as a recapturer only
    /// where it reaches the square both as a rook and as a bishop).
    pub fn see(&self, board: &Board, make_move: Move) -> (r: i32)
        requires
            self.wf(),
            make_move.wf(),
            basic_see_ok(*board, make_move),
        ensures
            r == spec_basic_see(*board, make_move, self.values()),
    {
        let ghost values = self.values();
        let target = make_move.to;
        let mover = board.piece_on(make_move.from).unwrap();
        let captured = board.piece_on(target).unwrap();
        let placed = if mover == PAWN && make_move.promotion.is_some() {
            make_move.promotion.unwrap()
        } else {
            mover
        };
        let g0: i32 = self.piece_values[captured as usize];
        let mut gains: Vec<i32> = Vec::new();
        gains.push(g0);
        let ghost sg: Seq<int> = seq![g0 as int];
        let mut color = board.side_to_move.opp();
        let mut blockers = board.occupied() & !(1u64 << (make_move.from as u64));
        let mut last: i32 = self.piece_values[placed as usize];
        let ghost full = basic_swap_list(*board, target as int, values, 1, sg, last as int, color, blockers);
        proof {
            lemma_basic_swap_list(*board, target as int, values, 1, sg, last as int, color, blockers);
        }
        let mut index: usize = 0;
        let mut i: usize = 1;
        while i < BASIC_SWAP_LEN && index == 0
            invariant
                1 <= i <= BASIC_SWAP_LEN,
                target < 64,
                self.wf(),
                values == self.values(),
                index == 0 ==> gains.len() == i,
                index != 0 ==> gains.len() == index + 1 && index >= 1,
                index == 0 ==> full == basic_swap_list(*board, target as int, values, i as int, sg, last as int, color, blockers),
                index != 0 ==> full == (sg, index as int),
                gains.len() == sg.len(),
                gains.len() <= BASIC_SWAP_LEN,
                forall|j: int| 0 <= j < gains.len() ==> #[trigger] gains[j] as int == sg[j],
                forall|j: int| 0 <= j < gains.len() ==> -0x100_0000 * (j + 1) <= #[trigger] sg[j] <= 0x100_0000 * (j + 1),
                -0x100_0000 <= last <= 0x100_0000,
            decreases (BASIC_SWAP_LEN - i) * 2 + (if index == 0 {
                1int
            } else {
                0int
            }),
        {
            let g = last - gains[i - 1];
            gains.push(g);
            proof {
                sg = sg.push(g as int);
            }
            match swap_attacker(board, target, color, blockers) {
                Some((k, sq)) => {
                    last = self.piece_values[k as usize];
                    blockers = blockers & !(1u64 << (sq as u64));
                    color = color.opp();
                    i += 1;
                },
                None => {
                    index = i;
                },
            }
        }
        proof {
            if index == 0 {
                assert(full == (sg, 0int));
            }
        }
        let ghost fwd = sg;
        let mut j: usize = index;
        while j > 1
            invariant
                j <= index,
                index > 1 ==> j >= 1,
                index == 0 || index < gains.len(),
                gains.len() == sg.len(),
                forall|k: int| 0 <= k < gains.len() ==> #[trigger] gains[k] as int == sg[k],
                forall|k: int| 0 <= k < gains.len() ==> -0x100_0000 * 33 <= #[trigger] sg[k] <= 0x100_0000 * 33,
                gains.len() <= BASIC_SWAP_LEN,
                index <= 1 ==> sg == fwd,
                index > 1 ==> swap_back(fwd, index - 1) == swap_back(sg, j - 1),
            decreases j,
        {
            j -= 1;
            let a = gains[j - 1];
            let b = -gains[j];
            let v = if a <= b {
                a
            } else {
                b
            };
            gains.set(j - 1, v);
            proof {
                sg = sg.update(j - 1, v as int);
            }
        }
        proof {
            lemma_swap_back(fwd, index - 1);
            assert(swap_back(fwd, index - 1)[0] == sg[0]);
        }
        gains[0]
    }
}

/// The exchange never wins more than the value of the piece first captured, and wins
/// exactly that when no piece of the other side can take back.
pub proof fn lemma_basic_see_bounded(board: Board, mv: Move, values: Seq<int>)
    requires
        mv.wf(),
        board.spec_piece_on(mv.to as int) is Some,
    ensures
        spec_basic_see(board, mv, values) <= values[board.spec_piece_on(mv.to as int)->0 as int],
        swap_attacker_from(
            board,
            mv.to as int,
            board.side_to_move.spec_opp(),
            board.spec_occupied() & !(1u64 << (mv.from as u64)),
            0,
        ) is None ==> spec_basic_see(board, mv, values) == values[board.spec_piece_on(mv.to as int)->0 as int],
{
    let target = mv.to as int;
    let g0 = values[board.spec_piece_on(target)->0 as int];
    let last = values[placed_kind(board, mv) as int];
    let color = board.side_to_move.spec_opp();
    let blockers = board.spec_occupied() & !(1u64 << (mv.from as u64));
    lemma_basic_swap_list(board, target, values, 1, seq![g0], last, color, blockers);
    let (gains, index) = basic_swap_list(board, target, values, 1, seq![g0], last, color, blockers);
    lemma_swap_back(gains, index - 1);
}

} // verus!
