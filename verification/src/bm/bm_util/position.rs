use crate::bm::bitboard::{popcnt, spec_count};
use crate::bm::bm_eval::eval_terms::spec_insufficient_material;
use crate::bm::bm_util::eval::{trunc_div, Evaluation};
use crate::bm::bm_util::access::lemma_bb_ext;
use crate::bm::bm_util::tactics::{is_threat_pair, threats};
use crate::bm::chess_types::{bb_has, BitBoard, Board, Color, PAWN, QUEEN, ROOK};
use vstd::prelude::*;

verus! {

/// The current board, the pieces each side threatens, and the boards and threats of the
/// positions played before it.
#[derive(Debug, Clone)]
pub struct Position {
    current: Board,
    w_threats: BitBoard,
    b_threats: BitBoard,
    boards: Vec<Board>,
    threats: Vec<(BitBoard, BitBoard)>,
}

/// Positions among `boards[lo..hi]` with the hash `h`.
pub open spec fn hash_count(boards: Seq<Board>, h: u64, lo: int, hi: int) -> int
    decreases hi - lo,
{
    if hi <= lo {
        0
    } else {
        hash_count(boards, h, lo, hi - 1) + (if boards[hi - 1].hash == h { 1int } else { 0 })
    }
}

impl Position {
    pub closed spec fn spec_current(&self) -> Board {
        self.current
    }

    pub closed spec fn spec_boards(&self) -> Seq<Board> {
        self.boards@
    }

    pub closed spec fn spec_threats(&self) -> (BitBoard, BitBoard) {
        (self.w_threats, self.b_threats)
    }

    pub closed spec fn spec_threat_history(&self) -> Seq<(BitBoard, BitBoard)> {
        self.threats@
    }

    /// Each stored threat pair is the threat pair of its board: the current one and every
    /// one in the history.
    pub closed spec fn wf(&self) -> bool {
        &&& self.boards@.len() == self.threats@.len()
        &&& is_threat_pair(self.current, (self.w_threats, self.b_threats))
        &&& forall|i: int| 0 <= i < self.boards@.len() ==> is_threat_pair(#[trigger] self.boards@[i], self.threats@[i])
    }

    pub fn new(board: Board) -> (r: Self)
        ensures
            r.wf(),
            r.spec_current() == board,
            r.spec_boards() == Seq::<Board>::empty(),
            crate::bm::bm_util::tactics::is_threat_pair(board, r.spec_threats()),
    {
        let (w_threats, b_threats) = threats(&board);
        Position { current: board, w_threats, b_threats, boards: Vec::new(), threats: Vec::new() }
    }

    /// Clears the history and makes `board` the current root.
    pub fn set_board(&mut self, board: Board)
        ensures
            final(self).wf(),
            final(self).spec_current() == board,
            final(self).spec_boards() == Seq::<Board>::empty(),
            crate::bm::bm_util::tactics::is_threat_pair(board, final(self).spec_threats()),
    {
        let (w_threats, b_threats) = threats(&board);
        self.w_threats = w_threats;
        self.b_threats = b_threats;
        self.current = board;
        self.boards.clear();
        self.threats.clear();
    }

    pub fn board(&self) -> (r: &Board)
        ensures
            *r == self.spec_current(),
    {
        &self.current
    }

    pub fn hash(&self) -> (r: u64)
        ensures
            r == self.spec_current().hash,
    {
        self.current.hash
    }

    /// Plays a move: `new_board` is the position it leads to.
    pub fn make_move(&mut self, new_board: Board)
        requires
            old(self).wf(),
        ensures
            final(self).wf(),
            final(self).spec_current() == new_board,
            final(self).spec_boards() == old(self).spec_boards().push(old(self).spec_current()),
            final(self).spec_threat_history() == old(self).spec_threat_history().push(old(self).spec_threats()),
            crate::bm::bm_util::tactics::is_threat_pair(new_board, final(self).spec_threats()),
    {
        let old_board = self.current;
        let old_threats = (self.w_threats, self.b_threats);
        let (w_threats, b_threats) = threats(&new_board);
        self.current = new_board;
        self.w_threats = w_threats;
        self.b_threats = b_threats;
        let ghost bs = self.boards@;
        let ghost ts = self.threats@;
        self.boards.push(old_board);
        self.threats.push(old_threats);
        assert forall|i: int| 0 <= i < self.boards@.len() implies is_threat_pair(#[trigger] self.boards@[i], self.threats@[i]) by {
            if i < bs.len() {
                assert(self.boards@[i] == bs[i]);
                assert(self.threats@[i] == ts[i]);
            }
        }
    }

    /// Takes back the last move.
    pub fn unmake_move(&mut self)
        requires
            old(self).wf(),
            old(self).spec_boards().len() > 0,
        ensures
            final(self).wf(),
            final(self).spec_current() == old(self).spec_boards().last(),
            final(self).spec_threats() == old(self).spec_threat_history().last(),
            final(self).spec_boards() == old(self).spec_boards().drop_last(),
            final(self).spec_threat_history() == old(self).spec_threat_history().drop_last(),
    {
        let ghost bs = self.boards@;
        let ghost ts = self.threats@;
        let current = self.boards.pop().unwrap();
        let t = self.threats.pop().unwrap();
        self.current = current;
        self.w_threats = t.0;
        self.b_threats = t.1;
        assert(is_threat_pair(bs[bs.len() - 1], ts[ts.len() - 1]));
        assert forall|i: int| 0 <= i < self.boards@.len() implies is_threat_pair(#[trigger] self.boards@[i], self.threats@[i]) by {
            assert(self.boards@[i] == bs[i]);
            assert(self.threats@[i] == ts[i]);
        }
    }

    /// Passes the move to the other side (the null move of the search): `null_board` is the
    /// board the null move leads to, or `None` when the side to move is in check, in which
    /// case nothing is played. The pieces stay where they are, so the threats do too.
    pub fn null_move(&mut self, null_board: Option<Board>) -> (r: bool)
        requires
            old(self).wf(),
            null_board matches Some(b) ==> b.pieces == old(self).spec_current().pieces && b.colors == old(self).spec_current().colors,
        ensures
            final(self).wf(),
            r == null_board is Some,
            r ==> final(self).spec_current() == null_board->0,
            r ==> final(self).spec_boards() == old(self).spec_boards().push(old(self).spec_current()),
            r ==> final(self).spec_threat_history() == old(self).spec_threat_history().push(old(self).spec_threats()),
            r ==> final(self).spec_threats() == old(self).spec_threats(),
            !r ==> *final(self) == *old(self),
    {
        let new_board = match null_board {
            Some(b) => b,
            None => {
                return false;
            },
        };
        let ghost bs = self.boards@;
        let ghost ts = self.threats@;
        self.boards.push(self.current);
        self.threats.push((self.w_threats, self.b_threats));
        proof {
            crate::bm::bm_util::tactics::lemma_threat_pair_same_pieces(self.current, new_board, (self.w_threats, self.b_threats));
        }
        self.current = new_board;
        assert forall|i: int| 0 <= i < self.boards@.len() implies is_threat_pair(#[trigger] self.boards@[i], self.threats@[i]) by {
            if i < bs.len() {
                assert(self.boards@[i] == bs[i]);
                assert(self.threats@[i] == ts[i]);
            }
        }
        true
    }

    /// The threats of the side to move, then those of the other side.
    pub fn threats(&self) -> (r: (BitBoard, BitBoard))
        ensures
            r == match self.spec_current().side_to_move {
                Color::White => self.spec_threats(),
                Color::Black => (self.spec_threats().1, self.spec_threats().0),
            },
    {
        match self.current.side_to_move {
            Color::White => (self.w_threats, self.b_threats),
            Color::Black => (self.b_threats, self.w_threats),
        }
    }

    /// Only two kings, or two kings and one knight or bishop.
    pub fn insufficient_material(&self) -> (r: bool)
        ensures
            r == spec_insufficient_material(self.spec_current()),
    {
        crate::bm::bm_eval::eval_terms::insufficient_material(&self.current)
    }

    /// A draw by the fifty-move rule (unless the side to move is mated, `checkmated`), by
    /// insufficient material, or by repetition: the position occurred once within the
    /// last `ply - 1` positions (inside the search), or twice before them.
    pub fn forced_draw(&self, ply: u32, checkmated: bool) -> (r: bool)
        requires
            ply >= 1,
        ensures
            ({
                let boards = self.spec_boards();
                let n = boards.len() as int;
                let h = self.spec_current().hash;
                let recent = if ply - 1 < n { n - (ply - 1) } else { 0 };
                r == (spec_insufficient_material(self.spec_current()) || (self.spec_current().halfmove_clock
                    >= 100 && (self.spec_current().checkers == 0 || !checkmated)) || hash_count(boards, h, recent, n)
                    > 0 || hash_count(boards, h, 0, recent) >= 2)
            }),
    {
        if self.insufficient_material() || (self.current.halfmove_clock >= 100 && (self.current.checkers == 0
            || !checkmated)) {
            return true;
        }
        let hash = self.current.hash;
        let n = self.boards.len();
        let window = (ply - 1) as usize;
        let recent = if window < n {
            n - window
        } else {
            0
        };
        let mut two_fold = false;
        let mut i = n;
        while i > recent
            invariant
                recent <= i <= n,
                n == self.boards@.len(),
                two_fold == (hash_count(self.boards@, hash, i as int, n as int) > 0),
                hash_count(self.boards@, hash, i as int, n as int) >= 0,
            decreases i,
        {
            i -= 1;
            proof {
                lemma_hash_count_split(self.boards@, hash, i as int, n as int);
            }
            let b = self.boards[i].hash;
            if b == hash {
                two_fold = true;
            }
            assert(b == self.boards@[i as int].hash);
        }
        let mut count: usize = 0;
        let mut j: usize = 0;
        while j < recent
            invariant
                j <= recent <= n,
                n == self.boards@.len(),
                count == hash_count(self.boards@, hash, 0, j as int),
                count <= j,
            decreases recent - j,
        {
            if self.boards[j].hash == hash {
                count += 1;
            }
            j += 1;
        }
        two_fold || count >= 2
    }

    /// How much the engine leans towards `stm`: the number of pieces times the root score
    /// (clamped to ±100) over 50, negated when the other side is to move.
    pub fn aggression(&self, stm: Color, root_eval: Evaluation) -> (r: i16)
        ensures
            ({
                let piece_cnt = spec_count(self.spec_current().spec_occupied(), 64);
                let e = root_eval@ as int;
                let clamped = if e < -100 {
                    -100
                } else if e > 100 {
                    100
                } else {
                    e
                };
                r == if self.spec_current().side_to_move == stm {
                    trunc_div(piece_cnt * clamped, 50)
                } else {
                    trunc_div(-(piece_cnt * clamped), 50)
                }
            }),
    {
        let piece_cnt = popcnt(self.current.occupied()) as i16;
        let raw = root_eval.raw();
        let clamped_eval = if raw < -100 {
            -100
        } else if raw > 100 {
            100
        } else {
            raw
        };
        assert(-6400 <= piece_cnt * clamped_eval <= 6400) by (nonlinear_arith)
            requires
                0 <= piece_cnt <= 64,
                -100 <= clamped_eval <= 100,
        ;
        let prod = piece_cnt * clamped_eval;
        if self.current.side_to_move == stm {
            prod / 50
        } else {
            (-prod) / 50
        }
    }
}

/// Taking back a move restores the position it was played in: the board, the threats
/// and the history.
pub proof fn lemma_make_unmake(p0: Position, new_board: Board, p1: Position, p2: Position)
    requires
        p0.wf(),
        p1.spec_current() == new_board,
        p1.spec_boards() == p0.spec_boards().push(p0.spec_current()),
        p1.spec_threat_history() == p0.spec_threat_history().push(p0.spec_threats()),
        p2.spec_current() == p1.spec_boards().last(),
        p2.spec_threats() == p1.spec_threat_history().last(),
        p2.spec_boards() == p1.spec_boards().drop_last(),
        p2.spec_threat_history() == p1.spec_threat_history().drop_last(),
    ensures
        p2.spec_current() == p0.spec_current(),
        p2.spec_threats() == p0.spec_threats(),
        p2.spec_boards() == p0.spec_boards(),
        p2.spec_threat_history() == p0.spec_threat_history(),
{
    assert(p2.spec_boards() =~= p0.spec_boards());
    assert(p2.spec_threat_history() =~= p0.spec_threat_history());
}

/// Counting from `lo` is counting the first position and then the rest.
proof fn lemma_hash_count_split(boards: Seq<Board>, h: u64, lo: int, hi: int)
    requires
        lo < hi,
    ensures
        hash_count(boards, h, lo, hi) == hash_count(boards, h, lo + 1, hi) + (if boards[lo].hash == h {
            1int
        } else {
            0
        }),
    decreases hi - lo,
{
    if lo + 1 < hi {
        lemma_hash_count_split(boards, h, lo, hi - 1);
        assert(hash_count(boards, h, lo + 1, hi) == hash_count(boards, h, lo + 1, hi - 1) + (if boards[hi - 1].hash
            == h {
            1int
        } else {
            0
        }));
    } else {
        assert(hash_count(boards, h, lo + 1, hi) == 0);
        assert(hash_count(boards, h, lo, hi - 1) == 0);
    }
}

/// A well-formed position holds the threat pair of its current board and of each board in
/// its history.
pub proof fn lemma_wf_threats(p: Position)
    requires
        p.wf(),
    ensures
        is_threat_pair(p.spec_current(), p.spec_threats()),
        p.spec_boards().len() == p.spec_threat_history().len(),
        forall|i: int| 0 <= i < p.spec_boards().len() ==> is_threat_pair(#[trigger] p.spec_boards()[i], p.spec_threat_history()[i]),
{
}

/// The stored threats always agree with a recomputation from the current board: any two
/// threat pairs of one board are equal, and a well-formed position holds its board's pair
/// (so after any sequence of new, set_board, make_move, null_move and unmake_move,
/// `threats()` equals what `Position::new(board)` would give).
pub proof fn lemma_threats_match_board(p: Position, pair: (u64, u64))
    requires
        p.wf(),
        is_threat_pair(p.spec_current(), pair),
    ensures
        p.spec_threats() == pair,
        forall|i: int| 0 <= i < p.spec_boards().len() ==> is_threat_pair(#[trigger] p.spec_boards()[i], p.spec_threat_history()[i]),
{
    let q = p.spec_threats();
    assert forall|t: int| 0 <= t < 64 implies #[trigger] bb_has(q.0, t) == bb_has(pair.0, t) by {}
    assert forall|t: int| 0 <= t < 64 implies #[trigger] bb_has(q.1, t) == bb_has(pair.1, t) by {}
    lemma_bb_ext(q.0, pair.0);
    lemma_bb_ext(q.1, pair.1);
}

} // verus!
