use crate::bm::bm_util::eval::{score_is_mate, trunc_div, Evaluation, CHECKMATE_EVAL};
use crate::bm::chess_types::{bb_has, has, Board, Move, MoveData};
use vstd::prelude::*;

verus! {

/// The node counts of the search threads (`None` for a thread not started).
#[derive(Debug, Clone)]
pub struct NodeCounter {
    pub node_counters: Vec<Option<u64>>,
}

/// The total of the counts of the first `n` threads.
pub open spec fn spec_node_sum(counts: Seq<Option<u64>>, n: int) -> int
    decreases n,
{
    if n <= 0 {
        0
    } else {
        spec_node_sum(counts, n - 1) + match counts[n - 1] {
            Some(c) => c as int,
            None => 0,
        }
    }
}

proof fn lemma_node_sum_monotone(counts: Seq<Option<u64>>, i: int, n: int)
    requires
        0 <= i <= n <= counts.len(),
    ensures
        spec_node_sum(counts, i) <= spec_node_sum(counts, n),
    decreases n - i,
{
    if i < n {
        lemma_node_sum_monotone(counts, i, n - 1);
    }
}

impl NodeCounter {
    pub fn initialize_node_counters(&mut self, threads: usize)
        ensures
            final(self).node_counters@ == Seq::new(threads as nat, |i: int| None::<u64>),
    {
        let mut counters: Vec<Option<u64>> = Vec::new();
        let mut i: usize = 0;
        while i < threads
            invariant
                i <= threads,
                counters@ == Seq::new(i as nat, |k: int| None::<u64>),
            decreases threads - i,
        {
            counters.push(None);
            i += 1;
        }
        self.node_counters = counters;
    }

    pub fn add_node_counter(&mut self, thread: usize, nodes: u64)
        requires
            thread < old(self).node_counters.len(),
        ensures
            final(self).node_counters@ == old(self).node_counters@.update(thread as int, Some(nodes)),
    {
        self.node_counters.set(thread, Some(nodes));
    }

    /// The nodes searched by all threads.
    pub fn get_node_count(&self) -> (r: u64)
        requires
            spec_node_sum(self.node_counters@, self.node_counters@.len() as int) <= u64::MAX,
        ensures
            r == spec_node_sum(self.node_counters@, self.node_counters@.len() as int),
    {
        let mut total: u64 = 0;
        let mut i: usize = 0;
        while i < self.node_counters.len()
            invariant
                i <= self.node_counters@.len(),
                total == spec_node_sum(self.node_counters@, i as int),
                spec_node_sum(self.node_counters@, self.node_counters@.len() as int) <= u64::MAX,
            decreases self.node_counters@.len() - i,
        {
            proof {
                lemma_node_sum_monotone(self.node_counters@, i as int + 1, self.node_counters@.len() as int);
            }
            if let Some(nodes) = self.node_counters[i] {
                total = total + nodes;
            }
            i += 1;
        }
        total
    }
}

impl MoveData {
    /// What the search remembers of `make_move`: its squares, the moving piece, and whether
    /// it lands on a piece of the other side.
    pub fn from_move(board: &Board, make_move: Move) -> (r: Self)
        requires
            make_move.wf(),
            board.spec_piece_on(make_move.from as int) is Some,
        ensures
            r.from == make_move.from,
            r.to == make_move.to,
            r.promotion == make_move.promotion,
            r.piece == board.spec_piece_on(make_move.from as int)->0,
            r.capture == bb_has(board.colors[board.side_to_move.spec_opp().spec_index()], make_move.to as int),
    {
        MoveData {
            from: make_move.from,
            to: make_move.to,
            promotion: make_move.promotion,
            piece: board.piece_on(make_move.from).unwrap(),
            capture: has(board.colors(board.side_to_move.opp()), make_move.to),
        }
    }
}

/// What the search keeps for one ply.
#[derive(Debug, Clone)]
pub struct SearchStack {
    pub eval: Evaluation,
    pub skip_move: Option<Move>,
    pub move_played: Option<MoveData>,
    pub pv: Vec<Option<Move>>,
    pub pv_len: usize,
}

impl SearchStack {
    /// The principal variation becomes `best_move` followed by the child's variation (as
    /// much of it as fits).
    pub fn update_pv(&mut self, best_move: Move, child_pv: &[Option<Move>])
        requires
            old(self).pv.len() >= 1,
            child_pv@.len() < usize::MAX,
        ensures
            final(self).pv@.len() == old(self).pv@.len(),
            final(self).pv@[0] == Some(best_move),
            forall|i: int|
                1 <= i < old(self).pv@.len() ==> #[trigger] final(self).pv@[i] == if i - 1 < child_pv@.len() {
                    child_pv@[i - 1]
                } else {
                    old(self).pv@[i]
                },
            final(self).pv_len == child_pv@.len() + 1,
            final(self).eval == old(self).eval,
            final(self).skip_move == old(self).skip_move,
            final(self).move_played == old(self).move_played,
    {
        self.pv.set(0, Some(best_move));
        let mut i: usize = 1;
        while i < self.pv.len() && i - 1 < child_pv.len()
            invariant
                1 <= i <= self.pv@.len(),
                self.pv@.len() == old(self).pv@.len(),
                self.pv@[0] == Some(best_move),
                forall|k: int| 1 <= k < i ==> #[trigger] self.pv@[k] == child_pv@[k - 1],
                forall|k: int| i <= k < self.pv@.len() ==> #[trigger] self.pv@[k] == old(self).pv@[k],
                i - 1 <= child_pv@.len(),
                self.eval == old(self).eval,
                self.skip_move == old(self).skip_move,
                self.move_played == old(self).move_played,
            decreases self.pv@.len() - i,
        {
            self.pv.set(i, child_pv[i - 1]);
            i += 1;
        }
        self.pv_len = child_pv.len() + 1;
    }
}

/// The score reported to the user: ordinary scores shrink towards 0, by twice the number
/// of pieces for large ones and proportionally (`50 * eval / (pieces + 50)`) for small ones.
pub open spec fn spec_remove_aggression(eval: i16, piece_count: i16) -> i16 {
    let e = eval as int;
    let p = piece_count as int;
    if e <= -164 {
        (p * 2 + e) as i16
    } else if e <= -100 && p <= trunc_div(-e - 100, 2) {
        (p * 2 + e) as i16
    } else if e <= -100 {
        trunc_div(50 * e, p + 50) as i16
    } else if e >= 164 {
        (e - 2 * p) as i16
    } else if e >= 100 && trunc_div(e - 100, 2) >= p {
        (e - 2 * p) as i16
    } else {
        trunc_div(50 * e, p + 50) as i16
    }
}

/// Mate scores pass unchanged; others as [spec_remove_aggression] says.
pub fn remove_aggression(eval: Evaluation, piece_count: u32) -> (r: Evaluation)
    requires
        piece_count <= 64,
        eval@ != i16::MIN,
    ensures
        r@ == if score_is_mate(eval@) {
            eval@
        } else {
            spec_remove_aggression(eval@, piece_count as i16)
        },
{
    let piece_count = piece_count as i16;
    if eval.is_mate() {
        return eval;
    }
    let e = eval.raw();
    let p32 = piece_count as i32;
    let e32 = e as i32;
    let v = if e <= -164 {
        piece_count * 2 + e
    } else if e <= -100 && piece_count <= (-e - 100) / 2 {
        piece_count * 2 + e
    } else if e <= -100 {
        ((50 * e32) / (p32 + 50)) as i16
    } else if e >= 164 {
        e - 2 * piece_count
    } else if e >= 100 && (e - 100) / 2 >= piece_count {
        e - 2 * piece_count
    } else {
        ((50 * e32) / (p32 + 50)) as i16
    };
    Evaluation::new(v)
}

/// The bounds of the next root search: the aspiration window once a score is known, is
/// below 1000 in size, the depth is over 4 and fewer than 10 searches failed; otherwise
/// the whole range.
pub fn aspiration_bounds(eval: Option<Evaluation>, depth: u32, fail_cnt: u32, window: (Evaluation, Evaluation)) -> (r: (
    Evaluation,
    Evaluation,
))
    requires
        eval matches Some(e) ==> e@ != i16::MIN,
    ensures
        if eval matches Some(e) && -1000 < e@ < 1000 && depth > 4 && fail_cnt < 10 {
            r == window
        } else {
            r.0@ == -CHECKMATE_EVAL && r.1@ == CHECKMATE_EVAL
        },
{
    let narrow = match eval {
        Some(e) => {
            let raw = e.raw();
            let abs = if raw < 0 {
                -raw
            } else {
                raw
            };
            abs < 1000 && depth > 4 && fail_cnt < 10
        },
        None => false,
    };
    if narrow {
        window
    } else {
        (Evaluation::min(), Evaluation::max())
    }
}

/// What a root search result means for the aspiration loop.
#[derive(Debug, Copy, Clone, PartialEq, Eq, Structural)]
pub enum Aspiration {
    /// The score is inside the window, or a mate: the iteration is done.
    Accept,
    /// The score is at or below alpha: widen downwards and search again.
    FailLow,
    /// The score is at or above beta: widen upwards and search again.
    FailHigh,
}

pub fn aspiration_outcome(score: Evaluation, alpha: Evaluation, beta: Evaluation) -> (r: Aspiration)
    ensures
        r == if (alpha@ < score@ && score@ < beta@) || score_is_mate(score@) {
            Aspiration::Accept
        } else if score@ <= alpha@ {
            Aspiration::FailLow
        } else {
            Aspiration::FailHigh
        },
{
    if (alpha.lt(&score) && score.lt(&beta)) || score.is_mate() {
        Aspiration::Accept
    } else if score.le(&alpha) {
        Aspiration::FailLow
    } else {
        Aspiration::FailHigh
    }
}

} // verus!
