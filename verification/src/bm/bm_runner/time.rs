use crate::bm::chess_types::{Color, Move};
use vstd::prelude::*;

verus! {

pub const MAX_PLY: u32 = 128;

pub const EXPECTED_MOVES: u32 = 64;

pub const DEPTH_DEFAULT: u32 = MAX_PLY;

pub const NODES_DEFAULT: u64 = u64::MAX;

/// One limit of a `go` command; durations are in milliseconds.
#[derive(Debug, Copy, Clone, PartialEq, Eq, Structural)]
pub enum TimeManagementInfo {
    WTime(u64),
    BTime(u64),
    WInc(u64),
    BInc(u64),
    MaxDepth(u32),
    MaxNodes(u64),
    MovesToGo(u32),
    MoveTime(u64),
    Unknown,
}

/// The limits of a `go` command after reading its parts in order (a later part overrides
/// an earlier one of the same kind).
#[derive(Debug, Copy, Clone, PartialEq, Eq, Structural)]
pub struct Limits {
    pub infinite: bool,
    pub w_time: u64,
    pub b_time: u64,
    pub w_inc: u64,
    pub b_inc: u64,
    pub max_depth: u32,
    pub max_nodes: u64,
    pub moves_to_go: Option<u32>,
    pub move_time: Option<u64>,
}

pub open spec fn default_limits() -> Limits {
    Limits {
        infinite: true,
        w_time: 0,
        b_time: 0,
        w_inc: 0,
        b_inc: 0,
        max_depth: DEPTH_DEFAULT,
        max_nodes: NODES_DEFAULT,
        moves_to_go: None,
        move_time: None,
    }
}

/// The limits after the first `n` parts of `info`.
pub open spec fn spec_limits(info: Seq<TimeManagementInfo>, n: int) -> Limits
    decreases n,
{
    if n <= 0 {
        default_limits()
    } else {
        let l = spec_limits(info, n - 1);
        match info[n - 1] {
            TimeManagementInfo::WTime(t) => Limits { w_time: t, infinite: false, ..l },
            TimeManagementInfo::BTime(t) => Limits { b_time: t, infinite: false, ..l },
            TimeManagementInfo::WInc(t) => Limits { w_inc: t, ..l },
            TimeManagementInfo::BInc(t) => Limits { b_inc: t, ..l },
            TimeManagementInfo::MaxDepth(d) => Limits { max_depth: d, ..l },
            TimeManagementInfo::MaxNodes(nodes) => Limits { max_nodes: nodes, ..l },
            TimeManagementInfo::MovesToGo(m) => Limits { moves_to_go: Some(m), ..l },
            TimeManagementInfo::MoveTime(t) => Limits { move_time: Some(t), infinite: false, ..l },
            TimeManagementInfo::Unknown => l,
        }
    }
}

/// Reads the parts of a `go` command.
pub fn read_limits(info: &[TimeManagementInfo]) -> (r: Limits)
    ensures
        r == spec_limits(info@, info@.len() as int),
{
    let mut l = Limits {
        infinite: true,
        w_time: 0,
        b_time: 0,
        w_inc: 0,
        b_inc: 0,
        max_depth: DEPTH_DEFAULT,
        max_nodes: NODES_DEFAULT,
        moves_to_go: None,
        move_time: None,
    };
    let mut i: usize = 0;
    while i < info.len()
        invariant
            i <= info@.len(),
            l == spec_limits(info@, i as int),
        decreases info@.len() - i,
    {
        match info[i] {
            TimeManagementInfo::WTime(t) => {
                l.w_time = t;
                l.infinite = false;
            },
            TimeManagementInfo::BTime(t) => {
                l.b_time = t;
                l.infinite = false;
            },
            TimeManagementInfo::WInc(t) => {
                l.w_inc = t;
            },
            TimeManagementInfo::BInc(t) => {
                l.b_inc = t;
            },
            TimeManagementInfo::MaxDepth(d) => {
                l.max_depth = d;
            },
            TimeManagementInfo::MaxNodes(n) => {
                l.max_nodes = n;
            },
            TimeManagementInfo::MovesToGo(m) => {
                l.moves_to_go = Some(m);
            },
            TimeManagementInfo::MoveTime(t) => {
                l.move_time = Some(t);
                l.infinite = false;
            },
            TimeManagementInfo::Unknown => {},
        }
        i += 1;
    }
    l
}

/// The budget of a search (in milliseconds) and what stops it.
#[derive(Debug, Clone)]
pub struct TimeManager {
    pub expected_moves: u32,
    pub max_duration: u32,
    pub base_duration: u32,
    pub target_duration: u32,
    pub move_stability: u32,
    pub prev_eval: i16,
    pub prev_move: Option<Move>,
    pub infinite: bool,
    pub abort_now: bool,
    pub no_manage: bool,
    pub max_depth: u32,
    pub max_nodes: u64,
}

/// What the duration formula of iterative deepening reads, once a result is worth managing.
#[derive(Debug, Copy, Clone, PartialEq, Eq, Structural)]
pub struct DeepenFactors {
    pub move_stability: u32,
    pub prev_eval: i16,
    pub eval: i16,
    pub base_duration: u32,
}

/// The budget of the side to move, from its clock and increment: 4/5 of the clock at most,
/// and the increment plus a share of the clock for the expected number of moves (none when
/// the side has a single legal move).
pub open spec fn spec_budget(time: u32, inc: u32, moves_to_go: Option<u32>, move_cnt: u64) -> (u32, u32) {
    let max_time = (time * 4 / 5) as u32;
    let expected: int = match moves_to_go {
        Some(m) => m + 1,
        None => EXPECTED_MOVES + 1,
    };
    let share: int = inc + (time as int) / expected;
    let default = if move_cnt > 1 {
        if share < max_time {
            share as u32
        } else {
            max_time
        }
    } else {
        0u32
    };
    (default, max_time)
}

/// The budget never plans past 4/5 of the clock, plans nothing with a single legal move,
/// and otherwise plans at least the increment (up to that cap).
pub proof fn lemma_budget_bounds(time: u32, inc: u32, moves_to_go: Option<u32>, move_cnt: u64)
    ensures
        ({
            let (default, max_time) = spec_budget(time, inc, moves_to_go, move_cnt);
            &&& max_time * 5 <= time * 4 < max_time * 5 + 5
            &&& default <= max_time
            &&& move_cnt <= 1 ==> default == 0
            &&& move_cnt > 1 ==> default >= (if inc < max_time { inc } else { max_time })
        }),
{
    let expected: int = match moves_to_go {
        Some(m) => m + 1,
        None => EXPECTED_MOVES + 1,
    };
    assert((time as int) / expected >= 0) by (nonlinear_arith)
        requires
            expected >= 1,
            time >= 0,
    ;
}

/// More time on the clock or a larger increment never shrinks the budget.
pub proof fn lemma_budget_monotone(t1: u32, t2: u32, i1: u32, i2: u32, moves_to_go: Option<u32>, move_cnt: u64)
    requires
        t1 <= t2,
        i1 <= i2,
    ensures
        spec_budget(t1, i1, moves_to_go, move_cnt).0 <= spec_budget(t2, i2, moves_to_go, move_cnt).0,
        spec_budget(t1, i1, moves_to_go, move_cnt).1 <= spec_budget(t2, i2, moves_to_go, move_cnt).1,
{
    let expected: int = match moves_to_go {
        Some(m) => m + 1,
        None => EXPECTED_MOVES + 1,
    };
    assert((t1 as int) / expected <= (t2 as int) / expected) by (nonlinear_arith)
        requires
            expected >= 1,
            0 <= t1 <= t2,
    ;
    assert((t1 * 4) / 5 <= (t2 * 4) / 5) by (nonlinear_arith)
        requires
            0 <= t1 <= t2,
    ;
}

impl TimeManager {
    pub fn new() -> (r: Self)
        ensures
            r.expected_moves == EXPECTED_MOVES,
            r.max_duration == 0,
            r.base_duration == 0,
            r.target_duration == 0,
            r.move_stability == 0,
            r.prev_eval == 0,
            r.prev_move is None,
            r.infinite,
            !r.abort_now,
            r.no_manage,
            r.max_depth == DEPTH_DEFAULT,
            r.max_nodes == NODES_DEFAULT,
    {
        TimeManager {
            expected_moves: EXPECTED_MOVES,
            max_duration: 0,
            base_duration: 0,
            target_duration: 0,
            move_stability: 0,
            prev_eval: 0,
            prev_move: None,
            infinite: true,
            abort_now: false,
            no_manage: true,
            max_depth: DEPTH_DEFAULT,
            max_nodes: NODES_DEFAULT,
        }
    }

    /// Records the result of a finished iteration. When the main thread finishes an
    /// iteration deeper than 4 under managed time, the move's stability is updated (one
    /// more, at most 14, when the best move stayed; 0 otherwise) and the factors of the new
    /// target duration are returned; see [TimeManager::set_target_duration].
    pub fn deepen(&mut self, thread: usize, depth: u32, eval: i16, mv: Move) -> (r: Option<DeepenFactors>)
        ensures
            final(self).prev_eval == eval,
            ({
                let managed = !(thread != 0 || depth <= 4 || old(self).no_manage);
                let stability = if Some(mv) == old(self).prev_move {
                    if old(self).move_stability + 1 < 14 {
                        (old(self).move_stability + 1) as u32
                    } else {
                        14u32
                    }
                } else {
                    0u32
                };
                if managed {
                    &&& r == Some(
                        DeepenFactors {
                            move_stability: stability,
                            prev_eval: old(self).prev_eval,
                            eval,
                            base_duration: old(self).base_duration,
                        },
                    )
                    &&& final(self).move_stability == stability
                    &&& final(self).prev_move == Some(mv)
                    &&& *final(self) == (TimeManager {
                        prev_eval: eval,
                        move_stability: stability,
                        prev_move: Some(mv),
                        ..*old(self)
                    })
                } else {
                    &&& r is None
                    &&& *final(self) == (TimeManager { prev_eval: eval, ..*old(self) })
                }
            }),
    {
        let prev_eval = self.prev_eval;
        self.prev_eval = eval;
        if thread != 0 || depth <= 4 || self.no_manage {
            return None;
        }
        let same = match self.prev_move {
            Some(p) => p == mv,
            None => false,
        };
        let move_stability = if same {
            if self.move_stability < 13 {
                self.move_stability + 1
            } else {
                14
            }
        } else {
            0
        };
        self.prev_move = Some(mv);
        self.move_stability = move_stability;
        Some(DeepenFactors { move_stability, prev_eval, eval, base_duration: self.base_duration })
    }

    /// Sets the duration that iterative deepening aims at.
    pub fn set_target_duration(&mut self, target: u32)
        ensures
            *final(self) == (TimeManager { target_duration: target, ..*old(self) }),
    {
        self.target_duration = target;
    }

    /// Starts a search: `move_cnt` is the number of legal moves, `stm` the side to move.
    pub fn initiate(&mut self, stm: Color, move_cnt: u64, info: &[TimeManagementInfo])
        requires
            ({
                let l = spec_limits(info@, info@.len() as int);
                let time = match stm {
                    Color::White => l.w_time,
                    Color::Black => l.b_time,
                } as u32;
                let inc = match stm {
                    Color::White => l.w_inc,
                    Color::Black => l.b_inc,
                } as u32;
                (l.move_time is None && move_cnt != 0) ==> {
                    &&& time * 4 <= u32::MAX
                    &&& (match l.moves_to_go {
                        Some(m) => m < u32::MAX,
                        None => true,
                    })
                    &&& inc + (time as int) / (match l.moves_to_go {
                        Some(m) => m + 1,
                        None => EXPECTED_MOVES + 1,
                    } as int) <= u32::MAX
                }
            }),
        ensures
            ({
                let l = spec_limits(info@, info@.len() as int);
                let time = match stm {
                    Color::White => l.w_time,
                    Color::Black => l.b_time,
                } as u32;
                let inc = match stm {
                    Color::White => l.w_inc,
                    Color::Black => l.b_inc,
                } as u32;
                let (default, max_time) = spec_budget(time, inc, l.moves_to_go, move_cnt);
                &&& !final(self).abort_now
                &&& final(self).infinite == l.infinite
                &&& final(self).max_depth == l.max_depth
                &&& final(self).max_nodes == l.max_nodes
                &&& final(self).no_manage == (l.infinite || l.move_time is Some)
                &&& final(self).expected_moves == old(self).expected_moves
                &&& final(self).move_stability == old(self).move_stability
                &&& final(self).prev_eval == old(self).prev_eval
                &&& final(self).prev_move == old(self).prev_move
                &&& match l.move_time {
                    Some(t) => {
                        &&& final(self).target_duration == t as u32
                        &&& final(self).max_duration == t as u32
                        &&& final(self).base_duration == old(self).base_duration
                    },
                    None => if move_cnt == 0 {
                        &&& final(self).target_duration == 0
                        &&& final(self).max_duration == old(self).max_duration
                        &&& final(self).base_duration == old(self).base_duration
                    } else {
                        &&& final(self).base_duration == default
                        &&& final(self).target_duration == default
                        &&& final(self).max_duration == max_time
                    },
                }
            }),
    {
        self.abort_now = false;
        let l = read_limits(info);
        self.infinite = l.infinite;
        self.max_depth = l.max_depth;
        self.max_nodes = l.max_nodes;
        let (time, inc) = match stm {
            Color::White => (l.w_time, l.w_inc),
            Color::Black => (l.b_time, l.b_inc),
        };
        self.no_manage = l.infinite || l.move_time.is_some();
        match l.move_time {
            Some(move_time) => {
                #[verifier::truncate]
                let move_time = move_time as u32;
                self.target_duration = move_time;
                self.max_duration = move_time;
            },
            None => {
                if move_cnt == 0 {
                    self.target_duration = 0;
                } else {
                    #[verifier::truncate]
                    let time = time as u32;
                    #[verifier::truncate]
                    let inc = inc as u32;
                    let max_time = time * 4 / 5;
                    let expected_moves = match l.moves_to_go {
                        Some(m) => m + 1,
                        None => EXPECTED_MOVES + 1,
                    };
                    let default = if move_cnt > 1 {
                        let share = inc + time / expected_moves;
                        if share < max_time {
                            share
                        } else {
                            max_time
                        }
                    } else {
                        0
                    };
                    self.base_duration = default;
                    self.target_duration = default;
                    self.max_duration = max_time;
                }
            },
        }
    }

    pub fn abort_now(&mut self)
        ensures
            *final(self) == (TimeManager { abort_now: true, ..*old(self) }),
    {
        self.abort_now = true;
    }

    /// Whether a running search must stop, `elapsed` milliseconds after it started.
    pub fn abort_search(&self, elapsed: u32, nodes: u64) -> (r: bool)
        ensures
            r == (self.abort_now || (self.max_duration < elapsed && !self.infinite) || self.max_nodes <= nodes),
    {
        if self.abort_now {
            true
        } else {
            (self.max_duration < elapsed && !self.infinite) || self.max_nodes <= nodes
        }
    }

    /// Whether iterative deepening must not start `depth`.
    pub fn abort_deepening(&self, elapsed: u32, depth: u32, nodes: u64) -> (r: bool)
        ensures
            r == (self.abort_now || (self.target_duration < elapsed && !self.infinite) || self.max_depth < depth
                || self.max_nodes <= nodes),
    {
        if self.abort_now {
            true
        } else {
            let abort_std = self.target_duration < elapsed && !self.infinite;
            abort_std || self.max_depth < depth || self.max_nodes <= nodes
        }
    }

    /// Prepares for the next move of the game.
    pub fn clear(&mut self)
        ensures
            *final(self) == (TimeManager {
                prev_move: None,
                abort_now: false,
                no_manage: false,
                expected_moves: if old(self).expected_moves > 0 {
                    (old(self).expected_moves - 1) as u32
                } else {
                    0
                },
                move_stability: 0,
                ..*old(self)
            }),
    {
        self.prev_move = None;
        self.abort_now = false;
        self.no_manage = false;
        self.expected_moves = if self.expected_moves > 0 {
            self.expected_moves - 1
        } else {
            0
        };
        self.move_stability = 0;
    }
}

proof fn lemma_limits_part_0(info: Seq<TimeManagementInfo>, n: int)
    requires
        0 <= n <= info.len(),
    ensures
        (forall|j: int| 0 <= j < n ==> !(#[trigger] info[j] is WTime)) ==> spec_limits(info, n).w_time == 0,
        forall|j: int|
            0 <= j < n && #[trigger] info[j] is WTime && (forall|k: int| j < k < n ==> !(#[trigger] info[k] is WTime))
                ==> spec_limits(info, n).w_time == info[j]->WTime_0,
    decreases n,
{
    if n > 0 {
        lemma_limits_part_0(info, n - 1);
    }
}

proof fn lemma_limits_part_1(info: Seq<TimeManagementInfo>, n: int)
    requires
        0 <= n <= info.len(),
    ensures
        (forall|j: int| 0 <= j < n ==> !(#[trigger] info[j] is BTime)) ==> spec_limits(info, n).b_time == 0,
        forall|j: int|
            0 <= j < n && #[trigger] info[j] is BTime && (forall|k: int| j < k < n ==> !(#[trigger] info[k] is BTime))
                ==> spec_limits(info, n).b_time == info[j]->BTime_0,
    decreases n,
{
    if n > 0 {
        lemma_limits_part_1(info, n - 1);
    }
}

proof fn lemma_limits_part_2(info: Seq<TimeManagementInfo>, n: int)
    requires
        0 <= n <= info.len(),
    ensures
        (forall|j: int| 0 <= j < n ==> !(#[trigger] info[j] is WInc)) ==> spec_limits(info, n).w_inc == 0,
        forall|j: int|
            0 <= j < n && #[trigger] info[j] is WInc && (forall|k: int| j < k < n ==> !(#[trigger] info[k] is WInc))
                ==> spec_limits(info, n).w_inc == info[j]->WInc_0,
    decreases n,
{
    if n > 0 {
        lemma_limits_part_2(info, n - 1);
    }
}

proof fn lemma_limits_part_3(info: Seq<TimeManagementInfo>, n: int)
    requires
        0 <= n <= info.len(),
    ensures
        (forall|j: int| 0 <= j < n ==> !(#[trigger] info[j] is BInc)) ==> spec_limits(info, n).b_inc == 0,
        forall|j: int|
            0 <= j < n && #[trigger] info[j] is BInc && (forall|k: int| j < k < n ==> !(#[trigger] info[k] is BInc))
                ==> spec_limits(info, n).b_inc == info[j]->BInc_0,
    decreases n,
{
    if n > 0 {
        lemma_limits_part_3(info, n - 1);
    }
}

proof fn lemma_limits_part_4(info: Seq<TimeManagementInfo>, n: int)
    requires
        0 <= n <= info.len(),
    ensures
        (forall|j: int| 0 <= j < n ==> !(#[trigger] info[j] is MaxDepth)) ==> spec_limits(info, n).max_depth == DEPTH_DEFAULT,
        forall|j: int|
            0 <= j < n && #[trigger] info[j] is MaxDepth && (forall|k: int| j < k < n ==> !(#[trigger] info[k] is MaxDepth))
                ==> spec_limits(info, n).max_depth == info[j]->MaxDepth_0,
    decreases n,
{
    if n > 0 {
        lemma_limits_part_4(info, n - 1);
    }
}

proof fn lemma_limits_part_5(info: Seq<TimeManagementInfo>, n: int)
    requires
        0 <= n <= info.len(),
    ensures
        (forall|j: int| 0 <= j < n ==> !(#[trigger] info[j] is MaxNodes)) ==> spec_limits(info, n).max_nodes == NODES_DEFAULT,
        forall|j: int|
            0 <= j < n && #[trigger] info[j] is MaxNodes && (forall|k: int| j < k < n ==> !(#[trigger] info[k] is MaxNodes))
                ==> spec_limits(info, n).max_nodes == info[j]->MaxNodes_0,
    decreases n,
{
    if n > 0 {
        lemma_limits_part_5(info, n - 1);
    }
}

proof fn lemma_limits_part_6(info: Seq<TimeManagementInfo>, n: int)
    requires
        0 <= n <= info.len(),
    ensures
        (forall|j: int| 0 <= j < n ==> !(#[trigger] info[j] is MovesToGo)) ==> spec_limits(info, n).moves_to_go is None,
        forall|j: int|
            0 <= j < n && #[trigger] info[j] is MovesToGo && (forall|k: int| j < k < n ==> !(#[trigger] info[k] is MovesToGo))
                ==> spec_limits(info, n).moves_to_go == Some(info[j]->MovesToGo_0),
    decreases n,
{
    if n > 0 {
        lemma_limits_part_6(info, n - 1);
    }
}

proof fn lemma_limits_part_7(info: Seq<TimeManagementInfo>, n: int)
    requires
        0 <= n <= info.len(),
    ensures
        (forall|j: int| 0 <= j < n ==> !(#[trigger] info[j] is MoveTime)) ==> spec_limits(info, n).move_time is None,
        forall|j: int|
            0 <= j < n && #[trigger] info[j] is MoveTime && (forall|k: int| j < k < n ==> !(#[trigger] info[k] is MoveTime))
                ==> spec_limits(info, n).move_time == Some(info[j]->MoveTime_0),
    decreases n,
{
    if n > 0 {
        lemma_limits_part_7(info, n - 1);
    }
}

proof fn lemma_limits_part_8(info: Seq<TimeManagementInfo>, n: int)
    requires
        0 <= n <= info.len(),
    ensures
        spec_limits(info, n).infinite == !(exists|j: int|
            0 <= j < n && (#[trigger] info[j] is WTime || info[j] is BTime || info[j] is MoveTime)),
    decreases n,
{
    if n > 0 {
        lemma_limits_part_8(info, n - 1);
    }
}

/// Reading a `go` command: each limit is the value of the last part that gives it (the
/// default when no part does), and the search is infinite exactly when no part gives a
/// clock or a move time.
pub proof fn lemma_limits_from_last_part(info: Seq<TimeManagementInfo>, n: int)
    requires
        0 <= n <= info.len(),
    ensures
        (forall|j: int| 0 <= j < n ==> !(#[trigger] info[j] is WTime)) ==> spec_limits(info, n).w_time == 0,
        forall|j: int|
            0 <= j < n && #[trigger] info[j] is WTime && (forall|k: int| j < k < n ==> !(#[trigger] info[k] is WTime))
                ==> spec_limits(info, n).w_time == info[j]->WTime_0,
        (forall|j: int| 0 <= j < n ==> !(#[trigger] info[j] is BTime)) ==> spec_limits(info, n).b_time == 0,
        forall|j: int|
            0 <= j < n && #[trigger] info[j] is BTime && (forall|k: int| j < k < n ==> !(#[trigger] info[k] is BTime))
                ==> spec_limits(info, n).b_time == info[j]->BTime_0,
        (forall|j: int| 0 <= j < n ==> !(#[trigger] info[j] is WInc)) ==> spec_limits(info, n).w_inc == 0,
        forall|j: int|
            0 <= j < n && #[trigger] info[j] is WInc && (forall|k: int| j < k < n ==> !(#[trigger] info[k] is WInc))
                ==> spec_limits(info, n).w_inc == info[j]->WInc_0,
        (forall|j: int| 0 <= j < n ==> !(#[trigger] info[j] is BInc)) ==> spec_limits(info, n).b_inc == 0,
        forall|j: int|
            0 <= j < n && #[trigger] info[j] is BInc && (forall|k: int| j < k < n ==> !(#[trigger] info[k] is BInc))
                ==> spec_limits(info, n).b_inc == info[j]->BInc_0,
        (forall|j: int| 0 <= j < n ==> !(#[trigger] info[j] is MaxDepth)) ==> spec_limits(info, n).max_depth == DEPTH_DEFAULT,
        forall|j: int|
            0 <= j < n && #[trigger] info[j] is MaxDepth && (forall|k: int| j < k < n ==> !(#[trigger] info[k] is MaxDepth))
                ==> spec_limits(info, n).max_depth == info[j]->MaxDepth_0,
        (forall|j: int| 0 <= j < n ==> !(#[trigger] info[j] is MaxNodes)) ==> spec_limits(info, n).max_nodes == NODES_DEFAULT,
        forall|j: int|
            0 <= j < n && #[trigger] info[j] is MaxNodes && (forall|k: int| j < k < n ==> !(#[trigger] info[k] is MaxNodes))
                ==> spec_limits(info, n).max_nodes == info[j]->MaxNodes_0,
        (forall|j: int| 0 <= j < n ==> !(#[trigger] info[j] is MovesToGo)) ==> spec_limits(info, n).moves_to_go is None,
        forall|j: int|
            0 <= j < n && #[trigger] info[j] is MovesToGo && (forall|k: int| j < k < n ==> !(#[trigger] info[k] is MovesToGo))
                ==> spec_limits(info, n).moves_to_go == Some(info[j]->MovesToGo_0),
        (forall|j: int| 0 <= j < n ==> !(#[trigger] info[j] is MoveTime)) ==> spec_limits(info, n).move_time is None,
        forall|j: int|
            0 <= j < n && #[trigger] info[j] is MoveTime && (forall|k: int| j < k < n ==> !(#[trigger] info[k] is MoveTime))
                ==> spec_limits(info, n).move_time == Some(info[j]->MoveTime_0),
        spec_limits(info, n).infinite == !(exists|j: int|
            0 <= j < n && (#[trigger] info[j] is WTime || info[j] is BTime || info[j] is MoveTime)),
{
    lemma_limits_part_0(info, n);
    lemma_limits_part_1(info, n);
    lemma_limits_part_2(info, n);
    lemma_limits_part_3(info, n);
    lemma_limits_part_4(info, n);
    lemma_limits_part_5(info, n);
    lemma_limits_part_6(info, n);
    lemma_limits_part_7(info, n);
    lemma_limits_part_8(info, n);
}

/// A part of a `go` command that limits the search by the clock or by nodes.
pub open spec fn limits_clock_or_nodes(part: TimeManagementInfo) -> bool {
    match part {
        TimeManagementInfo::WTime(_) | TimeManagementInfo::BTime(_) | TimeManagementInfo::MoveTime(_)
        | TimeManagementInfo::MaxNodes(_) => true,
        _ => false,
    }
}

/// A `go` command without clock, move-time or node limits leaves the search infinite, with
/// no node limit and no move time.
pub proof fn lemma_no_clock_limits(info: Seq<TimeManagementInfo>, n: int)
    requires
        0 <= n <= info.len(),
        forall|i: int| 0 <= i < n ==> !limits_clock_or_nodes(#[trigger] info[i]),
    ensures
        spec_limits(info, n).infinite,
        spec_limits(info, n).max_nodes == NODES_DEFAULT,
        spec_limits(info, n).move_time is None,
    decreases n,
{
    if n > 0 {
        lemma_no_clock_limits(info, n - 1);
    }
}

/// After [TimeManager::initiate] with a `go` command that holds no clock, move-time or node
/// limit, only the depth ends the search: it is never aborted on time or nodes (below
/// `u64::MAX` nodes), and deepening stops exactly past the last depth limit given (or the
/// default one).
pub proof fn lemma_depth_only_search(tm: TimeManager, info: Seq<TimeManagementInfo>, elapsed: u32, depth: u32, nodes: u64)
    requires
        forall|i: int| 0 <= i < info.len() ==> !limits_clock_or_nodes(#[trigger] info[i]),
        !tm.abort_now,
        tm.infinite == spec_limits(info, info.len() as int).infinite,
        tm.max_depth == spec_limits(info, info.len() as int).max_depth,
        tm.max_nodes == spec_limits(info, info.len() as int).max_nodes,
        nodes < u64::MAX,
    ensures
        !(tm.abort_now || (tm.max_duration < elapsed && !tm.infinite) || tm.max_nodes <= nodes),
        (tm.abort_now || (tm.target_duration < elapsed && !tm.infinite) || tm.max_depth < depth || tm.max_nodes
            <= nodes) == (depth > spec_limits(info, info.len() as int).max_depth),
{
    lemma_no_clock_limits(info, info.len() as int);
}

} // verus!
