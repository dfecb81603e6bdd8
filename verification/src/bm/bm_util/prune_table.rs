use vstd::prelude::*;

use crate::bm::bm_util::eval::Evaluation;

verus! {

pub const EVAL_DIV: i16 = 50;
pub const EVAL_SEGMENTS: usize = 15;
pub const HISTORY_DIV: i16 = 64;
pub const HISTORY_SEGMENTS: usize = 17;
pub const IN_CHECK_SEGMENTS: usize = 2;
pub const DEPTH_SEGMENTS: usize = 8;
pub const TABLE_SIZE: usize = 4080;

/// How often pruning a quiet move in some situation turned out right.
#[derive(Debug, Copy, Clone)]
pub struct Stats {
    pub success: u32,
    pub visits: u32,
}

/// Learned statistics on quiet-move pruning, by depth, check, history segment and
/// evaluation-margin segment.
#[derive(Debug, Clone)]
pub struct QuietPruneTable {
    table: Vec<Stats>,
}

pub open spec fn trunc_div_i16(a: i16, b: i16) -> int {
    if a >= 0 {
        a / b
    } else {
        -((-a) / (b as int))
    }
}

pub open spec fn clamp(x: int, lo: int, hi: int) -> int {
    if x < lo {
        lo
    } else if x > hi {
        hi
    } else {
        x
    }
}

/// Segment of the margin `eval - alpha`: 50 centipawns per segment, centered, clamped.
pub open spec fn spec_eval_index(margin: i16) -> int {
    clamp(trunc_div_i16(margin, EVAL_DIV) + 7, 0, 14)
}

/// Segment of a history score: 64 points per segment, centered.
pub open spec fn spec_history_index(history: i16) -> int {
    trunc_div_i16(history, HISTORY_DIV) + 8
}

pub open spec fn spec_prune_index(depth: int, in_check: bool, history_index: int, eval_index: int) -> int {
    (((depth - 1) * 2 + (if in_check { 1int } else { 0 })) * 17 + history_index) * 15 + eval_index
}

fn eval_index(margin: i16) -> (r: usize)
    ensures
        r == spec_eval_index(margin),
        r < 15,
{
    let x = margin / EVAL_DIV + 7;
    let x = if x < 0 { 0 } else { x };
    let x = if x > 14 { 14 } else { x };
    x as usize
}

impl QuietPruneTable {
    pub closed spec fn spec_table(&self) -> Seq<Stats> {
        self.table@
    }

    /// The table has one cell per situation and every cell has been visited at least once.
    pub open spec fn wf(&self) -> bool {
        &&& self.spec_table().len() == TABLE_SIZE
        &&& forall|i: int| 0 <= i < TABLE_SIZE ==> #[trigger] self.spec_table()[i].visits >= 1
    }

    /// Every cell starts as 100 successes in one visit.
    pub fn new() -> (r: Self)
        ensures
            r.wf(),
            forall|i: int| 0 <= i < TABLE_SIZE ==> r.spec_table()[i] == (Stats { success: 100, visits: 1 }),
    {
        let mut table: Vec<Stats> = Vec::new();
        let mut i: usize = 0;
        while i < TABLE_SIZE
            invariant
                i <= TABLE_SIZE,
                table.len() == i,
                forall|j: int| 0 <= j < i ==> table@[j] == (Stats { success: 100, visits: 1 }),
            decreases TABLE_SIZE - i,
        {
            table.push(Stats { success: 100, visits: 1 });
            i += 1;
        }
        Self { table }
    }

    /// Records one more visit of a situation, and a success if `success`.
    pub fn visit(
        &mut self,
        eval: Evaluation,
        alpha: Evaluation,
        history: i16,
        in_check: bool,
        depth: u32,
        success: bool,
    )
        requires
            old(self).wf(),
            1 <= depth <= DEPTH_SEGMENTS,
            i16::MIN <= eval@ - alpha@ <= i16::MAX,
            0 <= spec_history_index(history) < 17,
            ({
                let i = spec_prune_index(depth as int, in_check, spec_history_index(history), spec_eval_index((eval@ - alpha@) as i16));
                &&& old(self).spec_table()[i].visits < u32::MAX
                &&& old(self).spec_table()[i].success < u32::MAX
            }),
        ensures
            final(self).wf(),
            ({
                let i = spec_prune_index(depth as int, in_check, spec_history_index(history), spec_eval_index((eval@ - alpha@) as i16));
                let s = old(self).spec_table()[i];
                final(self).spec_table() == old(self).spec_table().update(
                    i,
                    Stats { success: (s.success + (if success { 1int } else { 0 })) as u32, visits: (s.visits + 1) as u32 },
                )
            }),
    {
        let depth = depth as usize;
        let e = eval_index(eval.sub_eval(alpha).raw());
        let h = (history / HISTORY_DIV + 8) as usize;
        let c: usize = if in_check { 1 } else { 0 };
        let i = (((depth - 1) * 2 + c) * 17 + h) * 15 + e;
        let mut stats = self.table[i];
        stats.visits = stats.visits + 1;
        stats.success = stats.success + if success { 1 } else { 0 };
        self.table.set(i, stats);
    }

    /// Whether the recorded success rate, in percent, exceeds `success_rate`
    /// (the history segment is clamped here).
    pub fn predict_success(
        &self,
        eval: Evaluation,
        alpha: Evaluation,
        history: i16,
        in_check: bool,
        depth: u32,
        success_rate: u32,
    ) -> (r: bool)
        requires
            self.wf(),
            1 <= depth <= DEPTH_SEGMENTS,
            i16::MIN <= eval@ - alpha@ <= i16::MAX,
            ({
                let i = spec_prune_index(
                    depth as int,
                    in_check,
                    clamp(spec_history_index(history), 0, 16),
                    spec_eval_index((eval@ - alpha@) as i16),
                );
                self.spec_table()[i].success * 100 <= u32::MAX
            }),
        ensures
            ({
                let i = spec_prune_index(
                    depth as int,
                    in_check,
                    clamp(spec_history_index(history), 0, 16),
                    spec_eval_index((eval@ - alpha@) as i16),
                );
                let s = self.spec_table()[i];
                r == (s.success * 100 / (s.visits as int) > success_rate)
            }),
    {
        let depth = depth as usize;
        let e = eval_index(eval.sub_eval(alpha).raw());
        let h = history / HISTORY_DIV + 8;
        let h = if h < 0 { 0 } else { h };
        let h = if h > 16 { 16 } else { h };
        let h = h as usize;
        let c: usize = if in_check { 1 } else { 0 };
        let i = (((depth - 1) * 2 + c) * 17 + h) * 15 + e;
        let stats = self.table[i];
        stats.success * 100 / stats.visits > success_rate
    }
}

/// Margins beyond 350 in size and histories beyond 575 in size fall into the edge cells:
/// clamping them to those bounds, and taking the margin against an alpha of 0, selects the
/// same cell of the table (so [QuietPruneTable::predict_success] gives the same answer).
pub proof fn lemma_clamped_inputs_same_cell(eval: i16, alpha: i16, history: i16, in_check: bool, depth: int)
    requires
        i16::MIN <= eval - alpha <= i16::MAX,
    ensures
        ({
            let m = (eval - alpha) as i16;
            let cm = clamp(m as int, -350, 350) as i16;
            let ch = clamp(history as int, -575, 575) as i16;
            spec_prune_index(depth, in_check, clamp(spec_history_index(history), 0, 16), spec_eval_index(m))
                == spec_prune_index(depth, in_check, clamp(spec_history_index(ch), 0, 16), spec_eval_index(cm))
        }),
{
    let m = (eval - alpha) as i16;
    let cm = clamp(m as int, -350, 350) as i16;
    let ch = clamp(history as int, -575, 575) as i16;
    assert(spec_eval_index(m) == spec_eval_index(cm)) by {
        if m >= 350 {
            assert(m / 50 >= 7) by (nonlinear_arith)
                requires
                    m >= 350,
            ;
        } else if m <= -350 {
            assert((-m) / 50 >= 7) by (nonlinear_arith)
                requires
                    -m >= 350,
            ;
        }
    }
    assert(clamp(spec_history_index(history), 0, 16) == clamp(spec_history_index(ch), 0, 16)) by {
        if history >= 575 {
            assert(history / 64 >= 8) by (nonlinear_arith)
                requires
                    history >= 575,
            ;
        } else if history <= -575 {
            assert((-history) / 64 >= 8) by (nonlinear_arith)
                requires
                    -history >= 575,
            ;
        }
    }
}

} // verus!
