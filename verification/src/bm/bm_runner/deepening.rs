use vstd::prelude::*;

use crate::bm::bm_runner::ab_runner::{aspiration_bounds, aspiration_outcome, Aspiration};
use crate::bm::bm_util::eval::{score_is_mate, Evaluation, CHECKMATE_EVAL};
use crate::bm::bm_util::window::{
    model_fail_high, model_fail_high_ok, model_fail_low, model_fail_low_ok, model_reset, model_reset_ok, model_set,
    Window, WindowModel,
};
use crate::bm::chess_types::Move;

verus! {

/// What the driver of one search thread reports back to [Deepening::step].
#[derive(Debug, Clone, Copy, PartialEq, Eq)]
pub enum DeepenEvent {
    /// The root search at the requested bounds returned `score`; `aborted` tells whether
    /// it was stopped, and `pv_move` is the first move of its principal variation.
    Searched { score: Evaluation, aborted: bool, pv_move: Option<Move> },
    /// The time manager took the finished search into account; `stop` tells whether
    /// deepening must stop at the current depth.
    Deepened { stop: bool },
    /// The finished iteration was reported; `stop` tells whether deepening must stop
    /// before the next depth.
    Reported { stop: bool },
}

/// What the driver does next.
#[derive(Debug, Clone, Copy, PartialEq, Eq)]
pub enum DeepenAction {
    /// Search the root to `depth` between `alpha` and `beta`, then report [DeepenEvent::Searched].
    Search { depth: u32, alpha: Evaluation, beta: Evaluation },
    /// Hand the score and first move of the search to the time manager, ask it whether to
    /// stop at `depth`, then report [DeepenEvent::Deepened].
    Deepen { depth: u32, score: Evaluation, pv_move: Option<Move> },
    /// Report the finished iteration, ask whether to stop before `depth + 1`, then report
    /// [DeepenEvent::Reported].
    Report { depth: u32, eval: Evaluation, best_move: Option<Move> },
    /// The search is over: the best move and score of the last finished iteration (none
    /// when no iteration finished) and the depth reached.
    Finish { best_move: Option<Move>, eval: Option<Evaluation>, depth: u32 },
}

/// The iterative deepening of one search thread, with its aspiration window.
pub struct Deepening {
    /// The depth being searched.
    pub depth: u32,
    /// The score of the last finished iteration.
    pub eval: Option<Evaluation>,
    /// The best move of the last finished iteration.
    pub best_move: Option<Move>,
    /// How many searches of this depth failed outside their bounds.
    pub fail_cnt: u32,
    /// The time manager asked to stop.
    pub abort: bool,
    pub window: Window,
    /// The bounds of the last search asked for.
    pub alpha: Evaluation,
    pub beta: Evaluation,
    /// The score and first move of the last search.
    pub score: Evaluation,
    pub pv_move: Option<Move>,
}

/// [Deepening] as plain values.
pub struct DeepeningModel {
    pub depth: u32,
    pub eval: Option<i16>,
    pub best_move: Option<Move>,
    pub fail_cnt: u32,
    pub abort: bool,
    pub window: WindowModel,
    pub alpha: i16,
    pub beta: i16,
    pub score: i16,
    pub pv_move: Option<Move>,
}

/// [DeepenAction] as plain values.
pub enum ActionModel {
    Search { depth: u32, alpha: i16, beta: i16 },
    Deepen { depth: u32, score: i16, pv_move: Option<Move> },
    Report { depth: u32, eval: i16, best_move: Option<Move> },
    Finish { best_move: Option<Move>, eval: Option<i16>, depth: u32 },
}

pub open spec fn eval_model(e: Option<Evaluation>) -> Option<i16> {
    match e {
        Some(v) => Some(v@),
        None => None,
    }
}

impl Deepening {
    pub open spec fn model(&self) -> DeepeningModel {
        DeepeningModel {
            depth: self.depth,
            eval: eval_model(self.eval),
            best_move: self.best_move,
            fail_cnt: self.fail_cnt,
            abort: self.abort,
            window: self.window.model(),
            alpha: self.alpha@,
            beta: self.beta@,
            score: self.score@,
            pv_move: self.pv_move,
        }
    }
}

pub open spec fn action_model(a: DeepenAction) -> ActionModel {
    match a {
        DeepenAction::Search { depth, alpha, beta } => ActionModel::Search { depth, alpha: alpha@, beta: beta@ },
        DeepenAction::Deepen { depth, score, pv_move } => ActionModel::Deepen { depth, score: score@, pv_move },
        DeepenAction::Report { depth, eval, best_move } => ActionModel::Report { depth, eval: eval@, best_move },
        DeepenAction::Finish { best_move, eval, depth } => ActionModel::Finish { best_move, eval: eval_model(eval), depth },
    }
}

/// The bounds of a root search: the aspiration window once a score below 1000 in size is
/// known, the depth is over 4 and fewer than 10 searches of this depth failed; else the
/// whole range.
pub open spec fn spec_bounds(m: DeepeningModel) -> (i16, i16) {
    if m.eval matches Some(e) && -1000 < e < 1000 && m.depth > 4 && m.fail_cnt < 10 {
        (m.window.alpha, m.window.beta)
    } else {
        ((-CHECKMATE_EVAL) as i16, CHECKMATE_EVAL)
    }
}

/// The head of the aspiration loop: stop when the time manager asked to, else search at
/// the bounds.
pub open spec fn spec_next_search(m: DeepeningModel) -> (DeepeningModel, ActionModel) {
    if m.abort {
        (m, ActionModel::Finish { best_move: m.best_move, eval: m.eval, depth: m.depth })
    } else {
        let (a, b) = spec_bounds(m);
        (DeepeningModel { alpha: a, beta: b, ..m }, ActionModel::Search { depth: m.depth, alpha: a, beta: b })
    }
}

/// A new depth: no failures yet and the window back at its starting size.
pub open spec fn spec_new_depth(m: DeepeningModel) -> (DeepeningModel, ActionModel) {
    spec_next_search(DeepeningModel { fail_cnt: 0, window: model_reset(m.window), ..m })
}

/// The score of the last search was accepted (inside its bounds, or a mate).
pub open spec fn accepted(m: DeepeningModel) -> bool {
    (m.alpha < m.score && m.score < m.beta) || score_is_mate(m.score)
}

/// One step of iterative deepening.
pub open spec fn spec_step(m: DeepeningModel, e: DeepenEvent) -> (DeepeningModel, ActionModel) {
    match e {
        DeepenEvent::Searched { score, aborted, pv_move } => if m.depth > 1 && aborted {
            (m, ActionModel::Finish { best_move: m.best_move, eval: m.eval, depth: m.depth })
        } else {
            (
                DeepeningModel { window: model_set(m.window, score@), score: score@, pv_move, ..m },
                ActionModel::Deepen { depth: m.depth, score: score@, pv_move },
            )
        },
        DeepenEvent::Deepened { stop } => {
            let m1 = DeepeningModel { abort: stop, ..m };
            if accepted(m1) {
                let m2 = DeepeningModel { best_move: m1.pv_move, eval: Some(m1.score), ..m1 };
                (m2, ActionModel::Report { depth: m2.depth, eval: m2.score, best_move: m2.pv_move })
            } else if m1.score <= m1.alpha {
                spec_next_search(
                    DeepeningModel { fail_cnt: (m1.fail_cnt + 1) as u32, window: model_fail_low(m1.window), ..m1 },
                )
            } else {
                spec_next_search(
                    DeepeningModel { fail_cnt: (m1.fail_cnt + 1) as u32, window: model_fail_high(m1.window), ..m1 },
                )
            }
        },
        DeepenEvent::Reported { stop } => {
            let m1 = DeepeningModel { depth: (m.depth + 1) as u32, ..m };
            if stop {
                (m1, ActionModel::Finish { best_move: m1.best_move, eval: m1.eval, depth: m1.depth })
            } else {
                spec_new_depth(m1)
            }
        },
    }
}

/// The arithmetic of the step stays in range: the window operations it makes do not
/// overflow `i16`, and the counters do not overflow `u32`.
pub open spec fn step_ok(m: DeepeningModel, e: DeepenEvent) -> bool {
    match e {
        DeepenEvent::Searched { score, .. } => score@ != i16::MIN,
        DeepenEvent::Deepened { stop } => {
            let m1 = DeepeningModel { abort: stop, ..m };
            !accepted(m1) ==> {
                &&& m.fail_cnt < u32::MAX
                &&& (m.score <= m.alpha ==> model_fail_low_ok(m.window))
                &&& (m.score > m.alpha ==> model_fail_high_ok(m.window))
            }
        },
        DeepenEvent::Reported { stop } => {
            &&& m.depth < u32::MAX
            &&& (!stop ==> model_reset_ok(m.window))
        },
    }
}

/// Neither the last score nor the score of the last finished iteration is the smallest
/// `i16`, whose magnitude does not fit.
pub open spec fn model_ok(m: DeepeningModel) -> bool {
    &&& m.eval matches Some(e) ==> e != i16::MIN
    &&& m.score != i16::MIN
}

impl Deepening {
    /// Starts iterative deepening at depth 1 with the given window: the first action is a
    /// search over the whole range.
    pub fn start(window: Window) -> (r: (Self, DeepenAction))
        requires
            model_reset_ok(window.model()),
        ensures
            ({
                let m0 = DeepeningModel {
                    depth: 1,
                    eval: None,
                    best_move: None,
                    fail_cnt: 0,
                    abort: false,
                    window: window.model(),
                    alpha: (-CHECKMATE_EVAL) as i16,
                    beta: CHECKMATE_EVAL,
                    score: 0,
                    pv_move: None,
                };
                (r.0.model(), action_model(r.1)) == spec_new_depth(m0)
            }),
    {
        let mut d = Deepening {
            depth: 1,
            eval: None,
            best_move: None,
            fail_cnt: 0,
            abort: false,
            window,
            alpha: Evaluation::min(),
            beta: Evaluation::max(),
            score: Evaluation::new(0),
            pv_move: None,
        };
        let a = d.new_depth();
        (d, a)
    }

    fn next_search(&mut self) -> (r: DeepenAction)
        requires
            model_ok(old(self).model()),
        ensures
            (final(self).model(), action_model(r)) == spec_next_search(old(self).model()),
    {
        if self.abort {
            return DeepenAction::Finish { best_move: self.best_move, eval: self.eval, depth: self.depth };
        }
        let (a, b) = aspiration_bounds(self.eval, self.depth, self.fail_cnt, self.window.get());
        self.alpha = a;
        self.beta = b;
        DeepenAction::Search { depth: self.depth, alpha: a, beta: b }
    }

    fn new_depth(&mut self) -> (r: DeepenAction)
        requires
            model_ok(old(self).model()),
            model_reset_ok(old(self).window.model()),
        ensures
            (final(self).model(), action_model(r)) == spec_new_depth(old(self).model()),
    {
        self.fail_cnt = 0;
        self.window.reset();
        self.next_search()
    }

    /// Takes the driver's report and says what to do next (see [spec_step]).
    pub fn step(&mut self, event: DeepenEvent) -> (r: DeepenAction)
        requires
            model_ok(old(self).model()),
            step_ok(old(self).model(), event),
        ensures
            (final(self).model(), action_model(r)) == spec_step(old(self).model(), event),
            model_ok(final(self).model()),
    {
        match event {
            DeepenEvent::Searched { score, aborted, pv_move } => {
                if self.depth > 1 && aborted {
                    return DeepenAction::Finish { best_move: self.best_move, eval: self.eval, depth: self.depth };
                }
                self.window.set(score);
                self.score = score;
                self.pv_move = pv_move;
                DeepenAction::Deepen { depth: self.depth, score, pv_move }
            },
            DeepenEvent::Deepened { stop } => {
                self.abort = stop;
                match aspiration_outcome(self.score, self.alpha, self.beta) {
                    Aspiration::Accept => {
                        self.best_move = self.pv_move;
                        self.eval = Some(self.score);
                        DeepenAction::Report { depth: self.depth, eval: self.score, best_move: self.pv_move }
                    },
                    Aspiration::FailLow => {
                        self.fail_cnt = self.fail_cnt + 1;
                        self.window.fail_low();
                        self.next_search()
                    },
                    Aspiration::FailHigh => {
                        self.fail_cnt = self.fail_cnt + 1;
                        self.window.fail_high();
                        self.next_search()
                    },
                }
            },
            DeepenEvent::Reported { stop } => {
                self.depth = self.depth + 1;
                if stop {
                    return DeepenAction::Finish { best_move: self.best_move, eval: self.eval, depth: self.depth };
                }
                self.new_depth()
            },
        }
    }
}

/// After ten failed searches of a depth the bounds are the whole range, so the next score
/// that the search returns within `±CHECKMATE_EVAL` is accepted: the aspiration loop of a
/// depth ends.
pub proof fn lemma_full_range_accepts(m: DeepeningModel, score: Evaluation, pv_move: Option<Move>, stop: bool)
    requires
        !m.abort,
        m.fail_cnt >= 10,
        -CHECKMATE_EVAL <= score@ <= CHECKMATE_EVAL,
    ensures
        ({
            let (m1, a1) = spec_next_search(m);
            let (m2, a2) = spec_step(m1, DeepenEvent::Searched { score, aborted: false, pv_move });
            let (m3, a3) = spec_step(m2, DeepenEvent::Deepened { stop });
            &&& a1 == ActionModel::Search { depth: m.depth, alpha: (-CHECKMATE_EVAL) as i16, beta: CHECKMATE_EVAL }
            &&& a3 == ActionModel::Report { depth: m.depth, eval: score@, best_move: pv_move }
            &&& m3.eval == Some(score@)
            &&& m3.best_move == pv_move
        }),
{
}

/// Each reported iteration moves to the next depth, and no step goes back to a smaller one.
pub proof fn lemma_depth_grows(m: DeepeningModel, e: DeepenEvent)
    requires
        step_ok(m, e),
    ensures
        spec_step(m, e).0.depth >= m.depth,
        e matches DeepenEvent::Reported { .. } ==> spec_step(m, e).0.depth == m.depth + 1,
{
}

} // verus!
