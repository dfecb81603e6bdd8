use vstd::prelude::*;

use crate::bm::bm_runner::time::MAX_PLY;
use crate::bm::bm_search::search::{entry_bounds, qsearch_tt_cutoff, spec_tt_cutoff};
use crate::bm::bm_search::see::{compare_see, spec_compare_see};
use crate::bm::bm_util::eval::{score_next, Depth, Evaluation, CHECKMATE_EVAL};
use crate::bm::bm_util::t_table::Bounds;
use crate::bm::chess_types::{Board, Move};

verus! {

/// What the transposition table holds for a position: the bound, the score, the move and
/// the static evaluation that were stored.
#[derive(Debug, Clone, Copy, PartialEq, Eq)]
pub struct QEntry {
    pub bounds: Bounds,
    pub score: Evaluation,
    pub table_move: Option<Move>,
    pub eval: Option<Evaluation>,
}

/// What a node of the quiescence search asks its driver to do.
#[derive(Debug, Clone, Copy, PartialEq, Eq)]
pub enum QAction {
    /// Leave the node with `score`, after writing `store` (bound, score, move, static
    /// evaluation) into the table at depth 0 when it is given.
    Return { score: Evaluation, store: Option<(Bounds, Evaluation, Option<Move>, Evaluation)> },
    /// Ask the capture picker for the next move and report it with [QNode::pick].
    Pick,
    /// Play `mv`, search the child node between `alpha` and `beta`, take the move back and
    /// report the child's score with [QNode::child].
    Search { mv: Move, alpha: Evaluation, beta: Evaluation },
}

/// One node of the quiescence search: the decisions between the driver's probes of the
/// table, evaluations, picks and child searches.
pub struct QNode {
    pub alpha: Evaluation,
    pub beta: Evaluation,
    pub initial_alpha: Evaluation,
    /// The best score seen so far (the stand-pat score counts).
    pub highest: Option<Evaluation>,
    pub best_move: Option<Move>,
    /// How many moves were searched.
    pub move_cnt: u32,
    /// The static evaluation with the aggression adjustment.
    pub stand_pat: Evaluation,
    /// The static evaluation stored with the node's entry.
    pub raw_eval: Evaluation,
    /// The move being searched.
    pub current: Option<Move>,
}

/// [QNode] as plain values.
pub struct QModel {
    pub alpha: i16,
    pub beta: i16,
    pub initial_alpha: i16,
    pub highest: Option<i16>,
    pub best_move: Option<Move>,
    pub move_cnt: u32,
    pub stand_pat: i16,
    pub raw_eval: i16,
    pub current: Option<Move>,
}

/// [QAction] as plain values.
pub enum QActionModel {
    Return { score: i16, store: Option<(Bounds, i16, Option<Move>, i16)> },
    Pick,
    Search { mv: Move, alpha: i16, beta: i16 },
}

pub open spec fn opt_model(e: Option<Evaluation>) -> Option<i16> {
    match e {
        Some(v) => Some(v@),
        None => None,
    }
}

impl QNode {
    pub open spec fn model(&self) -> QModel {
        QModel {
            alpha: self.alpha@,
            beta: self.beta@,
            initial_alpha: self.initial_alpha@,
            highest: opt_model(self.highest),
            best_move: self.best_move,
            move_cnt: self.move_cnt,
            stand_pat: self.stand_pat@,
            raw_eval: self.raw_eval@,
            current: self.current,
        }
    }
}

pub open spec fn q_action_model(a: QAction) -> QActionModel {
    match a {
        QAction::Return { score, store } => QActionModel::Return {
            score: score@,
            store: match store {
                Some((b, s, m, e)) => Some((b, s@, m, e@)),
                None => None,
            },
        },
        QAction::Pick => QActionModel::Pick,
        QAction::Search { mv, alpha, beta } => QActionModel::Search { mv, alpha: alpha@, beta: beta@ },
    }
}

/// The static evaluation of the node: the stored one when the entry has it, else `eval`.
pub open spec fn q_raw_eval(entry: Option<QEntry>, eval: i16) -> i16 {
    match entry {
        Some(e) => match e.eval {
            Some(v) => v@,
            None => eval,
        },
        None => eval,
    }
}

/// The arithmetic of entering a node stays within `i16`.
pub open spec fn q_enter_ok(entry: Option<QEntry>, eval: i16, aggression: i16) -> bool {
    &&& i16::MIN <= eval + aggression <= i16::MAX
    &&& i16::MIN <= q_raw_eval(entry, eval) + aggression <= i16::MAX
}

/// Entering a node: a stopped search leaves with the lowest score, a node at the ply limit
/// with its evaluation, a table entry that proves a bound outside the window with its
/// score. Outside check the stand-pat score raises alpha and cuts off at beta. Otherwise
/// the moves are picked.
pub open spec fn spec_q_enter(
    alpha: i16,
    beta: i16,
    aborted: bool,
    ply: u32,
    entry: Option<QEntry>,
    in_check: bool,
    eval: i16,
    aggression: i16,
) -> (QModel, QActionModel) {
    let raw = q_raw_eval(entry, eval);
    let sp = (raw + aggression) as i16;
    let m0 = QModel {
        alpha,
        beta,
        initial_alpha: alpha,
        highest: None,
        best_move: match entry {
            Some(e) => e.table_move,
            None => None,
        },
        move_cnt: 0,
        stand_pat: sp,
        raw_eval: raw,
        current: None,
    };
    if aborted {
        (m0, QActionModel::Return { score: (-CHECKMATE_EVAL) as i16, store: None })
    } else if ply >= MAX_PLY {
        (m0, QActionModel::Return { score: (eval + aggression) as i16, store: None })
    } else if entry is Some && spec_tt_cutoff(entry->0.bounds, entry->0.score@, alpha, beta) is Some {
        (m0, QActionModel::Return { score: spec_tt_cutoff(entry->0.bounds, entry->0.score@, alpha, beta)->0, store: None })
    } else if !in_check && sp > alpha {
        if sp >= beta {
            (m0, QActionModel::Return { score: sp, store: None })
        } else {
            (QModel { alpha: sp, highest: Some(sp), ..m0 }, QActionModel::Pick)
        }
    } else {
        (m0, QActionModel::Pick)
    }
}

/// Leaving the node once no more moves are searched: a stopped search leaves with the
/// lowest score; else the best score is stored with its bound and returned, or alpha when
/// no score was seen.
pub open spec fn spec_q_finish(m: QModel, aborted: bool) -> QActionModel {
    if aborted {
        QActionModel::Return { score: (-CHECKMATE_EVAL) as i16, store: None }
    } else {
        match m.highest {
            Some(h) => QActionModel::Return {
                score: h,
                store: Some(
                    (
                        if h <= m.initial_alpha {
                            Bounds::UpperBound
                        } else if h >= m.beta {
                            Bounds::LowerBound
                        } else {
                            Bounds::Exact
                        },
                        h,
                        m.best_move,
                        m.raw_eval,
                    ),
                ),
            },
            None => QActionModel::Return { score: m.alpha, store: None },
        }
    }
}

/// The arithmetic of deciding on a picked move stays within `i16`.
pub open spec fn q_pick_ok(m: QModel) -> bool {
    &&& m.stand_pat + 1000 <= i16::MAX
    &&& i16::MIN <= m.beta - m.stand_pat
}

/// A picked move: losing captures are skipped; one whose exchange gains enough to pass
/// beta from the stand-pat score fails high; neutral captures are skipped when the
/// stand-pat score is far below alpha; the others are searched with the window negated.
pub open spec fn spec_q_pick(m: QModel, board: Board, mv: Option<Move>, aborted: bool) -> (QModel, QActionModel) {
    match mv {
        None => (m, spec_q_finish(m, aborted)),
        Some(x) => if !spec_compare_see(board, x, 0) {
            (m, QActionModel::Pick)
        } else if m.stand_pat + 1000 >= m.beta && spec_compare_see(board, x, m.beta - m.stand_pat + 192) {
            (m, QActionModel::Return { score: m.beta, store: None })
        } else if m.stand_pat + 192 <= m.alpha && !spec_compare_see(board, x, 1) {
            (m, QActionModel::Pick)
        } else {
            (
                QModel { current: Some(x), ..m },
                QActionModel::Search { mv: x, alpha: score_next(m.beta), beta: score_next(m.alpha) },
            )
        },
    }
}

/// The child's score, seen from the node, updates the best score; a score above alpha
/// raises it and makes its move the best, and one at beta or above ends the node. After
/// the second move searched the node ends too.
pub open spec fn spec_q_child(m: QModel, child: i16, aborted: bool) -> (QModel, QActionModel) {
    let score = score_next(child);
    let highest = match m.highest {
        Some(h) => if score > h {
            Some(score)
        } else {
            Some(h)
        },
        None => Some(score),
    };
    let m1 = if score > m.alpha {
        QModel { highest, best_move: m.current, alpha: score, ..m }
    } else {
        QModel { highest, ..m }
    };
    if score > m.alpha && score >= m.beta {
        (m1, spec_q_finish(m1, aborted))
    } else {
        let m2 = QModel { move_cnt: (m1.move_cnt + 1) as u32, ..m1 };
        if m2.move_cnt >= 2 {
            (m2, spec_q_finish(m2, aborted))
        } else {
            (m2, QActionModel::Pick)
        }
    }
}

impl QNode {
    /// Enters a node searched between `alpha` and `beta` (see [spec_q_enter]): `aborted`
    /// tells whether the search was stopped, `entry` is what the table holds for the
    /// position, `eval` its static evaluation and `aggression` the adjustment added to it.
    pub fn enter(
        alpha: Evaluation,
        beta: Evaluation,
        aborted: bool,
        ply: u32,
        entry: Option<QEntry>,
        in_check: bool,
        eval: Evaluation,
        aggression: Evaluation,
    ) -> (r: (Self, QAction))
        requires
            q_enter_ok(entry, eval@, aggression@),
        ensures
            (r.0.model(), q_action_model(r.1)) == spec_q_enter(
                alpha@,
                beta@,
                aborted,
                ply,
                entry,
                in_check,
                eval@,
                aggression@,
            ),
    {
        let raw_eval = match entry {
            Some(e) => match e.eval {
                Some(v) => v,
                None => eval,
            },
            None => eval,
        };
        let stand_pat = raw_eval.add_eval(aggression);
        let best_move = match entry {
            Some(e) => e.table_move,
            None => None,
        };
        let mut node = QNode {
            alpha,
            beta,
            initial_alpha: alpha,
            highest: None,
            best_move,
            move_cnt: 0,
            stand_pat,
            raw_eval,
            current: None,
        };
        if aborted {
            return (node, QAction::Return { score: Evaluation::min(), store: None });
        }
        if ply >= MAX_PLY {
            return (node, QAction::Return { score: eval.add_eval(aggression), store: None });
        }
        if let Some(e) = entry {
            if let Some(s) = qsearch_tt_cutoff(e.bounds, e.score, alpha, beta) {
                return (node, QAction::Return { score: s, store: None });
            }
        }
        if !in_check && alpha.lt(&stand_pat) {
            if beta.le(&stand_pat) {
                return (node, QAction::Return { score: stand_pat, store: None });
            }
            node.alpha = stand_pat;
            node.highest = Some(stand_pat);
        }
        (node, QAction::Pick)
    }

    fn finish(&self, aborted: bool) -> (r: QAction)
        ensures
            q_action_model(r) == spec_q_finish(self.model(), aborted),
    {
        if aborted {
            return QAction::Return { score: Evaluation::min(), store: None };
        }
        match self.highest {
            Some(h) => {
                let bounds = entry_bounds(h, self.initial_alpha, self.beta);
                QAction::Return { score: h, store: Some((bounds, h, self.best_move, self.raw_eval)) }
            },
            None => QAction::Return { score: self.alpha, store: None },
        }
    }

    /// Takes the picker's next move (`None` once it ran dry; `aborted` tells whether the
    /// search was stopped) and decides on it (see [spec_q_pick]).
    pub fn pick(&mut self, board: &Board, mv: Option<Move>, aborted: bool) -> (r: QAction)
        requires
            mv matches Some(x) ==> x.wf(),
            q_pick_ok(old(self).model()),
        ensures
            (final(self).model(), q_action_model(r)) == spec_q_pick(old(self).model(), *board, mv, aborted),
    {
        match mv {
            None => self.finish(aborted),
            Some(x) => {
                if !compare_see(board, x, 0) {
                    return QAction::Pick;
                }
                if self.beta.le(&self.stand_pat.add_i16(1000)) {
                    let bound = self.beta.sub_eval(self.stand_pat).add_i16(192).raw();
                    if compare_see(board, x, bound) {
                        return QAction::Return { score: self.beta, store: None };
                    }
                }
                if self.stand_pat.add_i16(192).le(&self.alpha) && !compare_see(board, x, 1) {
                    return QAction::Pick;
                }
                self.current = Some(x);
                QAction::Search { mv: x, alpha: self.beta.shr_next(Depth::Next), beta: self.alpha.shr_next(Depth::Next) }
            },
        }
    }

    /// Takes the score of the child search of the current move (`aborted` tells whether
    /// the search was stopped) and decides what follows (see [spec_q_child]).
    pub fn child(&mut self, score: Evaluation, aborted: bool) -> (r: QAction)
        requires
            old(self).move_cnt < u32::MAX,
        ensures
            (final(self).model(), q_action_model(r)) == spec_q_child(old(self).model(), score@, aborted),
    {
        let s = score.shl_next(Depth::Next);
        self.highest = match self.highest {
            Some(h) => if h.lt(&s) {
                Some(s)
            } else {
                Some(h)
            },
            None => Some(s),
        };
        let above = self.alpha.lt(&s);
        if above {
            self.best_move = self.current;
            self.alpha = s;
            if self.beta.le(&s) {
                return self.finish(aborted);
            }
        }
        self.move_cnt = self.move_cnt + 1;
        if self.move_cnt >= 2 {
            return self.finish(aborted);
        }
        QAction::Pick
    }
}

/// Alpha is the larger of the node's initial alpha and the best score seen so far.
pub open spec fn q_alpha_tracks_best(m: QModel) -> bool {
    match m.highest {
        Some(h) => m.alpha == if h > m.initial_alpha { h } else { m.initial_alpha },
        None => m.alpha == m.initial_alpha,
    }
}

/// Every step of a node keeps alpha at the larger of the initial alpha and the best score
/// seen: entering sets it up, and neither a pick nor a child's score breaks it.
pub proof fn lemma_q_alpha_tracks_best(
    alpha: i16,
    beta: i16,
    aborted: bool,
    ply: u32,
    entry: Option<QEntry>,
    in_check: bool,
    eval: i16,
    aggression: i16,
    m: QModel,
    board: Board,
    mv: Option<Move>,
    child: i16,
)
    ensures
        q_alpha_tracks_best(spec_q_enter(alpha, beta, aborted, ply, entry, in_check, eval, aggression).0),
        q_alpha_tracks_best(m) ==> q_alpha_tracks_best(spec_q_pick(m, board, mv, aborted).0),
        q_alpha_tracks_best(m) ==> q_alpha_tracks_best(spec_q_child(m, child, aborted).0),
{
}

} // verus!
