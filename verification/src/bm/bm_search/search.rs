use vstd::prelude::*;

use crate::bm::bm_util::eval::{Evaluation, score_is_mate};
use crate::bm::bm_util::t_table::Bounds;
use crate::bm::chess_types::BitBoard;

verus! {

/// Kinds of search node: whether null-move pruning is allowed, whether the node is on the
/// principal variation, and the kind used for zero-window children.
pub trait SearchType {
    spec fn spec_nm() -> bool;

    spec fn spec_pv() -> bool;

    fn nm() -> (r: bool)
        ensures
            r == Self::spec_nm(),
    ;

    fn pv() -> (r: bool)
        ensures
            r == Self::spec_pv(),
    ;
}

/// Principal-variation node.
pub struct Pv;

/// Zero-window node.
pub struct Zw;

/// Zero-window node where null moves are not tried.
pub struct NoNm;

impl SearchType for Pv {
    open spec fn spec_nm() -> bool {
        false
    }

    open spec fn spec_pv() -> bool {
        true
    }

    fn nm() -> (r: bool) {
        false
    }

    fn pv() -> (r: bool) {
        true
    }
}

impl SearchType for Zw {
    open spec fn spec_nm() -> bool {
        true
    }

    open spec fn spec_pv() -> bool {
        false
    }

    fn nm() -> (r: bool) {
        true
    }

    fn pv() -> (r: bool) {
        false
    }
}

impl SearchType for NoNm {
    open spec fn spec_nm() -> bool {
        false
    }

    open spec fn spec_pv() -> bool {
        false
    }

    fn nm() -> (r: bool) {
        false
    }

    fn pv() -> (r: bool) {
        false
    }
}

/// Reverse futility pruning is tried up to depth 9.
pub fn do_rev_fp(depth: u32) -> (r: bool)
    ensures
        r == (depth <= 9),
{
    depth <= 9
}

/// Reverse futility margin: 71 per ply, 62 less when the position is improving.
pub fn rev_fp(depth: u32, improving: bool) -> (r: i16)
    requires
        (depth as i16) * 71 - 62 >= i16::MIN,
        (depth as i16) * 71 <= i16::MAX,
    ensures
        r == (depth as i16) * 71 - (if improving { 62int } else { 0int }),
{
    (depth as i16) * 71 - (if improving { 62 } else { 0 })
}

/// Razoring is tried up to depth 4.
pub fn do_razor(depth: u32) -> (r: bool)
    ensures
        r == (depth <= 4),
{
    depth <= 4
}

pub fn razor_margin(depth: u32) -> (r: i16)
    requires
        i16::MIN <= (depth as i16) * 306 <= i16::MAX,
    ensures
        r == (depth as i16) * 306,
{
    (depth as i16) * 306
}

pub fn razor_qsearch() -> (r: i16)
    ensures
        r == 277,
{
    277
}

/// Null-move pruning is tried in null-move nodes above depth 4 (above depth 7 when the
/// opponent threatens something), with the evaluation at least beta, and when the side has
/// pieces other than pawns and the king.
pub fn do_nmp<Search: SearchType>(
    pawns_and_kings: BitBoard,
    occupied: BitBoard,
    depth: u32,
    eval: i16,
    beta: i16,
    nstm_threat: bool,
) -> (r: bool)
    ensures
        r == (Search::spec_nm() && depth > 4 && !(nstm_threat && depth <= 7) && eval >= beta
            && pawns_and_kings != occupied),
{
    Search::nm() && depth > 4 && !(nstm_threat && depth <= 7) && eval >= beta && pawns_and_kings != occupied
}

pub open spec fn spec_nmp_depth(depth: u32, eval: i16, beta: i16) -> int {
    let r = 4 + depth * 23 / 60 + (eval - beta) / 204;
    let d = if depth >= r { depth - r } else { 0 };
    if d < 1 {
        1
    } else {
        d
    }
}

/// Depth of the null-move search: reduced by 4, by 23/60 of the depth and by how far the
/// evaluation exceeds beta, but at least 1.
pub fn nmp_depth(depth: u32, eval: i16, beta: i16) -> (r: u32)
    requires
        eval >= beta,
        depth * 23 <= u32::MAX,
    ensures
        r == spec_nmp_depth(depth, eval, beta),
        1 <= r <= (if depth >= 1 { depth as int } else { 1 }),
{
    let diff: i32 = eval as i32 - beta as i32;
    let r = 4 + depth * 23 / 60 + (diff / 204) as u32;
    let d = if depth >= r { depth - r } else { 0 };
    if d < 1 {
        1
    } else {
        d
    }
}

/// Internal iterative reduction: one ply from depth 4.
pub fn iir(depth: u32) -> (r: u32)
    ensures
        r == (if depth >= 4 { 1int } else { 0int }),
{
    if depth >= 4 {
        1
    } else {
        0
    }
}

/// Futility margin: 86 per ply.
pub fn fp(depth: u32) -> (r: i16)
    requires
        i16::MIN <= (depth as i16) * 86 <= i16::MAX,
    ensures
        r == (depth as i16) * 86,
{
    (depth as i16) * 86
}

/// SEE pruning margin: 123 per ply.
pub fn see_fp(depth: u32) -> (r: i16)
    requires
        i16::MIN <= (depth as i16) * 123 <= i16::MAX,
    ensures
        r == (depth as i16) * 123,
{
    (depth as i16) * 123
}

/// History pruning threshold: `-(depth²) * 138 / 10`.
pub fn hp(depth: u32) -> (r: i32)
    requires
        (depth * depth) * 138 <= i32::MAX,
    ensures
        r == -(((depth * depth) * 138) / 10),
{
    let sq = (depth * depth) as i32;
    -sq * 138 / 10
}

/// History adjusts late-move reductions by one ply per 112 points (rounding toward zero).
pub fn history_lmr(history: i16) -> (r: i16)
    ensures
        r == (if history >= 0 { history / 112 } else { -((-history) / 112) }),
{
    history / 112
}

/// What a transposition-table hit decides in a non-PV node searched at least as deep:
/// exact scores are returned, lower bounds when they reach beta, upper bounds when they stay
/// at or below alpha.
pub open spec fn spec_tt_cutoff(bounds: Bounds, score: i16, alpha: i16, beta: i16) -> Option<i16> {
    match bounds {
        Bounds::Exact => Some(score),
        Bounds::LowerBound => if score >= beta { Some(score) } else { None },
        Bounds::UpperBound => if score <= alpha { Some(score) } else { None },
    }
}

pub fn tt_cutoff(
    is_pv: bool,
    entry_depth: u32,
    depth: u32,
    bounds: Bounds,
    score: Evaluation,
    alpha: Evaluation,
    beta: Evaluation,
) -> (r: Option<Evaluation>)
    ensures
        match r {
            Some(s) => !is_pv && entry_depth >= depth && spec_tt_cutoff(bounds, score@, alpha@, beta@)
                == Some(s@),
            None => is_pv || entry_depth < depth || spec_tt_cutoff(bounds, score@, alpha@, beta@) is None,
        },
{
    if !is_pv && entry_depth >= depth {
        qsearch_tt_cutoff(bounds, score, alpha, beta)
    } else {
        None
    }
}

/// In quiescence search any stored entry may cut off, whatever its depth.
pub fn qsearch_tt_cutoff(bounds: Bounds, score: Evaluation, alpha: Evaluation, beta: Evaluation) -> (r: Option<Evaluation>)
    ensures
        match r {
            Some(s) => spec_tt_cutoff(bounds, score@, alpha@, beta@) == Some(s@),
            None => spec_tt_cutoff(bounds, score@, alpha@, beta@) is None,
        },
{
    match bounds {
        Bounds::Exact => Some(score),
        Bounds::LowerBound => if beta.le(&score) {
            Some(score)
        } else {
            None
        },
        Bounds::UpperBound => if score.le(&alpha) {
            Some(score)
        } else {
            None
        },
    }
}

/// The bound a finished node stores: an upper bound if nothing beat the original alpha,
/// a lower bound on a beta cutoff, else exact.
pub fn entry_bounds(highest_score: Evaluation, initial_alpha: Evaluation, beta: Evaluation) -> (r: Bounds)
    ensures
        r == (if highest_score@ <= initial_alpha@ {
            Bounds::UpperBound
        } else if highest_score@ >= beta@ {
            Bounds::LowerBound
        } else {
            Bounds::Exact
        }),
{
    if highest_score.le(&initial_alpha) {
        Bounds::UpperBound
    } else if beta.le(&highest_score) {
        Bounds::LowerBound
    } else {
        Bounds::Exact
    }
}

/// The evaluation used to decide null-move pruning, sharpened by a stored bound.
pub fn nmp_eval(tt_entry: Option<(Bounds, Evaluation)>, eval: Evaluation) -> (r: Evaluation)
    ensures
        r@ == match tt_entry {
            None => eval@,
            Some((Bounds::LowerBound, s)) => if s@ >= eval@ { s@ } else { eval@ },
            Some((Bounds::Exact, s)) => s@,
            Some((Bounds::UpperBound, s)) => if s@ <= eval@ { s@ } else { eval@ },
        },
{
    match tt_entry {
        None => eval,
        Some((Bounds::LowerBound, s)) => if eval.le(&s) {
            s
        } else {
            eval
        },
        Some((Bounds::Exact, s)) => s,
        Some((Bounds::UpperBound, s)) => if s.le(&eval) {
            s
        } else {
            eval
        },
    }
}

/// A node is improving when not in check and its evaluation beats the one two plies earlier.
pub fn improving(in_check: bool, eval: Evaluation, prev_move_eval: Option<Evaluation>) -> (r: bool)
    ensures
        r == match prev_move_eval {
            Some(p) => !in_check && eval@ > p@,
            None => false,
        },
{
    match prev_move_eval {
        Some(p) => !in_check && p.lt(&eval),
        None => false,
    }
}

/// Reverse futility pruning returns a score between the evaluation and beta, weighted 2:1.
pub fn rev_fp_score(eval: Evaluation, beta: Evaluation) -> (r: Evaluation)
    requires
        i16::MIN <= eval@ * 2 <= i16::MAX,
        i16::MIN <= eval@ * 2 + beta@ <= i16::MAX,
    ensures
        r@ == (if eval@ * 2 + beta@ >= 0 { (eval@ * 2 + beta@) / 3 } else { -((-(eval@ * 2 + beta@)) / 3) }),
{
    eval.mul_i16(2).add_eval(beta).div_i16(3)
}

/// The outcome of a singular-extension search.
#[derive(Clone, Copy, Debug, PartialEq, Eq, Structural)]
pub enum Singular {
    /// Search the move with this extension (may be negative); `rewarded` when the move
    /// proved singular and gets a history bonus.
    Extend { extension: i32, rewarded: bool },
    /// The node fails high with this score (multi-cut).
    MultiCut { score: i16 },
}

/// Decides the extension after searching all moves but the table move against `s_beta`.
pub open spec fn spec_singular(
    is_pv: bool,
    multi_cut: bool,
    is_capture: bool,
    cut_node: bool,
    s_score: i16,
    s_beta: i16,
    beta: i16,
    entry_score: i16,
    eval: i16,
    alpha: i16,
) -> Singular {
    if s_score < s_beta {
        let e1: int = 1;
        let e2 = if !is_pv && multi_cut { e1 + 1 + (if !is_capture && s_score + 197 < s_beta { 1int } else { 0 }) } else { e1 };
        let e3 = if is_pv && multi_cut && s_score + 120 < s_beta { e2 + 1 } else { e2 };
        let e4 = if !is_pv && !multi_cut && eval + 100 <= alpha { e3 + 1 } else { e3 };
        Singular::Extend { extension: e4 as i32, rewarded: true }
    } else if multi_cut && s_beta >= beta {
        Singular::MultiCut { score: s_beta }
    } else if multi_cut && entry_score >= beta {
        Singular::Extend { extension: -2i32, rewarded: false }
    } else if multi_cut && cut_node {
        Singular::Extend { extension: -2i32, rewarded: false }
    } else {
        Singular::Extend { extension: 0i32, rewarded: false }
    }
}

pub fn singular(
    is_pv: bool,
    multi_cut: bool,
    is_capture: bool,
    cut_node: bool,
    s_score: Evaluation,
    s_beta: Evaluation,
    beta: Evaluation,
    entry_score: Evaluation,
    eval: Evaluation,
    alpha: Evaluation,
) -> (r: Singular)
    ensures
        r == spec_singular(is_pv, multi_cut, is_capture, cut_node, s_score@, s_beta@, beta@, entry_score@, eval@, alpha@),
{
    let s = s_score.raw() as i32;
    let sb = s_beta.raw() as i32;
    if s < sb {
        let mut extension: i32 = 1;
        if !is_pv && multi_cut {
            extension += 1;
            if !is_capture && s + 197 < sb {
                extension += 1;
            }
        }
        if is_pv && multi_cut && s + 120 < sb {
            extension += 1;
        }
        if !is_pv && !multi_cut && eval.raw() as i32 + 100 <= alpha.raw() as i32 {
            extension += 1;
        }
        Singular::Extend { extension, rewarded: true }
    } else if multi_cut && sb >= beta.raw() as i32 {
        Singular::MultiCut { score: s_beta.raw() }
    } else if multi_cut && entry_score.raw() >= beta.raw() {
        Singular::Extend { extension: -2, rewarded: false }
    } else if multi_cut && cut_node {
        Singular::Extend { extension: -2, rewarded: false }
    } else {
        Singular::Extend { extension: 0, rewarded: false }
    }
}

/// Late-move reduction adjustments for a move searched after the first: one ply less early in
/// the tree, for killers and for moves that add threats; one ply more off the PV, when not
/// improving and at expected cut nodes; then clamped to `[0, depth - 2]`.
pub open spec fn spec_lmr_adjust(
    reduction: i16,
    ply: u32,
    depth: u32,
    is_pv: bool,
    improving: bool,
    is_killer: bool,
    cut_node: bool,
    more_threats: bool,
) -> int {
    let r = reduction - (if ply <= (depth + ply) * 2 / 5 { 1int } else { 0 }) + (if !is_pv { 1int } else { 0 })
        + (if !improving { 1int } else { 0 }) - (if is_killer { 1int } else { 0 }) + (if cut_node { 1int } else { 0 })
        - (if more_threats { 1int } else { 0 });
    let cap = (depth as i16) - 2;
    let m = if r < cap { r } else { cap as int };
    if m < 0 {
        0
    } else {
        m
    }
}

pub fn lmr_adjust(
    reduction: i16,
    ply: u32,
    depth: u32,
    is_pv: bool,
    improving: bool,
    is_killer: bool,
    cut_node: bool,
    more_threats: bool,
) -> (r: i16)
    requires
        i16::MIN + 3 <= reduction <= i16::MAX - 3,
        (depth + ply) * 2 <= u32::MAX,
        (depth as i16) >= i16::MIN + 2,
    ensures
        r == spec_lmr_adjust(reduction, ply, depth, is_pv, improving, is_killer, cut_node, more_threats),
{
    let mut reduction = reduction;
    if ply <= (depth + ply) * 2 / 5 {
        reduction -= 1;
    }
    if !is_pv {
        reduction += 1;
    }
    if !improving {
        reduction += 1;
    }
    if is_killer {
        reduction -= 1;
    }
    if cut_node {
        reduction += 1;
    }
    if more_threats {
        reduction -= 1;
    }
    let cap = depth as i16 - 2;
    let m = if reduction < cap { reduction } else { cap };
    if m < 0 {
        0
    } else {
        m
    }
}

/// History bonus amount after a beta cutoff: the depth, plus one if the static evaluation was
/// at most alpha, plus one if the score beat beta by more than 50.
pub fn history_amount(depth: u32, eval_below_alpha: bool, big_cutoff: bool) -> (r: u32)
    requires
        depth <= u32::MAX - 2,
    ensures
        r == depth + (if eval_below_alpha { 1int } else { 0 }) + (if big_cutoff { 1int } else { 0 }),
{
    depth + (if eval_below_alpha { 1 } else { 0 }) + (if big_cutoff { 1 } else { 0 })
}

/// With no legal move the node is a stalemate (0) outside check and mated (mate in -1) in check.
pub fn no_move_score(in_check: bool) -> (r: Evaluation)
    ensures
        r@ == (if in_check { crate::bm::bm_util::eval::checkmate_score(-1i16) } else { 0i16 }),
{
    if in_check {
        Evaluation::new_checkmate(-1)
    } else {
        Evaluation::new(0)
    }
}

/// A stored entry that the search trusts keeps its score's sign: the bound decision never
/// turns a failing-low score into a lower bound.
pub proof fn lemma_entry_bounds_sound(highest: i16, initial_alpha: i16, beta: i16)
    requires
        initial_alpha < beta,
    ensures
        highest <= initial_alpha ==> !(highest >= beta),
{
}

/// A TT cutoff in a non-PV node only returns a score that is exact or that lies outside the
/// window on the side its bound proves.
pub proof fn lemma_tt_cutoff_outside_window(bounds: Bounds, score: i16, alpha: i16, beta: i16)
    ensures
        spec_tt_cutoff(bounds, score, alpha, beta) matches Some(s) ==> s == score && (bounds == Bounds::Exact
            || (bounds == Bounds::LowerBound && score >= beta) || (bounds == Bounds::UpperBound && score
            <= alpha)),
{
}

} // verus!
