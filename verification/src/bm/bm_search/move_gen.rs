use crate::bm::bm_search::move_entry::{opt_move_eq, MoveEntry};
use crate::bm::bm_search::see::{compare_see, move_value, spec_compare_see, spec_piece_pts};
use crate::bm::bm_util::history::{
    all_in_range, cont_ok, in_hist_range, CONT_SIZE, piece_of, spec_cont_index, spec_quiet_idx, History, HistoryIndices,
};
use crate::bm::chess_types::{bb_has, has, BitBoard, Board, Move, Piece, Square, KING, QUEEN};
use vstd::prelude::*;
use crate::bm::bm_search::scored_list::{list_new, list_push, list_slice, list_swap_remove, scored_items, MAX_MOVES};
use arrayvec::ArrayVec;

verus! {

/// The stages of the move picker.
#[derive(Debug, Copy, Clone, PartialEq, Eq, Structural)]
pub enum Phase {
    PvMove,
    GenPieceMoves,
    GenCaptures,
    GoodCaptures,
    Killers,
    GenQuiets,
    Quiets,
    BadCaptures,
}

/// The phase after skipping the quiet moves: from the killer or quiet stages straight to
/// the bad captures; other phases are kept.
pub open spec fn spec_skip_quiets(phase: Phase) -> Phase {
    match phase {
        Phase::Killers | Phase::GenQuiets | Phase::Quiets => Phase::BadCaptures,
        _ => phase,
    }
}

/// A move with its ordering score.
#[derive(Debug, Copy, Clone, PartialEq, Eq, Structural)]
pub struct ScoredMove {
    pub mv: Move,
    pub score: i16,
}

/// The move lands on a piece of the side not to move.
pub open spec fn spec_is_capture(board: Board, m: Move) -> bool {
    bb_has(board.colors[board.side_to_move.spec_opp().spec_index()], m.to as int)
}

/// The exchange value of what the move captures (0 for an empty square).
pub open spec fn spec_value(board: Board, m: Move) -> int {
    match board.spec_piece_on(m.to as int) {
        Some(p) => spec_piece_pts(p) as int,
        None => 0,
    }
}

/// Captures are ordered by capture history plus 32 times the captured value.
pub open spec fn spec_capture_score(board: Board, threats: u64, hist: History, m: Move) -> int {
    hist.spec_capture()[spec_quiet_idx(board, threats, m)] + spec_value(board, m) * 32
}

/// A continuation history entry, or 0 without the earlier move.
pub open spec fn cont_score(c: Option<(Piece, Square)>, table: Seq<i16>, board: Board, m: Move) -> int {
    match c {
        Some((pp, pt)) => table[spec_cont_index(
            board.side_to_move,
            pp as int,
            pt as int,
            piece_of(board, m.from as int),
            m.to as int,
        )] as int,
        None => 0,
    }
}

/// Queen promotions come first, other promotions last, and other quiet moves are ordered by
/// the sum of their quiet, counter-move and both follow-up histories.
pub open spec fn spec_quiet_score(board: Board, threats: u64, hist: History, idx: HistoryIndices, m: Move) -> int {
    match m.promotion {
        Some(p) => if p == QUEEN {
            i16::MAX as int
        } else {
            i16::MIN as int
        },
        None => hist.spec_quiet()[spec_quiet_idx(board, threats, m)] + cont_score(
            idx.cont_mv_1,
            hist.spec_counter_move(),
            board,
            m,
        ) + cont_score(idx.cont_mv_2, hist.spec_followup_move(), board, m) + cont_score(
            idx.cont_mv_4,
            hist.spec_followup_move(),
            board,
            m,
        ),
    }
}

proof fn lemma_cont_score_bounded(c: Option<(Piece, Square)>, table: Seq<i16>, board: Board, m: Move)
    requires
        cont_ok(c),
        all_in_range(table),
        table.len() == CONT_SIZE,
        m.wf(),
        board.spec_piece_on(m.from as int) is Some,
    ensures
        -512 <= cont_score(c, table, board, m) <= 512,
{
    if let Some((pp, pt)) = c {
        let piece = piece_of(board, m.from as int);
        assert(0 <= piece < 6);
        let i = spec_cont_index(board.side_to_move, pp as int, pt as int, piece, m.to as int);
        let st = board.side_to_move.spec_index();
        assert(0 <= st < 2);
        assert(0 <= i < 294912) by (nonlinear_arith)
            requires
                i == (((st * 6 + pp) * 64 + pt) * 6 + piece) * 64 + m.to,
                0 <= st < 2,
                0 <= pp < 6,
                0 <= pt < 64,
                0 <= piece < 6,
                0 <= m.to < 64,
        ;
        assert(in_hist_range(table[i]));
    }
}

proof fn lemma_plain_quiet_score_bounded(board: Board, threats: u64, hist: History, idx: HistoryIndices, m: Move)
    requires
        hist.wf(),
        idx.wf(),
        m.wf(),
        m.promotion is None,
        board.spec_piece_on(m.from as int) is Some,
    ensures
        -2048 <= spec_quiet_score(board, threats, hist, idx, m) <= 2048,
{
    hist.lemma_scores_bounded();
    let i = spec_quiet_idx(board, threats, m);
    let st = board.side_to_move.spec_index();
    let th: int = if bb_has(threats, m.from as int) { 1 } else { 0 };
    assert(0 <= i < 16384) by (nonlinear_arith)
        requires
            i == ((st * 2 + th) * 64 + m.from) * 64 + m.to,
            0 <= st < 2,
            0 <= th < 2,
            0 <= m.from < 64,
            0 <= m.to < 64,
    ;
    assert(in_hist_range(hist.spec_quiet()[i]));
    lemma_cont_score_bounded(idx.cont_mv_1, hist.spec_counter_move(), board, m);
    lemma_cont_score_bounded(idx.cont_mv_2, hist.spec_followup_move(), board, m);
    lemma_cont_score_bounded(idx.cont_mv_4, hist.spec_followup_move(), board, m);
}

/// Among the quiet moves a queen promotion scores above every move that is not a queen
/// promotion, and an under-promotion scores below every move that does not promote: so
/// the picker gives queen promotions first among the quiet moves and under-promotions
/// last.
pub proof fn lemma_promotion_scores(
    board: Board,
    threats: u64,
    hist: History,
    idx: HistoryIndices,
    m1: Move,
    m2: Move,
)
    requires
        hist.wf(),
        idx.wf(),
        m1.wf(),
        m2.wf(),
        board.spec_piece_on(m1.from as int) is Some,
        board.spec_piece_on(m2.from as int) is Some,
    ensures
        m1.promotion == Some(QUEEN) && m2.promotion != Some(QUEEN) ==> spec_quiet_score(board, threats, hist, idx, m1)
            > spec_quiet_score(board, threats, hist, idx, m2),
        m1.promotion is Some && m1.promotion != Some(QUEEN) && m2.promotion is None ==> spec_quiet_score(
            board,
            threats,
            hist,
            idx,
            m1,
        ) < spec_quiet_score(board, threats, hist, idx, m2),
{
    if m2.promotion is None {
        lemma_plain_quiet_score_bounded(board, threats, hist, idx, m2);
    }
}

/// The scored captures among the first `n` moves, the hash move left out.
pub open spec fn gen_caps(board: Board, threats: u64, hist: History, moves: Seq<Move>, pv: Option<Move>, n: int) -> Seq<ScoredMove>
    decreases n,
{
    if n <= 0 {
        Seq::empty()
    } else {
        let prev = gen_caps(board, threats, hist, moves, pv, n - 1);
        let m = moves[n - 1];
        if spec_is_capture(board, m) && pv != Some(m) {
            prev.push(ScoredMove { mv: m, score: spec_capture_score(board, threats, hist, m) as i16 })
        } else {
            prev
        }
    }
}

/// The killers with every capture among the first `n` moves (but the hash move) removed.
pub open spec fn strip_killers(killers: Seq<Option<Move>>, board: Board, moves: Seq<Move>, pv: Option<Move>, n: int) -> Seq<Option<Move>>
    decreases n,
{
    if n <= 0 {
        killers
    } else {
        let prev = strip_killers(killers, board, moves, pv, n - 1);
        let m = moves[n - 1];
        if spec_is_capture(board, m) && pv != Some(m) {
            if prev[0] == Some(m) {
                prev.update(0, None)
            } else if prev[1] == Some(m) {
                prev.update(1, None)
            } else {
                prev
            }
        } else {
            prev
        }
    }
}

/// The scored quiet moves among the first `n` moves, the hash move and the killers left out.
pub open spec fn gen_quiets(
    board: Board,
    threats: u64,
    hist: History,
    idx: HistoryIndices,
    moves: Seq<Move>,
    pv: Option<Move>,
    killers: Seq<Option<Move>>,
    n: int,
) -> Seq<ScoredMove>
    decreases n,
{
    if n <= 0 {
        Seq::empty()
    } else {
        let prev = gen_quiets(board, threats, hist, idx, moves, pv, killers, n - 1);
        let m = moves[n - 1];
        if !spec_is_capture(board, m) && pv != Some(m) && killers[0] != Some(m) && killers[1] != Some(m) {
            prev.push(ScoredMove { mv: m, score: spec_quiet_score(board, threats, hist, idx, m) as i16 })
        } else {
            prev
        }
    }
}

/// `i` is the first index of a highest score.
pub open spec fn is_best(list: Seq<ScoredMove>, i: int) -> bool {
    &&& 0 <= i < list.len()
    &&& forall|j: int| 0 <= j < list.len() ==> #[trigger] list[j].score <= list[i].score
    &&& forall|j: int| 0 <= j < i ==> #[trigger] list[j].score < list[i].score
}

/// The index of the first highest score.
pub open spec fn best_index(list: Seq<ScoredMove>) -> int {
    choose|i: int| is_best(list, i)
}

/// A non-empty list has a first highest score.
pub proof fn lemma_best_exists(list: Seq<ScoredMove>)
    requires
        list.len() > 0,
    ensures
        is_best(list, best_index(list)),
    decreases list.len(),
{
    if list.len() == 1 {
        assert(is_best(list, 0));
    } else {
        let p = list.drop_last();
        lemma_best_exists(p);
        let b = best_index(p);
        assert(forall|j: int| 0 <= j < p.len() ==> p[j] == list[j]);
        if list[list.len() - 1].score > list[b].score {
            assert(is_best(list, list.len() - 1));
        } else {
            assert(is_best(list, b));
        }
    }
}

/// The first highest score is at one index only.
pub proof fn lemma_best_unique(list: Seq<ScoredMove>, i: int)
    requires
        is_best(list, i),
    ensures
        best_index(list) == i,
{
    lemma_best_exists(list);
    let b = best_index(list);
    if b < i {
        assert(list[b].score < list[i].score);
    } else if i < b {
        assert(list[i].score < list[b].score);
    }
}

/// The list after the entry at `i` is removed by moving the last entry into its place.
pub open spec fn swap_removed(list: Seq<ScoredMove>, i: int) -> Seq<ScoredMove> {
    list.update(i, list.last()).drop_last()
}

/// Takes the best remaining capture; one that loses material (SEE below 0) is set aside as a
/// bad capture and the next is tried.
pub open spec fn pop_good(caps: Seq<ScoredMove>, bad: Seq<ScoredMove>, board: Board) -> (Seq<ScoredMove>, Seq<ScoredMove>, Option<Move>)
    decreases caps.len(),
{
    if caps.len() == 0 {
        (caps, bad, None)
    } else {
        let i = best_index(caps);
        proof {
            lemma_best_exists(caps);
        }
        let c = caps[i];
        let rest = swap_removed(caps, i);
        if spec_compare_see(board, c.mv, 0) {
            (rest, bad, Some(c.mv))
        } else {
            pop_good(rest, bad.push(c), board)
        }
    }
}

/// The next killer from index `ki` on that is legal and not the hash move.
pub open spec fn killer_step(killers: Seq<Option<Move>>, ki: int, pv: Option<Move>, moves: Seq<Move>) -> (int, Option<Move>)
    decreases 2 - ki,
{
    if ki >= 2 {
        (ki, None)
    } else {
        match killers[ki] {
            Some(k) => if pv == Some(k) || !moves.contains(k) {
                killer_step(killers, ki + 1, pv, moves)
            } else {
                (ki + 1, Some(k))
            },
            None => killer_step(killers, ki + 1, pv, moves),
        }
    }
}

/// The state of the move picker.
pub struct GenState {
    pub phase: Phase,
    pub pv: Option<Move>,
    pub killers: Seq<Option<Move>>,
    pub ki: int,
    pub moves: Seq<Move>,
    pub quiets: Seq<ScoredMove>,
    pub caps: Seq<ScoredMove>,
    pub bad: Seq<ScoredMove>,
}

pub open spec fn rank(p: Phase) -> int {
    match p {
        Phase::PvMove => 0,
        Phase::GenPieceMoves => 1,
        Phase::GenCaptures => 2,
        Phase::GoodCaptures => 3,
        Phase::Killers => 4,
        Phase::GenQuiets => 5,
        Phase::Quiets => 6,
        Phase::BadCaptures => 7,
    }
}

/// One call of the move picker: the hash move, then the good captures best first, the
/// killers, the quiet moves best first and the bad captures best first.
pub open spec fn spec_next(g: GenState, board: Board, threats: u64, hist: History, idx: HistoryIndices) -> (GenState, Option<Move>)
    decreases 8 - rank(g.phase),
{
    match g.phase {
        Phase::PvMove => {
            let g1 = GenState { phase: Phase::GenPieceMoves, ..g };
            if g.pv is Some {
                (g1, g.pv)
            } else {
                spec_next(g1, board, threats, hist, idx)
            }
        },
        Phase::GenPieceMoves => spec_next(GenState { phase: Phase::GenCaptures, ..g }, board, threats, hist, idx),
        Phase::GenCaptures => spec_next(
            GenState {
                phase: Phase::GoodCaptures,
                caps: g.caps + gen_caps(board, threats, hist, g.moves, g.pv, g.moves.len() as int),
                killers: strip_killers(g.killers, board, g.moves, g.pv, g.moves.len() as int),
                ..g
            },
            board,
            threats,
            hist,
            idx,
        ),
        Phase::GoodCaptures => {
            let (c, b, r) = pop_good(g.caps, g.bad, board);
            let g1 = GenState { caps: c, bad: b, ..g };
            if r is Some {
                (g1, r)
            } else {
                spec_next(GenState { phase: Phase::Killers, ..g1 }, board, threats, hist, idx)
            }
        },
        Phase::Killers => {
            let (ki, r) = killer_step(g.killers, g.ki, g.pv, g.moves);
            let g1 = GenState { ki, ..g };
            if r is Some {
                (g1, r)
            } else {
                spec_next(GenState { phase: Phase::GenQuiets, ..g1 }, board, threats, hist, idx)
            }
        },
        Phase::GenQuiets => spec_next(
            GenState {
                phase: Phase::Quiets,
                quiets: g.quiets + gen_quiets(board, threats, hist, idx, g.moves, g.pv, g.killers, g.moves.len() as int),
                ..g
            },
            board,
            threats,
            hist,
            idx,
        ),
        Phase::Quiets => if g.quiets.len() > 0 {
            let i = best_index(g.quiets);
            (GenState { quiets: swap_removed(g.quiets, i), ..g }, Some(g.quiets[i].mv))
        } else {
            spec_next(GenState { phase: Phase::BadCaptures, ..g }, board, threats, hist, idx)
        },
        Phase::BadCaptures => if g.bad.len() > 0 {
            let i = best_index(g.bad);
            (GenState { bad: swap_removed(g.bad, i), ..g }, Some(g.bad[i].mv))
        } else {
            (g, None)
        },
    }
}

/// `m` is the move of some entry of `l`.
pub open spec fn listed(l: Seq<ScoredMove>, m: Move) -> bool {
    exists|i: int| 0 <= i < l.len() && (#[trigger] l[i]).mv == m
}

/// No move has two entries.
pub open spec fn no_dup(l: Seq<ScoredMove>) -> bool {
    forall|i: int, j: int| 0 <= i < j < l.len() ==> (#[trigger] l[i]).mv != (#[trigger] l[j]).mv
}

proof fn lemma_swap_removed(l: Seq<ScoredMove>, i: int, m: Move)
    requires
        0 <= i < l.len(),
        no_dup(l),
    ensures
        listed(swap_removed(l, i), m) <==> (listed(l, m) && m != l[i].mv),
        no_dup(swap_removed(l, i)),
        forall|j: int| 0 <= j < swap_removed(l, i).len() ==> listed(l, #[trigger] swap_removed(l, i)[j].mv),
{
    let r = swap_removed(l, i);
    let n = l.len();
    assert forall|j: int| 0 <= j < r.len() implies listed(l, #[trigger] r[j].mv) by {
        if j == i {
            assert(r[j] == l[n - 1]);
        } else {
            assert(r[j] == l[j]);
        }
    }
    if listed(r, m) {
        let j = choose|j: int| 0 <= j < r.len() && (#[trigger] r[j]).mv == m;
        if j == i {
            assert(r[j] == l[n - 1]);
            assert(n - 1 != i);
        } else {
            assert(r[j] == l[j]);
        }
    }
    if listed(l, m) && m != l[i].mv {
        let j = choose|j: int| 0 <= j < l.len() && (#[trigger] l[j]).mv == m;
        if j == n - 1 {
            assert(r[i] == l[n - 1]);
        } else {
            assert(r[j] == l[j]);
        }
    }
    assert forall|a: int, b: int| 0 <= a < b < r.len() implies (#[trigger] r[a]).mv != (#[trigger] r[b]).mv by {
        let ia = if a == i { n - 1 } else { a };
        let ib = if b == i { n - 1 } else { b };
        assert(r[a] == l[ia]);
        assert(r[b] == l[ib]);
        assert(ia != ib);
        if ia < ib {
            assert(l[ia].mv != l[ib].mv);
        } else {
            assert(l[ib].mv != l[ia].mv);
        }
    }
}

proof fn lemma_listed_push(l: Seq<ScoredMove>, x: ScoredMove, m: Move)
    ensures
        listed(l.push(x), m) <==> (listed(l, m) || x.mv == m),
{
    let p = l.push(x);
    if listed(l, m) {
        let j = choose|j: int| 0 <= j < l.len() && (#[trigger] l[j]).mv == m;
        assert(p[j] == l[j]);
    }
    if x.mv == m {
        assert(p[l.len() as int] == x);
    }
    if listed(p, m) {
        let j = choose|j: int| 0 <= j < p.len() && (#[trigger] p[j]).mv == m;
        if j < l.len() {
            assert(p[j] == l[j]);
        }
    }
}

/// The moves of the first `n` that the capture stage lists.
pub open spec fn cap_from(board: Board, moves: Seq<Move>, pv: Option<Move>, n: int, m: Move) -> bool {
    exists|j: int| 0 <= j < n && moves[j] == m && spec_is_capture(board, m) && pv != Some(m)
}

/// The moves of the first `n` that the quiet stage lists.
pub open spec fn quiet_from(board: Board, moves: Seq<Move>, pv: Option<Move>, killers: Seq<Option<Move>>, n: int, m: Move) -> bool {
    exists|j: int|
        0 <= j < n && moves[j] == m && !spec_is_capture(board, m) && pv != Some(m) && killers[0] != Some(m)
            && killers[1] != Some(m)
}

pub open spec fn distinct_moves(moves: Seq<Move>) -> bool {
    forall|i: int, j: int| 0 <= i < j < moves.len() ==> moves[i] != moves[j]
}

proof fn lemma_gen_caps(board: Board, threats: u64, hist: History, moves: Seq<Move>, pv: Option<Move>, n: int)
    requires
        0 <= n <= moves.len(),
        distinct_moves(moves),
    ensures
        forall|m: Move| #[trigger] listed(gen_caps(board, threats, hist, moves, pv, n), m) <==> cap_from(board, moves, pv, n, m),
        no_dup(gen_caps(board, threats, hist, moves, pv, n)),
    decreases n,
{
    if n > 0 {
        lemma_gen_caps(board, threats, hist, moves, pv, n - 1);
        let prev = gen_caps(board, threats, hist, moves, pv, n - 1);
        let x = moves[n - 1];
        assert forall|m: Move| #[trigger] listed(gen_caps(board, threats, hist, moves, pv, n), m) <==> cap_from(board, moves, pv, n, m) by {
            if spec_is_capture(board, x) && pv != Some(x) {
                lemma_listed_push(prev, ScoredMove { mv: x, score: spec_capture_score(board, threats, hist, x) as i16 }, m);
            }
            if cap_from(board, moves, pv, n, m) {
                let j = choose|j: int| 0 <= j < n && moves[j] == m && spec_is_capture(board, m) && pv != Some(m);
                if j < n - 1 {
                    assert(cap_from(board, moves, pv, n - 1, m));
                }
            }
            if cap_from(board, moves, pv, n - 1, m) {
                let j = choose|j: int| 0 <= j < n - 1 && moves[j] == m && spec_is_capture(board, m) && pv != Some(m);
                assert(cap_from(board, moves, pv, n, m));
            }
        }
        if spec_is_capture(board, x) && pv != Some(x) {
            let g = gen_caps(board, threats, hist, moves, pv, n);
            assert forall|a: int, b: int| 0 <= a < b < g.len() implies (#[trigger] g[a]).mv != (#[trigger] g[b]).mv by {
                if b == g.len() - 1 {
                    assert(g[a] == prev[a]);
                    assert(listed(prev, prev[a].mv));
                    if prev[a].mv == x {
                        let j = choose|j: int| 0 <= j < n - 1 && moves[j] == x && spec_is_capture(board, x) && pv != Some(x);
                        assert(moves[j] != moves[n - 1]);
                    }
                } else {
                    assert(g[a] == prev[a]);
                    assert(g[b] == prev[b]);
                }
            }
        }
    }
}

proof fn lemma_gen_quiets(
    board: Board,
    threats: u64,
    hist: History,
    idx: HistoryIndices,
    moves: Seq<Move>,
    pv: Option<Move>,
    killers: Seq<Option<Move>>,
    n: int,
)
    requires
        0 <= n <= moves.len(),
        distinct_moves(moves),
    ensures
        forall|m: Move|
            #[trigger] listed(gen_quiets(board, threats, hist, idx, moves, pv, killers, n), m) <==> quiet_from(
                board,
                moves,
                pv,
                killers,
                n,
                m,
            ),
        no_dup(gen_quiets(board, threats, hist, idx, moves, pv, killers, n)),
    decreases n,
{
    if n > 0 {
        lemma_gen_quiets(board, threats, hist, idx, moves, pv, killers, n - 1);
        let prev = gen_quiets(board, threats, hist, idx, moves, pv, killers, n - 1);
        let x = moves[n - 1];
        let keep = !spec_is_capture(board, x) && pv != Some(x) && killers[0] != Some(x) && killers[1] != Some(x);
        assert forall|m: Move|
            #[trigger] listed(gen_quiets(board, threats, hist, idx, moves, pv, killers, n), m) <==> quiet_from(
                board,
                moves,
                pv,
                killers,
                n,
                m,
            ) by {
            if keep {
                lemma_listed_push(prev, ScoredMove { mv: x, score: spec_quiet_score(board, threats, hist, idx, x) as i16 }, m);
            }
            if quiet_from(board, moves, pv, killers, n, m) {
                let j = choose|j: int|
                    0 <= j < n && moves[j] == m && !spec_is_capture(board, m) && pv != Some(m) && killers[0] != Some(m)
                        && killers[1] != Some(m);
                if j < n - 1 {
                    assert(quiet_from(board, moves, pv, killers, n - 1, m));
                }
            }
            if quiet_from(board, moves, pv, killers, n - 1, m) {
                let j = choose|j: int|
                    0 <= j < n - 1 && moves[j] == m && !spec_is_capture(board, m) && pv != Some(m) && killers[0] != Some(m)
                        && killers[1] != Some(m);
                assert(quiet_from(board, moves, pv, killers, n, m));
            }
        }
        if keep {
            let g = gen_quiets(board, threats, hist, idx, moves, pv, killers, n);
            assert forall|a: int, b: int| 0 <= a < b < g.len() implies (#[trigger] g[a]).mv != (#[trigger] g[b]).mv by {
                if b == g.len() - 1 {
                    assert(g[a] == prev[a]);
                    assert(listed(prev, prev[a].mv));
                    if prev[a].mv == x {
                        let j = choose|j: int|
                            0 <= j < n - 1 && moves[j] == x && !spec_is_capture(board, x) && pv != Some(x) && killers[0]
                                != Some(x) && killers[1] != Some(x);
                        assert(moves[j] != moves[n - 1]);
                    }
                } else {
                    assert(g[a] == prev[a]);
                    assert(g[b] == prev[b]);
                }
            }
        }
    }
}

/// Two killer slots that do not hold the same move.
pub open spec fn killers_ok(k: Seq<Option<Move>>) -> bool {
    k.len() == 2 && (k[0] is Some ==> k[0] != k[1])
}

/// A killer slot after the captures are stripped: emptied when it held a listed capture.
pub open spec fn stripped_slot(k: Option<Move>, board: Board, moves: Seq<Move>, pv: Option<Move>, n: int) -> Option<Move> {
    match k {
        Some(x) => if cap_from(board, moves, pv, n, x) {
            None
        } else {
            k
        },
        None => None,
    }
}

proof fn lemma_strip_killers(k: Seq<Option<Move>>, board: Board, moves: Seq<Move>, pv: Option<Move>, n: int)
    requires
        0 <= n <= moves.len(),
        distinct_moves(moves),
        killers_ok(k),
    ensures
        strip_killers(k, board, moves, pv, n).len() == 2,
        strip_killers(k, board, moves, pv, n)[0] == stripped_slot(k[0], board, moves, pv, n),
        strip_killers(k, board, moves, pv, n)[1] == stripped_slot(k[1], board, moves, pv, n),
    decreases n,
{
    if n > 0 {
        lemma_strip_killers(k, board, moves, pv, n - 1);
        let m = moves[n - 1];
        assert forall|x: Move| #[trigger] cap_from(board, moves, pv, n, x) <==> (cap_from(board, moves, pv, n - 1, x) || (x == m
            && spec_is_capture(board, m) && pv != Some(m))) by {
            if cap_from(board, moves, pv, n, x) {
                let j = choose|j: int| 0 <= j < n && moves[j] == x && spec_is_capture(board, x) && pv != Some(x);
                if j < n - 1 {
                    assert(cap_from(board, moves, pv, n - 1, x));
                }
            }
            if cap_from(board, moves, pv, n - 1, x) {
                let j = choose|j: int| 0 <= j < n - 1 && moves[j] == x && spec_is_capture(board, x) && pv != Some(x);
                assert(cap_from(board, moves, pv, n, x));
            }
            if x == m && spec_is_capture(board, m) && pv != Some(m) {
                assert(moves[n - 1] == x);
                assert(cap_from(board, moves, pv, n, x));
            }
        }
        assert(!cap_from(board, moves, pv, n - 1, m)) by {
            if cap_from(board, moves, pv, n - 1, m) {
                let j = choose|j: int| 0 <= j < n - 1 && moves[j] == m && spec_is_capture(board, m) && pv != Some(m);
                assert(moves[j] != moves[n - 1]);
            }
        }
    }
}

proof fn lemma_no_dup_push(l: Seq<ScoredMove>, x: ScoredMove)
    requires
        no_dup(l),
        !listed(l, x.mv),
    ensures
        no_dup(l.push(x)),
{
    let p = l.push(x);
    assert forall|a: int, b: int| 0 <= a < b < p.len() implies (#[trigger] p[a]).mv != (#[trigger] p[b]).mv by {
        assert(p[a] == l[a]);
        if b == l.len() {
            assert(listed(l, l[a].mv));
        } else {
            assert(p[b] == l[b]);
        }
    }
}

/// No move is listed in both.
pub open spec fn disjoint(a: Seq<ScoredMove>, b: Seq<ScoredMove>) -> bool {
    forall|m: Move| !(#[trigger] listed(a, m) && listed(b, m))
}

proof fn lemma_pop_good(caps: Seq<ScoredMove>, bad: Seq<ScoredMove>, board: Board)
    requires
        no_dup(caps),
        no_dup(bad),
        disjoint(caps, bad),
    ensures
        ({
            let (c, b, r) = pop_good(caps, bad, board);
            &&& no_dup(c)
            &&& no_dup(b)
            &&& disjoint(c, b)
            &&& forall|x: Move|
                #![trigger listed(c, x)]
                #![trigger listed(b, x)]
                #![trigger listed(caps, x)]
                #![trigger listed(bad, x)]
                (listed(c, x) || listed(b, x)) <==> ((listed(caps, x) || listed(bad, x)) && r != Some(x))
            &&& (r matches Some(m) ==> listed(caps, m))
            &&& (r is None ==> c.len() == 0)
        }),
    decreases caps.len(),
{
    if caps.len() > 0 {
        lemma_best_exists(caps);
        let i = best_index(caps);
        let c = caps[i];
        let rest = swap_removed(caps, i);
        assert forall|x: Move| #[trigger] listed(rest, x) <==> (listed(caps, x) && x != c.mv) by {
            lemma_swap_removed(caps, i, x);
        }
        lemma_swap_removed(caps, i, c.mv);
        assert(listed(caps, c.mv)) by {
            assert(caps[i].mv == c.mv);
        }
        if !spec_compare_see(board, c.mv, 0) {
            let b2 = bad.push(c);
            lemma_no_dup_push(bad, c);
            assert forall|x: Move| #[trigger] listed(b2, x) <==> (listed(bad, x) || c.mv == x) by {
                lemma_listed_push(bad, c, x);
            }
            assert(disjoint(rest, b2));
            lemma_pop_good(rest, b2, board);
        }
    }
}

/// Killer slot `j` holds a legal move other than the hash move.
pub open spec fn killer_live(k: Seq<Option<Move>>, j: int, pv: Option<Move>, moves: Seq<Move>) -> bool {
    k[j] matches Some(x) && pv != Some(x) && moves.contains(x)
}

proof fn lemma_killer_step(k: Seq<Option<Move>>, ki: int, pv: Option<Move>, moves: Seq<Move>)
    requires
        0 <= ki <= 2,
    ensures
        ({
            let (ki2, r) = killer_step(k, ki, pv, moves);
            &&& ki <= ki2 <= 2
            &&& (r matches Some(m) ==> ki2 >= ki + 1 && k[ki2 - 1] == Some(m) && killer_live(k, ki2 - 1, pv, moves)
                && forall|j: int| ki <= j < ki2 - 1 ==> !#[trigger] killer_live(k, j, pv, moves))
            &&& (r is None ==> ki2 == 2 && forall|j: int| ki <= j < 2 ==> !#[trigger] killer_live(k, j, pv, moves))
        }),
    decreases 2 - ki,
{
    if ki < 2 {
        lemma_killer_step(k, ki + 1, pv, moves);
    }
}

/// The move `m` is still to come from the picker in state `g`: the hash move before it is
/// given, the captures not yet given, the legal killers not yet given, and the quiet
/// moves not yet given (the quiet stages are dropped when the quiets are skipped).
pub open spec fn is_pending(g: GenState, board: Board, m: Move) -> bool {
    let r = rank(g.phase);
    ||| (r == 0 && g.pv == Some(m))
    ||| (r <= 2 && g.moves.contains(m) && spec_is_capture(board, m) && g.pv != Some(m))
    ||| (r >= 3 && (listed(g.caps, m) || listed(g.bad, m)))
    ||| (r <= 4 && exists|j: int|
        g.ki <= j < 2 && g.killers[j] == Some(m) && #[trigger] killer_live(g.killers, j, g.pv, g.moves)
            && !spec_is_capture(board, m))
    ||| (r <= 5 && g.moves.contains(m) && !spec_is_capture(board, m) && g.pv != Some(m) && g.killers[0] != Some(m)
        && g.killers[1] != Some(m))
    ||| (r == 6 && listed(g.quiets, m))
}

/// The consistency of a picker state that the law below needs.
pub open spec fn picker_ok(g: GenState, board: Board) -> bool {
    let r = rank(g.phase);
    &&& distinct_moves(g.moves)
    &&& killers_ok(g.killers)
    &&& 0 <= g.ki <= 2
    &&& r <= 2 ==> g.caps.len() == 0 && g.bad.len() == 0 && g.ki == 0
    &&& r >= 3 ==> no_dup(g.caps) && no_dup(g.bad) && disjoint(g.caps, g.bad)
    &&& r >= 3 ==> forall|x: Move|
        #[trigger] listed(g.caps, x) ==> g.moves.contains(x) && spec_is_capture(board, x) && g.pv != Some(x)
    &&& r >= 3 ==> forall|x: Move|
        #[trigger] listed(g.bad, x) ==> g.moves.contains(x) && spec_is_capture(board, x) && g.pv != Some(x)
    &&& r >= 3 ==> forall|j: int| 0 <= j < 2 && #[trigger] killer_live(g.killers, j, g.pv, g.moves) ==> !spec_is_capture(board, g.killers[j]->0)
    &&& r >= 4 ==> g.caps.len() == 0
    &&& r <= 5 ==> g.quiets.len() == 0
    &&& r >= 6 ==> no_dup(g.quiets)
    &&& r >= 6 ==> forall|x: Move|
        #[trigger] listed(g.quiets, x) ==> g.moves.contains(x) && !spec_is_capture(board, x) && g.pv != Some(x)
            && g.killers[0] != Some(x) && g.killers[1] != Some(x)
}

proof fn lemma_contains_index(moves: Seq<Move>, x: Move)
    ensures
        moves.contains(x) <==> exists|j: int| 0 <= j < moves.len() && moves[j] == x,
{
}

/// The killer part of `is_pending`, for moving it between states.
pub open spec fn killer_pending(g: GenState, board: Board, m: Move) -> bool {
    exists|j: int|
        g.ki <= j < 2 && g.killers[j] == Some(m) && #[trigger] killer_live(g.killers, j, g.pv, g.moves)
            && !spec_is_capture(board, m)
}

proof fn lemma_killer_pending_same(g: GenState, g1: GenState, board: Board, m: Move)
    requires
        g1.ki == g.ki,
        g1.killers == g.killers,
        g1.pv == g.pv,
        g1.moves == g.moves,
    ensures
        killer_pending(g1, board, m) == killer_pending(g, board, m),
{
    if killer_pending(g, board, m) {
        let j = choose|j: int|
            g.ki <= j < 2 && g.killers[j] == Some(m) && #[trigger] killer_live(g.killers, j, g.pv, g.moves)
                && !spec_is_capture(board, m);
        assert(killer_live(g1.killers, j, g1.pv, g1.moves));
    }
    if killer_pending(g1, board, m) {
        let j = choose|j: int|
            g1.ki <= j < 2 && g1.killers[j] == Some(m) && #[trigger] killer_live(g1.killers, j, g1.pv, g1.moves)
                && !spec_is_capture(board, m);
        assert(killer_live(g.killers, j, g.pv, g.moves));
    }
}

proof fn lemma_pending_parts(g: GenState, board: Board, m: Move)
    ensures
        is_pending(g, board, m) == ({
        ||| (rank(g.phase) == 0 && g.pv == Some(m))
        ||| (rank(g.phase) <= 2 && g.moves.contains(m) && spec_is_capture(board, m) && g.pv != Some(m))
        ||| (rank(g.phase) >= 3 && (listed(g.caps, m) || listed(g.bad, m)))
        ||| (rank(g.phase) <= 4 && killer_pending(g, board, m))
        ||| (rank(g.phase) <= 5 && g.moves.contains(m) && !spec_is_capture(board, m) && g.pv != Some(m) && g.killers[0]
            != Some(m) && g.killers[1] != Some(m))
        ||| (rank(g.phase) == 6 && listed(g.quiets, m))
        }),
{
}

proof fn lemma_step_pv(g: GenState, board: Board)
    requires
        picker_ok(g, board),
        g.phase == Phase::PvMove,
    ensures
        picker_ok(GenState { phase: Phase::GenPieceMoves, ..g }, board),
        forall|x: Move|
            #[trigger] is_pending(GenState { phase: Phase::GenPieceMoves, ..g }, board, x) <==> (is_pending(g, board, x)
                && g.pv != Some(x)),
{
    let g1 = GenState { phase: Phase::GenPieceMoves, ..g };
    assert forall|x: Move| #[trigger] is_pending(g1, board, x) <==> (is_pending(g, board, x) && g.pv != Some(x)) by {
        lemma_killer_pending_same(g, g1, board, x);
        lemma_pending_parts(g, board, x);
        lemma_pending_parts(g1, board, x);
        if killer_pending(g, board, x) {
            let j = choose|j: int|
                g.ki <= j < 2 && g.killers[j] == Some(x) && #[trigger] killer_live(g.killers, j, g.pv, g.moves)
                    && !spec_is_capture(board, x);
        }
    }
}

proof fn lemma_step_same(g: GenState, g1: GenState, board: Board)
    requires
        picker_ok(g, board),
        1 <= rank(g.phase) <= 1,
        g1 == (GenState { phase: Phase::GenCaptures, ..g }),
    ensures
        picker_ok(g1, board),
        forall|x: Move| #[trigger] is_pending(g1, board, x) <==> is_pending(g, board, x),
{
    assert forall|x: Move| #[trigger] is_pending(g1, board, x) <==> is_pending(g, board, x) by {
        lemma_killer_pending_same(g, g1, board, x);
        lemma_pending_parts(g, board, x);
        lemma_pending_parts(g1, board, x);
    }
}

proof fn lemma_cap_from_all(board: Board, moves: Seq<Move>, pv: Option<Move>, x: Move)
    ensures
        cap_from(board, moves, pv, moves.len() as int, x) <==> (moves.contains(x) && spec_is_capture(board, x) && pv != Some(x)),
{
    if moves.contains(x) && spec_is_capture(board, x) && pv != Some(x) {
        let j = choose|j: int| 0 <= j < moves.len() && moves[j] == x;
        assert(cap_from(board, moves, pv, moves.len() as int, x));
    }
}

proof fn lemma_quiet_from_all(board: Board, moves: Seq<Move>, pv: Option<Move>, killers: Seq<Option<Move>>, x: Move)
    ensures
        quiet_from(board, moves, pv, killers, moves.len() as int, x) <==> (moves.contains(x) && !spec_is_capture(board, x)
            && pv != Some(x) && killers[0] != Some(x) && killers[1] != Some(x)),
{
    if moves.contains(x) && !spec_is_capture(board, x) && pv != Some(x) && killers[0] != Some(x) && killers[1] != Some(x) {
        let j = choose|j: int| 0 <= j < moves.len() && moves[j] == x;
        assert(quiet_from(board, moves, pv, killers, moves.len() as int, x));
    }
}

proof fn lemma_step_gen_caps(g: GenState, board: Board, threats: u64, hist: History)
    requires
        picker_ok(g, board),
        g.phase == Phase::GenCaptures,
    ensures
        ({
            let g1 = GenState {
                phase: Phase::GoodCaptures,
                caps: g.caps + gen_caps(board, threats, hist, g.moves, g.pv, g.moves.len() as int),
                killers: strip_killers(g.killers, board, g.moves, g.pv, g.moves.len() as int),
                ..g
            };
            &&& picker_ok(g1, board)
            &&& forall|x: Move| #[trigger] is_pending(g1, board, x) <==> is_pending(g, board, x)
        }),
{
    let n = g.moves.len() as int;
    let caps = gen_caps(board, threats, hist, g.moves, g.pv, n);
    let k1 = strip_killers(g.killers, board, g.moves, g.pv, n);
    let g1 = GenState { phase: Phase::GoodCaptures, caps: g.caps + caps, killers: k1, ..g };
    assert(g.caps + caps =~= caps);
    lemma_gen_caps(board, threats, hist, g.moves, g.pv, n);
    lemma_strip_killers(g.killers, board, g.moves, g.pv, n);
    assert forall|x: Move| #[trigger] listed(g1.caps, x) <==> (g.moves.contains(x) && spec_is_capture(board, x) && g.pv != Some(x)) by {
        lemma_cap_from_all(board, g.moves, g.pv, x);
    }
    assert forall|x: Move| !#[trigger] listed(g1.bad, x) by {}
    assert forall|j: int| 0 <= j < 2 && #[trigger] killer_live(g1.killers, j, g1.pv, g1.moves) implies !spec_is_capture(
        board,
        g1.killers[j]->0,
    ) by {
        let x = g.killers[j]->0;
        lemma_cap_from_all(board, g.moves, g.pv, x);
    }
    assert forall|x: Move| #[trigger] is_pending(g1, board, x) <==> is_pending(g, board, x) by {
        lemma_pending_parts(g, board, x);
        lemma_pending_parts(g1, board, x);
        lemma_cap_from_all(board, g.moves, g.pv, x);
        if killer_pending(g, board, x) {
            let j = choose|j: int|
                g.ki <= j < 2 && g.killers[j] == Some(x) && #[trigger] killer_live(g.killers, j, g.pv, g.moves)
                    && !spec_is_capture(board, x);
            assert(k1[j] == Some(x));
            assert(killer_live(g1.killers, j, g1.pv, g1.moves));
        }
        if killer_pending(g1, board, x) {
            let j = choose|j: int|
                g1.ki <= j < 2 && g1.killers[j] == Some(x) && #[trigger] killer_live(g1.killers, j, g1.pv, g1.moves)
                    && !spec_is_capture(board, x);
            assert(g.killers[j] == Some(x));
            assert(killer_live(g.killers, j, g.pv, g.moves));
        }
        if !spec_is_capture(board, x) {
            assert(k1[0] == Some(x) <==> g.killers[0] == Some(x));
            assert(k1[1] == Some(x) <==> g.killers[1] == Some(x));
        }
    }
}

proof fn lemma_step_good(g: GenState, board: Board)
    requires
        picker_ok(g, board),
        g.phase == Phase::GoodCaptures,
    ensures
        ({
            let (c, b, r) = pop_good(g.caps, g.bad, board);
            let g1 = GenState { caps: c, bad: b, ..g };
            let g2 = GenState { phase: Phase::Killers, ..g1 };
            &&& picker_ok(g1, board)
            &&& (r matches Some(m) ==> is_pending(g, board, m) && forall|x: Move|
                #[trigger] is_pending(g1, board, x) <==> (is_pending(g, board, x) && x != m))
            &&& (r is None ==> picker_ok(g2, board) && forall|x: Move| #[trigger] is_pending(g2, board, x) <==> is_pending(g, board, x))
        }),
{
    let (c, b, r) = pop_good(g.caps, g.bad, board);
    let g1 = GenState { caps: c, bad: b, ..g };
    let g2 = GenState { phase: Phase::Killers, ..g1 };
    lemma_pop_good(g.caps, g.bad, board);
    assert forall|x: Move| #[trigger] listed(g1.caps, x) implies g1.moves.contains(x) && spec_is_capture(board, x)
        && g1.pv != Some(x) by {
        assert(listed(g.caps, x) || listed(g.bad, x));
    }
    assert forall|x: Move| #[trigger] listed(g1.bad, x) implies g1.moves.contains(x) && spec_is_capture(board, x)
        && g1.pv != Some(x) by {
        assert(listed(g.caps, x) || listed(g.bad, x));
    }
    assert forall|j: int| 0 <= j < 2 && #[trigger] killer_live(g1.killers, j, g1.pv, g1.moves) implies !spec_is_capture(
        board,
        g1.killers[j]->0,
    ) by {
        assert(killer_live(g.killers, j, g.pv, g.moves));
    }
    if let Some(m) = r {
        assert(listed(g.caps, m));
        lemma_pending_parts(g, board, m);
        assert forall|x: Move| #[trigger] is_pending(g1, board, x) <==> (is_pending(g, board, x) && x != m) by {
            lemma_pending_parts(g, board, x);
            lemma_pending_parts(g1, board, x);
            lemma_killer_pending_same(g, g1, board, x);
            if x == m {
                assert(spec_is_capture(board, m));
            }
        }
    } else {
        assert forall|j: int| 0 <= j < 2 && #[trigger] killer_live(g2.killers, j, g2.pv, g2.moves) implies !spec_is_capture(
            board,
            g2.killers[j]->0,
        ) by {
            assert(killer_live(g.killers, j, g.pv, g.moves));
        }
        assert forall|x: Move| #[trigger] is_pending(g2, board, x) <==> is_pending(g, board, x) by {
            lemma_pending_parts(g, board, x);
            lemma_pending_parts(g2, board, x);
            lemma_killer_pending_same(g, g2, board, x);
        }
    }
}

#[verifier::spinoff_prover]
proof fn lemma_step_killers(g: GenState, board: Board)
    requires
        picker_ok(g, board),
        g.phase == Phase::Killers,
    ensures
        ({
            let (ki, r) = killer_step(g.killers, g.ki, g.pv, g.moves);
            let g1 = GenState { ki, ..g };
            let g2 = GenState { phase: Phase::GenQuiets, ..g1 };
            &&& picker_ok(g1, board)
            &&& (r matches Some(m) ==> is_pending(g, board, m) && forall|x: Move|
                #[trigger] is_pending(g1, board, x) <==> (is_pending(g, board, x) && x != m))
            &&& (r is None ==> picker_ok(g2, board) && forall|x: Move| #[trigger] is_pending(g2, board, x) <==> is_pending(g, board, x))
        }),
{
    let (ki, r) = killer_step(g.killers, g.ki, g.pv, g.moves);
    let g1 = GenState { ki, ..g };
    let g2 = GenState { phase: Phase::GenQuiets, ..g1 };
    lemma_killer_step(g.killers, g.ki, g.pv, g.moves);
    assert forall|j: int| 0 <= j < 2 && #[trigger] killer_live(g1.killers, j, g1.pv, g1.moves) implies !spec_is_capture(
        board,
        g1.killers[j]->0,
    ) by {
        assert(killer_live(g.killers, j, g.pv, g.moves));
    }
    assert(picker_ok(g1, board));
    if let Some(m) = r {
        let jm = ki - 1;
        assert(killer_live(g.killers, jm, g.pv, g.moves));
        assert(!spec_is_capture(board, m));
        assert(killer_pending(g, board, m));
        lemma_pending_parts(g, board, m);
        assert forall|x: Move| #[trigger] is_pending(g1, board, x) <==> (is_pending(g, board, x) && x != m) by {
            lemma_pending_parts(g, board, x);
            lemma_pending_parts(g1, board, x);
            if killer_pending(g1, board, x) {
                let j = choose|j: int|
                    g1.ki <= j < 2 && g1.killers[j] == Some(x) && #[trigger] killer_live(g1.killers, j, g1.pv, g1.moves)
                        && !spec_is_capture(board, x);
                assert(killer_live(g.killers, j, g.pv, g.moves));
                assert(killer_pending(g, board, x));
                if x == m {
                    assert(j != jm);
                    assert(g.killers[0] != g.killers[1]);
                }
            }
            if killer_pending(g, board, x) && x != m {
                let j = choose|j: int|
                    g.ki <= j < 2 && g.killers[j] == Some(x) && #[trigger] killer_live(g.killers, j, g.pv, g.moves)
                        && !spec_is_capture(board, x);
                assert(j >= ki);
                assert(killer_live(g1.killers, j, g1.pv, g1.moves));
            }
            if listed(g.caps, x) || listed(g.bad, x) {
                assert(spec_is_capture(board, x));
            }
        }
    } else {
        assert forall|j: int| 0 <= j < 2 && #[trigger] killer_live(g2.killers, j, g2.pv, g2.moves) implies !spec_is_capture(
            board,
            g2.killers[j]->0,
        ) by {
            assert(killer_live(g.killers, j, g.pv, g.moves));
        }
        assert forall|x: Move| #[trigger] is_pending(g2, board, x) <==> is_pending(g, board, x) by {
            lemma_pending_parts(g, board, x);
            lemma_pending_parts(g2, board, x);
            if killer_pending(g, board, x) {
                let j = choose|j: int|
                    g.ki <= j < 2 && g.killers[j] == Some(x) && #[trigger] killer_live(g.killers, j, g.pv, g.moves)
                        && !spec_is_capture(board, x);
            }
        }
    }
}

proof fn lemma_step_gen_quiets(g: GenState, board: Board, threats: u64, hist: History, idx: HistoryIndices)
    requires
        picker_ok(g, board),
        g.phase == Phase::GenQuiets,
    ensures
        ({
            let g1 = GenState {
                phase: Phase::Quiets,
                quiets: g.quiets + gen_quiets(board, threats, hist, idx, g.moves, g.pv, g.killers, g.moves.len() as int),
                ..g
            };
            &&& picker_ok(g1, board)
            &&& forall|x: Move| #[trigger] is_pending(g1, board, x) <==> is_pending(g, board, x)
        }),
{
    let n = g.moves.len() as int;
    let q = gen_quiets(board, threats, hist, idx, g.moves, g.pv, g.killers, n);
    let g1 = GenState { phase: Phase::Quiets, quiets: g.quiets + q, ..g };
    assert(g.quiets + q =~= q);
    lemma_gen_quiets(board, threats, hist, idx, g.moves, g.pv, g.killers, n);
    assert forall|x: Move| #[trigger] listed(g1.quiets, x) <==> (g.moves.contains(x) && !spec_is_capture(board, x)
        && g.pv != Some(x) && g.killers[0] != Some(x) && g.killers[1] != Some(x)) by {
        lemma_quiet_from_all(board, g.moves, g.pv, g.killers, x);
    }
    assert forall|j: int| 0 <= j < 2 && #[trigger] killer_live(g1.killers, j, g1.pv, g1.moves) implies !spec_is_capture(
        board,
        g1.killers[j]->0,
    ) by {
        assert(killer_live(g.killers, j, g.pv, g.moves));
    }
    assert forall|x: Move| #[trigger] is_pending(g1, board, x) <==> is_pending(g, board, x) by {
        lemma_pending_parts(g, board, x);
        lemma_pending_parts(g1, board, x);
    }
}

proof fn lemma_step_pop(l: Seq<ScoredMove>, i: int, m: Move)
    requires
        no_dup(l),
        l.len() > 0,
        i == best_index(l),
    ensures
        0 <= i < l.len(),
        listed(l, l[i].mv),
        no_dup(swap_removed(l, i)),
        listed(swap_removed(l, i), m) <==> (listed(l, m) && m != l[i].mv),
{
    lemma_best_exists(l);
    lemma_swap_removed(l, i, m);
}

proof fn lemma_step_quiets(g: GenState, board: Board)
    requires
        picker_ok(g, board),
        g.phase == Phase::Quiets,
    ensures
        g.quiets.len() > 0 ==> ({
            let i = best_index(g.quiets);
            let m = g.quiets[i].mv;
            let g1 = GenState { quiets: swap_removed(g.quiets, i), ..g };
            &&& picker_ok(g1, board)
            &&& is_pending(g, board, m)
            &&& forall|x: Move| #[trigger] is_pending(g1, board, x) <==> (is_pending(g, board, x) && x != m)
        }),
        g.quiets.len() == 0 ==> ({
            let g2 = GenState { phase: Phase::BadCaptures, ..g };
            &&& picker_ok(g2, board)
            &&& forall|x: Move| #[trigger] is_pending(g2, board, x) <==> is_pending(g, board, x)
        }),
{
    if g.quiets.len() > 0 {
        let i = best_index(g.quiets);
        let m = g.quiets[i].mv;
        let g1 = GenState { quiets: swap_removed(g.quiets, i), ..g };
        lemma_step_pop(g.quiets, i, m);
        assert forall|x: Move| #[trigger] listed(g1.quiets, x) <==> (listed(g.quiets, x) && x != m) by {
            lemma_step_pop(g.quiets, i, x);
        }
        assert forall|j: int| 0 <= j < 2 && #[trigger] killer_live(g1.killers, j, g1.pv, g1.moves) implies !spec_is_capture(
            board,
            g1.killers[j]->0,
        ) by {
            assert(killer_live(g.killers, j, g.pv, g.moves));
        }
        lemma_pending_parts(g, board, m);
        assert forall|x: Move| #[trigger] is_pending(g1, board, x) <==> (is_pending(g, board, x) && x != m) by {
            lemma_pending_parts(g, board, x);
            lemma_pending_parts(g1, board, x);
            if x == m {
                assert(!spec_is_capture(board, m));
            }
        }
    } else {
        let g2 = GenState { phase: Phase::BadCaptures, ..g };
        assert forall|j: int| 0 <= j < 2 && #[trigger] killer_live(g2.killers, j, g2.pv, g2.moves) implies !spec_is_capture(
            board,
            g2.killers[j]->0,
        ) by {
            assert(killer_live(g.killers, j, g.pv, g.moves));
        }
        assert forall|x: Move| #[trigger] is_pending(g2, board, x) <==> is_pending(g, board, x) by {
            lemma_pending_parts(g, board, x);
            lemma_pending_parts(g2, board, x);
        }
    }
}

proof fn lemma_step_bad(g: GenState, board: Board)
    requires
        picker_ok(g, board),
        g.phase == Phase::BadCaptures,
    ensures
        g.bad.len() > 0 ==> ({
            let i = best_index(g.bad);
            let m = g.bad[i].mv;
            let g1 = GenState { bad: swap_removed(g.bad, i), ..g };
            &&& picker_ok(g1, board)
            &&& is_pending(g, board, m)
            &&& forall|x: Move| #[trigger] is_pending(g1, board, x) <==> (is_pending(g, board, x) && x != m)
        }),
        g.bad.len() == 0 ==> forall|x: Move| !#[trigger] is_pending(g, board, x),
{
    if g.bad.len() > 0 {
        let i = best_index(g.bad);
        let m = g.bad[i].mv;
        let g1 = GenState { bad: swap_removed(g.bad, i), ..g };
        lemma_step_pop(g.bad, i, m);
        assert forall|x: Move| #[trigger] listed(g1.bad, x) <==> (listed(g.bad, x) && x != m) by {
            lemma_step_pop(g.bad, i, x);
        }
        assert forall|x: Move| #[trigger] listed(g1.bad, x) implies g1.moves.contains(x) && spec_is_capture(board, x)
            && g1.pv != Some(x) by {}
        assert forall|j: int| 0 <= j < 2 && #[trigger] killer_live(g1.killers, j, g1.pv, g1.moves) implies !spec_is_capture(
            board,
            g1.killers[j]->0,
        ) by {
            assert(killer_live(g.killers, j, g.pv, g.moves));
        }
        assert(disjoint(g1.caps, g1.bad));
        lemma_pending_parts(g, board, m);
        assert forall|x: Move| #[trigger] is_pending(g1, board, x) <==> (is_pending(g, board, x) && x != m) by {
            lemma_pending_parts(g, board, x);
            lemma_pending_parts(g1, board, x);
        }
    } else {
        assert forall|x: Move| !#[trigger] is_pending(g, board, x) by {
            lemma_pending_parts(g, board, x);
        }
    }
}

/// What one call of the picker does to the moves still to come (see below).
pub open spec fn next_law(g: GenState, board: Board, threats: u64, hist: History, idx: HistoryIndices) -> bool {
    let (g2, r) = spec_next(g, board, threats, hist, idx);
    &&& picker_ok(g2, board)
    &&& (r matches Some(m) ==> is_pending(g, board, m) && forall|x: Move|
        #[trigger] is_pending(g2, board, x) <==> (is_pending(g, board, x) && x != m))
    &&& (r is None ==> forall|x: Move| !#[trigger] is_pending(g, board, x) && !is_pending(g2, board, x))
}

proof fn lemma_law_transfer(g: GenState, g1: GenState, board: Board, threats: u64, hist: History, idx: HistoryIndices)
    requires
        next_law(g1, board, threats, hist, idx),
        spec_next(g, board, threats, hist, idx) == spec_next(g1, board, threats, hist, idx),
        forall|x: Move| #[trigger] is_pending(g1, board, x) <==> is_pending(g, board, x),
    ensures
        next_law(g, board, threats, hist, idx),
{
    let (g2, r) = spec_next(g1, board, threats, hist, idx);
    if let Some(m) = r {
        assert(is_pending(g1, board, m));
        assert forall|x: Move| #[trigger] is_pending(g2, board, x) <==> (is_pending(g, board, x) && x != m) by {
            assert(is_pending(g1, board, x) == is_pending(g, board, x));
        }
    } else {
        assert forall|x: Move| !#[trigger] is_pending(g, board, x) && !is_pending(g2, board, x) by {
            assert(is_pending(g1, board, x) == is_pending(g, board, x));
        }
    }
}

proof fn lemma_gen_quiets_entries(
    board: Board,
    threats: u64,
    hist: History,
    idx: HistoryIndices,
    moves: Seq<Move>,
    pv: Option<Move>,
    killers: Seq<Option<Move>>,
    n: int,
)
    requires
        0 <= n <= moves.len(),
    ensures
        forall|j: int|
            0 <= j < gen_quiets(board, threats, hist, idx, moves, pv, killers, n).len() ==> ({
                let e = #[trigger] gen_quiets(board, threats, hist, idx, moves, pv, killers, n)[j];
                &&& e.score == spec_quiet_score(board, threats, hist, idx, e.mv) as i16
                &&& exists|k: int| 0 <= k < n && moves[k] == e.mv
            }),
    decreases n,
{
    if n > 0 {
        lemma_gen_quiets_entries(board, threats, hist, idx, moves, pv, killers, n - 1);
        let prev = gen_quiets(board, threats, hist, idx, moves, pv, killers, n - 1);
        let l = gen_quiets(board, threats, hist, idx, moves, pv, killers, n);
        assert forall|j: int| 0 <= j < l.len() implies ({
            let e = #[trigger] l[j];
            &&& e.score == spec_quiet_score(board, threats, hist, idx, e.mv) as i16
            &&& exists|k: int| 0 <= k < n && moves[k] == e.mv
        }) by {
            if j < prev.len() {
                assert(l[j] == prev[j]);
                let k = choose|k: int| 0 <= k < n - 1 && moves[k] == prev[j].mv;
                assert(0 <= k < n && moves[k] == l[j].mv);
            } else {
                assert(moves[n - 1] == l[j].mv);
            }
        }
    }
}

/// When the quiet moves hold a queen promotion, the quiet move the picker gives first is
/// a queen promotion.
pub proof fn lemma_queen_promotion_first_quiet(
    board: Board,
    threats: u64,
    hist: History,
    idx: HistoryIndices,
    moves: Seq<Move>,
    pv: Option<Move>,
    killers: Seq<Option<Move>>,
    q: int,
)
    requires
        hist.wf(),
        idx.wf(),
        moves_ok(board, moves),
        0 <= q < gen_quiets(board, threats, hist, idx, moves, pv, killers, moves.len() as int).len(),
        gen_quiets(board, threats, hist, idx, moves, pv, killers, moves.len() as int)[q].mv.promotion == Some(QUEEN),
    ensures
        ({
            let l = gen_quiets(board, threats, hist, idx, moves, pv, killers, moves.len() as int);
            l[best_index(l)].mv.promotion == Some(QUEEN)
        }),
{
    let l = gen_quiets(board, threats, hist, idx, moves, pv, killers, moves.len() as int);
    lemma_gen_quiets_entries(board, threats, hist, idx, moves, pv, killers, moves.len() as int);
    lemma_best_exists(l);
    let b = best_index(l);
    let eb = l[b];
    let eq = l[q];
    let kb = choose|k: int| 0 <= k < moves.len() && moves[k] == eb.mv;
    let kq = choose|k: int| 0 <= k < moves.len() && moves[k] == eq.mv;
    assert(moves[kb].wf() && board.spec_piece_on(moves[kb].from as int) is Some);
    assert(moves[kq].wf() && board.spec_piece_on(moves[kq].from as int) is Some);
    if eb.mv.promotion != Some(QUEEN) {
        lemma_promotion_scores(board, threats, hist, idx, eq.mv, eb.mv);
        if eb.mv.promotion is None {
            lemma_plain_quiet_score_bounded(board, threats, hist, idx, eb.mv);
        }
        assert(eq.score == i16::MAX);
        assert(eb.score < i16::MAX);
        assert(l[q].score <= l[b].score);
    }
}

/// The picker's phases come in their order and never go back, and once a call gives
/// nothing every later call gives nothing and changes nothing.
pub proof fn lemma_next_phase_order(g: GenState, board: Board, threats: u64, hist: History, idx: HistoryIndices)
    ensures
        rank(spec_next(g, board, threats, hist, idx).0.phase) >= rank(g.phase),
        spec_next(g, board, threats, hist, idx).1 is None ==> {
            let g2 = spec_next(g, board, threats, hist, idx).0;
            &&& g2.phase == Phase::BadCaptures
            &&& g2.bad.len() == 0
            &&& spec_next(g2, board, threats, hist, idx) == (g2, None::<Move>)
        },
    decreases 8 - rank(g.phase),
{
    match g.phase {
        Phase::PvMove => {
            lemma_next_phase_order(GenState { phase: Phase::GenPieceMoves, ..g }, board, threats, hist, idx);
        },
        Phase::GenPieceMoves => {
            lemma_next_phase_order(GenState { phase: Phase::GenCaptures, ..g }, board, threats, hist, idx);
        },
        Phase::GenCaptures => {
            lemma_next_phase_order(
                GenState {
                    phase: Phase::GoodCaptures,
                    caps: g.caps + gen_caps(board, threats, hist, g.moves, g.pv, g.moves.len() as int),
                    killers: strip_killers(g.killers, board, g.moves, g.pv, g.moves.len() as int),
                    ..g
                },
                board,
                threats,
                hist,
                idx,
            );
        },
        Phase::GoodCaptures => {
            let (c, b, r) = pop_good(g.caps, g.bad, board);
            let g1 = GenState { caps: c, bad: b, ..g };
            lemma_next_phase_order(GenState { phase: Phase::Killers, ..g1 }, board, threats, hist, idx);
        },
        Phase::Killers => {
            let (ki, r) = killer_step(g.killers, g.ki, g.pv, g.moves);
            let g1 = GenState { ki, ..g };
            lemma_next_phase_order(GenState { phase: Phase::GenQuiets, ..g1 }, board, threats, hist, idx);
        },
        Phase::GenQuiets => {
            lemma_next_phase_order(
                GenState {
                    phase: Phase::Quiets,
                    quiets: g.quiets + gen_quiets(board, threats, hist, idx, g.moves, g.pv, g.killers, g.moves.len() as int),
                    ..g
                },
                board,
                threats,
                hist,
                idx,
            );
        },
        Phase::Quiets => {
            lemma_next_phase_order(GenState { phase: Phase::BadCaptures, ..g }, board, threats, hist, idx);
        },
        Phase::BadCaptures => {},
    }
}

/// Each call of the picker gives a move that was still to come and takes only that move
/// off what is to come, and a call that gives nothing finds nothing left: so no move is
/// given twice, and the picker runs dry only once every move it had to give was given.
pub proof fn lemma_next_gives_each_move_once(g: GenState, board: Board, threats: u64, hist: History, idx: HistoryIndices)
    requires
        picker_ok(g, board),
    ensures
        next_law(g, board, threats, hist, idx),
    decreases 8 - rank(g.phase),
{
    match g.phase {
        Phase::PvMove => {
            lemma_step_pv(g, board);
            let g1 = GenState { phase: Phase::GenPieceMoves, ..g };
            if let Some(p) = g.pv {
                lemma_pending_parts(g, board, p);
                assert(spec_next(g, board, threats, hist, idx) == (g1, g.pv));
                assert(is_pending(g, board, p));
                assert(picker_ok(g1, board));
                assert forall|x: Move| #[trigger] is_pending(g1, board, x) <==> (is_pending(g, board, x) && x != p) by {
                    assert(g.pv != Some(x) <==> x != p);
                }
            } else {
                assert(spec_next(g, board, threats, hist, idx) == spec_next(g1, board, threats, hist, idx));
                lemma_next_gives_each_move_once(g1, board, threats, hist, idx);
                lemma_law_transfer(g, g1, board, threats, hist, idx);
            }
        },
        Phase::GenPieceMoves => {
            let g1 = GenState { phase: Phase::GenCaptures, ..g };
            lemma_step_same(g, g1, board);
            assert(spec_next(g, board, threats, hist, idx) == spec_next(g1, board, threats, hist, idx));
            lemma_next_gives_each_move_once(g1, board, threats, hist, idx);
            lemma_law_transfer(g, g1, board, threats, hist, idx);
        },
        Phase::GenCaptures => {
            let g1 = GenState {
                phase: Phase::GoodCaptures,
                caps: g.caps + gen_caps(board, threats, hist, g.moves, g.pv, g.moves.len() as int),
                killers: strip_killers(g.killers, board, g.moves, g.pv, g.moves.len() as int),
                ..g
            };
            lemma_step_gen_caps(g, board, threats, hist);
            assert(spec_next(g, board, threats, hist, idx) == spec_next(g1, board, threats, hist, idx));
            lemma_next_gives_each_move_once(g1, board, threats, hist, idx);
            lemma_law_transfer(g, g1, board, threats, hist, idx);
        },
        Phase::GoodCaptures => {
            lemma_step_good(g, board);
            let (c, b, r) = pop_good(g.caps, g.bad, board);
            let g1 = GenState { caps: c, bad: b, ..g };
            if r is None {
                let g2 = GenState { phase: Phase::Killers, ..g1 };
                assert(spec_next(g, board, threats, hist, idx) == spec_next(g2, board, threats, hist, idx));
                lemma_next_gives_each_move_once(g2, board, threats, hist, idx);
                lemma_law_transfer(g, g2, board, threats, hist, idx);
            } else {
                assert(spec_next(g, board, threats, hist, idx) == (g1, r));
            }
        },
        Phase::Killers => {
            lemma_step_killers(g, board);
            let (ki, r) = killer_step(g.killers, g.ki, g.pv, g.moves);
            let g1 = GenState { ki, ..g };
            if r is None {
                let g2 = GenState { phase: Phase::GenQuiets, ..g1 };
                assert(spec_next(g, board, threats, hist, idx) == spec_next(g2, board, threats, hist, idx));
                lemma_next_gives_each_move_once(g2, board, threats, hist, idx);
                lemma_law_transfer(g, g2, board, threats, hist, idx);
            } else {
                assert(spec_next(g, board, threats, hist, idx) == (g1, r));
            }
        },
        Phase::GenQuiets => {
            let g1 = GenState {
                phase: Phase::Quiets,
                quiets: g.quiets + gen_quiets(board, threats, hist, idx, g.moves, g.pv, g.killers, g.moves.len() as int),
                ..g
            };
            lemma_step_gen_quiets(g, board, threats, hist, idx);
            assert(spec_next(g, board, threats, hist, idx) == spec_next(g1, board, threats, hist, idx));
            lemma_next_gives_each_move_once(g1, board, threats, hist, idx);
            lemma_law_transfer(g, g1, board, threats, hist, idx);
        },
        Phase::Quiets => {
            lemma_step_quiets(g, board);
            if g.quiets.len() == 0 {
                let g2 = GenState { phase: Phase::BadCaptures, ..g };
                assert(spec_next(g, board, threats, hist, idx) == spec_next(g2, board, threats, hist, idx));
                lemma_next_gives_each_move_once(g2, board, threats, hist, idx);
                lemma_law_transfer(g, g2, board, threats, hist, idx);
            }
        },
        Phase::BadCaptures => {
            lemma_step_bad(g, board);
        },
    }
}

/// `n` calls of the picker from state `g`: the state after them and the moves given, in
/// order, up to the first call that gives nothing.
pub open spec fn spec_run(g: GenState, board: Board, threats: u64, hist: History, idx: HistoryIndices, n: nat) -> (GenState, Seq<Move>)
    decreases n,
{
    if n == 0 {
        (g, Seq::empty())
    } else {
        let (g1, r) = spec_next(g, board, threats, hist, idx);
        match r {
            Some(m) => {
                let (g2, ms) = spec_run(g1, board, threats, hist, idx, (n - 1) as nat);
                (g2, seq![m] + ms)
            },
            None => (g1, Seq::empty()),
        }
    }
}

/// A run of calls gives no move twice, gives only moves that were to come, and leaves
/// exactly the others to come; a run that stops early (a call gave nothing) leaves
/// nothing to come.
pub proof fn lemma_run_gives_each_move_once(g: GenState, board: Board, threats: u64, hist: History, idx: HistoryIndices, n: nat)
    requires
        picker_ok(g, board),
    ensures
        ({
            let (gf, ms) = spec_run(g, board, threats, hist, idx, n);
            &&& picker_ok(gf, board)
            &&& ms.no_duplicates()
            &&& ms.len() <= n
            &&& forall|x: Move| #[trigger] is_pending(g, board, x) <==> (ms.contains(x) || is_pending(gf, board, x))
            &&& forall|x: Move| ms.contains(x) ==> !#[trigger] is_pending(gf, board, x)
            &&& (ms.len() < n ==> forall|x: Move| !#[trigger] is_pending(gf, board, x))
        }),
    decreases n,
{
    if n > 0 {
        lemma_next_gives_each_move_once(g, board, threats, hist, idx);
        let (g1, r) = spec_next(g, board, threats, hist, idx);
        if let Some(m) = r {
            lemma_run_gives_each_move_once(g1, board, threats, hist, idx, (n - 1) as nat);
            let (g2, ms) = spec_run(g1, board, threats, hist, idx, (n - 1) as nat);
            let all = seq![m] + ms;
            assert(!ms.contains(m)) by {
                if ms.contains(m) {
                    assert(is_pending(g1, board, m) || !is_pending(g1, board, m));
                    assert(!is_pending(g1, board, m));
                    let j = choose|j: int| 0 <= j < ms.len() && ms[j] == m;
                    assert(is_pending(g1, board, ms[j]) <==> (ms.contains(ms[j]) || is_pending(g2, board, ms[j])));
                }
            }
            assert forall|x: Move| all.contains(x) <==> (x == m || ms.contains(x)) by {
                if all.contains(x) {
                    let j = choose|j: int| 0 <= j < all.len() && all[j] == x;
                    if j > 0 {
                        assert(ms[j - 1] == x);
                    }
                }
                if ms.contains(x) {
                    let j = choose|j: int| 0 <= j < ms.len() && ms[j] == x;
                    assert(all[j + 1] == x);
                }
                if x == m {
                    assert(all[0] == x);
                }
            }
            assert(all.no_duplicates()) by {
                assert forall|a: int, b: int| 0 <= a < all.len() && 0 <= b < all.len() && a != b implies all[a] != all[b] by {
                    if a == 0 && b > 0 {
                        assert(all[b] == ms[b - 1]);
                        assert(ms.contains(ms[b - 1]));
                    } else if b == 0 && a > 0 {
                        assert(all[a] == ms[a - 1]);
                        assert(ms.contains(ms[a - 1]));
                    } else if a > 0 && b > 0 {
                        assert(all[a] == ms[a - 1]);
                        assert(all[b] == ms[b - 1]);
                    }
                }
            }
            assert forall|x: Move| #[trigger] is_pending(g, board, x) <==> (all.contains(x) || is_pending(g2, board, x)) by {
                assert(is_pending(g1, board, x) <==> (is_pending(g, board, x) && x != m));
                assert(is_pending(g1, board, x) <==> (ms.contains(x) || is_pending(g2, board, x)));
            }
            assert forall|x: Move| all.contains(x) implies !#[trigger] is_pending(g2, board, x) by {
                if x != m {
                    assert(ms.contains(x));
                } else {
                    assert(is_pending(g1, board, x) <==> (ms.contains(x) || is_pending(g2, board, x)));
                    assert(is_pending(g1, board, x) <==> (is_pending(g, board, x) && x != m));
                }
            }
            assert(spec_run(g, board, threats, hist, idx, n) == (g2, all));
        } else {
            assert(spec_run(g, board, threats, hist, idx, n) == (g1, Seq::<Move>::empty()));
            assert forall|x: Move| #[trigger] is_pending(g, board, x) <==> (Seq::<Move>::empty().contains(x) || is_pending(g1, board, x)) by {}
            assert forall|x: Move| !#[trigger] is_pending(g1, board, x) by {
                assert(!is_pending(g, board, x));
            }
        }
    }
}

/// The state a new picker starts in.
pub open spec fn initial_state(moves: Seq<Move>, pv_move: Option<Move>, killers: Seq<Option<Move>>) -> GenState {
    GenState {
        phase: Phase::PvMove,
        pv: match pv_move {
            Some(p) => if moves.contains(p) {
                Some(p)
            } else {
                None
            },
            None => None,
        },
        killers,
        ki: 0,
        moves,
        quiets: Seq::empty(),
        caps: Seq::empty(),
        bad: Seq::empty(),
    }
}

/// A new picker has every legal move still to come, and nothing else.
pub proof fn lemma_new_picker_has_every_move(moves: Seq<Move>, pv_move: Option<Move>, killers: Seq<Option<Move>>, board: Board)
    requires
        distinct_moves(moves),
        killers_ok(killers),
    ensures
        picker_ok(initial_state(moves, pv_move, killers), board),
        forall|x: Move| #[trigger] is_pending(initial_state(moves, pv_move, killers), board, x) <==> moves.contains(x),
{
    let g = initial_state(moves, pv_move, killers);
    assert forall|x: Move| #[trigger] is_pending(g, board, x) <==> moves.contains(x) by {
        lemma_pending_parts(g, board, x);
        if killer_pending(g, board, x) {
            let j = choose|j: int|
                g.ki <= j < 2 && g.killers[j] == Some(x) && #[trigger] killer_live(g.killers, j, g.pv, g.moves)
                    && !spec_is_capture(board, x);
        }
        if moves.contains(x) && g.pv != Some(x) && !spec_is_capture(board, x) {
            if killers[0] == Some(x) {
                assert(killer_live(g.killers, 0, g.pv, g.moves));
            } else if killers[1] == Some(x) {
                assert(killer_live(g.killers, 1, g.pv, g.moves));
            }
        }
    }
}

/// A new picker, called more times than there are legal moves, gives exactly the legal
/// moves, each once, and then nothing.
pub proof fn lemma_new_picker_gives_every_move_once(
    moves: Seq<Move>,
    pv_move: Option<Move>,
    killers: Seq<Option<Move>>,
    board: Board,
    threats: u64,
    hist: History,
    idx: HistoryIndices,
    n: nat,
)
    requires
        distinct_moves(moves),
        killers_ok(killers),
        n > moves.len(),
    ensures
        ({
            let (gf, ms) = spec_run(initial_state(moves, pv_move, killers), board, threats, hist, idx, n);
            &&& ms.no_duplicates()
            &&& ms.len() == moves.len()
            &&& forall|x: Move| ms.contains(x) <==> moves.contains(x)
            &&& forall|x: Move| !#[trigger] is_pending(gf, board, x)
        }),
{
    let g0 = initial_state(moves, pv_move, killers);
    lemma_new_picker_has_every_move(moves, pv_move, killers, board);
    lemma_run_gives_each_move_once(g0, board, threats, hist, idx, n);
    let (gf, ms) = spec_run(g0, board, threats, hist, idx, n);
    assert forall|x: Move| ms.contains(x) implies moves.contains(x) by {
        assert(is_pending(g0, board, x));
    }
    ms.unique_seq_to_set();
    moves.lemma_cardinality_of_set();
    assert(ms.to_set().subset_of(moves.to_set()));
    vstd::set_lib::lemma_len_subset(ms.to_set(), moves.to_set());
    assert(ms.len() < n);
    assert forall|x: Move| moves.contains(x) implies ms.contains(x) by {
        assert(is_pending(g0, board, x));
        assert(!is_pending(gf, board, x));
    }
    assert(ms.to_set() =~= moves.to_set());
    assert(moves.no_duplicates()) by {
        assert forall|a: int, b: int| 0 <= a < moves.len() && 0 <= b < moves.len() && a != b implies moves[a] != moves[b] by {
            if a < b {
                assert(moves[a] != moves[b]);
            } else {
                assert(moves[b] != moves[a]);
            }
        }
    }
    moves.unique_seq_to_set();
}

/// Skipping the quiet moves keeps the picker consistent and only drops moves from what is to come.
pub proof fn lemma_skip_quiets_drops_only(g: GenState, board: Board)
    requires
        picker_ok(g, board),
    ensures
        picker_ok(GenState { phase: spec_skip_quiets(g.phase), ..g }, board),
        forall|x: Move| #[trigger] is_pending(GenState { phase: spec_skip_quiets(g.phase), ..g }, board, x) ==> is_pending(g, board, x),
{
    let g1 = GenState { phase: spec_skip_quiets(g.phase), ..g };
    if rank(g.phase) >= 4 && rank(g.phase) <= 6 {
        assert forall|j: int| 0 <= j < 2 && #[trigger] killer_live(g1.killers, j, g1.pv, g1.moves) implies !spec_is_capture(
            board,
            g1.killers[j]->0,
        ) by {
            assert(killer_live(g.killers, j, g.pv, g.moves));
        }
    }
    assert forall|x: Move| #[trigger] is_pending(g1, board, x) implies is_pending(g, board, x) by {
        lemma_pending_parts(g, board, x);
        lemma_pending_parts(g1, board, x);
        if killer_pending(g1, board, x) {
            lemma_killer_pending_same(g, g1, board, x);
        }
    }
}

/// The legal move list the picker was given, as its contract needs it: no move twice, each
/// from an occupied square, none onto a king.
pub open spec fn moves_ok(board: Board, moves: Seq<Move>) -> bool {
    &&& moves.len() <= MAX_MOVES
    &&& forall|i: int, j: int| 0 <= i < j < moves.len() ==> moves[i] != moves[j]
    &&& forall|i: int| 0 <= i < moves.len() ==> (#[trigger] moves[i]).wf()
    &&& forall|i: int| 0 <= i < moves.len() ==> board.spec_piece_on((#[trigger] moves[i]).from as int) is Some
    &&& forall|i: int| 0 <= i < moves.len() ==> board.spec_piece_on((#[trigger] moves[i]).to as int) != Some(KING)
}

/// A staged move picker for the moves of one position.
pub struct OrderedMoveGen {
    pub phase: Phase,
    pub pv_move: Option<Move>,
    pub killers: MoveEntry,
    pub killer_index: usize,
    pub moves: Vec<Move>,
    pub quiets: ArrayVec<ScoredMove, 218>,
    pub captures: ArrayVec<ScoredMove, 218>,
    pub bad_captures: ArrayVec<ScoredMove, 218>,
}

impl OrderedMoveGen {
    pub open spec fn view_state(&self) -> GenState {
        GenState {
            phase: self.phase,
            pv: self.pv_move,
            killers: self.killers.spec_moves(),
            ki: self.killer_index as int,
            moves: self.moves@,
            quiets: scored_items(self.quiets),
            caps: scored_items(self.captures),
            bad: scored_items(self.bad_captures),
        }
    }

    /// The picker's lists are consistent with the board's move list.
    pub open spec fn wf(&self, board: Board) -> bool {
        &&& moves_ok(board, self.moves@)
        &&& self.killers.spec_moves().len() == 2
        &&& self.killer_index <= 2
        &&& forall|i: int| 0 <= i < scored_items(self.captures).len() ==> self.moves@.contains(#[trigger] scored_items(self.captures)[i].mv)
        &&& forall|i: int| 0 <= i < scored_items(self.bad_captures).len() ==> self.moves@.contains(#[trigger] scored_items(self.bad_captures)[i].mv)
        &&& forall|i: int| 0 <= i < scored_items(self.quiets).len() ==> self.moves@.contains(#[trigger] scored_items(self.quiets)[i].mv)
        &&& self.moves@.len() <= MAX_MOVES
        &&& rank(self.phase) <= 2 ==> scored_items(self.captures).len() == 0 && scored_items(self.bad_captures).len() == 0
        &&& rank(self.phase) <= 5 ==> scored_items(self.quiets).len() == 0
        &&& scored_items(self.captures).len() + scored_items(self.bad_captures).len() <= self.moves@.len()
        &&& scored_items(self.quiets).len() <= self.moves@.len()
    }
}

/// The index of the first highest score, `None` for an empty list.
pub fn select_highest(list: &[ScoredMove]) -> (r: Option<usize>)
    ensures
        match r {
            None => list@.len() == 0,
            Some(i) => i < list@.len() && i == best_index(list@),
        },
{
    if list.len() == 0 {
        return None;
    }
    let mut best: usize = 0;
    let mut index: usize = 1;
    while index < list.len()
        invariant
            1 <= index <= list@.len(),
            best < index,
            forall|j: int| 0 <= j < index ==> #[trigger] list@[j].score <= list@[best as int].score,
            forall|j: int| 0 <= j < best ==> #[trigger] list@[j].score < list@[best as int].score,
        decreases list@.len() - index,
    {
        if list[index].score > list[best].score {
            best = index;
        }
        index += 1;
    }
    proof {
        lemma_best_unique(list@, best as int);
    }
    Some(best)
}

fn contains_move(moves: &Vec<Move>, m: Move) -> (r: bool)
    ensures
        r == moves@.contains(m),
{
    let mut i: usize = 0;
    while i < moves.len()
        invariant
            i <= moves@.len(),
            forall|j: int| 0 <= j < i ==> moves@[j] != m,
        decreases moves@.len() - i,
    {
        if opt_move_eq(Some(moves[i]), m) {
            assert(moves@[i as int] == m);
            return true;
        }
        i += 1;
    }
    false
}

impl OrderedMoveGen {
    /// A picker for the legal moves `moves` of a position (in the order the move generator
    /// lists them), with the hash move (kept only if it is legal) and the killers of the ply.
    pub fn new(moves: Vec<Move>, pv_move: Option<Move>, killers: MoveEntry) -> (r: Self)
        ensures
            r.view_state() == initial_state(moves@, pv_move, killers.spec_moves()),
            forall|b: Board| moves_ok(b, moves@) ==> #[trigger] r.wf(b),
    {
        let pv = match pv_move {
            Some(p) => if contains_move(&moves, p) {
                Some(p)
            } else {
                None
            },
            None => None,
        };
        proof {
            killers.lemma_two_slots();
        }
        OrderedMoveGen {
            phase: Phase::PvMove,
            pv_move: pv,
            killers,
            killer_index: 0,
            moves,
            quiets: list_new(),
            captures: list_new(),
            bad_captures: list_new(),
        }
    }

    /// The phase of the last move given (the hash move aside).
    pub fn phase(&self) -> (r: Phase)
        ensures
            r == self.phase,
    {
        self.phase
    }

    /// Skips the quiet moves when the last move given was a killer or a quiet move.
    pub fn skip_quiets(&mut self)
        ensures
            final(self).view_state() == (GenState { phase: spec_skip_quiets(old(self).phase), ..old(self).view_state() }),
            forall|b: Board| old(self).wf(b) ==> #[trigger] final(self).wf(b),
    {
        self.phase = match self.phase {
            Phase::Killers | Phase::GenQuiets | Phase::Quiets => Phase::BadCaptures,
            _ => self.phase,
        };
    }

    fn gen_captures(&mut self, board: &Board, threats: BitBoard, hist: &History)
        requires
            old(self).wf(*board),
            hist.wf(),
            rank(old(self).phase) >= 3,
            scored_items(old(self).captures).len() == 0,
            scored_items(old(self).bad_captures).len() == 0,
        ensures
            final(self).wf(*board),
            final(self).view_state() == (GenState {
                caps: scored_items(old(self).captures) + gen_caps(*board, threats, *hist, old(self).moves@, old(self).pv_move, old(self).moves@.len() as int),
                killers: strip_killers(old(self).killers.spec_moves(), *board, old(self).moves@, old(self).pv_move, old(self).moves@.len() as int),
                ..old(self).view_state()
            }),
    {
        let ghost c0 = scored_items(self.captures);
        let ghost k0 = self.killers.spec_moves();
        let ghost b = *board;
        let opp = board.colors(board.side_to_move.opp());
        let mut i: usize = 0;
        while i < self.moves.len()
            invariant
                i <= self.moves@.len(),
                hist.wf(),
                self.wf(*board),
                self.moves@ == old(self).moves@,
                self.pv_move == old(self).pv_move,
                self.phase == old(self).phase,
                self.killer_index == old(self).killer_index,
                scored_items(self.quiets) == scored_items(old(self).quiets),
                scored_items(self.bad_captures) == scored_items(old(self).bad_captures),
                opp == board.colors[board.side_to_move.spec_opp().spec_index()],
                b == *board,
                scored_items(self.captures) == c0 + gen_caps(b, threats, *hist, self.moves@, self.pv_move, i as int),
                self.killers.spec_moves() == strip_killers(k0, b, self.moves@, self.pv_move, i as int),
                scored_items(self.captures).len() <= i,
                scored_items(self.bad_captures).len() == 0,
                rank(self.phase) >= 3,
            decreases self.moves@.len() - i,
        {
            let m = self.moves[i];
            proof {
                self.killers.lemma_two_slots();
                assert(self.moves@[i as int].wf());
            }
            let ghost caps_before = scored_items(self.captures);
            let ghost kill_before = self.killers.spec_moves();
            assert(m == self.moves@[i as int]);
            if has(opp, m.to) && !opt_move_eq(self.pv_move, m) {
                assert(spec_is_capture(b, m));
                match self.killers.index_of(m) {
                    Some(j) => {
                        self.killers.remove(j);
                    },
                    None => {},
                }
                let score = Self::capture_score(board, threats, hist, m);
                let ghost before = scored_items(self.captures);
                list_push(&mut self.captures, ScoredMove { mv: m, score });
                proof {
                    assert(self.moves@.contains(self.moves@[i as int]));
                    assert forall|j: int| 0 <= j < scored_items(self.captures).len() implies self.moves@.contains(
                        #[trigger] scored_items(self.captures)[j].mv,
                    ) by {
                        if j < before.len() {
                            assert(scored_items(self.captures)[j] == before[j]);
                        }
                    }
                    assert(scored_items(self.captures) =~= c0 + gen_caps(b, threats, *hist, self.moves@, self.pv_move, i + 1));
                    assert(self.killers.spec_moves() =~= strip_killers(k0, b, self.moves@, self.pv_move, i + 1));
                }
            } else {
                assert(!(spec_is_capture(b, m) && self.pv_move != Some(m)));
                assert(scored_items(self.captures) =~= c0 + gen_caps(b, threats, *hist, self.moves@, self.pv_move, i + 1));
                assert(self.killers.spec_moves() =~= strip_killers(k0, b, self.moves@, self.pv_move, i + 1));
            }
            i += 1;
        }
    }

    fn gen_quiets(&mut self, board: &Board, threats: BitBoard, hist: &History, idx: &HistoryIndices)
        requires
            old(self).wf(*board),
            hist.wf(),
            idx.wf(),
            rank(old(self).phase) >= 6,
            scored_items(old(self).quiets).len() == 0,
        ensures
            final(self).wf(*board),
            final(self).view_state() == (GenState {
                quiets: scored_items(old(self).quiets) + gen_quiets(
                    *board,
                    threats,
                    *hist,
                    *idx,
                    old(self).moves@,
                    old(self).pv_move,
                    old(self).killers.spec_moves(),
                    old(self).moves@.len() as int,
                ),
                ..old(self).view_state()
            }),
    {
        let ghost q0 = scored_items(self.quiets);
        let ghost b = *board;
        let opp = board.colors(board.side_to_move.opp());
        let mut i: usize = 0;
        while i < self.moves.len()
            invariant
                i <= self.moves@.len(),
                hist.wf(),
                idx.wf(),
                self.wf(*board),
                self.moves@ == old(self).moves@,
                self.pv_move == old(self).pv_move,
                self.phase == old(self).phase,
                self.killer_index == old(self).killer_index,
                self.killers == old(self).killers,
                scored_items(self.captures) == scored_items(old(self).captures),
                scored_items(self.bad_captures) == scored_items(old(self).bad_captures),
                opp == board.colors[board.side_to_move.spec_opp().spec_index()],
                b == *board,
                scored_items(self.quiets) == q0 + gen_quiets(b, threats, *hist, *idx, self.moves@, self.pv_move, self.killers.spec_moves(), i as int),
                scored_items(self.quiets).len() <= i,
                rank(self.phase) >= 6,
            decreases self.moves@.len() - i,
        {
            let m = self.moves[i];
            proof {
                assert(self.moves@[i as int].wf());
                assert(board.spec_piece_on(self.moves@[i as int].from as int) is Some);
            }
            assert(m == self.moves@[i as int]);
            let is_capture = has(opp, m.to);
            if !is_capture && !opt_move_eq(self.pv_move, m) && !self.killers.contains(m) {
                let score = Self::quiet_score(board, threats, hist, idx, m);
                let ghost before = scored_items(self.quiets);
                list_push(&mut self.quiets, ScoredMove { mv: m, score });
                proof {
                    assert(self.moves@.contains(self.moves@[i as int]));
                    assert forall|j: int| 0 <= j < scored_items(self.quiets).len() implies self.moves@.contains(
                        #[trigger] scored_items(self.quiets)[j].mv,
                    ) by {
                        if j < before.len() {
                            assert(scored_items(self.quiets)[j] == before[j]);
                        }
                    }
                    assert(scored_items(self.quiets) =~= q0 + gen_quiets(b, threats, *hist, *idx, self.moves@, self.pv_move, self.killers.spec_moves(), i + 1));
                }
            } else {
                assert(scored_items(self.quiets) =~= q0 + gen_quiets(b, threats, *hist, *idx, self.moves@, self.pv_move, self.killers.spec_moves(), i + 1));
            }
            i += 1;
        }
    }

    fn next_good(&mut self, board: &Board) -> (r: Option<Move>)
        requires
            old(self).wf(*board),
        ensures
            final(self).wf(*board),
            ({
                let (c, b, m) = pop_good(scored_items(old(self).captures), scored_items(old(self).bad_captures), *board);
                &&& final(self).view_state() == (GenState { caps: c, bad: b, ..old(self).view_state() })
                &&& r == m
            }),
    {
        loop
            invariant
                self.wf(*board),
                self.moves@ == old(self).moves@,
                self.pv_move == old(self).pv_move,
                self.phase == old(self).phase,
                self.killer_index == old(self).killer_index,
                self.killers == old(self).killers,
                scored_items(self.quiets) == scored_items(old(self).quiets),
                pop_good(scored_items(self.captures), scored_items(self.bad_captures), *board) == pop_good(
                    scored_items(old(self).captures),
                    scored_items(old(self).bad_captures),
                    *board,
                ),
            decreases scored_items(self.captures).len(),
        {
            match select_highest(list_slice(&self.captures)) {
                None => {
                    return None;
                },
                Some(i) => {
                    proof {
                        lemma_best_exists(scored_items(self.captures));
                    }
                    let ghost caps = scored_items(self.captures);
                    let ghost bad = scored_items(self.bad_captures);
                    let c = list_swap_remove(&mut self.captures, i);
                    assert(scored_items(self.captures) =~= swap_removed(caps, i as int));
                    assert(self.moves@.contains(caps[i as int].mv));
                    let ghost k = choose|k: int| 0 <= k < self.moves@.len() && self.moves@[k] == c.mv;
                    assert(self.moves@[k].wf());
                    assert forall|j: int| 0 <= j < scored_items(self.captures).len() implies self.moves@.contains(
                        #[trigger] scored_items(self.captures)[j].mv,
                    ) by {
                        if j == i {
                            assert(scored_items(self.captures)[j] == caps[caps.len() - 1]);
                        } else {
                            assert(scored_items(self.captures)[j] == caps[j]);
                        }
                    }
                    if !compare_see(board, c.mv, 0) {
                        list_push(&mut self.bad_captures, c);
                        assert forall|j: int| 0 <= j < scored_items(self.bad_captures).len() implies self.moves@.contains(
                            #[trigger] scored_items(self.bad_captures)[j].mv,
                        ) by {
                            if j < bad.len() {
                                assert(scored_items(self.bad_captures)[j] == bad[j]);
                            }
                        }
                    } else {
                        return Some(c.mv);
                    }
                },
            }
        }
    }

    fn next_killer(&mut self) -> (r: Option<Move>)
        requires
            old(self).killer_index <= 2,
        ensures
            final(self).killer_index <= 2,
            ({
                let (ki, m) = killer_step(old(self).killers.spec_moves(), old(self).killer_index as int, old(self).pv_move, old(self).moves@);
                &&& final(self).view_state() == (GenState { ki, ..old(self).view_state() })
                &&& r == m
            }),
    {
        proof {
            self.killers.lemma_two_slots();
        }
        while self.killer_index < 2
            invariant
                self.killer_index <= 2,
                self.killers.spec_moves().len() == 2,
                self.moves@ == old(self).moves@,
                self.pv_move == old(self).pv_move,
                self.phase == old(self).phase,
                self.killers == old(self).killers,
                scored_items(self.quiets) == scored_items(old(self).quiets),
                scored_items(self.captures) == scored_items(old(self).captures),
                scored_items(self.bad_captures) == scored_items(old(self).bad_captures),
                killer_step(self.killers.spec_moves(), self.killer_index as int, self.pv_move, self.moves@)
                    == killer_step(old(self).killers.spec_moves(), old(self).killer_index as int, old(self).pv_move, old(self).moves@),
            decreases 2 - self.killer_index,
        {
            let killer = self.killers.get(self.killer_index);
            self.killer_index += 1;
            match killer {
                Some(k) => {
                    if opt_move_eq(self.pv_move, k) {
                        continue;
                    }
                    if !contains_move(&self.moves, k) {
                        continue;
                    }
                    return Some(k);
                },
                None => {},
            }
        }
        None
    }

    /// Gives the next move: the hash move, then the captures that do not lose material
    /// (best score first), the killers that are legal, the quiet moves (best score first)
    /// and the losing captures (best score first); `None` when none is left.
    pub fn next(&mut self, board: &Board, nstm_threats: BitBoard, hist: &History, hist_indices: &HistoryIndices) -> (r: Option<Move>)
        requires
            old(self).wf(*board),
            hist.wf(),
            hist_indices.wf(),
        ensures
            final(self).wf(*board),
            (final(self).view_state(), r) == spec_next(old(self).view_state(), *board, nstm_threats, *hist, *hist_indices),
    {
        let ghost goal = spec_next(self.view_state(), *board, nstm_threats, *hist, *hist_indices);
        loop
            invariant
                self.wf(*board),
                hist.wf(),
                hist_indices.wf(),
                spec_next(self.view_state(), *board, nstm_threats, *hist, *hist_indices) == goal,
                goal == spec_next(old(self).view_state(), *board, nstm_threats, *hist, *hist_indices),
            decreases 8 - rank(self.phase),
        {
            let ghost g0 = self.view_state();
            match self.phase {
                Phase::PvMove => {
                    self.phase = Phase::GenPieceMoves;
                    if self.pv_move.is_some() {
                        assert(self.view_state() == (GenState { phase: Phase::GenPieceMoves, ..g0 }));
                        return self.pv_move;
                    }
                },
                Phase::GenPieceMoves => {
                    self.phase = Phase::GenCaptures;
                },
                Phase::GenCaptures => {
                    self.phase = Phase::GoodCaptures;
                    self.gen_captures(board, nstm_threats, hist);
                },
                Phase::GoodCaptures => {
                    let r = self.next_good(board);
                    if r.is_some() {
                        return r;
                    }
                    self.phase = Phase::Killers;
                },
                Phase::Killers => {
                    let r = self.next_killer();
                    if r.is_some() {
                        return r;
                    }
                    self.phase = Phase::GenQuiets;
                },
                Phase::GenQuiets => {
                    self.phase = Phase::Quiets;
                    self.gen_quiets(board, nstm_threats, hist, hist_indices);
                },
                Phase::Quiets => {
                    match select_highest(list_slice(&self.quiets)) {
                        Some(i) => {
                            let ghost q = scored_items(self.quiets);
                            let m = list_swap_remove(&mut self.quiets, i).mv;
                            proof {
                                assert(scored_items(self.quiets) =~= swap_removed(q, i as int));
                                assert forall|j: int| 0 <= j < scored_items(self.quiets).len() implies self.moves@.contains(
                                    #[trigger] scored_items(self.quiets)[j].mv,
                                ) by {
                                    if j == i {
                                        assert(scored_items(self.quiets)[j] == q[q.len() - 1]);
                                    } else {
                                        assert(scored_items(self.quiets)[j] == q[j]);
                                    }
                                }
                            }
                            return Some(m);
                        },
                        None => {
                            self.phase = Phase::BadCaptures;
                        },
                    }
                },
                Phase::BadCaptures => {
                    match select_highest(list_slice(&self.bad_captures)) {
                        Some(i) => {
                            let ghost q = scored_items(self.bad_captures);
                            let m = list_swap_remove(&mut self.bad_captures, i).mv;
                            proof {
                                assert(scored_items(self.bad_captures) =~= swap_removed(q, i as int));
                                assert forall|j: int| 0 <= j < scored_items(self.bad_captures).len() implies self.moves@.contains(
                                    #[trigger] scored_items(self.bad_captures)[j].mv,
                                ) by {
                                    if j == i {
                                        assert(scored_items(self.bad_captures)[j] == q[q.len() - 1]);
                                    } else {
                                        assert(scored_items(self.bad_captures)[j] == q[j]);
                                    }
                                }
                            }
                            return Some(m);
                        },
                        None => {
                            assert(self.view_state() == g0);
                            assert(spec_next(g0, *board, nstm_threats, *hist, *hist_indices) == (g0, None::<Move>));
                            return None;
                        },
                    }
                },
            }
        }
    }

    fn capture_score(board: &Board, threats: BitBoard, hist: &History, m: Move) -> (r: i16)
        requires
            hist.wf(),
            m.wf(),
            board.spec_piece_on(m.to as int) != Some(KING),
        ensures
            r == spec_capture_score(*board, threats, *hist, m),
    {
        let h = hist.get_capture(board.side_to_move, threats, m);
        let v = move_value(board, m);
        h + v * 32
    }

    fn quiet_score(board: &Board, threats: BitBoard, hist: &History, idx: &HistoryIndices, m: Move) -> (r: i16)
        requires
            hist.wf(),
            idx.wf(),
            m.wf(),
            board.spec_piece_on(m.from as int) is Some,
        ensures
            r == spec_quiet_score(*board, threats, *hist, *idx, m),
    {
        match m.promotion {
            Some(p) => if p == QUEEN {
                i16::MAX
            } else {
                i16::MIN
            },
            None => {
                proof {
                    hist.lemma_scores_bounded();
                }
                let stm = board.side_to_move;
                let piece = match board.piece_on(m.from) {
                    Some(p) => p,
                    None => 0,
                };
                let q = hist.get_quiet(stm, threats, m);
                let c1 = match hist.get_counter_move(stm, idx, piece, m) {
                    Some(v) => v,
                    None => 0,
                };
                let c2 = match hist.get_followup_move(stm, idx, piece, m) {
                    Some(v) => v,
                    None => 0,
                };
                let c4 = match hist.get_followup_move_2(stm, idx, piece, m) {
                    Some(v) => v,
                    None => 0,
                };
                q + c1 + c2 + c4
            },
        }
    }
}

/// The stages of the quiescence move picker.
#[derive(Debug, Copy, Clone, PartialEq, Eq, Structural)]
pub enum QPhase {
    GenCaptures,
    GoodCaptures,
}

/// A move picker for the captures of a position, best score first.
pub struct QSearchMoveGen {
    pub phase: QPhase,
    pub moves: Vec<Move>,
    pub captures: ArrayVec<ScoredMove, 218>,
}

impl QSearchMoveGen {
    /// A picker for the captures among the legal moves `moves` of a position.
    pub fn new(moves: Vec<Move>) -> (r: Self)
        ensures
            r.phase == QPhase::GenCaptures,
            r.moves@ == moves@,
            scored_items(r.captures).len() == 0,
    {
        QSearchMoveGen { phase: QPhase::GenCaptures, moves, captures: list_new() }
    }

    /// Gives the capture with the highest score (capture history plus 32 times the captured
    /// value; en passant is not a capture here) not given yet, or `None`.
    pub fn next(&mut self, board: &Board, nstm_threats: BitBoard, hist: &History) -> (r: Option<Move>)
        requires
            moves_ok(*board, old(self).moves@),
            forall|i: int| 0 <= i < scored_items(old(self).captures).len() ==> old(self).moves@.contains(#[trigger] scored_items(old(self).captures)[i].mv),
            hist.wf(),
            old(self).phase == QPhase::GenCaptures ==> scored_items(old(self).captures).len() == 0,
        ensures
            final(self).phase == QPhase::GoodCaptures,
            final(self).moves@ == old(self).moves@,
            forall|i: int| 0 <= i < scored_items(final(self).captures).len() ==> final(self).moves@.contains(#[trigger] scored_items(final(self).captures)[i].mv),
            ({
                let caps = if old(self).phase == QPhase::GenCaptures {
                    scored_items(old(self).captures) + gen_caps(*board, nstm_threats, *hist, old(self).moves@, None, old(self).moves@.len() as int)
                } else {
                    scored_items(old(self).captures)
                };
                if caps.len() == 0 {
                    r is None && scored_items(final(self).captures) == caps
                } else {
                    let i = best_index(caps);
                    r == Some(caps[i].mv) && scored_items(final(self).captures) == swap_removed(caps, i)
                }
            }),
    {
        if self.phase == QPhase::GenCaptures {
            self.phase = QPhase::GoodCaptures;
            let ghost c0 = scored_items(self.captures);
            let ghost b = *board;
            let opp = board.colors(board.side_to_move.opp());
            let mut i: usize = 0;
            while i < self.moves.len()
                invariant
                    i <= self.moves@.len(),
                    hist.wf(),
                    moves_ok(*board, self.moves@),
                    self.moves@ == old(self).moves@,
                    self.phase == QPhase::GoodCaptures,
                    opp == board.colors[board.side_to_move.spec_opp().spec_index()],
                    b == *board,
                    scored_items(self.captures) == c0 + gen_caps(b, nstm_threats, *hist, self.moves@, None, i as int),
                    scored_items(self.captures).len() <= i,
                    forall|j: int| 0 <= j < scored_items(self.captures).len() ==> self.moves@.contains(#[trigger] scored_items(self.captures)[j].mv),
                decreases self.moves@.len() - i,
            {
                let m = self.moves[i];
                assert(m == self.moves@[i as int]);
                assert(self.moves@[i as int].wf());
                if has(opp, m.to) {
                    let score = OrderedMoveGen::capture_score(board, nstm_threats, hist, m);
                    let ghost before = scored_items(self.captures);
                    list_push(&mut self.captures, ScoredMove { mv: m, score });
                    proof {
                        assert(self.moves@.contains(self.moves@[i as int]));
                        assert forall|j: int| 0 <= j < scored_items(self.captures).len() implies self.moves@.contains(
                            #[trigger] scored_items(self.captures)[j].mv,
                        ) by {
                            if j < before.len() {
                                assert(scored_items(self.captures)[j] == before[j]);
                            }
                        }
                        assert(scored_items(self.captures) =~= c0 + gen_caps(b, nstm_threats, *hist, self.moves@, None, i + 1));
                    }
                } else {
                    assert(scored_items(self.captures) =~= c0 + gen_caps(b, nstm_threats, *hist, self.moves@, None, i + 1));
                }
                i += 1;
            }
        }
        match select_highest(list_slice(&self.captures)) {
            Some(i) => {
                let ghost q = scored_items(self.captures);
                let m = list_swap_remove(&mut self.captures, i).mv;
                proof {
                    assert(scored_items(self.captures) =~= swap_removed(q, i as int));
                    assert forall|j: int| 0 <= j < scored_items(self.captures).len() implies self.moves@.contains(
                        #[trigger] scored_items(self.captures)[j].mv,
                    ) by {
                        if j == i {
                            assert(scored_items(self.captures)[j] == q[q.len() - 1]);
                        } else {
                            assert(scored_items(self.captures)[j] == q[j]);
                        }
                    }
                }
                Some(m)
            },
            None => None,
        }
    }
}

} // verus!
