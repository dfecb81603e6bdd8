use vstd::prelude::*;

use crate::bm::chess_types::{bb_has, has, Board, BitBoard, Color, Move, MoveData, Piece, Square};

verus! {

pub const MAX_HIST: i16 = 512;

pub const CORR_HIST_GRAIN: i32 = 256;
pub const MAX_CORRECT: i32 = 32;
pub const MAX_DIFF: i32 = 512;

/// Number of entries of a `[color][threatened][from][to]` table.
pub const BUTTERFLY_SIZE: usize = 16384;
/// Number of entries of a `[color][prev piece][prev to][piece][to]` table.
pub const CONT_SIZE: usize = 294912;
/// Number of entries of the pawn correction table (`[color][pawn hash]`).
pub const CORR_SIZE: usize = 131072;

pub open spec fn spec_hist_stat(amt: i16) -> i16 {
    if amt * 13 < MAX_HIST {
        (amt * 13) as i16
    } else {
        MAX_HIST
    }
}

/// Rust's `as i16` of the truncating quotient of `change * hist / MAX_HIST`.
pub open spec fn spec_decay(change: i16, hist: i16) -> int {
    let p = change * hist;
    if p >= 0 {
        p / 512
    } else {
        -((-p) / 512)
    }
}

/// A bonus moves the score toward `+MAX_HIST` by `change`, less a decay proportional to the score.
pub open spec fn spec_bonus(hist: i16, amt: i16) -> i16 {
    (hist + spec_hist_stat(amt) - spec_decay(spec_hist_stat(amt), hist)) as i16
}

/// A malus moves the score toward `-MAX_HIST` by `change`, plus a decay proportional to the score.
pub open spec fn spec_malus(hist: i16, amt: i16) -> i16 {
    (hist - spec_hist_stat(amt) - spec_decay(spec_hist_stat(amt), hist)) as i16
}

pub open spec fn in_hist_range(h: i16) -> bool {
    -MAX_HIST <= h <= MAX_HIST
}

pub open spec fn amt_ok(amt: i16) -> bool {
    0 <= amt <= 2520
}

pub fn hist_stat(amt: i16) -> (r: i16)
    requires
        -2520 <= amt <= 2520,
    ensures
        r == spec_hist_stat(amt),
{
    let x = amt * 13;
    if x < MAX_HIST {
        x
    } else {
        MAX_HIST
    }
}

/// A bonus step `hist + c - decay` and a malus step `hist - c - decay` with a change
/// `0 <= c <= MAX_HIST` keep a score within `±MAX_HIST`.
pub proof fn lemma_step_bounded(hist: i16, c: i16)
    requires
        in_hist_range(hist),
        0 <= c <= 512,
    ensures
        in_hist_range((hist + c - spec_decay(c, hist)) as i16),
        in_hist_range((hist - c - spec_decay(c, hist)) as i16),
        -512 <= hist + c - spec_decay(c, hist) <= 512,
        -512 <= hist - c - spec_decay(c, hist) <= 512,
{
    let p = c * hist;
    let d = spec_decay(c, hist);
    if hist >= 0 {
        assert(0 <= p <= 512 * hist) by (nonlinear_arith)
            requires
                0 <= c <= 512,
                hist >= 0,
                p == c * hist,
        ;
        assert(d <= hist);
        assert(512 * d <= p < 512 * d + 512);
        assert(hist + c - d <= 512) by (nonlinear_arith)
            requires
                0 <= c <= 512,
                0 <= hist <= 512,
                p == c * hist,
                512 * d <= p < 512 * d + 512,
        ;
        assert(hist - c - d >= -512) by (nonlinear_arith)
            requires
                0 <= c <= 512,
                0 <= hist <= 512,
                p == c * hist,
                512 * d <= p < 512 * d + 512,
        ;
    } else {
        let q = (-p) / 512;
        assert(-p >= 0) by (nonlinear_arith)
            requires
                0 <= c,
                hist < 0,
                p == c * hist,
        ;
        assert(512 * q <= -p < 512 * q + 512);
        assert(d == -q);
        assert(hist + c - d <= 512 && hist + c - d >= -512) by (nonlinear_arith)
            requires
                0 <= c <= 512,
                -512 <= hist < 0,
                p == c * hist,
                512 * q <= -p < 512 * q + 512,
                d == -q,
        ;
        assert(hist - c - d >= -512 && hist - c - d <= 512) by (nonlinear_arith)
            requires
                0 <= c <= 512,
                -512 <= hist < 0,
                p == c * hist,
                512 * q <= -p < 512 * q + 512,
                d == -q,
        ;
    }
}

/// Bonus and malus keep a history score within `±MAX_HIST`.
pub proof fn lemma_bonus_malus_bounded(hist: i16, amt: i16)
    requires
        in_hist_range(hist),
        amt_ok(amt),
    ensures
        in_hist_range(spec_bonus(hist, amt)),
        in_hist_range(spec_malus(hist, amt)),
{
    lemma_step_bounded(hist, spec_hist_stat(amt));
}

/// A bonus never lowers a history score and a malus never raises it.
pub proof fn lemma_bonus_raises_malus_lowers(hist: i16, amt: i16)
    requires
        in_hist_range(hist),
        amt_ok(amt),
    ensures
        spec_bonus(hist, amt) >= hist,
        spec_malus(hist, amt) <= hist,
{
    let c = spec_hist_stat(amt);
    assert(0 <= c <= 512) by (nonlinear_arith)
        requires
            0 <= amt <= 2520,
            c == (if amt * 13 < 512 { (amt * 13) as i16 } else { 512i16 }),
    ;
    let p = c * hist;
    assert(-512 * c <= p <= 512 * c) by (nonlinear_arith)
        requires
            0 <= c <= 512,
            -512 <= hist <= 512,
            p == c * hist,
    ;
    if p >= 0 {
        assert(p / 512 <= c) by (nonlinear_arith)
            requires
                0 <= p <= 512 * c,
        ;
    } else {
        assert((-p) / 512 <= c) by (nonlinear_arith)
            requires
                0 < -p <= 512 * c,
        ;
    }
}

pub fn decay(change: i16, hist: i16) -> (r: i16)
    requires
        0 <= change <= 512,
        in_hist_range(hist),
    ensures
        r == spec_decay(change, hist),
        -512 <= r <= 512,
{
    assert(-512 * 512 <= change * hist <= 512 * 512) by (nonlinear_arith)
        requires
            0 <= change <= 512,
            -512 <= hist <= 512,
    ;
    let p = change as i32 * hist as i32;
    (p / MAX_HIST as i32) as i16
}

pub fn bonus(hist: &mut i16, amt: i16)
    requires
        in_hist_range(*old(hist)),
        amt_ok(amt),
    ensures
        *final(hist) == spec_bonus(*old(hist), amt),
        in_hist_range(*final(hist)),
{
    proof {
        lemma_bonus_malus_bounded(*hist, amt);
    }
    let change = hist_stat(amt);
    let decay = decay(change, *hist);
    let increment = change - decay;
    *hist = *hist + increment;
}

pub fn malus(hist: &mut i16, amt: i16)
    requires
        in_hist_range(*old(hist)),
        amt_ok(amt),
    ensures
        *final(hist) == spec_malus(*old(hist), amt),
        in_hist_range(*final(hist)),
{
    proof {
        lemma_bonus_malus_bounded(*hist, amt);
    }
    let change = hist_stat(amt);
    let decay = decay(change, *hist);
    let decrement = change + decay;
    *hist = *hist - decrement;
}

/// Applies a malus at each index in turn.
pub open spec fn spec_malus_all(t: Seq<i16>, idx: Seq<usize>, amt: i16) -> Seq<i16>
    decreases idx.len(),
{
    if idx.len() == 0 {
        t
    } else {
        let prev = spec_malus_all(t, idx.drop_last(), amt);
        prev.update(idx.last() as int, spec_malus(prev[idx.last() as int], amt))
    }
}

pub open spec fn spec_bonus_at(t: Seq<i16>, i: int, amt: i16) -> Seq<i16> {
    t.update(i, spec_bonus(t[i], amt))
}

/// A bonus for the move that caused the cutoff, then a malus for each move tried before it.
pub open spec fn spec_reward(t: Seq<i16>, i: int, fails: Seq<usize>, amt: i16) -> Seq<i16> {
    spec_malus_all(spec_bonus_at(t, i, amt), fails, amt)
}

pub open spec fn all_in_range(t: Seq<i16>) -> bool {
    forall|i: int| 0 <= i < t.len() ==> in_hist_range(#[trigger] t[i])
}

pub open spec fn spec_butterfly_index(stm: Color, threatened: bool, from: int, to: int) -> int {
    ((stm.spec_index() * 2 + (if threatened { 1int } else { 0int })) * 64 + from) * 64 + to
}

pub open spec fn spec_cont_index(stm: Color, prev_piece: int, prev_to: int, piece: int, to: int) -> int {
    (((stm.spec_index() * 6 + prev_piece) * 64 + prev_to) * 6 + piece) * 64 + to
}

fn butterfly_index(stm: Color, threatened: bool, from: Square, to: Square) -> (r: usize)
    requires
        from < 64,
        to < 64,
    ensures
        r == spec_butterfly_index(stm, threatened, from as int, to as int),
        r < BUTTERFLY_SIZE,
{
    ((stm.index() * 2 + if threatened { 1 } else { 0 }) * 64 + from as usize) * 64 + to as usize
}

fn cont_index(stm: Color, prev_piece: Piece, prev_to: Square, piece: Piece, to: Square) -> (r: usize)
    requires
        prev_piece < 6,
        prev_to < 64,
        piece < 6,
        to < 64,
    ensures
        r == spec_cont_index(stm, prev_piece as int, prev_to as int, piece as int, to as int),
        r < CONT_SIZE,
{
    (((stm.index() * 6 + prev_piece as usize) * 64 + prev_to as usize) * 6 + piece as usize) * 64
        + to as usize
}

/// Information calculated to index the continuation history tables:
/// the piece and destination of the moves played one, two and four plies ago.
#[derive(Clone, Copy)]
pub struct HistoryIndices {
    pub cont_mv_1: Option<(Piece, Square)>,
    pub cont_mv_2: Option<(Piece, Square)>,
    pub cont_mv_4: Option<(Piece, Square)>,
}

pub open spec fn spec_piece_to(mv: Option<MoveData>) -> Option<(Piece, Square)> {
    match mv {
        Some(m) => Some((m.piece, m.to)),
        None => None,
    }
}

pub open spec fn cont_ok(c: Option<(Piece, Square)>) -> bool {
    match c {
        Some((p, s)) => p < 6 && s < 64,
        None => true,
    }
}

impl HistoryIndices {
    pub open spec fn wf(self) -> bool {
        cont_ok(self.cont_mv_1) && cont_ok(self.cont_mv_2) && cont_ok(self.cont_mv_4)
    }

    pub fn new(cont_mv_1: Option<MoveData>, cont_mv_2: Option<MoveData>, cont_mv_4: Option<MoveData>) -> (r: Self)
        ensures
            r.cont_mv_1 == spec_piece_to(cont_mv_1),
            r.cont_mv_2 == spec_piece_to(cont_mv_2),
            r.cont_mv_4 == spec_piece_to(cont_mv_4),
    {
        let c1 = match cont_mv_1 {
            Some(m) => Some((m.piece, m.to)),
            None => None,
        };
        let c2 = match cont_mv_2 {
            Some(m) => Some((m.piece, m.to)),
            None => None,
        };
        let c4 = match cont_mv_4 {
            Some(m) => Some((m.piece, m.to)),
            None => None,
        };
        Self { cont_mv_1: c1, cont_mv_2: c2, cont_mv_4: c4 }
    }
}

/// Quiet, capture and continuation histories plus the pawn-structure correction history.
pub struct History {
    quiet: Vec<i16>,
    capture: Vec<i16>,
    counter_move: Vec<i16>,
    followup_move: Vec<i16>,
    pawn_corr: Vec<i32>,
}

/// Adds a weighted, clamped evaluation error to a correction entry, which stays clamped
/// to `±MAX_CORRECT * CORR_HIST_GRAIN`.
pub open spec fn spec_update_corr(val: i32, eval_diff: i16, depth: u32) -> i32 {
    let weight: int = if depth * 8 < 128 { depth * 8 } else { 128 };
    let diff: int = if eval_diff < -MAX_DIFF {
        -MAX_DIFF as int
    } else if eval_diff > MAX_DIFF {
        MAX_DIFF as int
    } else {
        eval_diff as int
    };
    let v = val + diff * weight;
    let lim = MAX_CORRECT * CORR_HIST_GRAIN;
    (if v < -lim {
        -lim
    } else if v > lim {
        lim
    } else {
        v
    }) as i32
}

pub open spec fn corr_in_range(v: i32) -> bool {
    -MAX_CORRECT * CORR_HIST_GRAIN <= v <= MAX_CORRECT * CORR_HIST_GRAIN
}

pub open spec fn piece_of(board: Board, sq: int) -> int {
    match board.spec_piece_on(sq) {
        Some(p) => p as int,
        None => 0,
    }
}

/// Every listed move starts on an occupied square of the board.
pub open spec fn moves_from_pieces(board: Board, moves: Seq<Move>) -> bool {
    forall|i: int| 0 <= i < moves.len() ==> #[trigger] board.spec_piece_on(moves[i].from as int) is Some
}

pub open spec fn moves_wf(moves: Seq<Move>) -> bool {
    forall|i: int| 0 <= i < moves.len() ==> #[trigger] moves[i].wf()
}

impl History {
    /// Every table has its size and every history score is within `±MAX_HIST`.
    pub closed spec fn wf(&self) -> bool {
        &&& self.quiet.len() == BUTTERFLY_SIZE
        &&& self.capture.len() == BUTTERFLY_SIZE
        &&& self.counter_move.len() == CONT_SIZE
        &&& self.followup_move.len() == CONT_SIZE
        &&& self.pawn_corr.len() == CORR_SIZE
        &&& all_in_range(self.quiet@)
        &&& all_in_range(self.capture@)
        &&& all_in_range(self.counter_move@)
        &&& all_in_range(self.followup_move@)
        &&& forall|i: int| 0 <= i < CORR_SIZE ==> corr_in_range(#[trigger] self.pawn_corr@[i])
    }

    pub closed spec fn spec_quiet(&self) -> Seq<i16> {
        self.quiet@
    }

    pub closed spec fn spec_capture(&self) -> Seq<i16> {
        self.capture@
    }

    pub closed spec fn spec_counter_move(&self) -> Seq<i16> {
        self.counter_move@
    }

    pub closed spec fn spec_followup_move(&self) -> Seq<i16> {
        self.followup_move@
    }

    pub closed spec fn spec_pawn_corr(&self) -> Seq<i32> {
        self.pawn_corr@
    }

    /// A history score never leaves `±MAX_HIST`.
    pub proof fn lemma_scores_bounded(&self)
        requires
            self.wf(),
        ensures
            all_in_range(self.spec_quiet()),
            all_in_range(self.spec_capture()),
            all_in_range(self.spec_counter_move()),
            all_in_range(self.spec_followup_move()),
            self.spec_quiet().len() == BUTTERFLY_SIZE,
            self.spec_capture().len() == BUTTERFLY_SIZE,
            self.spec_counter_move().len() == CONT_SIZE,
            self.spec_followup_move().len() == CONT_SIZE,
            self.spec_pawn_corr().len() == CORR_SIZE,
    {
    }

    pub fn new() -> (r: Self)
        ensures
            r.wf(),
            forall|i: int| 0 <= i < BUTTERFLY_SIZE ==> r.spec_quiet()[i] == 0 && r.spec_capture()[i] == 0,
            forall|i: int| 0 <= i < CONT_SIZE ==> r.spec_counter_move()[i] == 0 && r.spec_followup_move()[i] == 0,
            forall|i: int| 0 <= i < CORR_SIZE ==> r.spec_pawn_corr()[i] == 0,
    {
        Self {
            quiet: zeroed_i16(BUTTERFLY_SIZE),
            capture: zeroed_i16(BUTTERFLY_SIZE),
            counter_move: zeroed_i16(CONT_SIZE),
            followup_move: zeroed_i16(CONT_SIZE),
            pawn_corr: zeroed_i32(CORR_SIZE),
        }
    }

    /// Quiet history of a move for the side to move; the table is split by whether the
    /// moving piece stands on a square the opponent threatens.
    pub fn get_quiet(&self, stm: Color, nstm_threats: BitBoard, make_move: Move) -> (r: i16)
        requires
            self.wf(),
            make_move.wf(),
        ensures
            r == self.spec_quiet()[spec_butterfly_index(
                stm,
                bb_has(nstm_threats, make_move.from as int),
                make_move.from as int,
                make_move.to as int,
            )],
            in_hist_range(r),
    {
        let i = butterfly_index(stm, has(nstm_threats, make_move.from), make_move.from, make_move.to);
        self.quiet[i]
    }

    /// Capture history of a move, split the same way as the quiet history.
    pub fn get_capture(&self, stm: Color, nstm_threats: BitBoard, make_move: Move) -> (r: i16)
        requires
            self.wf(),
            make_move.wf(),
        ensures
            r == self.spec_capture()[spec_butterfly_index(
                stm,
                bb_has(nstm_threats, make_move.from as int),
                make_move.from as int,
                make_move.to as int,
            )],
            in_hist_range(r),
    {
        let i = butterfly_index(stm, has(nstm_threats, make_move.from), make_move.from, make_move.to);
        self.capture[i]
    }

    /// Counter-move history (indexed by the previous move); `None` without a previous move.
    pub fn get_counter_move(&self, stm: Color, indices: &HistoryIndices, piece: Piece, make_move: Move) -> (r: Option<i16>)
        requires
            self.wf(),
            indices.wf(),
            piece < 6,
            make_move.wf(),
        ensures
            match indices.cont_mv_1 {
                Some((pp, pt)) => r == Some(
                    self.spec_counter_move()[spec_cont_index(stm, pp as int, pt as int, piece as int, make_move.to as int)],
                ),
                None => r is None,
            },
    {
        match indices.cont_mv_1 {
            Some((pp, pt)) => Some(self.counter_move[cont_index(stm, pp, pt, piece, make_move.to)]),
            None => None,
        }
    }

    /// Follow-up history (indexed by our own previous move); `None` without one.
    pub fn get_followup_move(&self, stm: Color, indices: &HistoryIndices, piece: Piece, make_move: Move) -> (r: Option<i16>)
        requires
            self.wf(),
            indices.wf(),
            piece < 6,
            make_move.wf(),
        ensures
            match indices.cont_mv_2 {
                Some((pp, pt)) => r == Some(
                    self.spec_followup_move()[spec_cont_index(stm, pp as int, pt as int, piece as int, make_move.to as int)],
                ),
                None => r is None,
            },
    {
        match indices.cont_mv_2 {
            Some((pp, pt)) => Some(self.followup_move[cont_index(stm, pp, pt, piece, make_move.to)]),
            None => None,
        }
    }

    /// Follow-up history indexed by the move four plies ago (shares the follow-up table).
    pub fn get_followup_move_2(&self, stm: Color, indices: &HistoryIndices, piece: Piece, make_move: Move) -> (r: Option<i16>)
        requires
            self.wf(),
            indices.wf(),
            piece < 6,
            make_move.wf(),
        ensures
            match indices.cont_mv_4 {
                Some((pp, pt)) => r == Some(
                    self.spec_followup_move()[spec_cont_index(stm, pp as int, pt as int, piece as int, make_move.to as int)],
                ),
                None => r is None,
            },
    {
        match indices.cont_mv_4 {
            Some((pp, pt)) => Some(self.followup_move[cont_index(stm, pp, pt, piece, make_move.to)]),
            None => None,
        }
    }
}

pub open spec fn spec_quiet_idx(board: Board, nstm_threats: BitBoard, m: Move) -> int {
    spec_butterfly_index(board.side_to_move, bb_has(nstm_threats, m.from as int), m.from as int, m.to as int)
}

pub open spec fn spec_quiet_idxs(board: Board, nstm_threats: BitBoard, moves: Seq<Move>) -> Seq<usize> {
    Seq::new(moves.len(), |j: int| spec_quiet_idx(board, nstm_threats, moves[j]) as usize)
}

pub open spec fn spec_cont_idx(board: Board, c: (Piece, Square), m: Move) -> int {
    spec_cont_index(board.side_to_move, c.0 as int, c.1 as int, piece_of(board, m.from as int), m.to as int)
}

pub open spec fn spec_cont_idxs(board: Board, c: (Piece, Square), moves: Seq<Move>) -> Seq<usize> {
    Seq::new(moves.len(), |j: int| spec_cont_idx(board, c, moves[j]) as usize)
}

/// A continuation table after rewarding `mv` and punishing `fails`, when the previous move exists.
pub open spec fn spec_cont_update(
    t: Seq<i16>,
    c: Option<(Piece, Square)>,
    board: Board,
    mv: Move,
    fails: Seq<Move>,
    amt: i16,
) -> Seq<i16> {
    match c {
        Some(c) => spec_reward(t, spec_cont_idx(board, c, mv), spec_cont_idxs(board, c, fails), amt),
        None => t,
    }
}

pub open spec fn spec_is_capture(board: Board, m: Move) -> bool {
    bb_has(board.colors[board.side_to_move.spec_opp().spec_index()], m.to as int)
}

fn bonus_at(t: &mut Vec<i16>, i: usize, amt: i16)
    requires
        i < old(t).len(),
        all_in_range(old(t)@),
        amt_ok(amt),
    ensures
        final(t)@ == spec_bonus_at(old(t)@, i as int, amt),
        all_in_range(final(t)@),
{
    let mut h = t[i];
    bonus(&mut h, amt);
    t.set(i, h);
}

fn malus_all(t: &mut Vec<i16>, idx: &Vec<usize>, amt: i16)
    requires
        all_in_range(old(t)@),
        amt_ok(amt),
        forall|j: int| 0 <= j < idx.len() ==> idx@[j] < old(t).len(),
    ensures
        final(t)@ == spec_malus_all(old(t)@, idx@, amt),
        all_in_range(final(t)@),
        final(t).len() == old(t).len(),
{
    let ghost t0 = t@;
    let mut k: usize = 0;
    while k < idx.len()
        invariant
            k <= idx.len(),
            t.len() == t0.len(),
            all_in_range(t@),
            amt_ok(amt),
            forall|j: int| 0 <= j < idx.len() ==> idx@[j] < t0.len(),
            t@ == spec_malus_all(t0, idx@.take(k as int), amt),
        decreases idx.len() - k,
    {
        let i = idx[k];
        let mut h = t[i];
        malus(&mut h, amt);
        t.set(i, h);
        proof {
            assert(idx@.take(k + 1).drop_last() == idx@.take(k as int));
        }
        k += 1;
    }
    proof {
        assert(idx@.take(idx.len() as int) == idx@);
    }
}

fn quiet_idxs(board: &Board, nstm_threats: BitBoard, moves: &[Move]) -> (r: Vec<usize>)
    requires
        moves_wf(moves@),
    ensures
        r@ == spec_quiet_idxs(*board, nstm_threats, moves@),
        forall|j: int| 0 <= j < r.len() ==> r@[j] < BUTTERFLY_SIZE,
{
    let mut r: Vec<usize> = Vec::new();
    let mut k: usize = 0;
    while k < moves.len()
        invariant
            k <= moves.len(),
            moves_wf(moves@),
            r.len() == k,
            forall|j: int| 0 <= j < k ==> r@[j] == spec_quiet_idx(*board, nstm_threats, moves@[j]) as usize,
            forall|j: int| 0 <= j < k ==> r@[j] < BUTTERFLY_SIZE,
        decreases moves.len() - k,
    {
        let m = moves[k];
        assert(moves@[k as int].wf());
        r.push(butterfly_index(board.side_to_move, has(nstm_threats, m.from), m.from, m.to));
        k += 1;
    }
    r
}

fn cont_idxs(board: &Board, c: (Piece, Square), moves: &[Move]) -> (r: Vec<usize>)
    requires
        moves_wf(moves@),
        moves_from_pieces(*board, moves@),
        c.0 < 6,
        c.1 < 64,
    ensures
        r@ == spec_cont_idxs(*board, c, moves@),
        forall|j: int| 0 <= j < r.len() ==> r@[j] < CONT_SIZE,
{
    let mut r: Vec<usize> = Vec::new();
    let mut k: usize = 0;
    while k < moves.len()
        invariant
            k <= moves.len(),
            moves_wf(moves@),
            moves_from_pieces(*board, moves@),
            c.0 < 6,
            c.1 < 64,
            r.len() == k,
            forall|j: int| 0 <= j < k ==> r@[j] == spec_cont_idx(*board, c, moves@[j]) as usize,
            forall|j: int| 0 <= j < k ==> r@[j] < CONT_SIZE,
        decreases moves.len() - k,
    {
        let m = moves[k];
        assert(moves@[k as int].wf());
        assert(board.spec_piece_on(moves@[k as int].from as int) is Some);
        let piece = board.piece_on(m.from).unwrap();
        r.push(cont_index(board.side_to_move, c.0, c.1, piece, m.to));
        k += 1;
    }
    r
}

impl History {
    fn reward_cont(
        table: &mut Vec<i16>,
        c: Option<(Piece, Square)>,
        board: &Board,
        make_move: Move,
        fails: &[Move],
        amt: i16,
    )
        requires
            old(table).len() == CONT_SIZE,
            all_in_range(old(table)@),
            amt_ok(amt),
            cont_ok(c),
            make_move.wf(),
            board.spec_piece_on(make_move.from as int) is Some,
            moves_wf(fails@),
            moves_from_pieces(*board, fails@),
        ensures
            final(table).len() == CONT_SIZE,
            all_in_range(final(table)@),
            final(table)@ == spec_cont_update(old(table)@, c, *board, make_move, fails@, amt),
    {
        if let Some(c) = c {
            let piece = board.piece_on(make_move.from).unwrap();
            let i = cont_index(board.side_to_move, c.0, c.1, piece, make_move.to);
            bonus_at(table, i, amt);
            let idxs = cont_idxs(board, c, fails);
            malus_all(table, &idxs, amt);
        }
    }

    /// Rewards a quiet cut-off move (and punishes the quiets tried before it) in the main quiet
    /// history and in the counter-move and both follow-up histories that have a previous move.
    fn update_quiet(
        &mut self,
        board: &Board,
        nstm_threats: BitBoard,
        indices: &HistoryIndices,
        make_move: Move,
        fails: &[Move],
        amt: i16,
    )
        requires
            old(self).wf(),
            indices.wf(),
            amt_ok(amt),
            make_move.wf(),
            board.spec_piece_on(make_move.from as int) is Some,
            moves_wf(fails@),
            moves_from_pieces(*board, fails@),
        ensures
            final(self).wf(),
            final(self).spec_quiet() == spec_reward(
                old(self).spec_quiet(),
                spec_quiet_idx(*board, nstm_threats, make_move),
                spec_quiet_idxs(*board, nstm_threats, fails@),
                amt,
            ),
            final(self).spec_capture() == old(self).spec_capture(),
            final(self).spec_counter_move() == spec_cont_update(
                old(self).spec_counter_move(),
                indices.cont_mv_1,
                *board,
                make_move,
                fails@,
                amt,
            ),
            final(self).spec_followup_move() == spec_cont_update(
                spec_cont_update(old(self).spec_followup_move(), indices.cont_mv_2, *board, make_move, fails@, amt),
                indices.cont_mv_4,
                *board,
                make_move,
                fails@,
                amt,
            ),
            final(self).spec_pawn_corr() == old(self).spec_pawn_corr(),
    {
        let i = butterfly_index(board.side_to_move, has(nstm_threats, make_move.from), make_move.from, make_move.to);
        bonus_at(&mut self.quiet, i, amt);
        let idxs = quiet_idxs(board, nstm_threats, fails);
        malus_all(&mut self.quiet, &idxs, amt);
        Self::reward_cont(&mut self.counter_move, indices.cont_mv_1, board, make_move, fails, amt);
        Self::reward_cont(&mut self.followup_move, indices.cont_mv_2, board, make_move, fails, amt);
        Self::reward_cont(&mut self.followup_move, indices.cont_mv_4, board, make_move, fails, amt);
    }

    /// If the cut-off move is a capture, it gets a bonus in capture history; if it is quiet, it
    /// gets a bonus in all quiet histories and the quiets tried before it get maluses. Either way
    /// the captures tried before it get maluses in capture history.
    pub fn update_history(
        &mut self,
        board: &Board,
        nstm_threats: BitBoard,
        indices: &HistoryIndices,
        cutoff_move: Move,
        quiets: &[Move],
        captures: &[Move],
        amt: i16,
    )
        requires
            old(self).wf(),
            indices.wf(),
            amt_ok(amt),
            cutoff_move.wf(),
            board.spec_piece_on(cutoff_move.from as int) is Some,
            moves_wf(quiets@),
            moves_from_pieces(*board, quiets@),
            moves_wf(captures@),
        ensures
            final(self).wf(),
            ({
                let cap = spec_is_capture(*board, cutoff_move);
                let ci = spec_quiet_idxs(*board, nstm_threats, captures@);
                let qi = spec_quiet_idx(*board, nstm_threats, cutoff_move);
                &&& final(self).spec_capture() == spec_malus_all(
                    if cap { spec_bonus_at(old(self).spec_capture(), qi, amt) } else { old(self).spec_capture() },
                    ci,
                    amt,
                )
                &&& final(self).spec_quiet() == if cap {
                    old(self).spec_quiet()
                } else {
                    spec_reward(old(self).spec_quiet(), qi, spec_quiet_idxs(*board, nstm_threats, quiets@), amt)
                }
                &&& final(self).spec_counter_move() == if cap {
                    old(self).spec_counter_move()
                } else {
                    spec_cont_update(old(self).spec_counter_move(), indices.cont_mv_1, *board, cutoff_move, quiets@, amt)
                }
                &&& final(self).spec_followup_move() == if cap {
                    old(self).spec_followup_move()
                } else {
                    spec_cont_update(
                        spec_cont_update(
                            old(self).spec_followup_move(),
                            indices.cont_mv_2,
                            *board,
                            cutoff_move,
                            quiets@,
                            amt,
                        ),
                        indices.cont_mv_4,
                        *board,
                        cutoff_move,
                        quiets@,
                        amt,
                    )
                }
            }),
            final(self).spec_pawn_corr() == old(self).spec_pawn_corr(),
    {
        let stm = board.side_to_move;
        let is_capture = has(board.colors(stm.opp()), cutoff_move.to);
        if !is_capture {
            self.update_quiet(board, nstm_threats, indices, cutoff_move, quiets, amt);
        } else {
            let i = butterfly_index(stm, has(nstm_threats, cutoff_move.from), cutoff_move.from, cutoff_move.to);
            bonus_at(&mut self.capture, i, amt);
        }
        let idxs = quiet_idxs(board, nstm_threats, captures);
        malus_all(&mut self.capture, &idxs, amt);
    }

    fn update_corr(val: i32, eval_diff: i16, depth: u32) -> (r: i32)
        requires
            corr_in_range(val),
        ensures
            r == spec_update_corr(val, eval_diff, depth),
            corr_in_range(r),
    {
        let weight: i32 = if depth < 16 { (depth * 8) as i32 } else { 128 };
        let diff: i32 = if (eval_diff as i32) < -MAX_DIFF {
            -MAX_DIFF
        } else if (eval_diff as i32) > MAX_DIFF {
            MAX_DIFF
        } else {
            eval_diff as i32
        };
        assert(-65536 <= diff * weight <= 65536) by (nonlinear_arith)
            requires
                -512 <= diff <= 512,
                0 <= weight <= 128,
        ;
        let new_value = val + diff * weight;
        let lim = MAX_CORRECT * CORR_HIST_GRAIN;
        if new_value < -lim {
            -lim
        } else if new_value > lim {
            lim
        } else {
            new_value
        }
    }

    /// Folds the error of the static evaluation into the pawn-structure correction entry.
    pub fn update_corr_hist(&mut self, stm: Color, pawn_hash: u16, eval_diff: i16, depth: u32)
        requires
            old(self).wf(),
        ensures
            final(self).wf(),
            final(self).spec_pawn_corr() == old(self).spec_pawn_corr().update(
                stm.spec_index() * 65536 + pawn_hash,
                spec_update_corr(old(self).spec_pawn_corr()[stm.spec_index() * 65536 + pawn_hash], eval_diff, depth),
            ),
            final(self).spec_quiet() == old(self).spec_quiet(),
            final(self).spec_capture() == old(self).spec_capture(),
            final(self).spec_counter_move() == old(self).spec_counter_move(),
            final(self).spec_followup_move() == old(self).spec_followup_move(),
    {
        let i = stm.index() * 65536 + pawn_hash as usize;
        let v = Self::update_corr(self.pawn_corr[i], eval_diff, depth);
        self.pawn_corr.set(i, v);
    }

    /// The correction to add to the static evaluation, in centipawns.
    pub fn get_correction(&self, stm: Color, pawn_hash: u16) -> (r: i16)
        requires
            self.wf(),
        ensures
            r == trunc_div_i32(self.spec_pawn_corr()[stm.spec_index() * 65536 + pawn_hash], CORR_HIST_GRAIN),
            -MAX_CORRECT <= r <= MAX_CORRECT,
    {
        let i = stm.index() * 65536 + pawn_hash as usize;
        let v = self.pawn_corr[i];
        (v / CORR_HIST_GRAIN) as i16
    }
}

/// Integer division by a positive divisor, rounding toward zero.
pub open spec fn trunc_div_i32(a: i32, b: i32) -> int {
    if a >= 0 {
        a / b
    } else {
        -((-a) / (b as int))
    }
}

fn zeroed_i16(n: usize) -> (v: Vec<i16>)
    ensures
        v.len() == n,
        forall|i: int| 0 <= i < n ==> v@[i] == 0,
{
    let mut v: Vec<i16> = Vec::new();
    let mut i: usize = 0;
    while i < n
        invariant
            i <= n,
            v.len() == i,
            forall|j: int| 0 <= j < i ==> v@[j] == 0,
        decreases n - i,
    {
        v.push(0);
        i += 1;
    }
    v
}

fn zeroed_i32(n: usize) -> (v: Vec<i32>)
    ensures
        v.len() == n,
        forall|i: int| 0 <= i < n ==> v@[i] == 0,
{
    let mut v: Vec<i32> = Vec::new();
    let mut i: usize = 0;
    while i < n
        invariant
            i <= n,
            v.len() == i,
            forall|j: int| 0 <= j < i ==> v@[j] == 0,
        decreases n - i,
    {
        v.push(0);
        i += 1;
    }
    v
}

} // verus!
