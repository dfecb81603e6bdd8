use vstd::prelude::*;

use crate::bm::bm_util::history::{all_in_range, decay, in_hist_range, lemma_step_bounded, spec_decay};
use crate::bm::bitboard::spec_count;
use crate::bm::chess_types::{bb_has, has, BitBoard, Board, Color, Move, Piece, Square, KING};

verus! {

pub const MAX_VALUE: i32 = 512;
pub const SQUARE_COUNT: usize = 64;
pub const PIECE_COUNT: usize = 12;

/// The change of a history update: the squared amount, at most `MAX_VALUE`.
pub open spec fn spec_change(amt: u32) -> i16 {
    if amt * amt < 512 {
        (amt * amt) as i16
    } else {
        512
    }
}

pub open spec fn spec_step_bonus(h: i16, c: i16) -> i16 {
    (h + c - spec_decay(c, h)) as i16
}

pub open spec fn spec_step_malus(h: i16, c: i16) -> i16 {
    (h - c - spec_decay(c, h)) as i16
}

/// Applies a malus with change `c` at each index in turn.
pub open spec fn spec_step_malus_all(t: Seq<i16>, idx: Seq<usize>, c: i16) -> Seq<i16>
    decreases idx.len(),
{
    if idx.len() == 0 {
        t
    } else {
        let prev = spec_step_malus_all(t, idx.drop_last(), c);
        prev.update(idx.last() as int, spec_step_malus(prev[idx.last() as int], c))
    }
}

/// A bonus at `i` for the cut-off move, then a malus at each failed move's index.
pub open spec fn spec_step_reward(t: Seq<i16>, i: int, fails: Seq<usize>, c: i16) -> Seq<i16> {
    let b = t.update(i, spec_step_bonus(t[i], c));
    spec_step_malus_all(b, fails, c)
}

pub open spec fn spec_piece_index(color: Color, piece: int) -> int {
    color.spec_index() * 6 + piece
}

pub open spec fn spec_sq_index(color: Color, sq: int) -> int {
    color.spec_index() * 64 + sq
}

fn piece_index(color: Color, piece: Piece) -> (r: usize)
    requires
        piece < 6,
    ensures
        r == spec_piece_index(color, piece as int),
        r < 12,
{
    color.index() * PIECE_COUNT / 2 + piece as usize
}

fn sq_index(color: Color, sq: Square) -> (r: usize)
    requires
        sq < 64,
    ensures
        r == spec_sq_index(color, sq as int),
        r < 128,
{
    color.index() * SQUARE_COUNT + sq as usize
}

fn change(amt: u32) -> (r: i16)
    requires
        amt * amt <= i16::MAX,
    ensures
        r == spec_change(amt),
        0 <= r <= 512,
{
    let sq = (amt * amt) as i16;
    if sq < MAX_VALUE as i16 {
        sq
    } else {
        MAX_VALUE as i16
    }
}

fn step_bonus_at(t: &mut Vec<i16>, i: usize, c: i16)
    requires
        i < old(t).len(),
        all_in_range(old(t)@),
        0 <= c <= 512,
    ensures
        final(t)@ == old(t)@.update(i as int, spec_step_bonus(old(t)@[i as int], c)),
        all_in_range(final(t)@),
{
    let value = t[i];
    proof {
        lemma_step_bounded(value, c);
    }
    let d = decay(c, value);
    let increment = c - d;
    t.set(i, value + increment);
}

fn step_malus_all(t: &mut Vec<i16>, idx: &Vec<usize>, c: i16)
    requires
        all_in_range(old(t)@),
        0 <= c <= 512,
        forall|j: int| 0 <= j < idx.len() ==> idx@[j] < old(t).len(),
    ensures
        final(t)@ == spec_step_malus_all(old(t)@, idx@, c),
        all_in_range(final(t)@),
        final(t).len() == old(t).len(),
{
    let ghost t0 = t@;
    let mut k: usize = 0;
    while k < idx.len()
        invariant
            k <= idx.len(),
            t.len() == t0.len(),
            all_in_range(t@),
            0 <= c <= 512,
            forall|j: int| 0 <= j < idx.len() ==> idx@[j] < t0.len(),
            t@ == spec_step_malus_all(t0, idx@.take(k as int), c),
        decreases idx.len() - k,
    {
        let i = idx[k];
        let value = t[i];
        proof {
            lemma_step_bounded(value, c);
        }
        let d = decay(c, value);
        let decrement = c + d;
        t.set(i, value - decrement);
        proof {
            assert(idx@.take(k + 1).drop_last() == idx@.take(k as int));
        }
        k += 1;
    }
    proof {
        assert(idx@.take(idx.len() as int) == idx@);
    }
}

fn zeroed(n: usize) -> (v: Vec<i16>)
    ensures
        v.len() == n,
        forall|i: int| 0 <= i < n ==> v@[i] == 0,
        all_in_range(v@),
{
    let mut v: Vec<i16> = Vec::new();
    let mut i: usize = 0;
    while i < n
        invariant
            i <= n,
            v.len() == i,
            forall|j: int| 0 <= j < i ==> v@[j] == 0,
        decreases n - i,
    {
        v.push(0);
        i += 1;
    }
    v
}

pub open spec fn moves_wf(moves: Seq<Move>) -> bool {
    forall|i: int| 0 <= i < moves.len() ==> #[trigger] moves[i].wf()
}

pub open spec fn spec_bf_idx(stm: Color, m: Move) -> int {
    spec_sq_index(stm, m.from as int) * 64 + m.to as int
}

pub open spec fn spec_bf_idxs(stm: Color, moves: Seq<Move>, offset: int) -> Seq<usize> {
    Seq::new(moves.len(), |j: int| (offset + spec_bf_idx(stm, moves[j])) as usize)
}

fn bf_idxs(stm: Color, moves: &[Move], offset: usize) -> (r: Vec<usize>)
    requires
        moves_wf(moves@),
        offset <= 64 * 8192,
    ensures
        r@ == spec_bf_idxs(stm, moves@, offset as int),
        forall|j: int| 0 <= j < r.len() ==> r@[j] < offset + 8192,
{
    let mut r: Vec<usize> = Vec::new();
    let mut k: usize = 0;
    while k < moves.len()
        invariant
            k <= moves.len(),
            moves_wf(moves@),
            offset <= 64 * 8192,
            r.len() == k,
            forall|j: int| 0 <= j < k ==> r@[j] == (offset + spec_bf_idx(stm, moves@[j])) as usize,
            forall|j: int| 0 <= j < k ==> r@[j] < offset + 8192,
        decreases moves.len() - k,
    {
        let m = moves[k];
        assert(moves@[k as int].wf());
        r.push(offset + sq_index(stm, m.from) * 64 + m.to as usize);
        k += 1;
    }
    r
}

/// Butterfly history: a score for each side, from-square and to-square.
#[derive(Debug, Clone)]
pub struct HistoryTable {
    table: Vec<i16>,
}

impl HistoryTable {
    pub closed spec fn spec_table(&self) -> Seq<i16> {
        self.table@
    }

    /// One score per (side, from, to), each within `±MAX_VALUE`.
    pub open spec fn wf(&self) -> bool {
        self.spec_table().len() == 8192 && all_in_range(self.spec_table())
    }

    pub fn new() -> (r: Self)
        ensures
            r.wf(),
            forall|i: int| 0 <= i < 8192 ==> r.spec_table()[i] == 0,
    {
        Self { table: zeroed(8192) }
    }

    pub fn get(&self, color: Color, from: Square, to: Square) -> (r: i16)
        requires
            self.wf(),
            from < 64,
            to < 64,
        ensures
            r == self.spec_table()[spec_sq_index(color, from as int) * 64 + to],
    {
        self.table[sq_index(color, from) * 64 + to as usize]
    }

    /// Rewards the cut-off move and punishes the failed quiets, by the squared amount.
    pub fn cutoff(&mut self, side_to_move: Color, make_move: Move, fails: &[Move], amt: u32)
        requires
            old(self).wf(),
            make_move.wf(),
            moves_wf(fails@),
            amt * amt <= i16::MAX,
        ensures
            final(self).wf(),
            final(self).spec_table() == spec_step_reward(
                old(self).spec_table(),
                spec_bf_idx(side_to_move, make_move),
                spec_bf_idxs(side_to_move, fails@, 0),
                spec_change(amt),
            ),
    {
        let index = sq_index(side_to_move, make_move.from) * 64 + make_move.to as usize;
        let c = change(amt);
        step_bonus_at(&mut self.table, index, c);
        let idxs = bf_idxs(side_to_move, fails, 0);
        step_malus_all(&mut self.table, &idxs, c);
    }
}

/// Sum of the scores of the threatened squares `sq < n` for one move.
pub open spec fn spec_threat_sum(t: Seq<i16>, threats: u64, i: int, n: int) -> int
    decreases n,
{
    if n <= 0 {
        0
    } else {
        spec_threat_sum(t, threats, i, n - 1) + (if bb_has(threats, n - 1) { t[(n - 1) * 8192 + i] as int } else { 0 })
    }
}

/// The threat table after processing the threatened squares `sq < n`.
pub open spec fn spec_threat_cutoff(t: Seq<i16>, threats: u64, i: int, fails: Seq<Move>, stm: Color, c: i16, n: int) -> Seq<i16>
    decreases n,
{
    if n <= 0 {
        t
    } else {
        let prev = spec_threat_cutoff(t, threats, i, fails, stm, c, n - 1);
        if bb_has(threats, n - 1) {
            spec_step_reward(prev, (n - 1) * 8192 + i, spec_bf_idxs(stm, fails, (n - 1) * 8192), c)
        } else {
            prev
        }
    }
}

/// History by threatened square: a butterfly table for each square the opponent threatens.
#[derive(Debug, Clone)]
pub struct ThreatHistoryTable {
    table: Vec<i16>,
}

impl ThreatHistoryTable {
    pub closed spec fn spec_table(&self) -> Seq<i16> {
        self.table@
    }

    pub open spec fn wf(&self) -> bool {
        self.spec_table().len() == 524288 && all_in_range(self.spec_table())
    }

    pub fn new() -> (r: Self)
        ensures
            r.wf(),
            forall|i: int| 0 <= i < 524288 ==> r.spec_table()[i] == 0,
    {
        Self { table: zeroed(524288) }
    }

    /// The average score of the move over the threatened squares, 0 without threats
    /// (at most 63 squares can be threatened).
    pub fn get(&self, color: Color, from: Square, to: Square, threats: BitBoard) -> (r: i16)
        requires
            self.wf(),
            from < 64,
            to < 64,
            spec_count(threats, 64) < 64,
        ensures
            ({
                let i = spec_sq_index(color, from as int) * 64 + to;
                let s = spec_threat_sum(self.spec_table(), threats, i, 64);
                let n = spec_count(threats, 64);
                r == (if n == 0 { 0 } else if s >= 0 { s / n } else { -((-s) / n) })
            }),
    {
        let i = sq_index(color, from) * 64 + to as usize;
        let mut hist: i16 = 0;
        let mut cnt: i16 = 0;
        let mut sq: u8 = 0;
        while sq < 64
            invariant
                sq <= 64,
                i < 8192,
                self.wf(),
                hist == spec_threat_sum(self.spec_table(), threats, i as int, sq as int),
                cnt == spec_count(threats, sq as int),
                -512 * cnt <= hist <= 512 * cnt,
                0 <= cnt <= sq,
                spec_count(threats, 64) <= 63,
            decreases 64 - sq,
        {
            proof {
                lemma_count_mono(threats, sq as int + 1, 64);
            }
            if has(threats, sq) {
                let v = self.table[sq as usize * 8192 + i];
                assert(in_hist_range(self.spec_table()[sq * 8192 + i]));
                hist = hist + v;
                cnt = cnt + 1;
            }
            sq += 1;
        }
        if cnt == 0 {
            0
        } else {
            hist / cnt
        }
    }

    /// For each threatened square, rewards the cut-off move and punishes the failed quiets.
    pub fn cutoff(&mut self, side_to_move: Color, threats: BitBoard, make_move: Move, fails: &[Move], amt: u32)
        requires
            old(self).wf(),
            make_move.wf(),
            moves_wf(fails@),
            amt * amt <= i16::MAX,
        ensures
            final(self).wf(),
            final(self).spec_table() == spec_threat_cutoff(
                old(self).spec_table(),
                threats,
                spec_bf_idx(side_to_move, make_move),
                fails@,
                side_to_move,
                spec_change(amt),
                64,
            ),
    {
        let index = sq_index(side_to_move, make_move.from) * 64 + make_move.to as usize;
        let c = change(amt);
        let ghost t0 = self.table@;
        let mut sq: u8 = 0;
        while sq < 64
            invariant
                sq <= 64,
                index < 8192,
                index == spec_bf_idx(side_to_move, make_move),
                0 <= c <= 512,
                c == spec_change(amt),
                moves_wf(fails@),
                self.wf(),
                self.table@ == spec_threat_cutoff(t0, threats, index as int, fails@, side_to_move, c, sq as int),
            decreases 64 - sq,
        {
            if has(threats, sq) {
                let off = sq as usize * 8192;
                step_bonus_at(&mut self.table, off + index, c);
                let idxs = bf_idxs(side_to_move, fails, off);
                step_malus_all(&mut self.table, &idxs, c);
            }
            sq += 1;
        }
    }
}

proof fn lemma_count_bounded(bb: u64, n: int)
    requires
        0 <= n,
    ensures
        0 <= spec_count(bb, n) <= n,
    decreases n,
{
    if n > 0 {
        lemma_count_bounded(bb, n - 1);
    }
}

proof fn lemma_count_mono(bb: u64, a: int, b: int)
    requires
        0 <= a <= b,
    ensures
        spec_count(bb, a) <= spec_count(bb, b),
    decreases b - a,
{
    if a < b {
        lemma_count_mono(bb, a, b - 1);
    }
}

/// For each side, piece kind and destination of the previous move, the move that refuted it.
#[derive(Debug, Clone)]
pub struct CounterMoveTable {
    table: Vec<Option<Move>>,
}

impl CounterMoveTable {
    pub closed spec fn spec_table(&self) -> Seq<Option<Move>> {
        self.table@
    }

    pub open spec fn wf(&self) -> bool {
        self.spec_table().len() == 768
    }

    pub fn new() -> (r: Self)
        ensures
            r.wf(),
            forall|i: int| 0 <= i < 768 ==> r.spec_table()[i] is None,
    {
        let mut table: Vec<Option<Move>> = Vec::new();
        let mut i: usize = 0;
        while i < 768
            invariant
                i <= 768,
                table.len() == i,
                forall|j: int| 0 <= j < i ==> table@[j] is None,
            decreases 768 - i,
        {
            table.push(None);
            i += 1;
        }
        Self { table }
    }

    pub fn get(&self, color: Color, piece: Piece, to: Square) -> (r: Option<Move>)
        requires
            self.wf(),
            piece < 6,
            to < 64,
        ensures
            r == self.spec_table()[spec_piece_index(color, piece as int) * 64 + to],
    {
        self.table[piece_index(color, piece) * 64 + to as usize]
    }

    /// Records the refutation of the previous move (indexed by the piece now on its
    /// destination, a king if empty) unless the amount exceeds 20.
    pub fn cutoff(&mut self, board: &Board, prev_move: Move, cutoff_move: Move, amt: u32)
        requires
            old(self).wf(),
            prev_move.wf(),
        ensures
            final(self).wf(),
            final(self).spec_table() == if amt > 20 {
                old(self).spec_table()
            } else {
                let piece = match board.spec_piece_on(prev_move.to as int) {
                    Some(p) => p as int,
                    None => KING as int,
                };
                old(self).spec_table().update(
                    spec_piece_index(board.side_to_move, piece) * 64 + prev_move.to,
                    Some(cutoff_move),
                )
            },
    {
        if amt > 20 {
            return;
        }
        let piece = match board.piece_on(prev_move.to) {
            Some(p) => p,
            None => KING,
        };
        let i = piece_index(board.side_to_move, piece) * 64 + prev_move.to as usize;
        self.table.set(i, Some(cutoff_move));
    }
}

pub open spec fn spec_piece_on_or(board: Board, sq: int, default: int) -> int {
    match board.spec_piece_on(sq) {
        Some(p) => p as int,
        None => default,
    }
}

pub open spec fn moves_from_pieces(board: Board, moves: Seq<Move>) -> bool {
    forall|i: int| 0 <= i < moves.len() ==> #[trigger] board.spec_piece_on(moves[i].from as int) is Some
}

pub open spec fn spec_dm_idx(board: Board, base: int, m: Move) -> int {
    base + spec_piece_on_or(board, m.from as int, 0) * 64 + m.to
}

pub open spec fn spec_dm_idxs(board: Board, base: int, moves: Seq<Move>) -> Seq<usize> {
    Seq::new(moves.len(), |j: int| spec_dm_idx(board, base, moves[j]) as usize)
}

/// History of pairs of moves: for each (side, piece, destination) of the previous move,
/// a score for each (piece, destination) of the reply.
#[derive(Debug, Clone)]
pub struct DoubleMoveHistory {
    table: Vec<i16>,
}

impl DoubleMoveHistory {
    pub closed spec fn spec_table(&self) -> Seq<i16> {
        self.table@
    }

    pub open spec fn wf(&self) -> bool {
        self.spec_table().len() == 294912 && all_in_range(self.spec_table())
    }

    pub open spec fn spec_base(color: Color, piece_0: int, to_0: int) -> int {
        (spec_piece_index(color, piece_0) * 64 + to_0) * 384
    }

    pub fn new() -> (r: Self)
        ensures
            r.wf(),
            forall|i: int| 0 <= i < 294912 ==> r.spec_table()[i] == 0,
    {
        Self { table: zeroed(294912) }
    }

    pub fn get(&self, color: Color, piece_0: Piece, to_0: Square, piece_1: Piece, to_1: Square) -> (r: i16)
        requires
            self.wf(),
            piece_0 < 6,
            to_0 < 64,
            piece_1 < 6,
            to_1 < 64,
        ensures
            r == self.spec_table()[Self::spec_base(color, piece_0 as int, to_0 as int) + piece_1 * 64 + to_1],
    {
        self.table[(piece_index(color, piece_0) * 64 + to_0 as usize) * 384 + piece_1 as usize * 64 + to_1 as usize]
    }

    /// Rewards the reply that caused the cutoff and punishes the failed replies, under the
    /// previous move (whose destination piece counts as a king if the square is empty).
    pub fn cutoff(&mut self, board: &Board, prev_move: Move, make_move: Move, fails: &[Move], amt: u32)
        requires
            old(self).wf(),
            prev_move.wf(),
            make_move.wf(),
            board.spec_piece_on(make_move.from as int) is Some,
            moves_wf(fails@),
            moves_from_pieces(*board, fails@),
            amt * amt <= i16::MAX,
        ensures
            final(self).wf(),
            ({
                let base = Self::spec_base(
                    board.side_to_move,
                    spec_piece_on_or(*board, prev_move.to as int, KING as int),
                    prev_move.to as int,
                );
                final(self).spec_table() == spec_step_reward(
                    old(self).spec_table(),
                    spec_dm_idx(*board, base, make_move),
                    spec_dm_idxs(*board, base, fails@),
                    spec_change(amt),
                )
            }),
    {
        let prev_piece = match board.piece_on(prev_move.to) {
            Some(p) => p,
            None => KING,
        };
        let base = (piece_index(board.side_to_move, prev_piece) * 64 + prev_move.to as usize) * 384;
        let piece = board.piece_on(make_move.from).unwrap();
        let index = base + piece as usize * 64 + make_move.to as usize;
        let c = change(amt);
        step_bonus_at(&mut self.table, index, c);
        let mut idxs: Vec<usize> = Vec::new();
        let mut k: usize = 0;
        while k < fails.len()
            invariant
                k <= fails.len(),
                moves_wf(fails@),
                moves_from_pieces(*board, fails@),
                base + 384 <= 294912,
                base == Self::spec_base(
                    board.side_to_move,
                    spec_piece_on_or(*board, prev_move.to as int, KING as int),
                    prev_move.to as int,
                ),
                idxs.len() == k,
                forall|j: int| 0 <= j < k ==> idxs@[j] == spec_dm_idx(*board, base as int, fails@[j]) as usize,
                forall|j: int| 0 <= j < k ==> idxs@[j] < 294912,
            decreases fails.len() - k,
        {
            let m = fails[k];
            assert(fails@[k as int].wf());
            assert(board.spec_piece_on(fails@[k as int].from as int) is Some);
            let p = board.piece_on(m.from).unwrap();
            idxs.push(base + p as usize * 64 + m.to as usize);
            k += 1;
        }
        step_malus_all(&mut self.table, &idxs, c);
        proof {
            assert(idxs@ == spec_dm_idxs(*board, base as int, fails@));
        }
    }
}

proof fn lemma_step_direction(hist: i16, c: i16)
    requires
        in_hist_range(hist),
        0 <= c <= 512,
    ensures
        -c <= spec_decay(c, hist) <= c,
{
    let p = c * hist;
    assert(-512 * c <= p <= 512 * c) by (nonlinear_arith)
        requires
            0 <= c <= 512,
            -512 <= hist <= 512,
            p == c * hist,
    ;
    if p >= 0 {
        assert(p / 512 <= c) by (nonlinear_arith)
            requires
                0 <= p <= 512 * c,
        ;
    } else {
        assert((-p) / 512 <= c) by (nonlinear_arith)
            requires
                0 < -p <= 512 * c,
        ;
    }
}

proof fn lemma_malus_all(t: Seq<i16>, idx: Seq<usize>, c: i16)
    requires
        all_in_range(t),
        0 <= c <= 512,
        forall|k: int| 0 <= k < idx.len() ==> #[trigger] idx[k] < t.len(),
    ensures
        spec_step_malus_all(t, idx, c).len() == t.len(),
        all_in_range(spec_step_malus_all(t, idx, c)),
        forall|j: int| 0 <= j < t.len() ==> #[trigger] spec_step_malus_all(t, idx, c)[j] <= t[j],
        forall|j: int| 0 <= j < t.len() && !idx.contains(j as usize) ==> #[trigger] spec_step_malus_all(t, idx, c)[j] == t[j],
    decreases idx.len(),
{
    if idx.len() > 0 {
        let p = idx.drop_last();
        lemma_malus_all(t, p, c);
        let prev = spec_step_malus_all(t, p, c);
        let k = idx.last() as int;
        assert(idx[idx.len() - 1] < t.len());
        lemma_step_bounded(prev[k], c);
        lemma_step_direction(prev[k], c);
        let r = spec_step_malus_all(t, idx, c);
        assert forall|j: int| 0 <= j < t.len() && !idx.contains(j as usize) implies #[trigger] r[j] == t[j] by {
            if p.contains(j as usize) {
                let m = choose|m: int| 0 <= m < p.len() && p[m] == j as usize;
                assert(idx[m] == p[m]);
            }
            assert(j != k);
        }
    }
}

/// A history update by `cutoff` rewards and punishes in the right direction and stays in
/// range: every score stays within `±MAX_VALUE`, the cut-off move's score does not fall,
/// the failed moves' scores do not rise, and every other score is unchanged (the cut-off
/// move's index is not among the failed moves' indices).
pub proof fn lemma_cutoff_directions(t: Seq<i16>, i: int, fails: Seq<usize>, c: i16)
    requires
        t.len() == 8192,
        all_in_range(t),
        0 <= i < 8192,
        0 <= c <= 512,
        forall|k: int| 0 <= k < fails.len() ==> #[trigger] fails[k] < 8192 && fails[k] != i,
    ensures
        spec_step_reward(t, i, fails, c).len() == 8192,
        all_in_range(spec_step_reward(t, i, fails, c)),
        spec_step_reward(t, i, fails, c)[i] >= t[i],
        forall|k: int| 0 <= k < fails.len() ==> spec_step_reward(t, i, fails, c)[#[trigger] fails[k] as int] <= t[fails[k] as int],
        forall|j: int|
            0 <= j < 8192 && j != i && !fails.contains(j as usize) ==> #[trigger] spec_step_reward(t, i, fails, c)[j] == t[j],
{
    lemma_step_bounded(t[i], c);
    lemma_step_direction(t[i], c);
    let b = t.update(i, spec_step_bonus(t[i], c));
    assert(all_in_range(b));
    lemma_malus_all(b, fails, c);
    let r = spec_step_reward(t, i, fails, c);
    assert(!fails.contains(i as usize)) by {
        if fails.contains(i as usize) {
            let m = choose|m: int| 0 <= m < fails.len() && fails[m] == i as usize;
            assert(fails[m] != i);
        }
    }
    assert forall|k: int| 0 <= k < fails.len() implies r[#[trigger] fails[k] as int] <= t[fails[k] as int] by {
        assert(fails[k] < 8192 && fails[k] != i);
        assert(r[fails[k] as int] <= b[fails[k] as int]);
    }
}

} // verus!
