use crate::bm::attacks::{abs, attacked_from, attacks_from, file_of, piece_attacks, piece_step, rank_of};
use crate::bm::bitboard::{lemma_count_bounds, spec_file_bb, lemma_sum_congr, lemma_sum_ext, spec_reverse_colors, mirror, sum_pred, bits, count_upto, first_from, group_bb, lemma_bb_nonzero, lemma_count_ext, lemma_first_from, lsb, popcnt, spec_count, sum_over};
use crate::bm::bm_eval::eval::Evaluation;
use crate::bm::bm_eval::eval_consts::{add_piece, spec_blend, BISHOP_PAIR, TEMPO, PASSED_TABLE, ISOLATED, DOUBLED, THREAT, CHAINED, PHALANX, TaperedEval, PAWNS, KNIGHTS, BISHOPS, ROOKS, QUEENS, KINGS, PAWN_CNT, KNIGHT_CNT, BISHOP_CNT, ROOK_CNT, QUEEN_CNT, ATTACKERS, BISHOP_ATTACK_CNT, BISHOP_MOBILITY, KNIGHT_ATTACK_CNT, KNIGHT_MOBILITY, QUEEN_ATTACK_CNT, QUEEN_MOBILITY, ROOK_ATTACK_CNT, ROOK_MOBILITY};
use crate::bm::bm_eval::eval_terms::{capped, own, bishop_pair, evaluate_bishops, insufficient_material, phase, spec_insufficient_material, spec_phase};
use crate::bm::chess_types::{bb_has, BitBoard, Board, Color, Move, Piece, Square, KING, PAWN};
use vstd::prelude::*;

verus! {

broadcast use group_bb;

/// Pawn-structure and king-safety masks for each square.
#[derive(Debug, Clone)]
pub struct EvalData {
    pub w_ahead: Vec<BitBoard>,
    pub b_ahead: Vec<BitBoard>,
    pub w_protector: Vec<BitBoard>,
    pub b_protector: Vec<BitBoard>,
    pub ring: Vec<BitBoard>,
}

/// `t` is on the file of `k` or a neighbouring one, strictly ahead of `k` for white.
pub open spec fn w_ahead_of(k: int, t: int) -> bool {
    abs(file_of(t) - file_of(k)) <= 1 && rank_of(t) - rank_of(k) > 0
}

/// As [w_ahead_of], strictly ahead for black (towards rank 1).
pub open spec fn b_ahead_of(k: int, t: int) -> bool {
    abs(file_of(t) - file_of(k)) <= 1 && rank_of(k) - rank_of(t) > 0
}

/// `t` is on the file of `k` or a neighbouring one, on the rank of `k` or ahead for white.
pub open spec fn w_protector_of(k: int, t: int) -> bool {
    abs(file_of(t) - file_of(k)) <= 1 && rank_of(t) - rank_of(k) >= 0
}

/// As [w_protector_of], on the rank of `k` or ahead for black.
pub open spec fn b_protector_of(k: int, t: int) -> bool {
    abs(file_of(t) - file_of(k)) <= 1 && rank_of(k) - rank_of(t) >= 0
}

/// `t` is at most two files and two ranks away from `k`.
pub open spec fn ring_of(k: int, t: int) -> bool {
    abs(file_of(t) - file_of(k)) <= 2 && abs(rank_of(k) - rank_of(t)) <= 2
}

impl EvalData {
    pub open spec fn wf(&self) -> bool {
        &&& self.w_ahead.len() == 64
        &&& self.b_ahead.len() == 64
        &&& self.w_protector.len() == 64
        &&& self.b_protector.len() == 64
        &&& self.ring.len() == 64
        &&& forall|k: int, t: int| 0 <= k < 64 && 0 <= t < 64 ==> (#[trigger] bb_has(self.w_ahead[k], t) <==> w_ahead_of(k, t))
        &&& forall|k: int, t: int| 0 <= k < 64 && 0 <= t < 64 ==> (#[trigger] bb_has(self.b_ahead[k], t) <==> b_ahead_of(k, t))
        &&& forall|k: int, t: int| 0 <= k < 64 && 0 <= t < 64 ==> (#[trigger] bb_has(self.w_protector[k], t) <==> w_protector_of(k, t))
        &&& forall|k: int, t: int| 0 <= k < 64 && 0 <= t < 64 ==> (#[trigger] bb_has(self.b_protector[k], t) <==> b_protector_of(k, t))
        &&& forall|k: int, t: int| 0 <= k < 64 && 0 <= t < 64 ==> (#[trigger] bb_has(self.ring[k], t) <==> ring_of(k, t))
    }
}

/// The five masks of one king (or pawn) square.
#[verifier::spinoff_prover]
#[verifier::rlimit(40)]
pub(crate) fn king_zone(king: u8) -> (r: (BitBoard, BitBoard, BitBoard, BitBoard, BitBoard))
    requires
        king < 64,
    ensures
        forall|t: int| 0 <= t < 64 ==> (#[trigger] bb_has(r.0, t) <==> w_ahead_of(king as int, t)),
        forall|t: int| 0 <= t < 64 ==> (#[trigger] bb_has(r.1, t) <==> b_ahead_of(king as int, t)),
        forall|t: int| 0 <= t < 64 ==> (#[trigger] bb_has(r.2, t) <==> w_protector_of(king as int, t)),
        forall|t: int| 0 <= t < 64 ==> (#[trigger] bb_has(r.3, t) <==> b_protector_of(king as int, t)),
        forall|t: int| 0 <= t < 64 ==> (#[trigger] bb_has(r.4, t) <==> ring_of(king as int, t)),
{
    let king_rank = (king / 8) as i16;
    let king_file = (king % 8) as i16;
    let mut w_ahead: u64 = 0;
    let mut b_ahead: u64 = 0;
    let mut w_protector: u64 = 0;
    let mut b_protector: u64 = 0;
    let mut ring: u64 = 0;
    let mut sq: u8 = 0;
    while sq < 64
        invariant
            sq <= 64,
            king < 64,
            king_rank == rank_of(king as int),
            king_file == file_of(king as int),
            forall|t: int| 0 <= t < 64 ==> (#[trigger] bb_has(w_ahead, t) <==> t < sq && w_ahead_of(king as int, t)),
            forall|t: int| 0 <= t < 64 ==> (#[trigger] bb_has(b_ahead, t) <==> t < sq && b_ahead_of(king as int, t)),
            forall|t: int| 0 <= t < 64 ==> (#[trigger] bb_has(w_protector, t) <==> t < sq && w_protector_of(king as int, t)),
            forall|t: int| 0 <= t < 64 ==> (#[trigger] bb_has(b_protector, t) <==> t < sq && b_protector_of(king as int, t)),
            forall|t: int| 0 <= t < 64 ==> (#[trigger] bb_has(ring, t) <==> t < sq && ring_of(king as int, t)),
        decreases 64 - sq,
    {
        let rank = (sq / 8) as i16;
        let file = (sq % 8) as i16;
        let file_diff = if file >= king_file {
            file - king_file
        } else {
            king_file - file
        };
        let bitboard = 1u64 << (sq as u64);
        let rank_diff = rank - king_rank;
        if file_diff <= 1 && rank_diff > -1 {
            w_protector = w_protector | bitboard;
            if rank_diff > 0 {
                w_ahead = w_ahead | bitboard;
            }
        }
        let rank_diff = king_rank - rank;
        if file_diff <= 1 && rank_diff > -1 {
            b_protector = b_protector | bitboard;
            if rank_diff > 0 {
                b_ahead = b_ahead | bitboard;
            }
        }
        let rank_dist = if rank_diff >= 0 {
            rank_diff
        } else {
            -rank_diff
        };
        if file_diff <= 2 && rank_dist <= 2 {
            ring = ring | bitboard;
        }
        sq += 1;
    }
    (w_ahead, b_ahead, w_protector, b_protector, ring)
}

/// Builds the masks of every square.
pub fn get_basic_eval_data() -> (r: EvalData)
    ensures
        r.wf(),
{
    let mut data = EvalData {
        w_ahead: Vec::new(),
        b_ahead: Vec::new(),
        w_protector: Vec::new(),
        b_protector: Vec::new(),
        ring: Vec::new(),
    };
    let mut king: u8 = 0;
    while king < 64
        invariant
            king <= 64,
            data.w_ahead.len() == king,
            data.b_ahead.len() == king,
            data.w_protector.len() == king,
            data.b_protector.len() == king,
            data.ring.len() == king,
            forall|k: int, t: int| 0 <= k < king && 0 <= t < 64 ==> (#[trigger] bb_has(data.w_ahead[k], t) <==> w_ahead_of(k, t)),
            forall|k: int, t: int| 0 <= k < king && 0 <= t < 64 ==> (#[trigger] bb_has(data.b_ahead[k], t) <==> b_ahead_of(k, t)),
            forall|k: int, t: int| 0 <= k < king && 0 <= t < 64 ==> (#[trigger] bb_has(data.w_protector[k], t) <==> w_protector_of(k, t)),
            forall|k: int, t: int| 0 <= k < king && 0 <= t < 64 ==> (#[trigger] bb_has(data.b_protector[k], t) <==> b_protector_of(k, t)),
            forall|k: int, t: int| 0 <= k < king && 0 <= t < 64 ==> (#[trigger] bb_has(data.ring[k], t) <==> ring_of(k, t)),
        decreases 64 - king,
    {
        let zone = king_zone(king);
        data.w_ahead.push(zone.0);
        data.b_ahead.push(zone.1);
        data.w_protector.push(zone.2);
        data.b_protector.push(zone.3);
        data.ring.push(zone.4);
        king += 1;
    }
    data
}


/// The squares where a piece of `color` counts as mobile: not attacked by an enemy pawn,
/// not holding its own king or one of its own pawns.
pub open spec fn mobility_area(board: Board, color: Color) -> spec_fn(int) -> bool {
    let opp = color.spec_opp();
    |t: int|
        !(attacked_from(own(board, opp, PAWN), PAWN, opp, t, 0) || bb_has(own(board, color, KING), t) || bb_has(
            own(board, color, PAWN),
            t,
        ))
}

/// Number of mobility-area squares that a piece (`kind`, `color`) on `s` attacks.
pub open spec fn mob_count(board: Board, kind: Piece, color: Color, s: int) -> int {
    count_upto(
        |t: int| piece_step(kind, color, s, t, board.spec_occupied()) && mobility_area(board, color)(t),
        64,
    )
}

pub open spec fn mobility_table(kind: Piece) -> Seq<[i16; 2]> {
    if kind == 1 {
        KNIGHT_MOBILITY@
    } else if kind == 2 {
        BISHOP_MOBILITY@
    } else if kind == 3 {
        ROOK_MOBILITY@
    } else {
        QUEEN_MOBILITY@
    }
}

/// The mobility score (middlegame `j == 0`, endgame `j == 1`) of the piece on `s`; the count
/// is capped at the table's last entry, which no legal position exceeds.
pub open spec fn mob_value(board: Board, kind: Piece, color: Color, s: int, j: int) -> int {
    let table = mobility_table(kind);
    table[capped(mob_count(board, kind, color, s), table.len() - 1)][j] as int
}

/// The piece (`kind`, `color`) on `s` attacks some square satisfying `q`.
pub open spec fn hits(board: Board, kind: Piece, color: Color, s: int, q: spec_fn(int) -> bool) -> bool {
    exists|t: int| 0 <= t < 64 && #[trigger] piece_step(kind, color, s, t, board.spec_occupied()) && q(t)
}

/// The squares a piece of `kind` standing on `k` would attack.
pub open spec fn lines_from(board: Board, kind: Piece, k: int) -> spec_fn(int) -> bool {
    |t: int| piece_step(kind, Color::White, k, t, board.spec_occupied())
}

/// The squares around the king square `k`.
pub open spec fn ring_set(k: int) -> spec_fn(int) -> bool {
    |t: int| ring_of(k, t)
}

pub open spec fn indicator(b: bool) -> int {
    if b {
        1
    } else {
        0
    }
}

/// For the pieces of one kind and color: their mobility (middlegame, endgame), how many
/// attack the enemy king's lines for that kind, and how many attack the enemy king ring.
fn kind_terms(
    board: &Board,
    kind: Piece,
    color: Color,
    table: &[[i16; 2]],
    area: BitBoard,
    king_attack: BitBoard,
    enemy_ring: BitBoard,
    enemy_king: Square,
) -> (r: (i32, i32, i32, i32))
    requires
        1 <= kind <= 4,
        enemy_king < 64,
        table@ == mobility_table(kind),
        forall|t: int| 0 <= t < 64 ==> (#[trigger] bb_has(area, t) <==> mobility_area(*board, color)(t)),
        forall|t: int|
            0 <= t < 64 ==> (#[trigger] bb_has(king_attack, t) <==> lines_from(*board, kind, enemy_king as int)(t)),
        forall|t: int| 0 <= t < 64 ==> (#[trigger] bb_has(enemy_ring, t) <==> ring_set(enemy_king as int)(t)),
    ensures
        r.0 == sum_over(own(*board, color, kind), |s: int| mob_value(*board, kind, color, s, 0), 64),
        r.1 == sum_over(own(*board, color, kind), |s: int| mob_value(*board, kind, color, s, 1), 64),
        r.2 == sum_over(
            own(*board, color, kind),
            |s: int| indicator(hits(*board, kind, color, s, lines_from(*board, kind, enemy_king as int))),
            64,
        ),
        r.3 == sum_over(
            own(*board, color, kind),
            |s: int| indicator(hits(*board, kind, color, s, ring_set(enemy_king as int))),
            64,
        ),
        -64000 <= r.0 <= 64000,
        -64000 <= r.1 <= 64000,
        0 <= r.2 <= 64,
        0 <= r.3 <= 64,
{
    let pieces = board.pieces(kind) & board.colors(color);
    let occupied = board.occupied();
    let mut mg: i32 = 0;
    let mut eg: i32 = 0;
    let mut cnt: i32 = 0;
    let mut att: i32 = 0;
    let mut s: u8 = 0;
    while s < 64
        invariant
            s <= 64,
            1 <= kind <= 4,
            enemy_king < 64,
            table@ == mobility_table(kind),
            pieces == own(*board, color, kind),
            occupied == board.spec_occupied(),
            forall|t: int| 0 <= t < 64 ==> (#[trigger] bb_has(area, t) <==> mobility_area(*board, color)(t)),
            forall|t: int|
                0 <= t < 64 ==> (#[trigger] bb_has(king_attack, t) <==> lines_from(*board, kind, enemy_king as int)(t)),
            forall|t: int| 0 <= t < 64 ==> (#[trigger] bb_has(enemy_ring, t) <==> ring_set(enemy_king as int)(t)),
            mg == sum_over(pieces, |s: int| mob_value(*board, kind, color, s, 0), s as int),
            eg == sum_over(pieces, |s: int| mob_value(*board, kind, color, s, 1), s as int),
            cnt == sum_over(
                pieces,
                |s: int| indicator(hits(*board, kind, color, s, lines_from(*board, kind, enemy_king as int))),
                s as int,
            ),
            att == sum_over(
                pieces,
                |s: int| indicator(hits(*board, kind, color, s, ring_set(enemy_king as int))),
                s as int,
            ),
            -1000 * s <= mg <= 1000 * s,
            -1000 * s <= eg <= 1000 * s,
            0 <= cnt <= s,
            0 <= att <= s,
        decreases 64 - s,
    {
        if (pieces >> (s as u64)) & 1 == 1 {
            let attacks = piece_attacks(kind, color, s, occupied);
            let mobile = attacks & area;
            let mobility = popcnt(mobile);
            proof {
                lemma_count_ext(
                    mobile,
                    |t: int| piece_step(kind, color, s as int, t, board.spec_occupied()) && mobility_area(*board, color)(t),
                    64,
                );
            }
            let last = table.len() - 1;
            let idx: usize = if (mobility as usize) < last {
                mobility as usize
            } else {
                last
            };
            let value = table[idx];
            assert(-1000 <= value[0] <= 1000 && -1000 <= value[1] <= 1000);
            mg = mg + value[0] as i32;
            eg = eg + value[1] as i32;
            let on_lines = attacks & king_attack;
            proof {
                lemma_bb_nonzero(on_lines);
                if on_lines != 0 {
                    let t = choose|t: int| 0 <= t < 64 && #[trigger] bb_has(on_lines, t);
                    assert(piece_step(kind, color, s as int, t, board.spec_occupied()) && lines_from(*board, kind, enemy_king as int)(t));
                } else {
                    assert forall|t: int| 0 <= t < 64 implies !(#[trigger] piece_step(kind, color, s as int, t, board.spec_occupied())
                        && lines_from(*board, kind, enemy_king as int)(t)) by {
                        assert(!bb_has(on_lines, t));
                    }
                }
            }
            if on_lines != 0 {
                cnt = cnt + 1;
            }
            let on_ring = attacks & enemy_ring;
            proof {
                lemma_bb_nonzero(on_ring);
                if on_ring != 0 {
                    let t = choose|t: int| 0 <= t < 64 && #[trigger] bb_has(on_ring, t);
                    assert(piece_step(kind, color, s as int, t, board.spec_occupied()) && ring_set(enemy_king as int)(t));
                } else {
                    assert forall|t: int| 0 <= t < 64 implies !(#[trigger] piece_step(kind, color, s as int, t, board.spec_occupied())
                        && ring_set(enemy_king as int)(t)) by {
                        assert(!bb_has(on_ring, t));
                    }
                }
            }
            if on_ring != 0 {
                att = att + 1;
            }
        }
        s += 1;
    }
    (mg, eg, cnt, att)
}


/// The square of the king of `c` (the lowest, were there several).
pub open spec fn king_sq(board: Board, c: Color) -> int {
    first_from(bits(own(board, c, KING)), 0)
}

/// Both sides have a king.
pub open spec fn has_kings(board: Board) -> bool {
    king_sq(board, Color::White) < 64 && king_sq(board, Color::Black) < 64
}

pub fn king_of(board: &Board, color: Color) -> (r: Square)
    requires
        king_sq(*board, color) < 64,
    ensures
        r == king_sq(*board, color),
        r < 64,
{
    let kings = board.pieces(KING) & board.colors(color);
    lsb(kings).unwrap()
}

pub open spec fn attack_cnt_value(kind: Piece) -> [i16; 2] {
    if kind == 1 {
        KNIGHT_ATTACK_CNT
    } else if kind == 2 {
        BISHOP_ATTACK_CNT
    } else if kind == 3 {
        ROOK_ATTACK_CNT
    } else {
        QUEEN_ATTACK_CNT
    }
}

/// Pieces of `kind` and `c` that attack the enemy king's lines for that kind.
pub open spec fn spec_line_attackers(board: Board, kind: Piece, c: Color) -> int {
    let ek = king_sq(board, c.spec_opp());
    sum_over(own(board, c, kind), |s: int| indicator(hits(board, kind, c, s, lines_from(board, kind, ek))), 64)
}

/// Pieces of `kind` and `c` that attack the enemy king ring.
pub open spec fn spec_ring_attackers(board: Board, kind: Piece, c: Color) -> int {
    let ek = king_sq(board, c.spec_opp());
    sum_over(own(board, c, kind), |s: int| indicator(hits(board, kind, c, s, ring_set(ek))), 64)
}

pub open spec fn spec_mobility(board: Board, kind: Piece, c: Color, j: int) -> int {
    sum_over(own(board, c, kind), |s: int| mob_value(board, kind, c, s, j), 64)
}

/// The pieces (pawns aside) of `c` standing in the enemy king ring.
pub open spec fn spec_in_ring(board: Board, c: Color) -> int {
    let ek = king_sq(board, c.spec_opp());
    count_upto(|t: int| bb_has(board.colors[c.spec_index()] & !board.pieces[0], t) && ring_of(ek, t), 64)
}

/// Index into the king danger table for the attacks of `c`.
pub open spec fn spec_attackers_index(board: Board, c: Color) -> int {
    let n = spec_ring_attackers(board, 1, c) + spec_ring_attackers(board, 2, c) + spec_ring_attackers(board, 3, c)
        + spec_ring_attackers(board, 4, c);
    capped(n, 3) * 4 + capped(spec_in_ring(board, c), 3)
}

/// The mobility and king-attack score (middlegame `j == 0`, endgame `j == 1`), white's view.
#[verifier::opaque]
pub open spec fn spec_threats_score(board: Board, j: int) -> int {
    let w = Color::White;
    let b = Color::Black;
    (spec_line_attackers(board, 1, w) - spec_line_attackers(board, 1, b)) * KNIGHT_ATTACK_CNT[j]
        + (spec_line_attackers(board, 2, w) - spec_line_attackers(board, 2, b)) * BISHOP_ATTACK_CNT[j]
        + (spec_line_attackers(board, 3, w) - spec_line_attackers(board, 3, b)) * ROOK_ATTACK_CNT[j]
        + (spec_line_attackers(board, 4, w) - spec_line_attackers(board, 4, b)) * QUEEN_ATTACK_CNT[j]
        + (spec_mobility(board, 1, w, j) - spec_mobility(board, 1, b, j))
        + (spec_mobility(board, 2, w, j) - spec_mobility(board, 2, b, j))
        + (spec_mobility(board, 3, w, j) - spec_mobility(board, 3, b, j))
        + (spec_mobility(board, 4, w, j) - spec_mobility(board, 4, b, j))
        + ATTACKERS[spec_attackers_index(board, w)][j] - ATTACKERS[spec_attackers_index(board, b)][j]
}

fn mobility_table_of(kind: Piece) -> (r: &'static [[i16; 2]])
    requires
        1 <= kind <= 4,
    ensures
        r@ == mobility_table(kind),
{
    if kind == 1 {
        KNIGHT_MOBILITY.as_slice()
    } else if kind == 2 {
        BISHOP_MOBILITY.as_slice()
    } else if kind == 3 {
        ROOK_MOBILITY.as_slice()
    } else {
        QUEEN_MOBILITY.as_slice()
    }
}


/// The square table of a piece kind, with the piece's material value added (none for the king).
#[verifier::opaque]
pub open spec fn psqt_entry(kind: Piece, sq: int, j: int) -> int {
    if kind == 0 {
        PAWNS[sq][j] + PAWN_CNT[j]
    } else if kind == 1 {
        KNIGHTS[sq][j] + KNIGHT_CNT[j]
    } else if kind == 2 {
        BISHOPS[sq][j] + BISHOP_CNT[j]
    } else if kind == 3 {
        ROOKS[sq][j] + ROOK_CNT[j]
    } else if kind == 4 {
        QUEENS[sq][j] + QUEEN_CNT[j]
    } else {
        KINGS[sq][j] as int
    }
}

pub open spec fn tables_wf(tables: Vec<Vec<TaperedEval>>) -> bool {
    &&& tables.len() == 6
    &&& forall|k: int| 0 <= k < 6 ==> #[trigger] tables[k].len() == 64
    &&& forall|k: int, sq: int|
        0 <= k < 6 && 0 <= sq < 64 ==> #[trigger] tables[k][sq].0 == psqt_entry(k as Piece, sq, 0)
    &&& forall|k: int, sq: int|
        0 <= k < 6 && 0 <= sq < 64 ==> #[trigger] tables[k][sq].1 == psqt_entry(k as Piece, sq, 1)
}

/// The king-attack counts (knight, bishop, rook, queen), mobility (middlegame, endgame)
/// and king danger index of the pieces of `color`.
#[verifier::rlimit(30)]
fn color_terms(data: &EvalData, board: &Board, color: Color, area: BitBoard) -> (r: (i32, i32, i32, i32, i32, i32, usize))
    requires
        data.wf(),
        has_kings(*board),
        forall|t: int| 0 <= t < 64 ==> (#[trigger] bb_has(area, t) <==> mobility_area(*board, color)(t)),
    ensures
        r.0 == spec_line_attackers(*board, 1, color),
        r.1 == spec_line_attackers(*board, 2, color),
        r.2 == spec_line_attackers(*board, 3, color),
        r.3 == spec_line_attackers(*board, 4, color),
        r.4 == spec_mobility(*board, 1, color, 0) + spec_mobility(*board, 2, color, 0) + spec_mobility(*board, 3, color, 0)
            + spec_mobility(*board, 4, color, 0),
        r.5 == spec_mobility(*board, 1, color, 1) + spec_mobility(*board, 2, color, 1) + spec_mobility(*board, 3, color, 1)
            + spec_mobility(*board, 4, color, 1),
        r.6 == spec_attackers_index(*board, color),
        0 <= r.0 <= 64,
        0 <= r.1 <= 64,
        0 <= r.2 <= 64,
        0 <= r.3 <= 64,
        -256000 <= r.4 <= 256000,
        -256000 <= r.5 <= 256000,
        r.6 < 16,
{
    let blockers = board.occupied();
    let enemy_king = king_of(board, color.opp());
    let enemy_ring = data.ring[enemy_king as usize];
    let (n_mg, n_eg, n_cnt, n_att) = kind_terms(board, 1, color, mobility_table_of(1), area,
        piece_attacks(1, Color::White, enemy_king, blockers), enemy_ring, enemy_king);
    let (b_mg, b_eg, b_cnt, b_att) = kind_terms(board, 2, color, mobility_table_of(2), area,
        piece_attacks(2, Color::White, enemy_king, blockers), enemy_ring, enemy_king);
    let (r_mg, r_eg, r_cnt, r_att) = kind_terms(board, 3, color, mobility_table_of(3), area,
        piece_attacks(3, Color::White, enemy_king, blockers), enemy_ring, enemy_king);
    let (q_mg, q_eg, q_cnt, q_att) = kind_terms(board, 4, color, mobility_table_of(4), area,
        piece_attacks(4, Color::White, enemy_king, blockers), enemy_ring, enemy_king);
    let in_ring_bb = board.colors(color) & enemy_ring & !board.pieces(PAWN);
    let in_ring = popcnt(in_ring_bb);
    proof {
        lemma_count_ext(
            in_ring_bb,
            |t: int| bb_has(board.colors[color.spec_index()] & !board.pieces[0], t) && ring_of(enemy_king as int, t),
            64,
        );
    }
    let in_ring: usize = if in_ring < 3 {
        in_ring as usize
    } else {
        3
    };
    let attackers = n_att + b_att + r_att + q_att;
    let attackers: usize = if attackers < 3 {
        attackers as usize
    } else {
        3
    };
    (n_cnt, b_cnt, r_cnt, q_cnt, n_mg + b_mg + r_mg + q_mg, n_eg + b_eg + r_eg + q_eg, attackers * 4 + in_ring)
}

/// The mobility and king-attack part of the evaluation (middlegame, endgame), white's view.
#[verifier::rlimit(30)]
pub fn evaluate_threats(data: &EvalData, board: &Board) -> (r: (i32, i32))
    requires
        data.wf(),
        has_kings(*board),
    ensures
        r.0 == spec_threats_score(*board, 0),
        r.1 == spec_threats_score(*board, 1),
{
    proof {
        reveal(spec_threats_score);
    }
    let whites = board.colors(Color::White);
    let blacks = board.colors(Color::Black);
    let pawns = board.pieces(PAWN);
    let kings = board.pieces(KING);
    let w_pawn_attacks = attacks_from(pawns & whites, PAWN, Color::White, 0);
    let b_pawn_attacks = attacks_from(pawns & blacks, PAWN, Color::Black, 0);
    let w_mobility_area = !(b_pawn_attacks | (kings & whites) | (whites & pawns));
    let b_mobility_area = !(w_pawn_attacks | (kings & blacks) | (blacks & pawns));
    let w = color_terms(data, board, Color::White, w_mobility_area);
    let b = color_terms(data, board, Color::Black, b_mobility_area);
    let n = weighted(w.0 - b.0, KNIGHT_ATTACK_CNT);
    let bi = weighted(w.1 - b.1, BISHOP_ATTACK_CNT);
    let r = weighted(w.2 - b.2, ROOK_ATTACK_CNT);
    let q = weighted(w.3 - b.3, QUEEN_ATTACK_CNT);
    let w_danger = ATTACKERS[w.6];
    let b_danger = ATTACKERS[b.6];
    let mg = n.0 + bi.0 + r.0 + q.0 + (w.4 - b.4) + w_danger[0] as i32 - b_danger[0] as i32;
    let eg = n.1 + bi.1 + r.1 + q.1 + (w.5 - b.5) + w_danger[1] as i32 - b_danger[1] as i32;
    (mg, eg)
}

/// `cnt` times a tapered weight.
fn weighted(cnt: i32, w: [i16; 2]) -> (r: (i32, i32))
    requires
        -1024 <= cnt <= 1024,
    ensures
        r.0 == cnt * w[0],
        r.1 == cnt * w[1],
        -1024 * 32768 <= r.0 <= 1024 * 32768,
        -1024 * 32768 <= r.1 <= 1024 * 32768,
{
    let a = w[0] as i32;
    let b = w[1] as i32;
    assert(-1024 * 32768 <= cnt * a <= 1024 * 32768) by (nonlinear_arith)
        requires
            -1024 <= cnt <= 1024,
            -32768 <= a <= 32767,
    ;
    assert(-1024 * 32768 <= cnt * b <= 1024 * 32768) by (nonlinear_arith)
        requires
            -1024 <= cnt <= 1024,
            -32768 <= b <= 32767,
    ;
    (cnt * a, cnt * b)
}


/// The psqt score (middlegame `j == 0`, endgame `j == 1`) of one piece kind, white's view:
/// white's pieces on their squares, black's on the mirrored squares.
#[verifier::opaque]
pub open spec fn spec_psqt(board: Board, kind: Piece, j: int) -> int {
    sum_over(own(board, Color::White, kind), |s: int| psqt_entry(kind, s, j), 64) - sum_over(
        spec_reverse_colors(own(board, Color::Black, kind)),
        |s: int| psqt_entry(kind, s, j),
        64,
    )
}

/// The sum of the table entries of the squares of `board`.
pub fn get_psqt_score(board: BitBoard, table: &[TaperedEval]) -> (r: (i32, i32))
    requires
        table@.len() == 64,
    ensures
        r.0 == sum_over(board, |s: int| table@[s].0 as int, 64),
        r.1 == sum_over(board, |s: int| table@[s].1 as int, 64),
        -64 * 32768 <= r.0 <= 64 * 32768,
        -64 * 32768 <= r.1 <= 64 * 32768,
{
    let mut mg: i32 = 0;
    let mut eg: i32 = 0;
    let mut sq: u8 = 0;
    while sq < 64
        invariant
            sq <= 64,
            table@.len() == 64,
            mg == sum_over(board, |s: int| table@[s].0 as int, sq as int),
            eg == sum_over(board, |s: int| table@[s].1 as int, sq as int),
            -32768 * sq <= mg <= 32768 * sq,
            -32768 * sq <= eg <= 32768 * sq,
        decreases 64 - sq,
    {
        if (board >> (sq as u64)) & 1 == 1 {
            let entry = table[sq as usize];
            mg = mg + entry.0 as i32;
            eg = eg + entry.1 as i32;
        }
        sq += 1;
    }
    (mg, eg)
}

/// The bitboard with its ranks mirrored.
pub fn reverse_colors(bb: BitBoard) -> (r: BitBoard)
    ensures
        r == spec_reverse_colors(bb),
{
    let k1: u64 = 0x00FF00FF00FF00FF;
    let k2: u64 = 0x0000FFFF0000FFFF;
    let b1 = ((bb >> 8u64) & k1) | ((bb & k1) << 8u64);
    let b2 = ((b1 >> 16u64) & k2) | ((b1 & k2) << 16u64);
    (b2 >> 32u64) | (b2 << 32u64)
}

#[verifier::rlimit(30)]
pub fn evaluate_psqt(tables: &Vec<Vec<TaperedEval>>, board: &Board, piece: Piece) -> (r: (i32, i32))
    requires
        tables_wf(*tables),
        piece < 6,
    ensures
        r.0 == spec_psqt(*board, piece, 0),
        r.1 == spec_psqt(*board, piece, 1),
        -128 * 32768 <= r.0 <= 128 * 32768,
        -128 * 32768 <= r.1 <= 128 * 32768,
{
    proof {
        reveal(spec_psqt);
    }
    let pieces_white = board.pieces(piece) & board.colors(Color::White);
    let pieces_black = board.pieces(piece) & board.colors(Color::Black);
    assert(tables[piece as int].len() == 64);
    let table = tables[piece as usize].as_slice();
    let w = get_psqt_score(pieces_white, table);
    let b = get_psqt_score(reverse_colors(pieces_black), table);
    proof {
        assert forall|s: int| 0 <= s < 64 implies #[trigger] table@[s].0 as int == psqt_entry(piece, s, 0) by {
            assert(tables[piece as int][s].0 == psqt_entry(piece, s, 0));
        }
        assert forall|s: int| 0 <= s < 64 implies #[trigger] table@[s].1 as int == psqt_entry(piece, s, 1) by {
            assert(tables[piece as int][s].1 == psqt_entry(piece, s, 1));
        }
        lemma_sum_congr(pieces_white, |s: int| table@[s].0 as int, |s: int| psqt_entry(piece, s, 0), 64);
        lemma_sum_congr(pieces_white, |s: int| table@[s].1 as int, |s: int| psqt_entry(piece, s, 1), 64);
        lemma_sum_congr(spec_reverse_colors(pieces_black), |s: int| table@[s].0 as int, |s: int| psqt_entry(piece, s, 0), 64);
        lemma_sum_congr(spec_reverse_colors(pieces_black), |s: int| table@[s].1 as int, |s: int| psqt_entry(piece, s, 1), 64);
    }
    (w.0 - b.0, w.1 - b.1)
}


/// A pawn of `c` on `s` with no enemy pawn ahead of it on its file or the neighbouring ones.
pub open spec fn is_passed(board: Board, c: Color, s: int) -> bool {
    let opp_pawns = own(board, c.spec_opp(), PAWN);
    &&& bb_has(own(board, c, PAWN), s)
    &&& !exists|t: int|
        0 <= t < 64 && #[trigger] bb_has(opp_pawns, t) && match c {
            Color::White => w_ahead_of(s, t),
            Color::Black => b_ahead_of(s, t),
        }
}

/// The mask the isolation test reads for file `f`: the file's squares shifted one rank up,
/// together with them shifted one rank down.
pub open spec fn adjacent_mask(f: int, t: int) -> bool {
    (t >= 8 && (t - 8) % 8 == f) || (t + 8 < 64 && (t + 8) % 8 == f)
}

/// A pawn of `c` on `s` with no pawn of its own on the squares of the isolation mask.
pub open spec fn is_isolated(board: Board, c: Color, s: int) -> bool {
    &&& bb_has(own(board, c, PAWN), s)
    &&& !exists|t: int| 0 <= t < 64 && #[trigger] bb_has(own(board, c, PAWN), t) && adjacent_mask(s % 8, t)
}

pub open spec fn sat_sub1(x: int) -> int {
    if x > 0 {
        x - 1
    } else {
        0
    }
}

/// Pawns of `c` beyond the first on each of the files `f < n`.
pub open spec fn doubled_upto(board: Board, c: Color, n: int) -> int
    decreases n,
{
    if n <= 0 {
        0
    } else {
        doubled_upto(board, c, n - 1) + sat_sub1(
            count_upto(|t: int| t % 8 == n - 1 && bb_has(own(board, c, PAWN), t), 64),
        )
    }
}

/// Squares attacked by the pawns of `c`.
pub open spec fn pawn_attacked(board: Board, c: Color, t: int) -> bool {
    attacked_from(own(board, c, PAWN), PAWN, c, t, 0)
}

pub open spec fn spec_isolated(board: Board, c: Color) -> int {
    count_upto(|s: int| is_isolated(board, c, s), 64)
}

pub open spec fn spec_phalanx(board: Board, c: Color) -> int {
    count_upto(|t: int| bb_has(own(board, c, PAWN), t) && t >= 1 && bb_has(own(board, c, PAWN), t - 1), 64)
}

pub open spec fn spec_pawn_threat(board: Board, c: Color) -> int {
    count_upto(
        |t: int| pawn_attacked(board, c, t) && bb_has(board.colors[c.spec_opp().spec_index()] & !own(board, c.spec_opp(), PAWN), t),
        64,
    )
}

pub open spec fn spec_chained(board: Board, c: Color) -> int {
    count_upto(|t: int| pawn_attacked(board, c, t) && bb_has(own(board, c, PAWN), t), 64)
}

/// The passed-pawn score, white's view: white passers by rank, black passers by mirrored rank.
pub open spec fn spec_passers(board: Board, j: int) -> int {
    sum_pred(|s: int| is_passed(board, Color::White, s), |s: int| PASSED_TABLE[s / 8][j] as int, 64) - sum_pred(
        |t: int| is_passed(board, Color::Black, mirror(t)),
        |s: int| PASSED_TABLE[s / 8][j] as int,
        64,
    )
}

/// The pawn-structure score (middlegame `j == 0`, endgame `j == 1`), white's view.
#[verifier::opaque]
pub open spec fn spec_pawns_score(board: Board, j: int) -> int {
    let w = Color::White;
    let b = Color::Black;
    spec_passers(board, j) + (spec_isolated(board, w) - spec_isolated(board, b)) * ISOLATED[j]
        + (doubled_upto(board, w, 8) - doubled_upto(board, b, 8)) * DOUBLED[j]
        + (spec_pawn_threat(board, w) - spec_pawn_threat(board, b)) * THREAT[j]
        + (spec_chained(board, w) - spec_chained(board, b)) * CHAINED[j]
        + (spec_phalanx(board, w) - spec_phalanx(board, b)) * PHALANX[j]
}

/// The sum of the passed-pawn bonus by rank over the squares of `bb`.
fn passer_sum(bb: BitBoard) -> (r: (i32, i32))
    ensures
        r.0 == sum_over(bb, |s: int| PASSED_TABLE[s / 8][0] as int, 64),
        r.1 == sum_over(bb, |s: int| PASSED_TABLE[s / 8][1] as int, 64),
        -64 * 200 <= r.0 <= 64 * 200,
        -64 * 200 <= r.1 <= 64 * 200,
{
    let mut mg: i32 = 0;
    let mut eg: i32 = 0;
    let mut sq: u8 = 0;
    while sq < 64
        invariant
            sq <= 64,
            mg == sum_over(bb, |s: int| PASSED_TABLE[s / 8][0] as int, sq as int),
            eg == sum_over(bb, |s: int| PASSED_TABLE[s / 8][1] as int, sq as int),
            -200 * sq <= mg <= 200 * sq,
            -200 * sq <= eg <= 200 * sq,
        decreases 64 - sq,
    {
        if (bb >> (sq as u64)) & 1 == 1 {
            let entry = PASSED_TABLE[(sq / 8) as usize];
            mg = mg + entry[0] as i32;
            eg = eg + entry[1] as i32;
        }
        sq += 1;
    }
    (mg, eg)
}

/// The squares of file `f`.
fn file_bb(f: u8) -> (r: BitBoard)
    requires
        f < 8,
    ensures
        r == spec_file_bb(f as int),
{
    0x0101_0101_0101_0101u64 << (f as u64)
}

/// The isolation mask of file `f`.
fn adjacent_files(f: u8) -> (r: BitBoard)
    requires
        f < 8,
    ensures
        forall|t: int| 0 <= t < 64 ==> (#[trigger] bb_has(r, t) <==> adjacent_mask(f as int, t)),
{
    (file_bb(f) << 8u64) | (file_bb(f) >> 8u64)
}

/// The passed pawns of `color`, and how many of its pawns are isolated.
fn pawn_side(data: &EvalData, board: &Board, color: Color) -> (r: (BitBoard, i32))
    requires
        data.wf(),
    ensures
        forall|s: int| 0 <= s < 64 ==> (#[trigger] bb_has(r.0, s) <==> is_passed(*board, color, s)),
        r.1 == spec_isolated(*board, color),
        0 <= r.1 <= 64,
{
    let pawns = board.pieces(PAWN) & board.colors(color);
    let opp_pawns = board.pieces(PAWN) & board.colors(color.opp());
    let mut passed: u64 = 0;
    let mut isolated: i32 = 0;
    let mut sq: u8 = 0;
    while sq < 64
        invariant
            sq <= 64,
            data.wf(),
            pawns == own(*board, color, PAWN),
            opp_pawns == own(*board, color.spec_opp(), PAWN),
            forall|s: int| 0 <= s < 64 ==> (#[trigger] bb_has(passed, s) <==> s < sq && is_passed(*board, color, s)),
            isolated == count_upto(|s: int| is_isolated(*board, color, s), sq as int),
            0 <= isolated <= sq,
        decreases 64 - sq,
    {
        if (pawns >> (sq as u64)) & 1 == 1 {
            let ahead = match color {
                Color::White => data.w_ahead[sq as usize],
                Color::Black => data.b_ahead[sq as usize],
            };
            let blocking = ahead & opp_pawns;
            proof {
                lemma_bb_nonzero(blocking);
            }
            if blocking == 0 {
                passed = passed | (1u64 << (sq as u64));
                assert forall|t: int| 0 <= t < 64 && #[trigger] bb_has(opp_pawns, t) implies !match color {
                    Color::White => w_ahead_of(sq as int, t),
                    Color::Black => b_ahead_of(sq as int, t),
                } by {
                    assert(!bb_has(blocking, t));
                }
            } else {
                proof {
                    let t = choose|t: int| 0 <= t < 64 && #[trigger] bb_has(blocking, t);
                    assert(bb_has(opp_pawns, t));
                }
            }
            let adj = adjacent_files(sq % 8);
            let neighbours = adj & pawns;
            proof {
                lemma_bb_nonzero(neighbours);
            }
            if neighbours == 0 {
                isolated = isolated + 1;
                assert forall|t: int| 0 <= t < 64 && #[trigger] bb_has(pawns, t) implies !adjacent_mask((sq % 8) as int, t) by {
                    assert(!bb_has(neighbours, t));
                }
            } else {
                proof {
                    let t = choose|t: int| 0 <= t < 64 && #[trigger] bb_has(neighbours, t);
                    assert(bb_has(pawns, t) && adjacent_mask((sq % 8) as int, t));
                }
            }
        }
        sq += 1;
    }
    (passed, isolated)
}

/// The pawn-structure part of the evaluation (middlegame, endgame), white's view.
#[verifier::rlimit(30)]
pub fn evaluate_pawns(data: &EvalData, board: &Board) -> (r: (i32, i32))
    requires
        data.wf(),
    ensures
        r.0 == spec_pawns_score(*board, 0),
        r.1 == spec_pawns_score(*board, 1),
{
    proof {
        reveal(spec_pawns_score);
    }
    let (w_passed_bb, w_isolated) = pawn_side(data, board, Color::White);
    let (b_passed_bb, b_isolated) = pawn_side(data, board, Color::Black);
    let passers = passer_score(board, w_passed_bb, b_passed_bb);
    let (w_doubled, w_threat, w_chained, w_phalanx) = pawn_counts(board, Color::White);
    let (b_doubled, b_threat, b_chained, b_phalanx) = pawn_counts(board, Color::Black);
    let iso = weighted(w_isolated - b_isolated, ISOLATED);
    let dbl = weighted(w_doubled - b_doubled, DOUBLED);
    let thr = weighted(w_threat - b_threat, THREAT);
    let ch = weighted(w_chained - b_chained, CHAINED);
    let ph = weighted(w_phalanx - b_phalanx, PHALANX);
    let mg = passers.0 + iso.0 + dbl.0 + thr.0 + ch.0 + ph.0;
    let eg = passers.1 + iso.1 + dbl.1 + thr.1 + ch.1 + ph.1;
    (mg, eg)
}

/// The passed-pawn score, from the passed pawns of each side.
fn passer_score(board: &Board, w_passed_bb: BitBoard, b_passed_bb: BitBoard) -> (r: (i32, i32))
    requires
        forall|s: int| 0 <= s < 64 ==> (#[trigger] bb_has(w_passed_bb, s) <==> is_passed(*board, Color::White, s)),
        forall|s: int| 0 <= s < 64 ==> (#[trigger] bb_has(b_passed_bb, s) <==> is_passed(*board, Color::Black, s)),
    ensures
        r.0 == spec_passers(*board, 0),
        r.1 == spec_passers(*board, 1),
        -128 * 200 <= r.0 <= 128 * 200,
        -128 * 200 <= r.1 <= 128 * 200,
{
    let w_passers = passer_sum(w_passed_bb);
    let b_passers = passer_sum(reverse_colors(b_passed_bb));
    proof {
        lemma_sum_ext(w_passed_bb, |s: int| is_passed(*board, Color::White, s), |s: int| PASSED_TABLE[s / 8][0] as int, 64);
        lemma_sum_ext(w_passed_bb, |s: int| is_passed(*board, Color::White, s), |s: int| PASSED_TABLE[s / 8][1] as int, 64);
        lemma_sum_ext(
            spec_reverse_colors(b_passed_bb),
            |t: int| is_passed(*board, Color::Black, mirror(t)),
            |s: int| PASSED_TABLE[s / 8][0] as int,
            64,
        );
        lemma_sum_ext(
            spec_reverse_colors(b_passed_bb),
            |t: int| is_passed(*board, Color::Black, mirror(t)),
            |s: int| PASSED_TABLE[s / 8][1] as int,
            64,
        );
    }
    (w_passers.0 - b_passers.0, w_passers.1 - b_passers.1)
}

/// Pawns of `color` beyond the first on each file.
fn doubled_count(board: &Board, color: Color) -> (r: i32)
    ensures
        r == doubled_upto(*board, color, 8),
        0 <= r <= 512,
{
    let pawns = board.pieces(PAWN) & board.colors(color);
    let mut doubled: i32 = 0;
    let mut f: u8 = 0;
    while f < 8
        invariant
            f <= 8,
            pawns == own(*board, color, PAWN),
            doubled == doubled_upto(*board, color, f as int),
            0 <= doubled <= 64 * f,
        decreases 8 - f,
    {
        let on_file = file_bb(f) & pawns;
        let n = popcnt(on_file);
        proof {
            lemma_count_ext(on_file, |t: int| t % 8 == f as int && bb_has(own(*board, color, PAWN), t), 64);
        }
        if n > 0 {
            doubled = doubled + (n - 1) as i32;
        }
        f += 1;
    }
    doubled
}

/// Doubled pawns, pawn threats, chained pawns and phalanx pawns of `color`.
fn pawn_counts(board: &Board, color: Color) -> (r: (i32, i32, i32, i32))
    ensures
        r.0 == doubled_upto(*board, color, 8),
        r.1 == spec_pawn_threat(*board, color),
        r.2 == spec_chained(*board, color),
        r.3 == spec_phalanx(*board, color),
        0 <= r.0 <= 512,
        0 <= r.1 <= 64,
        0 <= r.2 <= 64,
        0 <= r.3 <= 64,
{
    let doubled = doubled_count(board, color);
    let pawns = board.pieces(PAWN) & board.colors(color);
    let opp = color.opp();
    let opp_non_pawn = board.colors(opp) & !(board.pieces(PAWN) & board.colors(opp));
    let pawn_attacks = attacks_from(pawns, PAWN, color, 0);
    let threat_bb = pawn_attacks & opp_non_pawn;
    let chained_bb = pawn_attacks & pawns;
    let phalanx_bb = pawns & (pawns << 1u64);
    let threat = popcnt(threat_bb);
    let chained = popcnt(chained_bb);
    let phalanx = popcnt(phalanx_bb);
    proof {
        lemma_count_ext(
            threat_bb,
            |t: int| pawn_attacked(*board, color, t) && bb_has(board.colors[opp.spec_index()] & !own(*board, opp, PAWN), t),
            64,
        );
        lemma_count_ext(chained_bb, |t: int| pawn_attacked(*board, color, t) && bb_has(own(*board, color, PAWN), t), 64);
        lemma_count_ext(
            phalanx_bb,
            |t: int| bb_has(own(*board, color, PAWN), t) && t >= 1 && bb_has(own(*board, color, PAWN), t - 1),
            64,
        );
    }
    (doubled, threat as i32, chained as i32, phalanx as i32)
}


} // verus!
