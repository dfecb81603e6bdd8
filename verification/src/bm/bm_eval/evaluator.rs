use crate::bm::bm_eval::eval::Evaluation;
use crate::bm::bm_eval::eval_consts::{
    add_piece, spec_blend, TaperedEval, BISHOPS, BISHOP_CNT, BISHOP_PAIR, KINGS, KNIGHTS, KNIGHT_CNT, PAWNS, PAWN_CNT,
    QUEENS, QUEEN_CNT, ROOKS, ROOK_CNT, TEMPO,
};
use crate::bm::bm_eval::eval_parts::{
    evaluate_pawns, evaluate_psqt, evaluate_threats, get_basic_eval_data, has_kings, psqt_entry, spec_pawns_score,
    spec_psqt, spec_threats_score, tables_wf, EvalData,
};
use crate::bm::bm_eval::eval_terms::{
    bishop_pair, evaluate_bishops, insufficient_material, phase, spec_insufficient_material, spec_phase,
};
use crate::bm::chess_types::{Board, Color, Move, Piece};
use vstd::prelude::*;

verus! {

/// The hand-crafted evaluation, with the masks and square tables it reads.
#[derive(Debug, Clone)]
pub struct StdEvaluator {
    data: EvalData,
    tables: Vec<Vec<TaperedEval>>,
}

impl StdEvaluator {
    pub closed spec fn wf(&self) -> bool {
        self.data.wf() && tables_wf(self.tables)
    }
}

/// The whole score before tempo and tapering (middlegame `j == 0`, endgame `j == 1`), white's view.
#[verifier::opaque]
pub open spec fn spec_total(board: Board, j: int) -> int {
    spec_psqt(board, 0, j) + spec_psqt(board, 1, j) + spec_psqt(board, 2, j) + spec_psqt(board, 3, j) + spec_psqt(
        board,
        4,
        j,
    ) + spec_psqt(board, 5, j) + spec_pawns_score(board, j) + (bishop_pair(board, Color::White) - bishop_pair(
        board,
        Color::Black,
    )) * BISHOP_PAIR[j] + spec_threats_score(board, j)
}

/// A score from white's view turned to the view of `side`.
pub open spec fn side_view(side: Color, x: int) -> int {
    match side {
        Color::White => x,
        Color::Black => -x,
    }
}

/// The evaluation from the side to move's view, tempo included, blended by phase.
pub open spec fn spec_evaluate(board: Board) -> i32 {
    if spec_insufficient_material(board) {
        0
    } else {
        spec_blend(
            side_view(board.side_to_move, spec_total(board, 0)) + TEMPO[0],
            side_view(board.side_to_move, spec_total(board, 1)) + TEMPO[1],
            spec_phase(board),
        ) as i16 as i32
    }
}

impl StdEvaluator {
    pub fn new() -> (r: Self)
        ensures
            r.wf(),
    {
        let data = get_basic_eval_data();
        let t0 = add_piece(&PAWNS, PAWN_CNT);
        let t1 = add_piece(&KNIGHTS, KNIGHT_CNT);
        let t2 = add_piece(&BISHOPS, BISHOP_CNT);
        let t3 = add_piece(&ROOKS, ROOK_CNT);
        let t4 = add_piece(&QUEENS, QUEEN_CNT);
        let t5 = add_piece(&KINGS, [0, 0]);
        let mut tables: Vec<Vec<TaperedEval>> = Vec::new();
        tables.push(t0);
        tables.push(t1);
        tables.push(t2);
        tables.push(t3);
        tables.push(t4);
        tables.push(t5);
        let r = StdEvaluator { data, tables };
        proof {
            reveal(psqt_entry);
            assert forall|k: int, sq: int| 0 <= k < 6 && 0 <= sq < 64 implies #[trigger] r.tables[k][sq].0
                == psqt_entry(k as Piece, sq, 0) by {
                if k == 0 {
                    assert(r.tables[k] == t0);
                } else if k == 1 {
                    assert(r.tables[k] == t1);
                } else if k == 2 {
                    assert(r.tables[k] == t2);
                } else if k == 3 {
                    assert(r.tables[k] == t3);
                } else if k == 4 {
                    assert(r.tables[k] == t4);
                } else {
                    assert(r.tables[k] == t5);
                }
            }
            assert forall|k: int, sq: int| 0 <= k < 6 && 0 <= sq < 64 implies #[trigger] r.tables[k][sq].1
                == psqt_entry(k as Piece, sq, 1) by {
                if k == 0 {
                    assert(r.tables[k] == t0);
                } else if k == 1 {
                    assert(r.tables[k] == t1);
                } else if k == 2 {
                    assert(r.tables[k] == t2);
                } else if k == 3 {
                    assert(r.tables[k] == t3);
                } else if k == 4 {
                    assert(r.tables[k] == t4);
                } else {
                    assert(r.tables[k] == t5);
                }
            }
            assert forall|k: int| 0 <= k < 6 implies #[trigger] r.tables[k].len() == 64 by {
                if k == 0 {
                    assert(r.tables[k] == t0);
                } else if k == 1 {
                    assert(r.tables[k] == t1);
                } else if k == 2 {
                    assert(r.tables[k] == t2);
                } else if k == 3 {
                    assert(r.tables[k] == t3);
                } else if k == 4 {
                    assert(r.tables[k] == t4);
                } else {
                    assert(r.tables[k] == t5);
                }
            }
        }
        r
    }

    /// The static exchange value of `make_move` (see [crate::bm::bm_search::tactics::see]).
    pub fn see<const N: usize>(board: &Board, make_move: Move) -> (r: i16)
        requires
            make_move.wf(),
            board.spec_piece_on(make_move.from as int) is Some,
            1 <= N < 0x1_0000_0000,
        ensures
            r == crate::bm::bm_search::tactics::spec_see(*board, make_move, N as int),
    {
        crate::bm::bm_search::tactics::see::<N>(board, make_move)
    }

    /// The whole score before tempo and tapering (middlegame, endgame), white's view.
    #[verifier::rlimit(30)]
    fn total(&self, board: &Board) -> (r: (i64, i64))
        requires
            self.wf(),
            has_kings(*board),
        ensures
            r.0 == spec_total(*board, 0),
            r.1 == spec_total(*board, 1),
            -0x10_0000_0000 <= r.0 <= 0x10_0000_0000,
            -0x10_0000_0000 <= r.1 <= 0x10_0000_0000,
    {
        proof {
            reveal(spec_total);
        }
        let p0 = evaluate_psqt(&self.tables, board, 0);
        let p1 = evaluate_psqt(&self.tables, board, 1);
        let p2 = evaluate_psqt(&self.tables, board, 2);
        let p3 = evaluate_psqt(&self.tables, board, 3);
        let p4 = evaluate_psqt(&self.tables, board, 4);
        let p5 = evaluate_psqt(&self.tables, board, 5);
        let pawns = evaluate_pawns(&self.data, board);
        let bishops = evaluate_bishops(board);
        let threats = evaluate_threats(&self.data, board);
        let mg = p0.0 as i64 + p1.0 as i64 + p2.0 as i64 + p3.0 as i64 + p4.0 as i64 + p5.0 as i64 + pawns.0 as i64
            + bishops.0 as i64 + threats.0 as i64;
        let eg = p0.1 as i64 + p1.1 as i64 + p2.1 as i64 + p3.1 as i64 + p4.1 as i64 + p5.1 as i64 + pawns.1 as i64
            + bishops.1 as i64 + threats.1 as i64;
        (mg, eg)
    }

    pub fn insufficient_material(&self, board: &Board) -> (r: bool)
        ensures
            r == spec_insufficient_material(*board),
    {
        insufficient_material(board)
    }

    /// The evaluation of `board` from the side to move's view (checkmate and stalemate
    /// are not recognised).
    #[verifier::rlimit(30)]
    pub fn evaluate(&self, board: &Board) -> (r: Evaluation)
        requires
            self.wf(),
            has_kings(*board),
        ensures
            r@ == spec_evaluate(*board),
    {
        if insufficient_material(board) {
            return Evaluation::new(0);
        }
        let phase = phase(board);
        let (mg, eg) = self.total(board);
        let (mg, eg) = match board.side_to_move {
            Color::White => (mg, eg),
            Color::Black => (-mg, -eg),
        };
        let mg = mg + TEMPO[0] as i64;
        let eg = eg + TEMPO[1] as i64;
        let ph = phase as i64;
        assert(-0x20_0000_0000 * 24 <= mg * ph <= 0x20_0000_0000 * 24) by (nonlinear_arith)
            requires
                -0x20_0000_0000 <= mg <= 0x20_0000_0000,
                0 <= ph <= 24,
        ;
        assert(-0x20_0000_0000 * 24 <= eg * (24 - ph) <= 0x20_0000_0000 * 24) by (nonlinear_arith)
            requires
                -0x20_0000_0000 <= eg <= 0x20_0000_0000,
                0 <= ph <= 24,
        ;
        let v = (mg * ph + eg * (24 - ph)) / 24;
        #[verifier::truncate]
        let score = (v as i16);
        Evaluation::new(score as i32)
    }
}

} // verus!
