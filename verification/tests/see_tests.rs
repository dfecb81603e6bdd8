use blackmarlin::bm::bm_search::q_node::{QAction, QEntry, QNode};
use blackmarlin::bm::bm_util::eval::Evaluation as Eval16;
use blackmarlin::bm::bm_util::t_table::Bounds;
use blackmarlin::bm::bm_eval::basic_eval::BasicEval;
use blackmarlin::bm::bm_eval::evaluator::StdEvaluator;
use blackmarlin::bm::bm_search::see::{compare_see, move_value, piece_pts};
use blackmarlin::bm::bm_search::tactics::{see, threatens};
use blackmarlin::bm::chess_types::{Board, Color, Move};
use cozy_chess::Square;

fn to_board(b: &cozy_chess::Board) -> Board {
    let p = |piece| b.pieces(piece).0;
    Board {
        pieces: [
            p(cozy_chess::Piece::Pawn),
            p(cozy_chess::Piece::Knight),
            p(cozy_chess::Piece::Bishop),
            p(cozy_chess::Piece::Rook),
            p(cozy_chess::Piece::Queen),
            p(cozy_chess::Piece::King),
        ],
        colors: [b.colors(cozy_chess::Color::White).0, b.colors(cozy_chess::Color::Black).0],
        side_to_move: match b.side_to_move() {
            cozy_chess::Color::White => Color::White,
            cozy_chess::Color::Black => Color::Black,
        },
        hash: b.hash(),
        checkers: b.checkers().0,
        halfmove_clock: b.halfmove_clock(),
    }
}

fn board(fen: &str) -> Board {
    to_board(&cozy_chess::Board::from_fen(fen, false).unwrap())
}

fn mv(from: cozy_chess::Square, to: cozy_chess::Square, promotion: Option<u8>) -> Move {
    Move { from: from as u8, to: to as u8, promotion }
}

#[test]
fn test_see() {
    let fens = &[
        "8/4k3/8/3n4/8/8/3R4/3K4 w - - 0 1",
        "8/4k3/1n6/3n4/8/8/3R4/3K4 w - - 0 1",
        "8/3r4/3q4/3r4/8/3Q3K/3R4/7k w - - 0 1",
        "8/8/b7/1q6/2b5/3Q3K/4B3/7k w - - 0 1",
        "3r4/2P2n2/8/8/8/7K/8/7k w - - 0 1",
    ];
    let expected = &[
        piece_pts(1),
        piece_pts(1) - piece_pts(3),
        0,
        0,
        piece_pts(3) - piece_pts(0),
    ];
    let mv_vert = mv(Square::D2, Square::D5, None);
    let mv_diag = mv(Square::D3, Square::C4, None);
    let cap_promo = mv(Square::C7, Square::D8, Some(4));
    let k_cap = mv(Square::F7, Square::D8, None);
    let moves = &[mv_vert, mv_vert, mv_vert, mv_diag, cap_promo, cap_promo, k_cap];

    for ((&fen, &expected), &mv) in fens.iter().zip(expected).zip(moves) {
        let board = board(fen);
        assert!(compare_see(&board, mv, expected), "fen: {}", fen,);
        assert!(!compare_see(&board, mv, expected + 1), "fen: {}", fen,);
    }
}

#[test]
fn see_piece_values() {
    assert_eq!(piece_pts(0), 96);
    assert_eq!(piece_pts(1), 323);
    assert_eq!(piece_pts(2), 323);
    assert_eq!(piece_pts(3), 551);
    assert_eq!(piece_pts(4), 864);
    assert_eq!(piece_pts(5), i16::MAX / 2);
}

#[test]
fn move_value_of_capture_and_quiet() {
    let b = board("8/4k3/8/3n4/8/8/3R4/3K4 w - - 0 1");
    assert_eq!(move_value(&b, mv(Square::D2, Square::D5, None)), 323);
    assert_eq!(move_value(&b, mv(Square::D2, Square::D4, None)), 0);
}

#[test]
fn swap_list_values() {
    // A rook takes an undefended knight.
    let b = board("8/4k3/8/3n4/8/8/3R4/3K4 w - - 0 1");
    assert_eq!(see::<16>(&b, mv(Square::D2, Square::D5, None)), 300);
    // A rook takes a knight defended by a knight.
    let b = board("8/4k3/1n6/3n4/8/8/3R4/3K4 w - - 0 1");
    assert_eq!(see::<16>(&b, mv(Square::D2, Square::D5, None)), 300 - 500);
    // The same exchange with a one-entry swap list stops at the capture.
    assert_eq!(see::<1>(&b, mv(Square::D2, Square::D5, None)), 300);
    // A quiet king move is worth nothing.
    assert_eq!(see::<16>(&b, mv(Square::D1, Square::E1, None)), 0);
    assert_eq!(StdEvaluator::see::<16>(&b, mv(Square::D2, Square::D5, None)), -200);
}

#[test]
fn threatening_moves() {
    // The knight on b1 goes to c3, from where it attacks the rook on d5.
    let b = board("4k3/8/8/3r4/8/8/8/1N2K3 w - - 0 1");
    assert!(threatens(&b, mv(Square::B1, Square::C3, None)));
    assert!(!threatens(&b, mv(Square::B1, Square::A3, None)));
}

fn basic() -> BasicEval {
    BasicEval { piece_values: [100, 300, 300, 500, 900, 20000] }
}

#[test]
fn basic_see_counts_exchanges() {
    // an undefended pawn is won
    let b = board("4k3/8/8/4p3/8/8/8/4RK2 w - - 0 1");
    assert_eq!(basic().see(&b, mv(Square::E1, Square::E5, None)), 100);
    // a pawn defended by a pawn costs the rook
    let b = board("4k3/8/3p4/4p3/8/8/8/4RK2 w - - 0 1");
    assert_eq!(basic().see(&b, mv(Square::E1, Square::E5, None)), -400);
    // a second rook behind the first recaptures through it
    let b = board("4k3/8/3p4/4p3/8/8/4R3/4RK2 w - - 0 1");
    assert_eq!(basic().see(&b, mv(Square::E2, Square::E5, None)), -300);
    // a promoting capture counts the promotion piece on the square
    let b = board("3r4/4P3/8/8/8/8/8/k4K2 w - - 0 1");
    assert_eq!(basic().see(&b, mv(Square::E7, Square::D8, Some(4))), 500);
    // where the king takes the new queen back, the exchange loses the difference
    let b = board("3rk3/4P3/8/8/8/8/8/5K2 w - - 0 1");
    assert_eq!(basic().see(&b, mv(Square::E7, Square::D8, Some(4))), -400);
}

fn e(v: i16) -> Eval16 {
    Eval16::new(v)
}

#[test]
fn q_node_entry_decisions() {
    let (_, a) = QNode::enter(e(0), e(50), true, 3, None, false, e(20), e(0));
    assert_eq!(a, QAction::Return { score: Eval16::min(), store: None });
    let (_, a) = QNode::enter(e(0), e(50), false, 128, None, false, e(20), e(5));
    assert_eq!(a, QAction::Return { score: e(25), store: None });
    let entry = QEntry { bounds: Bounds::Exact, score: e(33), table_move: None, eval: None };
    let (_, a) = QNode::enter(e(0), e(50), false, 3, Some(entry), false, e(20), e(0));
    assert_eq!(a, QAction::Return { score: e(33), store: None });
    let entry = QEntry { bounds: Bounds::LowerBound, score: e(33), table_move: None, eval: Some(e(70)) };
    // the bound does not cut; the stored evaluation stands pat at beta
    let (_, a) = QNode::enter(e(0), e(50), false, 3, Some(entry), false, e(20), e(0));
    assert_eq!(a, QAction::Return { score: e(70), store: None });
    // in check there is no stand pat
    let (n, a) = QNode::enter(e(0), e(50), false, 3, None, true, e(70), e(0));
    assert_eq!(a, QAction::Pick);
    assert_eq!(n.alpha, e(0));
}

#[test]
fn q_node_searches_captures() {
    let b = board("4k3/8/8/4p3/8/8/8/4RK2 w - - 0 1");
    let m = mv(Square::E1, Square::E5, None);
    let (mut n, a) = QNode::enter(e(0), e(50), false, 3, None, false, e(20), e(0));
    assert_eq!(a, QAction::Pick);
    assert_eq!(n.alpha, e(20));
    let a = n.pick(&b, Some(m), false);
    assert_eq!(a, QAction::Search { mv: m, alpha: e(-50), beta: e(-20) });
    let a = n.child(e(-70), false);
    assert_eq!(a, QAction::Return { score: e(70), store: Some((Bounds::LowerBound, e(70), Some(m), e(20))) });
    // no capture left: the stand-pat score is stored as exact
    let (mut n, _) = QNode::enter(e(0), e(50), false, 3, None, false, e(20), e(0));
    let a = n.pick(&b, None, false);
    assert_eq!(a, QAction::Return { score: e(20), store: Some((Bounds::Exact, e(20), None, e(20))) });
    // a stopped search leaves with the lowest score
    let a = n.pick(&b, None, true);
    assert_eq!(a, QAction::Return { score: Eval16::min(), store: None });
}

#[test]
fn q_node_prunes_by_exchange() {
    // winning a queen from far below beta fails high at once
    let b = board("4k3/8/8/4q3/8/8/8/4RK2 w - - 0 1");
    let m = mv(Square::E1, Square::E5, None);
    let (mut n, _) = QNode::enter(e(0), e(50), false, 3, None, false, e(-100), e(0));
    assert_eq!(n.pick(&b, Some(m), false), QAction::Return { score: e(50), store: None });
    // an even trade is skipped when the stand-pat score is far below alpha
    let b = board("4k3/8/3p4/4r3/8/8/8/4RK2 w - - 0 1");
    let (mut n, _) = QNode::enter(e(500), e(600), false, 3, None, false, e(0), e(0));
    assert_eq!(n.pick(&b, Some(m), false), QAction::Pick);
    // a losing capture is skipped
    let b = board("4k3/8/3p4/4p3/8/8/8/4RK2 w - - 0 1");
    let (mut n, _) = QNode::enter(e(0), e(50), false, 3, None, false, e(0), e(0));
    assert_eq!(n.pick(&b, Some(m), false), QAction::Pick);
    // after two searched moves the node ends
    let b = board("4k3/8/8/4p3/8/8/8/4RK2 w - - 0 1");
    let (mut n, _) = QNode::enter(e(0), e(50), false, 3, None, false, e(0), e(0));
    n.pick(&b, Some(m), false);
    assert_eq!(n.child(e(10), false), QAction::Pick);
    n.pick(&b, Some(m), false);
    assert_eq!(
        n.child(e(-5), false),
        QAction::Return { score: e(5), store: Some((Bounds::Exact, e(5), Some(m), e(0))) }
    );
}
