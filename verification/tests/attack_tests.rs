use blackmarlin::bm::attacks::piece_attacks;
use blackmarlin::bm::bm_eval::eval::Evaluation;
use blackmarlin::bm::bm_eval::eval_parts::reverse_colors;
use blackmarlin::bm::bm_eval::evaluator::StdEvaluator;
use blackmarlin::bm::bm_search::threats::{defended, threats as search_threats};
use blackmarlin::bm::bm_util::tactics::{pawn_threats, promo_threats, threats};
use blackmarlin::bm::bm_util::threats::threats as side_threats;
use blackmarlin::bm::chess_types::{Board, Color};

fn to_board(b: &cozy_chess::Board) -> Board {
    let p = |piece| b.pieces(piece).0;
    Board {
        pieces: [
            p(cozy_chess::Piece::Pawn),
            p(cozy_chess::Piece::Knight),
            p(cozy_chess::Piece::Bishop),
            p(cozy_chess::Piece::Rook),
            p(cozy_chess::Piece::Queen),
            p(cozy_chess::Piece::King),
        ],
        colors: [b.colors(cozy_chess::Color::White).0, b.colors(cozy_chess::Color::Black).0],
        side_to_move: match b.side_to_move() {
            cozy_chess::Color::White => Color::White,
            cozy_chess::Color::Black => Color::Black,
        },
        hash: b.hash(),
        checkers: b.checkers().0,
        halfmove_clock: b.halfmove_clock(),
    }
}

fn board(fen: &str) -> Board {
    to_board(&cozy_chess::Board::from_fen(fen, false).unwrap())
}

fn bits(squares: &[u8]) -> u64 {
    squares.iter().fold(0, |acc, &s| acc | (1u64 << s))
}

#[test]
fn leaper_attacks() {
    // knight on a1: b3, c2
    assert_eq!(piece_attacks(1, Color::White, 0, 0), bits(&[17, 10]));
    // king on a1: b1, a2, b2
    assert_eq!(piece_attacks(5, Color::White, 0, 0), bits(&[1, 8, 9]));
    // white pawn on e2: d3, f3; black pawn on e2: d1, f1
    assert_eq!(piece_attacks(0, Color::White, 12, 0), bits(&[19, 21]));
    assert_eq!(piece_attacks(0, Color::Black, 12, 0), bits(&[3, 5]));
}

#[test]
fn slider_attacks() {
    // rook on a1, blocked on a2
    assert_eq!(piece_attacks(3, Color::White, 0, bits(&[8])), bits(&[1, 2, 3, 4, 5, 6, 7, 8]));
    // bishop on c1, open board
    assert_eq!(piece_attacks(2, Color::White, 2, 0), bits(&[9, 16, 11, 20, 29, 38, 47]));
    // queen on a1, blocked on b2 and a2
    assert_eq!(piece_attacks(4, Color::White, 0, bits(&[8, 9])), bits(&[1, 2, 3, 4, 5, 6, 7, 8, 9]));
}

#[test]
fn pawn_threat_shifts() {
    // white pawns on a2 and h2 attack b3 and g3
    assert_eq!(pawn_threats(bits(&[8, 15]), Color::White), bits(&[17, 22]));
    // black pawns on a7 and h7 attack b6 and g6
    assert_eq!(pawn_threats(bits(&[48, 55]), Color::Black), bits(&[41, 46]));
}

#[test]
fn reverse_colors_mirrors_ranks() {
    assert_eq!(reverse_colors(0xFF), 0xFF00_0000_0000_0000);
    let bb = 0x0123_4567_89AB_CDEFu64;
    assert_eq!(reverse_colors(reverse_colors(bb)), bb);
    assert_eq!(reverse_colors(bits(&[12])), bits(&[52]));
}

#[test]
fn knight_threatens_rook() {
    let b = board("4k3/8/8/3r4/8/2N5/8/4K3 w - - 0 1");
    let (w, bl) = threats(&b);
    assert_eq!(w, bits(&[35]));
    assert_eq!(bl, 0);
    let t = side_threats(&b);
    assert_eq!(t.all(Color::White), 0);
    let s = search_threats(&b, Color::White, defended(&b, Color::Black));
    assert_eq!(s.strong, bits(&[35]));
    assert_eq!(s.all, bits(&[35]));
}

#[test]
fn bishop_threatens_undefended_and_defended() {
    let b = board("4k3/8/5q2/8/3B4/8/8/4K3 w - - 0 1");
    let t = side_threats(&b);
    assert_eq!(t.slider_threats(Color::White), bits(&[45]));
    assert_eq!(t.all(Color::White), bits(&[45]));
}

#[test]
fn promotion_squares() {
    // the pawn on b7 may push to b8 or take the rook on a8
    let b = board("r3k3/1P6/8/8/8/8/8/4K3 w - - 0 1");
    assert_eq!(promo_threats(&b, true), bits(&[57, 56]));
}

#[test]
fn start_position_is_balanced() {
    let evaluator = StdEvaluator::new();
    let b = board("rnbqkbnr/pppppppp/8/8/8/8/PPPPPPPP/RNBQKBNR w KQkq - 0 1");
    assert_eq!(evaluator.evaluate(&b), Evaluation::new(12));
    let b = board("rnbqkbnr/pppppppp/8/8/8/8/PPPPPPPP/RNBQKBNR b KQkq - 0 1");
    assert_eq!(evaluator.evaluate(&b), Evaluation::new(12));
}

#[test]
fn bare_kings_are_a_draw() {
    let evaluator = StdEvaluator::new();
    let b = board("4k3/8/8/8/8/8/8/4K3 w - - 0 1");
    assert!(evaluator.insufficient_material(&b));
    assert_eq!(evaluator.evaluate(&b), Evaluation::new(0));
    let b = board("4k3/8/8/8/8/8/8/3NK3 w - - 0 1");
    assert!(evaluator.insufficient_material(&b));
    let b = board("4k3/8/8/8/8/8/8/3RK3 w - - 0 1");
    assert!(!evaluator.insufficient_material(&b));
}

#[test]
fn extra_queen_is_good_for_its_side() {
    let evaluator = StdEvaluator::new();
    let w = board("4k3/8/8/8/8/8/8/3QK3 w - - 0 1");
    let b = board("4k3/8/8/8/8/8/8/3QK3 b - - 0 1");
    assert!(evaluator.evaluate(&w).raw() > 500);
    assert!(evaluator.evaluate(&b).raw() < -500);
}
