use blackmarlin::bm::bm_util::t_table::TTMove;
use blackmarlin::bm::chess_types::Move;

fn moves_of(board: &cozy_chess::Board) -> Vec<Move> {
    let mut moves = Vec::new();
    board.generate_moves(|piece_moves| {
        for m in piece_moves {
            moves.push(Move {
                from: m.from as u8,
                to: m.to as u8,
                promotion: m.promotion.map(|p| p as u8),
            });
        }
        false
    });
    moves
}

fn all_moves(fen: &str) -> Vec<Move> {
    moves_of(&cozy_chess::Board::from_fen(fen, false).unwrap())
}

#[test]
fn compressed_moves() {
    let board = cozy_chess::Board::default();
    for make_move in moves_of(&board) {
        assert_eq!(make_move, TTMove::new(make_move).to_move());
    }
}

#[test]
fn t_table_compressed_moves() {
    let board = cozy_chess::Board::default();
    for make_move in moves_of(&board) {
        assert_eq!(make_move, TTMove::new(make_move).to_move());
    }
}

#[test]
fn compressed_promotions() {
    let promotions = "8/1P2k3/8/8/8/8/4K1p1/7N b - - 0 1";
    let moves = all_moves(promotions);
    assert!(moves.iter().any(|m| m.promotion.is_some()));
    for make_move in moves {
        assert_eq!(make_move, TTMove::new(make_move).to_move());
    }
}
