use blackmarlin::bm::cecp::fen_kings::check_fen_kings;
use blackmarlin::bm::bm_search::move_gen::{select_highest, ScoredMove};
use blackmarlin::bm::bm_util::endgame::is_ocb;
use blackmarlin::bm::bm_util::eval::Evaluation;
use blackmarlin::bm::bm_util::frc::frc_corner_bishop;
use blackmarlin::bm::bm_util::position::Position;
use blackmarlin::bm::bm_util::scaling::scaling;
use blackmarlin::bm::cecp::cecp_adapter::CecpCommand;
use blackmarlin::bm::chess_types::{Board, Color, Move};
use blackmarlin::bm::nnue::{halfka_feature, move_updates, reset_updates, threat_feature};

fn to_board(b: &cozy_chess::Board) -> Board {
    let p = |piece| b.pieces(piece).0;
    Board {
        pieces: [
            p(cozy_chess::Piece::Pawn),
            p(cozy_chess::Piece::Knight),
            p(cozy_chess::Piece::Bishop),
            p(cozy_chess::Piece::Rook),
            p(cozy_chess::Piece::Queen),
            p(cozy_chess::Piece::King),
        ],
        colors: [b.colors(cozy_chess::Color::White).0, b.colors(cozy_chess::Color::Black).0],
        side_to_move: match b.side_to_move() {
            cozy_chess::Color::White => Color::White,
            cozy_chess::Color::Black => Color::Black,
        },
        hash: b.hash(),
        checkers: b.checkers().0,
        halfmove_clock: b.halfmove_clock(),
    }
}

fn board(fen: &str) -> Board {
    to_board(&cozy_chess::Board::from_fen(fen, false).unwrap())
}

#[test]
fn highest_score_first_among_equals() {
    let scored = |scores: &[i16]| -> Vec<ScoredMove> {
        scores
            .iter()
            .map(|&score| ScoredMove { mv: Move { from: 0, to: 1, promotion: None }, score })
            .collect()
    };
    assert_eq!(select_highest(&scored(&[])), None);
    assert_eq!(select_highest(&scored(&[3, 9, 2, 9])), Some(1));
    assert_eq!(select_highest(&scored(&[-5])), Some(0));
}

#[test]
fn cecp_commands() {
    assert_eq!(CecpCommand::new("e2e4"), CecpCommand::Move(Move { from: 12, to: 28, promotion: None }));
    assert_eq!(CecpCommand::new("a7a8q"), CecpCommand::Move(Move { from: 48, to: 56, promotion: Some(4) }));
    assert_eq!(CecpCommand::new("xboard"), CecpCommand::XBoard);
    assert_eq!(CecpCommand::new("  go  "), CecpCommand::Go);
    assert_eq!(CecpCommand::new(""), CecpCommand::Empty);
    assert_eq!(CecpCommand::new("level 40 5:30 2"), CecpCommand::Level(40, 330, 2));
    assert_eq!(CecpCommand::new("level 0 2 0"), CecpCommand::Level(0, 120, 0));
    assert_eq!(CecpCommand::new("level x"), CecpCommand::Level(0, 0, 0));
    assert_eq!(CecpCommand::new("ping 17"), CecpCommand::Ping(b"17".to_vec()));
    assert_eq!(CecpCommand::new("ping"), CecpCommand::Ping(vec![]));
    assert_eq!(CecpCommand::new("time 1500"), CecpCommand::Time(1500));
    assert_eq!(CecpCommand::new("time x"), CecpCommand::Empty);
    assert_eq!(CecpCommand::new("st 2.5"), CecpCommand::SetTime(b"2.5".to_vec()));
    assert_eq!(CecpCommand::new("cores 4"), CecpCommand::Cores(4));
    assert_eq!(CecpCommand::new("cores 300"), CecpCommand::Empty);
    assert_eq!(CecpCommand::new("cores +7"), CecpCommand::Cores(7));
    assert_eq!(CecpCommand::new("time -25"), CecpCommand::Time(-25));
    match CecpCommand::new("setboard 8/8/8/8/8/8/8/K6k b - - 0 1") {
        CecpCommand::SetBoard(b) => {
            assert_eq!(b.pieces, [0, 0, 0, 0, 0, 0x81]);
            assert_eq!(b.colors, [0x1, 0x80]);
            assert_eq!(b.side_to_move, Color::Black);
            assert_eq!(b.checkers, 0);
        }
        other => panic!("unexpected {:?}", other),
    }
    assert_eq!(CecpCommand::try_new("setboard not a fen"), None);
    assert!(CecpCommand::try_new("go").is_some());
    assert_eq!(CecpCommand::new("st x"), CecpCommand::Empty);
    assert_eq!(CecpCommand::new("st 1e"), CecpCommand::Empty);
    assert_eq!(CecpCommand::new("st"), CecpCommand::Empty);
    assert_eq!(CecpCommand::new("st -.5E+3"), CecpCommand::SetTime(b"-.5E+3".to_vec()));
    assert_eq!(CecpCommand::new("st Infinity"), CecpCommand::SetTime(b"Infinity".to_vec()));
    assert_eq!(CecpCommand::new("st 3."), CecpCommand::SetTime(b"3.".to_vec()));
    assert_eq!(CecpCommand::new("st ."), CecpCommand::Empty);
    assert_eq!(CecpCommand::new("?"), CecpCommand::MoveNow);
    assert_eq!(CecpCommand::new("quit"), CecpCommand::Quit);
    assert_eq!(CecpCommand::new("unknown"), CecpCommand::Empty);
}

#[test]
fn opposite_colored_bishops() {
    assert!(is_ocb(&board("4k3/8/5b2/8/8/8/4B3/4K3 w - - 0 1")));
    assert!(!is_ocb(&board("4k3/8/5b2/8/8/8/3B4/4K3 w - - 0 1")));
    assert!(!is_ocb(&board("4k3/8/5b2/8/8/8/4B3/3NK3 w - - 0 1")));
}

#[test]
fn scaling_and_corner_bishops() {
    let start = board("rnbqkbnr/pppppppp/8/8/8/8/PPPPPPPP/RNBQKBNR w KQkq - 0 1");
    assert_eq!(scaling(&start), 103 + 16 + 4 * 2 + 4 + 4 * 6 + 2 * 5);
    let shut = board("4k3/8/8/8/8/8/1P6/B3K3 w - - 0 1");
    assert_eq!(frc_corner_bishop(&shut), -50);
    let shut = board("4k3/8/8/8/8/8/1P6/B3K3 b - - 0 1");
    assert_eq!(frc_corner_bishop(&shut), 50);
}

#[test]
fn repetitions_and_draws() {
    let a = board("4k3/8/8/8/8/8/8/R3K3 w - - 0 1");
    let b = board("3k4/8/8/8/8/8/8/R3K3 b - - 1 1");
    let mut pos = Position::new(a);
    assert!(!pos.forced_draw(1, false));
    pos.make_move(b);
    pos.make_move(a);
    // the position after the root was seen once inside the search
    assert!(pos.forced_draw(3, false));
    // but only once before the search started
    assert!(!pos.forced_draw(1, false));
    pos.make_move(b);
    pos.make_move(a);
    assert!(pos.forced_draw(1, false));
    pos.unmake_move();
    assert_eq!(pos.hash(), b.hash);
    let bare = board("4k3/8/8/8/8/8/8/4K3 w - - 0 1");
    pos.set_board(bare);
    assert!(pos.forced_draw(1, false));
    assert!(pos.insufficient_material());
}

#[test]
fn aggression_follows_root_score() {
    let pos = Position::new(board("4k3/8/8/8/8/8/8/R3K3 w - - 0 1"));
    assert_eq!(pos.aggression(Color::White, Evaluation::new(500)), 3 * 100 / 50);
    assert_eq!(pos.aggression(Color::Black, Evaluation::new(40)), -(3 * 40) / 50);
}

#[test]
fn feature_indices() {
    // white king on e1 is mirrored to d1 (index 3 * 8 + 0); white pawn on e2 becomes d2
    assert_eq!(halfka_feature(Color::White, 4, Color::White, 0, 12), ((24 * 2 + 0) * 7 + 0) * 64 + 11);
    // black's view mirrors the ranks and swaps the colors
    assert_eq!(halfka_feature(Color::Black, 60, Color::Black, 5, 60), ((24 * 2 + 0) * 7 + 5) * 64 + 3);
    assert_eq!(threat_feature(Color::White, 0, Color::Black, 63), ((0 * 2 + 1) * 7 + 6) * 64 + 63);
}

#[test]
fn move_feature_updates() {
    let b = board("4k3/8/8/8/8/8/4P3/4K3 w - - 0 1");
    let (u, king_moved) = move_updates(&b, Move { from: 12, to: 20, promotion: None }, None, 0, 0, 0, 0);
    assert!(!king_moved);
    assert_eq!(u.w_rm, vec![halfka_feature(Color::White, 4, Color::White, 0, 12)]);
    assert_eq!(u.w_add, vec![halfka_feature(Color::White, 4, Color::White, 0, 20)]);
    assert_eq!(u.b_add, vec![halfka_feature(Color::Black, 60, Color::White, 0, 20)]);
    let (u, king_moved) = move_updates(&b, Move { from: 4, to: 3, promotion: None }, None, 0, 0, 0, 0);
    assert!(king_moved);
    assert!(u.w_add.is_empty() && u.w_rm.is_empty());
    assert_eq!(u.b_rm, vec![halfka_feature(Color::Black, 60, Color::White, 5, 4)]);
    let all = reset_updates(Color::White, &b, 0, 0);
    assert_eq!(all.len(), 3);
}

#[test]
fn setboard_without_king_to_move_is_refused() {
    assert!(!check_fen_kings(b"8/8/8/8/8/8/8/8 w - - 0 1"));
    assert!(!check_fen_kings(b"8/8/8/8/8/8/8/K7 b - - 0 1"));
    assert!(check_fen_kings(b"8/8/8/8/8/8/8/K7 w - - 0 1"));
    assert!(check_fen_kings(b"8/8/8/8/8/8/8/8 x - - 0 1"));
    assert!(check_fen_kings(b"8/8/8/8/8/8/8/8 w -"));
    assert!(check_fen_kings(b"8/8/8/8/8/8/8/8? w - - 0 1"));
    // a later letter on the same square replaces the king
    assert!(!check_fen_kings(b"8/8/8/8/8/8/8/K7Q w - - 0 1"));
    assert_eq!(CecpCommand::try_new("setboard 8/8/8/8/8/8/8/8 w - - 0 1"), None);
    assert_eq!(CecpCommand::try_new("setboard 8/8/8/8/8/8/8/K7 b - - 0 1"), None);
    assert!(CecpCommand::try_new("setboard 8/8/8/8/8/8/8/K6k b - - 0 1").is_some());
}
