use blackmarlin::bm::bm_console::search_tuner::create;
use blackmarlin::bm::bm_console::{BmConsole, ConsoleInput};
use blackmarlin::bm::bm_eval::eval::Evaluation as Evaluation32;
use blackmarlin::bm::bm_runner::config::{extend, UciInfo, UciScore, XBoardInfo};
use blackmarlin::bm::bm_util::access::{
    All, And, BbRepr, Empty, KnightAttacks, Not, PawnAttacks, Pawns, White,
};
use blackmarlin::bm::bm_util::eval::Evaluation;
use blackmarlin::bm::bm_search::move_entry::MoveEntry;
use blackmarlin::bm::bm_search::move_gen::{OrderedMoveGen, Phase, QSearchMoveGen};
use blackmarlin::bm::bm_util::history::{History, HistoryIndices};
use blackmarlin::bm::cecp::cecp_adapter::{CecpAction, CecpAdapter, CecpCommand, TimeLeft, TimeManagerType};
use blackmarlin::bm::chess_types::{Board, Color, Move};
use blackmarlin::datagen::{white_relative, GameProgress, GameResult, GameStatus, PlyAction};
use blackmarlin::filter::{filter_line, parse_data_line, FilterRules};
use blackmarlin::bm::bm_eval::basic_eval::get_basic_eval_data;
use blackmarlin::bm::bm_util::position::Position;

fn to_board(b: &cozy_chess::Board) -> Board {
    let p = |piece| b.pieces(piece).0;
    Board {
        pieces: [
            p(cozy_chess::Piece::Pawn),
            p(cozy_chess::Piece::Knight),
            p(cozy_chess::Piece::Bishop),
            p(cozy_chess::Piece::Rook),
            p(cozy_chess::Piece::Queen),
            p(cozy_chess::Piece::King),
        ],
        colors: [b.colors(cozy_chess::Color::White).0, b.colors(cozy_chess::Color::Black).0],
        side_to_move: match b.side_to_move() {
            cozy_chess::Color::White => Color::White,
            cozy_chess::Color::Black => Color::Black,
        },
        hash: b.hash(),
        checkers: b.checkers().0,
        halfmove_clock: b.halfmove_clock(),
    }
}

fn board(fen: &str) -> Board {
    to_board(&cozy_chess::Board::from_fen(fen, false).unwrap())
}

fn bytes_pairs(v: &[(Vec<u8>, Vec<u8>)]) -> Vec<(String, String)> {
    v.iter()
        .map(|(a, b)| (String::from_utf8(a.clone()).unwrap(), String::from_utf8(b.clone()).unwrap()))
        .collect()
}

fn pairs(v: &[(&str, &str)]) -> Vec<(String, String)> {
    v.iter().map(|(a, b)| (a.to_string(), b.to_string())).collect()
}

#[test]
fn cecp_scores_of_mates_and_plain_scores() {
    assert_eq!(XBoardInfo::cecp_score(Evaluation32::new(35)), 35);
    assert_eq!(XBoardInfo::cecp_score(Evaluation32::new(-120)), -120);
    let mate = Evaluation32::new_checkmate(3);
    assert_eq!(mate.mate_in(), Some(-62));
    assert_eq!(XBoardInfo::cecp_score(mate), -100062);
    let mated = Evaluation32::new_checkmate(-3);
    assert_eq!(XBoardInfo::cecp_score(mated), 100000 + mated.mate_in().unwrap());
    let line = XBoardInfo::new().info_line(7, Evaluation32::new(12), 1234, 5000);
    assert_eq!((line.depth, line.score, line.centiseconds, line.nodes), (7, 12, 123, 5000));
}

#[test]
fn uci_scores() {
    assert_eq!(UciInfo::score(Evaluation32::new(-40)), UciScore::Cp(-40));
    assert_eq!(UciInfo::score(Evaluation32::new_checkmate(3)), UciScore::Mate(-62));
}

#[test]
fn tuner_holds_the_exchange_values() {
    assert_eq!(create().param_count(), 4);
}

#[test]
fn console_options() {
    let (name, opts) = BmConsole::parse(b"tune -input data.txt");
    assert_eq!(name, b"tune".to_vec());
    assert_eq!(bytes_pairs(&opts), pairs(&[("input", "data.txt")]));

    let (name, opts) = BmConsole::parse(b"data -depth 8 -threads  4 -path a b ");
    assert_eq!(name, b"data".to_vec());
    assert_eq!(
        bytes_pairs(&opts),
        pairs(&[("depth", "8"), ("threads", "4"), ("path", "a b")])
    );

    let (name, opts) = BmConsole::parse(b"-a  -b x");
    assert_eq!(name, b"-a".to_vec());
    assert_eq!(bytes_pairs(&opts), pairs(&[("a", ""), ("b", "x")]));

    let (name, opts) = BmConsole::parse(b"data -depth");
    assert_eq!(name, b"data".to_vec());
    assert!(opts.is_empty());
}

#[test]
fn console_dispatch() {
    let mut console = BmConsole::new();
    assert_eq!(console.input(b""), ConsoleInput::Ignored);
    assert_eq!(console.input(b"uci"), ConsoleInput::Uci);
    assert_eq!(console.input(b"isready"), ConsoleInput::Uci);
    match console.input(b"!tune -input f.txt") {
        ConsoleInput::Tool(name, opts) => {
            assert_eq!(name, b"tune".to_vec());
            assert_eq!(bytes_pairs(&opts), pairs(&[("input", "f.txt")]));
        }
        other => panic!("unexpected {:?}", other),
    }
}

#[test]
fn board_access_combinators() {
    let start = to_board(&cozy_chess::Board::default());
    assert_eq!(And::<White, Pawns>::get_bit_board(&start), 0xFF00);
    assert_eq!(Not::<Empty>::get_bit_board(&start), u64::MAX);
    assert_eq!(All::get_bit_board(&start), 0xFFFF_0000_0000_FFFF);
    // b1 and g1 knights reach a3, c3, d2 (b1) and e2, f3, h3 (g1).
    let knight_targets = (1u64 << 16) | (1 << 18) | (1 << 11) | (1 << 12) | (1 << 21) | (1 << 23);
    assert_eq!(KnightAttacks::<White>::get_bit_board(&start), knight_targets);
    // Pawn attacks count only captures onto occupied squares.
    assert_eq!(PawnAttacks::<White>::get_bit_board(&start), 0);
    let b = board("4k3/8/8/3p4/4P3/8/8/4K3 w - - 0 1");
    assert_eq!(PawnAttacks::<White>::get_bit_board(&b), 1u64 << 35);
}

#[test]
fn filter_rules() {
    let rules = FilterRules {
        min_ply: 16,
        max_ply: None,
        max_eval: 3000,
        filter_cap: false,
        filter_in_check: false,
        filter_promo: false,
        filter_gives_check: false,
    };
    let start = to_board(&cozy_chess::Board::default());
    let e4 = Move { from: 12, to: 28, promotion: None };
    assert!(rules.keep(&start, &e4, 20, 20, false));
    assert!(!rules.keep(&start, &e4, 20, 15, false));
    assert!(rules.keep(&start, &e4, -3000, 16, false));
    assert!(!rules.keep(&start, &e4, 3001, 16, false));
    assert!(rules.keep(&start, &e4, 20, 20, true));
    let capped = FilterRules { max_ply: Some(30), filter_gives_check: true, ..rules };
    assert!(!capped.keep(&start, &e4, 20, 31, false));
    assert!(!capped.keep(&start, &e4, 20, 20, true));

    let b = board("4k3/8/8/3p4/4P3/8/8/4K3 w - - 0 1");
    let exd5 = Move { from: 28, to: 35, promotion: None };
    let no_caps = FilterRules { filter_cap: true, ..rules };
    assert!(rules.keep(&b, &exd5, 0, 20, false));
    assert!(!no_caps.keep(&b, &exd5, 0, 20, false));

    let promo = Move { from: 52, to: 60, promotion: Some(4) };
    let no_promos = FilterRules { filter_promo: true, ..rules };
    assert!(!no_promos.keep(&start, &promo, 0, 20, false));

    let checked = board("4k3/8/8/8/8/8/8/r3K3 w - - 0 1");
    let no_checks = FilterRules { filter_in_check: true, ..rules };
    let kd2 = Move { from: 4, to: 11, promotion: None };
    assert!(!no_checks.keep(&checked, &kd2, 0, 20, false));
    assert!(rules.keep(&checked, &kd2, 0, 20, false));
}

#[test]
fn self_play_decisions() {
    let mut game = GameProgress::new();
    assert_eq!(game.next_action(GameStatus::Ongoing, 8), PlyAction::RandomMove);
    assert_eq!(game.next_action(GameStatus::Ongoing, 0), PlyAction::Search);
    assert_eq!(game.next_action(GameStatus::Won, 0), PlyAction::Finish(GameResult::Loss));
    assert_eq!(game.next_action(GameStatus::Drawn, 0), PlyAction::Finish(GameResult::Draw));
    assert!(!game.play(false, true));
    assert_eq!(game.next_action(GameStatus::Won, 0), PlyAction::Finish(GameResult::Win));

    let mut late = GameProgress { ply: 79, draw_cnt: 0 };
    late.record_search(Evaluation::new(0));
    assert_eq!(late.draw_cnt, 0);
    let mut adjudicated = false;
    for _ in 0..8 {
        assert!(!adjudicated);
        late.play(false, true);
        late.record_search(Evaluation::new(0));
        adjudicated = late.draw_cnt >= 8;
    }
    assert_eq!(late.draw_cnt, 8);
    assert!(late.play(false, true));
    assert!(!GameProgress { ply: 90, draw_cnt: 8 }.play(false, false));
    assert!(GameProgress { ply: 10, draw_cnt: 0 }.play(true, false));
    late.record_search(Evaluation::new(3));
    assert_eq!(late.draw_cnt, 0);
}

#[test]
fn recorded_scores_are_from_whites_side() {
    assert_eq!(white_relative(Evaluation::new(50), Color::White).raw(), 50);
    assert_eq!(white_relative(Evaluation::new(50), Color::Black).raw(), -50);
}

#[test]
fn data_tool_arguments() {
    let (_, opts) = BmConsole::parse(b"data -depth 8 -threads 4 -path out.txt -depth +9");
    assert!(BmConsole::has_data_args(&opts));
    let req = BmConsole::data(&opts);
    assert_eq!((req.depth, req.threads), (9, 4));
    assert_eq!(req.path, b"out.txt".to_vec());

    let (_, missing) = BmConsole::parse(b"data -depth 8 -path out.txt");
    assert!(!BmConsole::has_data_args(&missing));
    let (_, bad) = BmConsole::parse(b"data -depth eight -threads 4 -path p");
    assert!(!BmConsole::has_data_args(&bad));
    let (_, too_big) = BmConsole::parse(b"data -depth 4294967296 -threads 4 -path p");
    assert!(!BmConsole::has_data_args(&too_big));
}

#[test]
fn tune_tool_input() {
    let (_, opts) = BmConsole::parse(b"tune -input a.txt -input b.txt");
    assert_eq!(BmConsole::tune_input(&opts), Some(b"a.txt".to_vec()));
    let (_, none) = BmConsole::parse(b"tune -output a.txt");
    assert_eq!(BmConsole::tune_input(&none), None);
}

#[test]
fn padding_of_report_columns() {
    let mut s = b"12 ".to_vec();
    extend(&mut s, 6);
    assert_eq!(s, b"12    ".to_vec());
    let mut long = b"1234567".to_vec();
    extend(&mut long, 3);
    assert_eq!(long, b"1234567".to_vec());
}

#[test]
fn cecp_front_end_decisions() {
    let mut adapter = CecpAdapter::new();
    assert_eq!(
        String::from_utf8(adapter.features()).unwrap(),
        "feature ping=1 setboard=1 analyze=0 time=1 smp=1"
    );
    assert_eq!(adapter.input("xboard"), (true, vec![CecpAction::Features]));
    assert_eq!(adapter.input("cores 4"), (true, vec![]));
    assert_eq!(adapter.threads, 4);
    assert_eq!(
        adapter.input("time 1500"),
        (true, vec![CecpAction::SetMode(TimeManagerType::Normal)])
    );
    assert_eq!(adapter.time_left, TimeLeft::Centiseconds(1500));
    let e4 = Move { from: 12, to: 28, promotion: None };
    assert_eq!(
        adapter.input("e2e4"),
        (true, vec![CecpAction::MakeMove(e4), CecpAction::Search(TimeLeft::Centiseconds(1500), 4)])
    );
    assert_eq!(adapter.input("force"), (true, vec![]));
    assert!(adapter.forced);
    assert_eq!(adapter.handle(CecpCommand::Move(e4)), (true, vec![CecpAction::MakeMove(e4)]));
    assert_eq!(
        adapter.input("go"),
        (true, vec![CecpAction::Search(TimeLeft::Centiseconds(1500), 4)])
    );
    assert!(!adapter.forced);
    assert_eq!(adapter.input("ping 7"), (true, vec![CecpAction::Pong(b"7".to_vec())]));
    assert_eq!(
        adapter.input("bench"),
        (
            true,
            vec![
                CecpAction::SetMode(TimeManagerType::ConstDepth),
                CecpAction::SetConstDepth(8),
                CecpAction::Bench
            ]
        )
    );
    assert_eq!(adapter.current_time_manager, TimeManagerType::Normal);
    assert_eq!(adapter.input("quit"), (false, vec![]));
}

fn legal_moves(b: &cozy_chess::Board) -> Vec<Move> {
    let mut moves = Vec::new();
    b.generate_moves(|piece_moves| {
        for mv in piece_moves {
            moves.push(Move {
                from: mv.from as u8,
                to: mv.to as u8,
                promotion: mv.promotion.map(|p| p as u8),
            });
        }
        false
    });
    moves
}

fn all_picked(gen: &mut OrderedMoveGen, board: &Board, threats: u64, hist: &History) -> Vec<Move> {
    let indices = HistoryIndices::new(None, None, None);
    let mut out = Vec::new();
    while let Some(mv) = gen.next(board, threats, hist, &indices) {
        out.push(mv);
    }
    out
}

#[test]
fn ordered_moves_give_each_legal_move_once() {
    let fen = "r1bqkb1r/pppp1ppp/2n2n2/4p3/2B1P3/5N2/PPPP1PPP/RNBQK2R w KQkq - 4 4";
    let cozy = cozy_chess::Board::from_fen(fen, false).unwrap();
    let b = to_board(&cozy);
    let legal = legal_moves(&cozy);
    let hist = History::new();
    let castle = Move { from: 4, to: 7, promotion: None };
    let mut killers = MoveEntry::new();
    killers.push(Move { from: 1, to: 18, promotion: None });
    let mut gen = OrderedMoveGen::new(legal.clone(), Some(castle), killers);
    let picked = all_picked(&mut gen, &b, 0, &hist);
    assert_eq!(picked.len(), legal.len());
    for mv in &legal {
        assert_eq!(picked.iter().filter(|m| *m == mv).count(), 1);
    }
    // The hash move first; both captures lose material, so the killer comes next and the
    // captures come last.
    assert_eq!(picked[0], castle);
    assert_eq!(picked[1], Move { from: 1, to: 18, promotion: None });
    let n = picked.len();
    let bxf7 = Move { from: 26, to: 53, promotion: None };
    let nxe5 = Move { from: 21, to: 36, promotion: None };
    assert!(picked[n - 2..].contains(&bxf7));
    assert!(picked[n - 2..].contains(&nxe5));
    assert_eq!(gen.phase(), Phase::BadCaptures);
}

#[test]
fn losing_captures_come_last_and_quiets_can_be_skipped() {
    // The queen can take a defended pawn (losing) or a free knight.
    let fen = "4k3/3p4/4p3/1n6/8/8/4Q3/4K3 w - - 0 1";
    let cozy = cozy_chess::Board::from_fen(fen, false).unwrap();
    let b = to_board(&cozy);
    let legal = legal_moves(&cozy);
    let hist = History::new();
    let mut gen = OrderedMoveGen::new(legal.clone(), None, MoveEntry::new());
    let picked = all_picked(&mut gen, &b, 0, &hist);
    assert_eq!(picked.len(), legal.len());
    let qxb5 = Move { from: 12, to: 33, promotion: None };
    let qxe6 = Move { from: 12, to: 44, promotion: None };
    assert_eq!(picked[0], qxb5);
    assert_eq!(*picked.last().unwrap(), qxe6);

    let indices = HistoryIndices::new(None, None, None);
    let mut skipping = OrderedMoveGen::new(legal.clone(), None, MoveEntry::new());
    assert_eq!(skipping.next(&b, 0, &hist, &indices), Some(qxb5));
    let first_quiet = skipping.next(&b, 0, &hist, &indices).unwrap();
    assert_eq!(skipping.phase(), Phase::Quiets);
    assert!(first_quiet != qxe6);
    skipping.skip_quiets();
    assert_eq!(skipping.next(&b, 0, &hist, &indices), Some(qxe6));
    assert_eq!(skipping.next(&b, 0, &hist, &indices), None);
}

#[test]
fn qsearch_moves_are_captures_best_first() {
    let fen = "4k3/3p4/4p3/1n6/8/8/4Q3/4K3 w - - 0 1";
    let cozy = cozy_chess::Board::from_fen(fen, false).unwrap();
    let b = to_board(&cozy);
    let hist = History::new();
    let mut gen = QSearchMoveGen::new(legal_moves(&cozy));
    assert_eq!(gen.next(&b, 0, &hist), Some(Move { from: 12, to: 33, promotion: None }));
    assert_eq!(gen.next(&b, 0, &hist), Some(Move { from: 12, to: 44, promotion: None }));
    assert_eq!(gen.next(&b, 0, &hist), None);
}

#[test]
fn dataset_lines() {
    let line = b"8/8/8/8/8/8/8/K6k w - - 0 1 | -35 | 0.5 | a1a2 | 42";
    let d = parse_data_line(line).unwrap();
    assert_eq!(d.fen, b"8/8/8/8/8/8/8/K6k w - - 0 1".to_vec());
    assert_eq!(d.eval, -35);
    assert_eq!(d.wdl, b"0.5".to_vec());
    assert_eq!(d.mv, b"a1a2".to_vec());
    assert_eq!(d.ply, 42);
    assert!(parse_data_line(b"fen | 1 | 0 | e2e4").is_none());
    assert!(parse_data_line(b"fen | 40000 | 0 | e2e4 | 3").is_none());
    assert!(parse_data_line(b"fen | 1 | 0 | e2e4 | x").is_none());
    assert_eq!(parse_data_line(b"f | +7 | 1 | m | 5 | extra").unwrap().ply, 5);
}

#[test]
fn basic_eval_masks() {
    let d = get_basic_eval_data();
    assert_eq!(d.king_flank[0], 0x0F0F_0F0F_0F0F_0F0F);
    assert_eq!(d.king_flank[7], 0xF0F0_F0F0_F0F0_F0F0);
    // White pawn on e2 (12): d3..f8 ahead.
    assert!(d.w_ahead[12] & (1 << 20) != 0);
    assert!(d.w_ahead[12] & (1 << 12) == 0);
    assert!(d.b_ahead[12] & (1 << 3) != 0);
}

#[test]
fn null_move_keeps_threats() {
    let b = board("4k3/8/8/3n4/8/2R5/8/4K3 w - - 0 1");
    let mut pos = Position::new(b);
    let before = pos.threats();
    let mut flipped = b;
    flipped.side_to_move = Color::Black;
    assert!(pos.null_move(Some(flipped)));
    assert_eq!(pos.threats(), (before.1, before.0));
    pos.unmake_move();
    assert_eq!(*pos.board(), b);
    assert!(!pos.null_move(None));
}

fn open_rules() -> FilterRules {
    FilterRules {
        min_ply: 0,
        max_ply: None,
        max_eval: 3000,
        filter_cap: false,
        filter_in_check: false,
        filter_promo: false,
        filter_gives_check: false,
    }
}

#[test]
fn filter_line_reads_and_filters() {
    let line = b"rnbqkbnr/pppppppp/8/8/8/8/PPPPPPPP/RNBQKBNR w KQkq - 0 1 | 25 | 0.5 | e2e4 | 20";
    let (data, keep) = filter_line(line, &open_rules()).unwrap();
    assert!(keep);
    assert_eq!(data.fen, b"rnbqkbnr/pppppppp/8/8/8/8/PPPPPPPP/RNBQKBNR w KQkq - 0 1".to_vec());
    assert_eq!(data.eval, 25);
    assert_eq!(data.wdl, b"0.5".to_vec());
    assert_eq!(data.ply, 20);
    let late = FilterRules { min_ply: 21, ..open_rules() };
    assert_eq!(filter_line(line, &late).map(|x| x.1), Some(false));
    // a FEN that does not parse, a move that does not parse, a line with four fields
    assert!(filter_line(b"not a fen | 25 | 0.5 | e2e4 | 20", &open_rules()).is_none());
    assert!(filter_line(b"8/8/8/8/8/8/8/K6k w - - 0 1 | 25 | 0.5 | zz | 20", &open_rules()).is_none());
    assert!(filter_line(b"8/8/8/8/8/8/8/K6k w - - 0 1 | 25 | 0.5 | a1a2", &open_rules()).is_none());
    assert!(filter_line(b"8/8/8/8/8/8/8/K6k w - - 0 1 | -32768 | 0.5 | a1a2 | 20", &open_rules()).is_none());
}

#[test]
fn filter_line_gives_check() {
    let checking = b"4k3/8/8/8/8/8/8/R3K3 w - - 0 1 | 10 | 1 | a1a8 | 30";
    let quiet = b"4k3/8/8/8/8/8/8/R3K3 w - - 0 1 | 10 | 1 | a1a2 | 30";
    let rules = FilterRules { filter_gives_check: true, ..open_rules() };
    assert_eq!(filter_line(checking, &rules).map(|x| x.1), Some(false));
    assert_eq!(filter_line(quiet, &rules).map(|x| x.1), Some(true));
    assert_eq!(filter_line(checking, &open_rules()).map(|x| x.1), Some(true));
    // an illegal move is only played when the gives-check filter is on
    let illegal = b"4k3/8/8/8/8/8/8/R3K3 w - - 0 1 | 10 | 1 | a1b3 | 30";
    assert!(filter_line(illegal, &rules).is_none());
    assert_eq!(filter_line(illegal, &open_rules()).map(|x| x.1), Some(true));
    // castling that gives check through the rook
    let castle = b"5k2/8/8/8/8/8/8/4K2R w K - 0 1 | 10 | 1 | e1h1 | 30";
    assert_eq!(filter_line(castle, &rules).map(|x| x.1), Some(false));
}
