use blackmarlin::bm::bm_runner::ab_runner::{
    aspiration_bounds, aspiration_outcome, remove_aggression, Aspiration, NodeCounter, SearchStack,
};
use blackmarlin::bm::bm_runner::deepening::{DeepenAction, DeepenEvent, Deepening};
use blackmarlin::bm::bm_util::window::Window;
use blackmarlin::bm::bm_runner::time::{read_limits, TimeManagementInfo, TimeManager};
use blackmarlin::bm::bm_util::eval::Evaluation;
use blackmarlin::bm::chess_types::{Color, Move};

fn mv(from: u8, to: u8) -> Move {
    Move { from, to, promotion: None }
}

#[test]
fn later_limits_override_earlier_ones() {
    let l = read_limits(&[
        TimeManagementInfo::WTime(1000),
        TimeManagementInfo::WTime(2000),
        TimeManagementInfo::MaxDepth(7),
        TimeManagementInfo::Unknown,
    ]);
    assert_eq!(l.w_time, 2000);
    assert_eq!(l.max_depth, 7);
    assert!(!l.infinite);
    assert_eq!(l.moves_to_go, None);
    let l = read_limits(&[]);
    assert!(l.infinite);
    assert_eq!(l.max_nodes, u64::MAX);
}

#[test]
fn clock_budget() {
    let mut tm = TimeManager::new();
    tm.initiate(
        Color::White,
        20,
        &[TimeManagementInfo::WTime(65_000), TimeManagementInfo::WInc(1_000), TimeManagementInfo::BTime(1)],
    );
    // 4/5 of the clock at most; the increment plus a 65th of the clock otherwise
    assert_eq!(tm.max_duration, 52_000);
    assert_eq!(tm.target_duration, 1_000 + 65_000 / 65);
    assert_eq!(tm.base_duration, 2_000);
    assert!(!tm.no_manage);
    assert!(!tm.infinite);
    // a single legal move gets no time
    tm.initiate(Color::White, 1, &[TimeManagementInfo::WTime(65_000)]);
    assert_eq!(tm.target_duration, 0);
    // a fixed time per move
    tm.initiate(Color::Black, 20, &[TimeManagementInfo::MoveTime(300)]);
    assert_eq!(tm.target_duration, 300);
    assert_eq!(tm.max_duration, 300);
    assert!(tm.no_manage);
    // moves to go
    tm.initiate(Color::Black, 20, &[TimeManagementInfo::BTime(10_000), TimeManagementInfo::MovesToGo(9)]);
    assert_eq!(tm.target_duration, 1_000);
}

#[test]
fn aborting() {
    let mut tm = TimeManager::new();
    tm.initiate(Color::White, 20, &[TimeManagementInfo::WTime(10_000), TimeManagementInfo::MaxNodes(500)]);
    assert!(!tm.abort_search(100, 10));
    assert!(tm.abort_search(100, 500));
    assert!(tm.abort_search(9_000, 10));
    assert!(tm.abort_deepening(1_000, 3, 10));
    tm.abort_now();
    assert!(tm.abort_search(0, 0));
    tm.clear();
    assert!(!tm.abort_now);
    assert_eq!(tm.expected_moves, 63);
}

#[test]
fn move_stability_grows_while_the_move_stays() {
    let mut tm = TimeManager::new();
    tm.initiate(Color::White, 20, &[TimeManagementInfo::WTime(10_000)]);
    assert_eq!(tm.deepen(0, 3, 10, mv(12, 28)), None);
    let f = tm.deepen(0, 5, 20, mv(12, 28)).unwrap();
    assert_eq!(f.move_stability, 0);
    assert_eq!(f.prev_eval, 10);
    let f = tm.deepen(0, 6, 30, mv(12, 28)).unwrap();
    assert_eq!(f.move_stability, 1);
    let f = tm.deepen(0, 7, 30, mv(11, 27)).unwrap();
    assert_eq!(f.move_stability, 0);
    assert_eq!(tm.deepen(1, 7, 30, mv(11, 27)), None);
}

#[test]
fn node_counts_add_up() {
    let mut counter = NodeCounter { node_counters: vec![] };
    counter.initialize_node_counters(3);
    counter.add_node_counter(0, 100);
    counter.add_node_counter(2, 23);
    assert_eq!(counter.get_node_count(), 123);
}

#[test]
fn principal_variation_update() {
    let mut stack = SearchStack {
        eval: Evaluation::new(0),
        skip_move: None,
        move_played: None,
        pv: vec![None; 4],
        pv_len: 0,
    };
    stack.update_pv(mv(1, 2), &[Some(mv(3, 4)), Some(mv(5, 6))]);
    assert_eq!(stack.pv, vec![Some(mv(1, 2)), Some(mv(3, 4)), Some(mv(5, 6)), None]);
    assert_eq!(stack.pv_len, 3);
}

#[test]
fn reported_scores_shrink() {
    assert_eq!(remove_aggression(Evaluation::new(300), 10).raw(), 280);
    assert_eq!(remove_aggression(Evaluation::new(-300), 10).raw(), -280);
    assert_eq!(remove_aggression(Evaluation::new(50), 10).raw(), 50 * 50 / 60);
    assert_eq!(remove_aggression(Evaluation::new(-120), 30).raw(), -50 * 120 / 80);
    let mate = Evaluation::new_checkmate(3);
    assert_eq!(remove_aggression(mate, 10), mate);
}

#[test]
fn aspiration_loop_decisions() {
    let window = (Evaluation::new(-20), Evaluation::new(20));
    assert_eq!(aspiration_bounds(Some(Evaluation::new(5)), 6, 0, window), window);
    assert_eq!(aspiration_bounds(Some(Evaluation::new(5)), 4, 0, window), (Evaluation::min(), Evaluation::max()));
    assert_eq!(aspiration_bounds(None, 8, 0, window), (Evaluation::min(), Evaluation::max()));
    assert_eq!(aspiration_bounds(Some(Evaluation::new(5000)), 8, 0, window).0, Evaluation::min());
    assert_eq!(aspiration_outcome(Evaluation::new(0), window.0, window.1), Aspiration::Accept);
    assert_eq!(aspiration_outcome(Evaluation::new(-20), window.0, window.1), Aspiration::FailLow);
    assert_eq!(aspiration_outcome(Evaluation::new(25), window.0, window.1), Aspiration::FailHigh);
    assert_eq!(aspiration_outcome(Evaluation::new_checkmate(2), window.0, window.1), Aspiration::Accept);
}

fn ev(v: i16) -> Evaluation {
    Evaluation::new(v)
}

#[test]
fn deepening_drives_aspiration_windows() {
    let mv = Some(Move { from: 12, to: 28, promotion: None });
    let (mut d, a) = Deepening::start(Window::new(12, 1, 4, 5));
    assert_eq!(a, DeepenAction::Search { depth: 1, alpha: Evaluation::min(), beta: Evaluation::max() });
    for depth in 1..5u32 {
        let a = d.step(DeepenEvent::Searched { score: ev(30), aborted: false, pv_move: mv });
        assert_eq!(a, DeepenAction::Deepen { depth, score: ev(30), pv_move: mv });
        let a = d.step(DeepenEvent::Deepened { stop: false });
        assert_eq!(a, DeepenAction::Report { depth, eval: ev(30), best_move: mv });
        let a = d.step(DeepenEvent::Reported { stop: false });
        if depth < 4 {
            assert_eq!(a, DeepenAction::Search { depth: depth + 1, alpha: Evaluation::min(), beta: Evaluation::max() });
        } else {
            // depth 5: the window of half-width 12 around the last score
            assert_eq!(a, DeepenAction::Search { depth: 5, alpha: ev(18), beta: ev(42) });
        }
    }
    d.step(DeepenEvent::Searched { score: ev(100), aborted: false, pv_move: None });
    let a = d.step(DeepenEvent::Deepened { stop: false });
    // fail high: beta moves to 100 + 12 and the window grows to 20
    assert_eq!(a, DeepenAction::Search { depth: 5, alpha: ev(18), beta: ev(112) });
    assert_eq!(d.fail_cnt, 1);
    d.step(DeepenEvent::Searched { score: ev(0), aborted: false, pv_move: mv });
    let a = d.step(DeepenEvent::Deepened { stop: false });
    // fail low: beta to the middle of (18, 112), alpha to 0 - 20
    assert_eq!(a, DeepenAction::Search { depth: 5, alpha: ev(-20), beta: ev(65) });
    d.step(DeepenEvent::Searched { score: ev(50), aborted: false, pv_move: mv });
    let a = d.step(DeepenEvent::Deepened { stop: true });
    assert_eq!(a, DeepenAction::Report { depth: 5, eval: ev(50), best_move: mv });
    let a = d.step(DeepenEvent::Reported { stop: false });
    assert_eq!(a, DeepenAction::Finish { best_move: mv, eval: Some(ev(50)), depth: 6 });
}

#[test]
fn deepening_stops_on_abort() {
    let mv = Some(Move { from: 6, to: 21, promotion: None });
    let (mut d, _) = Deepening::start(Window::new(12, 1, 4, 5));
    // the first depth is never cut short
    d.step(DeepenEvent::Searched { score: ev(5), aborted: true, pv_move: mv });
    d.step(DeepenEvent::Deepened { stop: false });
    d.step(DeepenEvent::Reported { stop: false });
    let a = d.step(DeepenEvent::Searched { score: ev(7), aborted: true, pv_move: None });
    assert_eq!(a, DeepenAction::Finish { best_move: mv, eval: Some(ev(5)), depth: 2 });
    let (mut d, _) = Deepening::start(Window::new(12, 1, 4, 5));
    d.step(DeepenEvent::Searched { score: ev(5), aborted: false, pv_move: mv });
    d.step(DeepenEvent::Deepened { stop: false });
    let a = d.step(DeepenEvent::Reported { stop: true });
    assert_eq!(a, DeepenAction::Finish { best_move: mv, eval: Some(ev(5)), depth: 2 });
}
