use blackmarlin::bm::bm_eval::eval::Evaluation as Evaluation32;
use blackmarlin::bm::bm_util::eval::Evaluation;

#[test]
fn mate_comparisons() {
    let w_checkmate_in_2 = Evaluation::new_checkmate(2);
    let w_checkmate_in_1 = Evaluation::new_checkmate(1);
    let b_checkmate_in_1 = Evaluation::new_checkmate(-1);
    let b_checkmate_in_2 = Evaluation::new_checkmate(-2);

    assert_eq!(w_checkmate_in_2.mate_in().unwrap(), 2);
    assert_eq!(w_checkmate_in_1.mate_in().unwrap(), 1);
    assert_eq!(b_checkmate_in_1.mate_in().unwrap(), -1);
    assert_eq!(b_checkmate_in_2.mate_in().unwrap(), -2);

    assert!(w_checkmate_in_2 >= w_checkmate_in_2);
    assert!(w_checkmate_in_1 >= w_checkmate_in_1);
    assert!(b_checkmate_in_1 >= b_checkmate_in_1);
    assert!(b_checkmate_in_2 >= b_checkmate_in_2);

    assert!(w_checkmate_in_2 <= w_checkmate_in_2);
    assert!(w_checkmate_in_1 <= w_checkmate_in_1);
    assert!(b_checkmate_in_1 <= b_checkmate_in_1);
    assert!(b_checkmate_in_2 <= b_checkmate_in_2);

    assert!(w_checkmate_in_2 == w_checkmate_in_2);
    assert!(w_checkmate_in_1 == w_checkmate_in_1);
    assert!(b_checkmate_in_1 == b_checkmate_in_1);
    assert!(b_checkmate_in_2 == b_checkmate_in_2);

    assert!(w_checkmate_in_1 > w_checkmate_in_2);
    assert!(w_checkmate_in_2 > b_checkmate_in_1);
    assert!(w_checkmate_in_2 > b_checkmate_in_2);
    assert!(w_checkmate_in_1 > b_checkmate_in_1);
    assert!(w_checkmate_in_1 > b_checkmate_in_2);
    assert!(b_checkmate_in_2 > b_checkmate_in_1);

    assert!(w_checkmate_in_1 >= w_checkmate_in_2);
    assert!(w_checkmate_in_2 >= b_checkmate_in_1);
    assert!(w_checkmate_in_2 >= b_checkmate_in_2);
    assert!(w_checkmate_in_1 >= b_checkmate_in_1);
    assert!(w_checkmate_in_1 >= b_checkmate_in_2);
    assert!(b_checkmate_in_2 >= b_checkmate_in_1);

    assert!(w_checkmate_in_2 < w_checkmate_in_1);
    assert!(b_checkmate_in_1 < w_checkmate_in_2);
    assert!(b_checkmate_in_2 < w_checkmate_in_2);
    assert!(b_checkmate_in_1 < w_checkmate_in_1);
    assert!(b_checkmate_in_2 < w_checkmate_in_1);
    assert!(b_checkmate_in_1 < b_checkmate_in_2);

    assert!(w_checkmate_in_2 <= w_checkmate_in_1);
    assert!(b_checkmate_in_1 <= w_checkmate_in_2);
    assert!(b_checkmate_in_2 <= w_checkmate_in_2);
    assert!(b_checkmate_in_1 <= w_checkmate_in_1);
    assert!(b_checkmate_in_2 <= w_checkmate_in_1);
    assert!(b_checkmate_in_1 <= b_checkmate_in_2);
}

#[test]
fn eval_mate_comparisons() {
    let w_checkmate_in_2 = Evaluation32::new_checkmate(2);
    let w_checkmate_in_1 = Evaluation32::new_checkmate(1);
    let b_checkmate_in_1 = Evaluation32::new_checkmate(-1);
    let b_checkmate_in_2 = Evaluation32::new_checkmate(-2);

    assert!(w_checkmate_in_1 > w_checkmate_in_2);
    assert!(w_checkmate_in_2 > b_checkmate_in_1);
    assert!(w_checkmate_in_2 > b_checkmate_in_2);
    assert!(w_checkmate_in_1 > b_checkmate_in_1);
    assert!(w_checkmate_in_1 > b_checkmate_in_2);
    assert!(b_checkmate_in_2 > b_checkmate_in_1);

    assert!(w_checkmate_in_1 >= w_checkmate_in_2);
    assert!(w_checkmate_in_2 >= b_checkmate_in_1);
    assert!(w_checkmate_in_2 >= b_checkmate_in_2);
    assert!(w_checkmate_in_1 >= b_checkmate_in_1);
    assert!(w_checkmate_in_1 >= b_checkmate_in_2);
    assert!(b_checkmate_in_2 >= b_checkmate_in_1);

    assert!(w_checkmate_in_2 < w_checkmate_in_1);
    assert!(b_checkmate_in_1 < w_checkmate_in_2);
    assert!(b_checkmate_in_2 < w_checkmate_in_2);
    assert!(b_checkmate_in_1 < w_checkmate_in_1);
    assert!(b_checkmate_in_2 < w_checkmate_in_1);
    assert!(b_checkmate_in_1 < b_checkmate_in_2);

    assert!(w_checkmate_in_2 <= w_checkmate_in_1);
    assert!(b_checkmate_in_1 <= w_checkmate_in_2);
    assert!(b_checkmate_in_2 <= w_checkmate_in_2);
    assert!(b_checkmate_in_1 <= w_checkmate_in_1);
    assert!(b_checkmate_in_2 <= w_checkmate_in_1);
    assert!(b_checkmate_in_1 <= b_checkmate_in_2);
}

#[test]
fn checkmate_scores_i32() {
    assert_eq!(Evaluation32::new_checkmate(2).raw(), i32::MAX - 1);
    assert_eq!(Evaluation32::new_checkmate(-1).raw(), -i32::MAX);
    assert_eq!(Evaluation32::new_checkmate(2).mate_in(), Some(-63));
    assert_eq!(Evaluation32::new_checkmate(-1).mate_in(), Some(64));
    assert_eq!(Evaluation32::new(100).mate_in(), None);
    assert!(!Evaluation32::new(100).is_mate());
    assert!(Evaluation32::new_checkmate(3).is_mate());
}

#[test]
fn mate_in_round_trip_i16() {
    for n in [1i16, 2, 7, -1, -4, 60, -60] {
        assert_eq!(Evaluation::new_checkmate(n).mate_in(), Some(n));
    }
    assert_eq!(Evaluation::new(-250).mate_in(), None);
}

#[test]
fn ordinary_scores_negate_between_plies() {
    let e = Evaluation::new(37);
    assert_eq!(e.raw(), 37);
    assert_eq!(e.neg().raw(), -37);
    assert!(Evaluation::new_checkmate(10) > Evaluation::new(5000));
    assert!(Evaluation::new_checkmate(-10) < Evaluation::new(-5000));
}
