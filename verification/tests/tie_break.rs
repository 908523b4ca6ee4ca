use chess_arena::alg::tie_break::{pick, select_tied, tied_best};
use chess_arena::board::{ChessMove, Square};
use chess_arena::score::{Score, Value};

fn fin(millionths: i128) -> Value {
    Value::Finite(Score::from_millionths(millionths))
}

fn mv(k: u8) -> ChessMove {
    ChessMove::new(Square::from_index(k), Square::from_index(63 - k), None)
}

#[test]
fn no_score_no_tied_place() {
    assert_eq!(tied_best(&Vec::new()), Vec::<usize>::new());
}

#[test]
fn a_single_score_is_best() {
    assert_eq!(tied_best(&vec![fin(-5_000_000)]), vec![0]);
    assert_eq!(tied_best(&vec![Value::NegInf]), vec![0]);
    assert_eq!(tied_best(&vec![Value::PosInf]), vec![0]);
}

#[test]
fn equal_scores_are_all_tied() {
    assert_eq!(tied_best(&vec![fin(0), fin(0), fin(0)]), vec![0, 1, 2]);
}

#[test]
fn a_greater_score_starts_afresh() {
    assert_eq!(tied_best(&vec![fin(1_000_000), fin(2_000_000), fin(1_000_000)]), vec![1]);
    assert_eq!(tied_best(&vec![fin(3_000_000), fin(2_000_000), fin(3_000_000)]), vec![0, 2]);
}

#[test]
fn scores_within_the_tolerance_are_tied() {
    // 0.000099 apart: tied
    assert_eq!(tied_best(&vec![fin(0), fin(99)]), vec![0, 1]);
    assert_eq!(tied_best(&vec![fin(99), fin(0)]), vec![0, 1]);
    // exactly 0.0001 apart: still tied, only a score above the best by more replaces it
    assert_eq!(tied_best(&vec![fin(0), fin(100)]), vec![0, 1]);
    assert_eq!(tied_best(&vec![fin(100), fin(0)]), vec![0, 1]);
    // 0.000101 apart: not tied
    assert_eq!(tied_best(&vec![fin(0), fin(101)]), vec![1]);
    assert_eq!(tied_best(&vec![fin(101), fin(0)]), vec![0]);
}

#[test]
fn the_best_stays_where_a_tied_score_joins() {
    // 0.00009 joins 0 and leaves the best at 0, so 0.00018 is no longer tied with it
    assert_eq!(tied_best(&vec![fin(0), fin(90), fin(180)]), vec![2]);
    // taken the other way round, 0.00009 is tied with 0.00018 and 0 is not
    assert_eq!(tied_best(&vec![fin(180), fin(90), fin(0)]), vec![0, 1]);
    // 0.0001 joins 0, and 0.0002 is then too far from the best
    assert_eq!(tied_best(&vec![fin(0), fin(100), fin(200)]), vec![2]);
}

#[test]
fn two_close_scores_above_the_rest() {
    let scores = vec![fin(1_000_000), fin(5_000_050), fin(-3_000_000), fin(5_000_000), fin(4_999_000)];
    let tied = tied_best(&scores);
    assert_eq!(tied, vec![1, 3]);
    let moves: Vec<ChessMove> = (0..5).map(mv).collect();
    let best = select_tied(&moves, &scores);
    assert_eq!(best, vec![mv(1), mv(3)]);
    for _ in 0..200 {
        let m = pick(&best);
        assert!(m == mv(1) || m == mv(3));
    }
}

#[test]
fn infinities_take_their_place_in_the_order() {
    assert_eq!(tied_best(&vec![Value::NegInf, fin(0), Value::NegInf]), vec![1]);
    assert_eq!(tied_best(&vec![fin(0), Value::PosInf, fin(7_000_000)]), vec![1]);
    assert_eq!(tied_best(&vec![Value::NegInf, Value::NegInf]), vec![0, 1]);
    assert_eq!(tied_best(&vec![Value::PosInf, fin(1), Value::PosInf]), vec![0, 2]);
}

#[test]
fn the_sentinels_do_not_overflow_the_comparison() {
    let low = fin(i128::MIN);
    let high = fin(i128::MAX);
    assert_eq!(tied_best(&vec![low, high]), vec![1]);
    assert_eq!(tied_best(&vec![high, low]), vec![0]);
    assert!(!Score::from_millionths(i128::MIN).near(&Score::from_millionths(i128::MAX)));
    assert!(Score::from_millionths(i128::MAX).near(&Score::from_millionths(i128::MAX - 100)));
    assert!(!Score::from_millionths(i128::MAX).near(&Score::from_millionths(i128::MAX - 101)));
    assert!(Score::from_millionths(-100).near(&Score::from_millionths(0)));
    assert!(!Score::from_millionths(-101).near(&Score::from_millionths(0)));
}

#[test]
fn values_compare_as_extended_numbers() {
    assert!(Value::NegInf.less_than(&fin(i128::MIN)));
    assert!(fin(i128::MAX).less_than(&Value::PosInf));
    assert!(Value::NegInf.less_than(&Value::PosInf));
    assert!(!Value::NegInf.less_than(&Value::NegInf));
    assert!(!Value::PosInf.less_than(&Value::PosInf));
    assert!(fin(1).less_than(&fin(2)));
    assert!(!fin(2).less_than(&fin(2)));
    assert!(fin(2).at_most(&fin(2)));
    assert!(!fin(3).at_most(&fin(2)));
    assert!(Value::PosInf.tied_with(&Value::PosInf));
    assert!(!Value::PosInf.tied_with(&Value::NegInf));
    assert!(!Value::PosInf.tied_with(&fin(0)));
}

#[test]
fn a_whole_score_is_a_million_millionths() {
    assert_eq!(Score::from_int(3).millionths(), 3_000_000);
    assert_eq!(Score::from_int(-2), Score::from_millionths(-2_000_000));
}
