use chess_arena::alg::evaluators::{
    captured_value, eval_generous, eval_huddle, eval_insist_2, eval_insist_3,
    eval_matching_colors, eval_opposite_colors, eval_pacifist, eval_swarm, min_capture,
    sum_captures, Constant, Evaluator, Generous, Huddle, Insist2, Insist3, MatchingColors,
    OppositeColors, Pacifist, Swarm,
};
use chess_arena::board::{ChessMove, Color, File, Rank, Square};
use chess_arena::position::Position;
use chess_arena::score::{Score, CHECKMATED, THREATENED};

const AFTER_E4_D5: &str = "rnbqkbnr/ppp1pppp/8/3p4/4P3/8/PPPP1PPP/RNBQKBNR w KQkq - 0 2";
const QUEEN_MUST_BE_TAKEN: &str = "7k/8/8/8/8/8/1q6/K7 w - - 0 1";
const FOOLS_MATE: &str = "rnb1kbnr/pppp1ppp/8/4p3/6Pq/5P2/PPPPP2P/RNBQKBNR w KQkq - 1 3";
const STALEMATE: &str = "7k/5Q2/6K1/8/8/8/8/8 b - - 0 1";
const BLACK_IN_CHECK: &str = "rnbqkbnr/ppppp1pp/8/5p1Q/4P3/8/PPPP1PPP/RNB1KBNR b KQkq - 1 2";
// after 1. e4 h6 2. e5 d5: the pawn on e5 can take the pawn on d5 in passing
const EN_PASSANT_OFFERED: &str = "rnbqkbnr/ppp1ppp1/7p/3pP3/8/8/PPPP1PPP/RNBQKBNR w KQkq d6 0 3";
// Black is in check from the pawn on b4 and can only take it in passing
const EN_PASSANT_FORCED: &str = "1RB5/8/8/k7/1Pp5/2N5/8/7K b - b3 0 1";

fn at(fen: &str) -> Position {
    Position::from_fen(fen).unwrap()
}

#[test]
fn matching_colors_at_the_start_is_balanced() {
    let p = Position::default();
    assert_eq!(eval_matching_colors(&p, Color::White), Score::from_int(0));
    assert_eq!(eval_matching_colors(&p, Color::Black), Score::from_int(0));
}

#[test]
fn matching_colors_counts_squares_of_the_own_colour() {
    // 1. e3: the pawn leaves a white square for a black one
    let p = at("rnbqkbnr/pppppppp/8/8/8/4P3/PPPP1PPP/RNBQKBNR b KQkq - 0 1");
    assert_eq!(eval_matching_colors(&p, Color::White), Score::from_int(-2));
    assert_eq!(eval_matching_colors(&p, Color::Black), Score::from_int(0));
    // 1. d3: the pawn leaves a black square for a white one
    let p = at("rnbqkbnr/pppppppp/8/8/8/3P4/PPP1PPPP/RNBQKBNR b KQkq - 0 1");
    assert_eq!(eval_matching_colors(&p, Color::White), Score::from_int(2));
    // a lone white king on a1, a black square; a lone black king on h8, a black square
    let p = at("7k/8/8/8/8/8/8/K7 w - - 0 1");
    assert_eq!(eval_matching_colors(&p, Color::White), Score::from_int(-1));
    assert_eq!(eval_matching_colors(&p, Color::Black), Score::from_int(1));
}

#[test]
fn opposite_colors_is_matching_colors_negated() {
    for fen in [AFTER_E4_D5, QUEEN_MUST_BE_TAKEN, FOOLS_MATE, STALEMATE, BLACK_IN_CHECK] {
        let p = at(fen);
        for color in [Color::White, Color::Black] {
            let matching = eval_matching_colors(&p, color).millionths();
            let opposite = eval_opposite_colors(&p, color).millionths();
            assert_eq!(matching, -opposite);
        }
    }
    let p = at("rnbqkbnr/pppppppp/8/8/8/4P3/PPPP1PPP/RNBQKBNR b KQkq - 0 1");
    assert_eq!(eval_opposite_colors(&p, Color::White), Score::from_int(2));
}

#[test]
fn huddle_sums_the_distances_to_the_own_king() {
    let p = Position::default();
    // first rank: 4+3+2+1+0+1+2+3, second rank: 4+3+2+1+1+1+2+3
    assert_eq!(eval_huddle(&p, Color::White), Score::from_int(-33));
    assert_eq!(eval_huddle(&p, Color::Black), Score::from_int(-33));
    let p = at(QUEEN_MUST_BE_TAKEN);
    assert_eq!(eval_huddle(&p, Color::White), Score::from_int(0));
    // the queen on b2 is six king steps from h8
    assert_eq!(eval_huddle(&p, Color::Black), Score::from_int(-6));
}

#[test]
fn swarm_sums_the_distances_to_the_other_king() {
    let p = Position::default();
    // eight pieces seven steps away, eight pawns six steps away
    assert_eq!(eval_swarm(&p, Color::White), Score::from_int(-104));
    assert_eq!(eval_swarm(&p, Color::Black), Score::from_int(-104));
    let p = at(QUEEN_MUST_BE_TAKEN);
    // the king on a1 is seven steps from h8
    assert_eq!(eval_swarm(&p, Color::White), Score::from_int(-7));
    // the queen on b2 is one step from a1, the king on h8 seven
    assert_eq!(eval_swarm(&p, Color::Black), Score::from_int(-8));
}

#[test]
fn pacifist_counts_the_material_of_the_other_side() {
    let p = Position::default();
    assert_eq!(eval_pacifist(&p, Color::White), Score::from_int(39));
    assert_eq!(eval_pacifist(&p, Color::Black), Score::from_int(39));
    let p = at("7k/8/8/8/8/q7/8/1K6 w - - 0 1");
    assert_eq!(eval_pacifist(&p, Color::White), Score::from_int(9));
    assert_eq!(eval_pacifist(&p, Color::Black), Score::from_int(0));
}

#[test]
fn pacifist_on_checkmate_is_the_checkmate_sentinel() {
    let p = at(FOOLS_MATE);
    assert_eq!(eval_pacifist(&p, Color::White), Score::from_millionths(CHECKMATED));
    assert_eq!(eval_pacifist(&p, Color::Black), Score::from_millionths(CHECKMATED));
    assert_eq!(CHECKMATED, -1_000_000_000_000_000_000_000 * 1_000_000);
}

#[test]
fn pacifist_in_check_is_the_check_sentinel() {
    let p = at(BLACK_IN_CHECK);
    assert_eq!(eval_pacifist(&p, Color::Black), Score::from_millionths(THREATENED));
    assert_eq!(THREATENED, -100_000_000_000 * 1_000_000);
    // White gives the check and is not in check itself: Black still has all its material
    assert_eq!(eval_pacifist(&p, Color::White), Score::from_int(39));
}

#[test]
fn pacifist_on_stalemate_counts_material() {
    let p = at(STALEMATE);
    assert_eq!(eval_pacifist(&p, Color::Black), Score::from_int(9));
    assert_eq!(eval_pacifist(&p, Color::White), Score::from_int(0));
}

#[test]
fn capture_values_of_single_moves() {
    let p = at(AFTER_E4_D5);
    let takes = ChessMove::new(
        Square::make_square(Rank::Fourth, File::E),
        Square::make_square(Rank::Fifth, File::D),
        None,
    );
    let pushes = ChessMove::new(
        Square::make_square(Rank::Fourth, File::E),
        Square::make_square(Rank::Fifth, File::E),
        None,
    );
    assert_eq!(captured_value(&p, &takes), 1);
    assert_eq!(captured_value(&p, &pushes), 0);
    let moves = vec![takes, pushes, takes];
    assert_eq!(sum_captures(&p, &moves), 2);
    assert_eq!(min_capture(&p, &moves), 0);
    assert_eq!(min_capture(&p, &vec![takes]), 1);
    assert_eq!(min_capture(&p, &Vec::new()), 10000);
    assert_eq!(sum_captures(&p, &Vec::new()), 0);
}

#[test]
fn generous_sums_what_the_replies_capture() {
    // one of White's 31 replies takes a pawn
    let p = at(AFTER_E4_D5);
    assert_eq!(eval_generous(&p, Color::Black), Score::from_int(1));
    // the only reply takes the queen
    let p = at(QUEEN_MUST_BE_TAKEN);
    assert_eq!(eval_generous(&p, Color::Black), Score::from_int(9));
    // nothing can be taken at the start
    let p = Position::default();
    assert_eq!(eval_generous(&p, Color::Black), Score::from_int(0));
    // no reply at all
    let p = at(FOOLS_MATE);
    assert_eq!(eval_generous(&p, Color::Black), Score::from_int(0));
}

#[test]
fn insist_2_adds_ten_thousand_where_every_reply_captures() {
    let p = at(QUEEN_MUST_BE_TAKEN);
    assert_eq!(eval_insist_2(&p, Color::Black), Score::from_int(10009));
}

#[test]
fn insist_2_falls_back_to_generous_where_a_reply_captures_nothing() {
    let p = at(AFTER_E4_D5);
    assert_eq!(eval_insist_2(&p, Color::Black), Score::from_int(1));
    assert_eq!(eval_insist_2(&p, Color::Black), eval_generous(&p, Color::Black));
    let p = Position::default();
    assert_eq!(eval_insist_2(&p, Color::Black), Score::from_int(0));
    assert_eq!(eval_insist_2(&p, Color::Black), eval_generous(&p, Color::Black));
}

#[test]
fn insist_2_on_ended_games_is_a_sentinel() {
    let p = at(FOOLS_MATE);
    assert_eq!(eval_insist_2(&p, Color::Black), Score::from_millionths(CHECKMATED));
    let p = at(STALEMATE);
    assert_eq!(eval_insist_2(&p, Color::White), Score::from_millionths(THREATENED));
}

#[test]
fn insist_3_averages_over_the_replies() {
    // one pawn over 31 replies: 0.032258...
    let p = at(AFTER_E4_D5);
    assert_eq!(eval_insist_3(&p, Color::Black), Score::from_millionths(32_258));
    // one queen over one reply
    let p = at(QUEEN_MUST_BE_TAKEN);
    assert_eq!(eval_insist_3(&p, Color::Black), Score::from_int(9));
    let p = Position::default();
    assert_eq!(eval_insist_3(&p, Color::Black), Score::from_int(0));
}

#[test]
fn insist_3_on_ended_games_is_a_sentinel() {
    let p = at(FOOLS_MATE);
    assert_eq!(eval_insist_3(&p, Color::Black), Score::from_millionths(CHECKMATED));
    let p = at(STALEMATE);
    assert_eq!(eval_insist_3(&p, Color::White), Score::from_millionths(THREATENED));
}

#[test]
fn the_strategy_objects_call_their_functions() {
    let p = at(AFTER_E4_D5);
    let c = Color::Black;
    assert_eq!(MatchingColors.evaluate(&p, c), eval_matching_colors(&p, c));
    assert_eq!(OppositeColors.evaluate(&p, c), eval_opposite_colors(&p, c));
    assert_eq!(Huddle.evaluate(&p, c), eval_huddle(&p, c));
    assert_eq!(Swarm.evaluate(&p, c), eval_swarm(&p, c));
    assert_eq!(Pacifist.evaluate(&p, c), eval_pacifist(&p, c));
    assert_eq!(Generous.evaluate(&p, c), eval_generous(&p, c));
    assert_eq!(Insist2.evaluate(&p, c), eval_insist_2(&p, c));
    assert_eq!(Insist3.evaluate(&p, c), eval_insist_3(&p, c));
    let flat = Constant { score: Score::from_int(7) };
    assert_eq!(flat.evaluate(&p, c), Score::from_int(7));
    assert_eq!(flat.evaluate(&Position::default(), Color::White), Score::from_int(7));
}

#[test]
fn a_capture_in_passing_takes_a_pawn() {
    let p = at(EN_PASSANT_OFFERED);
    let takes = ChessMove::new(
        Square::make_square(Rank::Fifth, File::E),
        Square::make_square(Rank::Sixth, File::D),
        None,
    );
    let pushes = ChessMove::new(
        Square::make_square(Rank::Fifth, File::E),
        Square::make_square(Rank::Sixth, File::E),
        None,
    );
    let knight = ChessMove::new(
        Square::make_square(Rank::First, File::G),
        Square::make_square(Rank::Third, File::F),
        None,
    );
    assert!(p.legal(takes));
    assert_eq!(captured_value(&p, &takes), 1);
    assert_eq!(captured_value(&p, &pushes), 0);
    assert_eq!(captured_value(&p, &knight), 0);
}

#[test]
fn generous_counts_a_capture_in_passing() {
    let p = at(EN_PASSANT_OFFERED);
    assert_eq!(p.legal_moves().len(), 31);
    assert_eq!(eval_generous(&p, Color::Black), Score::from_int(1));
}

#[test]
fn insist_3_counts_a_capture_in_passing() {
    // one pawn over 31 replies
    let p = at(EN_PASSANT_OFFERED);
    assert_eq!(eval_insist_3(&p, Color::Black), Score::from_millionths(32_258));
}

#[test]
fn insist_2_counts_a_capture_in_passing() {
    // where a quiet reply exists, the generous score
    let p = at(EN_PASSANT_OFFERED);
    assert_eq!(eval_insist_2(&p, Color::Black), Score::from_int(1));
    // where the only reply takes in passing, ten thousand and a pawn
    let p = at(EN_PASSANT_FORCED);
    assert_eq!(p.legal_moves().len(), 1);
    assert_eq!(eval_insist_2(&p, Color::White), Score::from_int(10001));
    assert_eq!(eval_generous(&p, Color::White), Score::from_int(1));
    assert_eq!(eval_insist_3(&p, Color::White), Score::from_int(1));
}
