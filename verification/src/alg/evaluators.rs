//! Position evaluators: each scores a position from one side's point of
//! view, and larger is better for that side.

use vstd::prelude::*;
use crate::board::{BoardStatus, ChessMove, Color, Piece, Square};
use crate::position::{
    color_at, in_check_of, king_square_of, legal_moves_of, piece_at, status_of, Position,
};
use crate::rules::side_of;
use crate::score::{Score, CHECKMATED, SCALE, THREATENED, TOLERANCE};

verus! {

/// The sum of `term` over the first `n` squares.
pub open spec fn sum_squares(term: spec_fn(int) -> int, n: int) -> int
    decreases n,
{
    if n <= 0 {
        0
    } else {
        sum_squares(term, n - 1) + term(n - 1)
    }
}

/// What a square adds to the count of matching colours: for a piece of
/// `color`, 1 on a square of its own colour and -1 on one of the other.
pub open spec fn matching_term(record: Seq<char>, color: Color, i: int) -> int {
    if color_at(record, i) == Some(color) {
        if Square::at(i).shade() == color {
            1int
        } else {
            -1int
        }
    } else {
        0
    }
}

/// The score of `eval_matching_colors`, in millionths.
pub open spec fn matching_colors_score(record: Seq<char>, color: Color) -> int {
    SCALE * sum_squares(|i: int| matching_term(record, color, i), 64)
}

/// The score of `eval_opposite_colors`, in millionths.
pub open spec fn opposite_colors_score(record: Seq<char>, color: Color) -> int {
    SCALE * sum_squares(|i: int| -matching_term(record, color, i), 64)
}

/// What a square adds to the distance count: for a piece of `color`, the
/// number of king steps to `target`.
pub open spec fn distance_term(record: Seq<char>, color: Color, target: Square, i: int) -> int {
    if color_at(record, i) == Some(color) {
        Square::at(i).distance(target)
    } else {
        0
    }
}

/// The score of `eval_huddle`, in millionths.
pub open spec fn huddle_score(record: Seq<char>, color: Color) -> int {
    -(SCALE * sum_squares(
        |i: int| distance_term(record, color, king_square_of(record, color), i),
        64,
    ))
}

/// The score of `eval_swarm`, in millionths.
pub open spec fn swarm_score(record: Seq<char>, color: Color) -> int {
    -(SCALE * sum_squares(
        |i: int| distance_term(record, color, king_square_of(record, color.other()), i),
        64,
    ))
}

/// The material value of what stands on the square with place `i`, nothing
/// for an empty square.
pub open spec fn material_at(record: Seq<char>, i: int) -> int {
    match piece_at(record, i) {
        Some(p) => p.material(),
        None => 0,
    }
}

/// What a square adds to the material of `color`.
pub open spec fn material_term(record: Seq<char>, color: Color, i: int) -> int {
    if color_at(record, i) == Some(color) {
        material_at(record, i)
    } else {
        0
    }
}

/// Whether `color` is in check: it is to move, and the side to move is in
/// check.
pub open spec fn color_in_check(record: Seq<char>, color: Color) -> bool {
    side_of(record) == color && in_check_of(record)
}

/// The score of `eval_pacifist`, in millionths.
pub open spec fn pacifist_score(record: Seq<char>, color: Color) -> int {
    if status_of(record) == BoardStatus::Checkmate {
        CHECKMATED as int
    } else if color_in_check(record, color) {
        THREATENED as int
    } else {
        SCALE * sum_squares(|i: int| material_term(record, color.other(), i), 64)
    }
}

/// Whether a move is a capture en passant: a pawn changes its file and goes
/// to an empty square.
pub open spec fn takes_en_passant(record: Seq<char>, m: ChessMove) -> bool {
    &&& piece_at(record, m.source.index()) == Some(Piece::Pawn)
    &&& piece_at(record, m.dest.index()).is_none()
    &&& m.source.file_index() != m.dest.file_index()
}

/// The material value of what a move would capture: of the piece on its
/// destination square, or of the pawn that a capture en passant takes;
/// nothing for a move that captures nothing.
pub open spec fn capture_value(record: Seq<char>, m: ChessMove) -> int {
    match piece_at(record, m.dest.index()) {
        Some(p) => p.material(),
        None => if takes_en_passant(record, m) {
            Piece::Pawn.material()
        } else {
            0
        },
    }
}

/// The sum of the capture values of some moves.
pub open spec fn capture_sum(record: Seq<char>, moves: Seq<ChessMove>) -> int
    decreases moves.len(),
{
    if moves.len() == 0 {
        0
    } else {
        capture_sum(record, moves.drop_last()) + capture_value(record, moves.last())
    }
}

/// The least capture value among some moves, and 10000 for no move.
pub open spec fn least_capture(record: Seq<char>, moves: Seq<ChessMove>) -> int
    decreases moves.len(),
{
    if moves.len() == 0 {
        10000
    } else {
        let rest = least_capture(record, moves.drop_last());
        let v = capture_value(record, moves.last());
        if v < rest {
            v
        } else {
            rest
        }
    }
}

/// The score of `eval_generous`, in millionths.
pub open spec fn generous_score(record: Seq<char>) -> int {
    SCALE * capture_sum(record, legal_moves_of(record))
}

/// The score of `eval_insist_2`, in millionths.
pub open spec fn insist_2_score(record: Seq<char>) -> int {
    if status_of(record) == BoardStatus::Checkmate {
        CHECKMATED as int
    } else if status_of(record) == BoardStatus::Stalemate {
        THREATENED as int
    } else {
        let least = least_capture(record, legal_moves_of(record));
        if SCALE * least <= TOLERANCE {
            generous_score(record)
        } else {
            SCALE * (10000 + least)
        }
    }
}

/// The score of `eval_insist_3`, in millionths, rounded down.
pub open spec fn insist_3_score(record: Seq<char>) -> int {
    if status_of(record) == BoardStatus::Checkmate {
        CHECKMATED as int
    } else if status_of(record) == BoardStatus::Stalemate {
        THREATENED as int
    } else {
        (SCALE * capture_sum(record, legal_moves_of(record))) / (legal_moves_of(record).len() as int)
    }
}

/// Negating every term negates the sum.
pub proof fn sum_squares_negates(term: spec_fn(int) -> int, negated: spec_fn(int) -> int, n: int)
    requires
        forall|i: int| 0 <= i < n ==> #[trigger] negated(i) == -term(i),
    ensures
        sum_squares(negated, n) == -sum_squares(term, n),
    decreases n,
{
    if n > 0 {
        sum_squares_negates(term, negated, n - 1);
        assert(negated(n - 1) == -term(n - 1));
    }
}

/// For every position and side, the score of matching colours is the score
/// of opposite colours negated.
pub proof fn matching_negates_opposite(record: Seq<char>, color: Color)
    ensures
        matching_colors_score(record, color) == -opposite_colors_score(record, color),
{
    let matching = |i: int| matching_term(record, color, i);
    let opposite = |i: int| -matching_term(record, color, i);
    sum_squares_negates(matching, opposite, 64);
}

/// On a checkmate the pacifist score is the checkmate sentinel, whatever
/// stands on the board and whichever side asks.
pub proof fn pacifist_on_checkmate(record: Seq<char>, color: Color)
    requires
        status_of(record) == BoardStatus::Checkmate,
    ensures
        pacifist_score(record, color) == CHECKMATED,
{
}

/// Capture values are never negative, so neither are their sum and their
/// least.
pub proof fn captures_are_not_negative(record: Seq<char>, moves: Seq<ChessMove>)
    ensures
        0 <= capture_sum(record, moves),
        0 <= least_capture(record, moves) <= 10000,
    decreases moves.len(),
{
    if moves.len() > 0 {
        captures_are_not_negative(record, moves.drop_last());
    }
}

/// Where one of the moves captures nothing, the least capture value is 0.
pub proof fn least_capture_of_a_quiet_move(record: Seq<char>, moves: Seq<ChessMove>, k: int)
    requires
        0 <= k < moves.len(),
        capture_value(record, moves[k]) == 0,
    ensures
        least_capture(record, moves) == 0,
    decreases moves.len(),
{
    captures_are_not_negative(record, moves.drop_last());
    if k < moves.len() - 1 {
        assert(moves.drop_last()[k] == moves[k]);
        least_capture_of_a_quiet_move(record, moves.drop_last(), k);
    }
}

/// Where the position has a legal reply and every legal reply captures
/// nothing, the score of insist-2 is the generous score.
pub proof fn insist_2_without_captures_is_generous(record: Seq<char>)
    requires
        legal_moves_of(record).len() > 0,
        forall|k: int|
            0 <= k < legal_moves_of(record).len() ==> capture_value(
                record,
                #[trigger] legal_moves_of(record)[k],
            ) == 0,
    ensures
        insist_2_score(record) == generous_score(record),
{
    least_capture_of_a_quiet_move(record, legal_moves_of(record), 0);
}

/// The side whose colour a square has.
fn square_color(square: Square) -> (c: Color)
    ensures
        c == square.shade(),
{
    let rank: u8 = square.get_rank().to_index();
    let file: u8 = square.get_file().to_index();
    if (rank + file) % 2 == 0 {
        Color::Black
    } else {
        Color::White
    }
}

/// The material value of a piece.
fn value_of_piece(piece: Piece) -> (v: i128)
    ensures
        v == piece.material(),
        0 <= v <= 9,
{
    match piece {
        Piece::Pawn => 1,
        Piece::Knight => 3,
        Piece::Bishop => 3,
        Piece::Rook => 5,
        Piece::Queen => 9,
        Piece::King => 0,
    }
}

/// The number of king steps between two squares.
fn chebyshev(a: Square, b: Square) -> (d: i32)
    ensures
        d == a.distance(b),
        0 <= d <= 7,
{
    let ar: i32 = a.get_rank().to_index() as i32;
    let br: i32 = b.get_rank().to_index() as i32;
    let af: i32 = a.get_file().to_index() as i32;
    let bf: i32 = b.get_file().to_index() as i32;
    let rank_diff: i32 = if ar >= br { ar - br } else { br - ar };
    let file_diff: i32 = if af >= bf { af - bf } else { bf - af };
    if rank_diff >= file_diff {
        rank_diff
    } else {
        file_diff
    }
}

/// Counts the pieces of `color`: one up for each on a square of its own
/// colour, one down for each on a square of the other colour.
pub fn eval_matching_colors(board: &Position, color: Color) -> (score: Score)
    ensures
        score@ == matching_colors_score(board@, color),
{
    let ghost term = |i: int| matching_term(board@, color, i);
    let mut count: i64 = 0;
    let mut i: u8 = 0;
    while i < 64
        invariant
            i <= 64,
            term == |i: int| matching_term(board@, color, i),
            count == sum_squares(term, i as int),
            -(i as int) <= count <= i,
        decreases 64 - i,
    {
        let square = Square::from_index(i);
        if board.color_on(square) == Some(color) {
            if color == square_color(square) {
                count = count + 1;
            } else {
                count = count - 1;
            }
        }
        i = i + 1;
    }
    Score::from_int(count)
}

/// The same count with the signs turned round: one up for each piece of
/// `color` on a square of the other colour, one down for each on a square of
/// its own colour.
pub fn eval_opposite_colors(board: &Position, color: Color) -> (score: Score)
    ensures
        score@ == opposite_colors_score(board@, color),
{
    let ghost term = |i: int| -matching_term(board@, color, i);
    let mut count: i64 = 0;
    let mut i: u8 = 0;
    while i < 64
        invariant
            i <= 64,
            term == |i: int| -matching_term(board@, color, i),
            count == sum_squares(term, i as int),
            -(i as int) <= count <= i,
        decreases 64 - i,
    {
        let square = Square::from_index(i);
        if board.color_on(square) == Some(color) {
            if color != square_color(square) {
                count = count + 1;
            } else {
                count = count - 1;
            }
        }
        i = i + 1;
    }
    Score::from_int(count)
}

/// The number of king steps from each piece of `color` to `target`, summed.
fn total_distance(board: &Position, color: Color, target: Square) -> (dist: i64)
    ensures
        dist == sum_squares(|i: int| distance_term(board@, color, target, i), 64),
        0 <= dist <= 7 * 64,
{
    let ghost term = |i: int| distance_term(board@, color, target, i);
    let mut dist: i64 = 0;
    let mut i: u8 = 0;
    while i < 64
        invariant
            i <= 64,
            term == |i: int| distance_term(board@, color, target, i),
            dist == sum_squares(term, i as int),
            0 <= dist <= 7 * i,
        decreases 64 - i,
    {
        let square = Square::from_index(i);
        if board.color_on(square) == Some(color) {
            dist = dist + chebyshev(square, target) as i64;
        }
        i = i + 1;
    }
    dist
}

/// Minus the summed distance of the pieces of `color` from their own king:
/// the closer they huddle, the better.
pub fn eval_huddle(board: &Position, color: Color) -> (score: Score)
    ensures
        score@ == huddle_score(board@, color),
{
    let target = board.king_square(color);
    let dist = total_distance(board, color, target);
    Score::from_int(-dist)
}

/// Minus the summed distance of the pieces of `color` from the other side's
/// king: the closer they swarm, the better.
pub fn eval_swarm(board: &Position, color: Color) -> (score: Score)
    ensures
        score@ == swarm_score(board@, color),
{
    let target = board.king_square(color.opposite());
    let dist = total_distance(board, color, target);
    Score::from_int(-dist)
}

/// The material of `color` on the board.
fn total_material(board: &Position, color: Color) -> (total: i64)
    ensures
        total == sum_squares(|i: int| material_term(board@, color, i), 64),
        0 <= total <= 9 * 64,
{
    let ghost term = |i: int| material_term(board@, color, i);
    let mut total: i64 = 0;
    let mut i: u8 = 0;
    while i < 64
        invariant
            i <= 64,
            term == |i: int| material_term(board@, color, i),
            total == sum_squares(term, i as int),
            0 <= total <= 9 * i,
        decreases 64 - i,
    {
        let square = Square::from_index(i);
        if board.color_on(square) == Some(color) {
            if let Some(piece) = board.piece_on(square) {
                total = total + value_of_piece(piece) as i64;
            }
        }
        i = i + 1;
    }
    total
}

/// The material that the other side still holds, unless someone is
/// threatened: the checkmate sentinel where the game has ended in checkmate,
/// the check sentinel where `color` is in check.
pub fn eval_pacifist(board: &Position, color: Color) -> (score: Score)
    ensures
        score@ == pacifist_score(board@, color),
{
    if board.status() == BoardStatus::Checkmate {
        Score::from_millionths(CHECKMATED)
    } else if board.side_to_move() == color && board.in_check() {
        Score::from_millionths(THREATENED)
    } else {
        Score::from_int(total_material(board, color.opposite()))
    }
}

/// The material value of what a move would capture on this board.
pub fn captured_value(board: &Position, m: &ChessMove) -> (v: i128)
    ensures
        v == capture_value(board@, *m),
        0 <= v <= 9,
{
    match board.piece_on(m.get_dest()) {
        Some(capture) => value_of_piece(capture),
        None => {
            if board.piece_on(m.get_source()) == Some(Piece::Pawn)
                && m.get_source().get_file().to_index() != m.get_dest().get_file().to_index() {
                value_of_piece(Piece::Pawn)
            } else {
                0
            }
        },
    }
}

/// The summed capture values of `moves` on this board.
pub fn sum_captures(board: &Position, moves: &Vec<ChessMove>) -> (total: i128)
    ensures
        total == capture_sum(board@, moves@),
        0 <= total <= 9 * moves.len(),
{
    let mut total: i128 = 0;
    let mut k: usize = 0;
    while k < moves.len()
        invariant
            k <= moves.len(),
            total == capture_sum(board@, moves@.take(k as int)),
            0 <= total <= 9 * k,
        decreases moves.len() - k,
    {
        assert(moves@.take(k + 1).drop_last() == moves@.take(k as int));
        total = total + captured_value(board, &moves[k]);
        k = k + 1;
    }
    assert(moves@.take(k as int) == moves@);
    total
}

/// The least capture value among `moves` on this board, 10000 for no move.
pub fn min_capture(board: &Position, moves: &Vec<ChessMove>) -> (least: i128)
    ensures
        least == least_capture(board@, moves@),
        0 <= least <= 10000,
{
    let mut least: i128 = 10000;
    let mut k: usize = 0;
    while k < moves.len()
        invariant
            k <= moves.len(),
            least == least_capture(board@, moves@.take(k as int)),
            0 <= least <= 10000,
        decreases moves.len() - k,
    {
        assert(moves@.take(k + 1).drop_last() == moves@.take(k as int));
        let v = captured_value(board, &moves[k]);
        if v < least {
            least = v;
        }
        k = k + 1;
    }
    assert(moves@.take(k as int) == moves@);
    least
}

/// The material that the side to move could capture with its next move,
/// summed over its legal moves. Defined from the point of view of the side
/// that has just moved.
pub fn eval_generous(board: &Position, color: Color) -> (score: Score)
    requires
        side_of(board@) != color,
    ensures
        score@ == generous_score(board@),
{
    let moves = board.legal_moves();
    Score::from_millionths(SCALE * sum_captures(board, &moves))
}

/// Prefers positions in which every reply takes material: 10000 plus the
/// least capture value among the replies, or the generous score where some
/// reply takes nothing. The checkmate sentinel after checkmate, the check
/// sentinel after stalemate. Defined from the point of view of the side that
/// has just moved.
pub fn eval_insist_2(board: &Position, color: Color) -> (score: Score)
    requires
        side_of(board@) != color,
    ensures
        score@ == insist_2_score(board@),
{
    let moves = board.legal_moves();
    if moves.len() == 0 {
        if board.in_check() {
            return Score::from_millionths(CHECKMATED);
        } else {
            return Score::from_millionths(THREATENED);
        }
    }
    let least = min_capture(board, &moves);
    if SCALE * least <= TOLERANCE {
        Score::from_millionths(SCALE * sum_captures(board, &moves))
    } else {
        Score::from_millionths(SCALE * (10000 + least))
    }
}

/// The average capture value over the replies, rounded down to a millionth.
/// The checkmate sentinel after checkmate, the check sentinel after
/// stalemate. Defined from the point of view of the side that has just
/// moved.
pub fn eval_insist_3(board: &Position, color: Color) -> (score: Score)
    requires
        side_of(board@) != color,
    ensures
        score@ == insist_3_score(board@),
{
    let moves = board.legal_moves();
    if moves.len() == 0 {
        if board.in_check() {
            return Score::from_millionths(CHECKMATED);
        } else {
            return Score::from_millionths(THREATENED);
        }
    }
    let total = sum_captures(board, &moves);
    Score::from_millionths((SCALE * total) / (moves.len() as i128))
}

/// A way of scoring positions: a function of the position and of the side
/// from whose point of view the score is taken, and of nothing else.
pub trait Evaluator {
    /// Whether the evaluator is defined only from the point of view of the
    /// side that is not to move.
    spec fn opponent_relative(&self) -> bool;

    /// The score, in millionths, of the position with the given record.
    spec fn score(&self, record: Seq<char>, perspective: Color) -> int;

    /// Whether the evaluator is defined only from the point of view of the
    /// side that is not to move.
    fn is_opponent_relative(&self) -> (r: bool)
        ensures
            r == self.opponent_relative(),
    ;

    /// Scores a position.
    fn evaluate(&self, board: &Position, perspective: Color) -> (s: Score)
        requires
            self.opponent_relative() ==> side_of(board@) != perspective,
        ensures
            s@ == self.score(board@, perspective),
    ;
}

/// The evaluator `eval_matching_colors`.
#[derive(Clone, Copy, Debug)]
pub struct MatchingColors;

impl Evaluator for MatchingColors {
    open spec fn opponent_relative(&self) -> bool {
        false
    }

    fn is_opponent_relative(&self) -> (r: bool) {
        false
    }

    open spec fn score(&self, record: Seq<char>, perspective: Color) -> int {
        matching_colors_score(record, perspective)
    }

    fn evaluate(&self, board: &Position, perspective: Color) -> (s: Score) {
        eval_matching_colors(board, perspective)
    }
}

/// The evaluator `eval_opposite_colors`.
#[derive(Clone, Copy, Debug)]
pub struct OppositeColors;

impl Evaluator for OppositeColors {
    open spec fn opponent_relative(&self) -> bool {
        false
    }

    fn is_opponent_relative(&self) -> (r: bool) {
        false
    }

    open spec fn score(&self, record: Seq<char>, perspective: Color) -> int {
        opposite_colors_score(record, perspective)
    }

    fn evaluate(&self, board: &Position, perspective: Color) -> (s: Score) {
        eval_opposite_colors(board, perspective)
    }
}

/// The evaluator `eval_huddle`.
#[derive(Clone, Copy, Debug)]
pub struct Huddle;

impl Evaluator for Huddle {
    open spec fn opponent_relative(&self) -> bool {
        false
    }

    fn is_opponent_relative(&self) -> (r: bool) {
        false
    }

    open spec fn score(&self, record: Seq<char>, perspective: Color) -> int {
        huddle_score(record, perspective)
    }

    fn evaluate(&self, board: &Position, perspective: Color) -> (s: Score) {
        eval_huddle(board, perspective)
    }
}

/// The evaluator `eval_swarm`.
#[derive(Clone, Copy, Debug)]
pub struct Swarm;

impl Evaluator for Swarm {
    open spec fn opponent_relative(&self) -> bool {
        false
    }

    fn is_opponent_relative(&self) -> (r: bool) {
        false
    }

    open spec fn score(&self, record: Seq<char>, perspective: Color) -> int {
        swarm_score(record, perspective)
    }

    fn evaluate(&self, board: &Position, perspective: Color) -> (s: Score) {
        eval_swarm(board, perspective)
    }
}

/// The evaluator `eval_pacifist`.
#[derive(Clone, Copy, Debug)]
pub struct Pacifist;

impl Evaluator for Pacifist {
    open spec fn opponent_relative(&self) -> bool {
        false
    }

    fn is_opponent_relative(&self) -> (r: bool) {
        false
    }

    open spec fn score(&self, record: Seq<char>, perspective: Color) -> int {
        pacifist_score(record, perspective)
    }

    fn evaluate(&self, board: &Position, perspective: Color) -> (s: Score) {
        eval_pacifist(board, perspective)
    }
}

/// The evaluator `eval_generous`.
#[derive(Clone, Copy, Debug)]
pub struct Generous;

impl Evaluator for Generous {
    open spec fn opponent_relative(&self) -> bool {
        true
    }

    fn is_opponent_relative(&self) -> (r: bool) {
        true
    }

    open spec fn score(&self, record: Seq<char>, perspective: Color) -> int {
        generous_score(record)
    }

    fn evaluate(&self, board: &Position, perspective: Color) -> (s: Score) {
        eval_generous(board, perspective)
    }
}

/// The evaluator `eval_insist_2`.
#[derive(Clone, Copy, Debug)]
pub struct Insist2;

impl Evaluator for Insist2 {
    open spec fn opponent_relative(&self) -> bool {
        true
    }

    fn is_opponent_relative(&self) -> (r: bool) {
        true
    }

    open spec fn score(&self, record: Seq<char>, perspective: Color) -> int {
        insist_2_score(record)
    }

    fn evaluate(&self, board: &Position, perspective: Color) -> (s: Score) {
        eval_insist_2(board, perspective)
    }
}

/// The evaluator `eval_insist_3`.
#[derive(Clone, Copy, Debug)]
pub struct Insist3;

impl Evaluator for Insist3 {
    open spec fn opponent_relative(&self) -> bool {
        true
    }

    fn is_opponent_relative(&self) -> (r: bool) {
        true
    }

    open spec fn score(&self, record: Seq<char>, perspective: Color) -> int {
        insist_3_score(record)
    }

    fn evaluate(&self, board: &Position, perspective: Color) -> (s: Score) {
        eval_insist_3(board, perspective)
    }
}

/// An evaluator that gives every position the same score.
#[derive(Clone, Copy, Debug)]
pub struct Constant {
    pub score: Score,
}

impl Evaluator for Constant {
    open spec fn opponent_relative(&self) -> bool {
        false
    }

    fn is_opponent_relative(&self) -> (r: bool) {
        false
    }

    open spec fn score(&self, record: Seq<char>, perspective: Color) -> int {
        self.score@
    }

    fn evaluate(&self, board: &Position, perspective: Color) -> (s: Score) {
        self.score
    }
}

} // verus!
