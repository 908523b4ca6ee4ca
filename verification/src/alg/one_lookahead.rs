//! The greedy engine: it looks one move ahead, scores every position it can
//! reach, and plays one of the best.

use vstd::prelude::*;
use crate::alg::chess_alg::{available_moves, ChessAlgorithm};
use crate::alg::evaluators::{
    matching_colors_score, matching_term, sum_squares, Evaluator, MatchingColors,
};
use crate::alg::tie_break::{
    is_whole, pick, scores_well_apart_tie_at_the_greatest, select_tied, tally, tied_moves,
    tied_moves_are_moves, values_of, whole_scores_are_well_apart,
};
use crate::board::{ChessMove, Color};
use crate::position::{legal_moves_of, successor_of, Position};
use crate::rules::side_of;
use crate::score::{Extended, Value, SCALE};

verus! {

/// The score of each legal move, in the order of the moves: what the
/// evaluator makes of the position that the move leads to.
pub open spec fn lookahead_scores<E: Evaluator>(
    eval: E,
    record: Seq<char>,
    color: Color,
) -> Seq<Extended> {
    Seq::new(
        legal_moves_of(record).len(),
        |k: int|
            Extended::Finite(eval.score(successor_of(record, legal_moves_of(record)[k]), color)),
    )
}

/// With an evaluator whose scores are whole numbers, the engine draws among
/// exactly the moves that lead to the greatest score: a move is tied for
/// best if and only if no move leads to a greater score.
pub proof fn whole_scores_play_for_the_greatest<E: Evaluator>(
    eval: E,
    record: Seq<char>,
    color: Color,
)
    requires
        forall|r: Seq<char>, side: Color| #[trigger] eval.score(r, side) % (SCALE as int) == 0,
    ensures
        forall|k: int|
            0 <= k < legal_moves_of(record).len() ==> (tally(
                lookahead_scores(eval, record, color),
            ).tied.contains(k) <==> forall|j: int|
                0 <= j < legal_moves_of(record).len() ==> #[trigger] eval.score(
                    successor_of(record, legal_moves_of(record)[j]),
                    color,
                ) <= #[trigger] eval.score(successor_of(record, legal_moves_of(record)[k]), color)),
{
    let scores = lookahead_scores(eval, record, color);
    assert forall|k: int| 0 <= k < scores.len() implies is_whole(#[trigger] scores[k]) by {
        assert(eval.score(successor_of(record, legal_moves_of(record)[k]), color) % (SCALE as int)
            == 0);
    }
    whole_scores_are_well_apart(scores);
    scores_well_apart_tie_at_the_greatest(scores);
    assert forall|k: int| 0 <= k < legal_moves_of(record).len() implies (tally(scores).tied.contains(
        k,
    ) <==> forall|j: int|
        0 <= j < legal_moves_of(record).len() ==> #[trigger] eval.score(
            successor_of(record, legal_moves_of(record)[j]),
            color,
        ) <= #[trigger] eval.score(successor_of(record, legal_moves_of(record)[k]), color)) by {
        if tally(scores).tied.contains(k) {
            assert forall|j: int| 0 <= j < legal_moves_of(record).len() implies #[trigger] eval.score(
                successor_of(record, legal_moves_of(record)[j]),
                color,
            ) <= eval.score(successor_of(record, legal_moves_of(record)[k]), color) by {
                assert(scores[j].le(scores[k]));
            }
        }
        if forall|j: int|
            0 <= j < legal_moves_of(record).len() ==> #[trigger] eval.score(
                successor_of(record, legal_moves_of(record)[j]),
                color,
            ) <= eval.score(successor_of(record, legal_moves_of(record)[k]), color) {
            assert forall|j: int| 0 <= j < scores.len() implies (#[trigger] scores[j]).le(
                scores[k],
            ) by {
                assert(eval.score(successor_of(record, legal_moves_of(record)[j]), color)
                    <= eval.score(successor_of(record, legal_moves_of(record)[k]), color));
            }
        }
    }
}

/// The scores of matching colours are whole numbers, so the engine that
/// looks ahead with them draws among exactly the moves that lead to the
/// greatest count.
pub proof fn matching_colors_plays_for_the_greatest_count(record: Seq<char>, color: Color)
    ensures
        forall|k: int|
            0 <= k < legal_moves_of(record).len() ==> (tally(
                lookahead_scores(MatchingColors, record, color),
            ).tied.contains(k) <==> forall|j: int|
                0 <= j < legal_moves_of(record).len() ==> #[trigger] matching_colors_score(
                    successor_of(record, legal_moves_of(record)[j]),
                    color,
                ) <= #[trigger] matching_colors_score(
                    successor_of(record, legal_moves_of(record)[k]),
                    color,
                )),
{
    assert forall|r: Seq<char>, side: Color| #[trigger]
        MatchingColors.score(r, side) % (SCALE as int) == 0 by {
        let count = sum_squares(|i: int| matching_term(r, side, i), 64);
        assert((SCALE * count) % (SCALE as int) == 0) by (nonlinear_arith);
    }
    whole_scores_play_for_the_greatest(MatchingColors, record, color);
    let moves = legal_moves_of(record);
    let tied = tally(lookahead_scores(MatchingColors, record, color)).tied;
    assert forall|k: int| 0 <= k < moves.len() implies (tied.contains(k) <==> forall|j: int|
        0 <= j < moves.len() ==> #[trigger] matching_colors_score(
            successor_of(record, moves[j]),
            color,
        ) <= #[trigger] matching_colors_score(successor_of(record, moves[k]), color)) by {
        if tied.contains(k) {
            assert forall|j: int| 0 <= j < moves.len() implies #[trigger] matching_colors_score(
                successor_of(record, moves[j]),
                color,
            ) <= matching_colors_score(successor_of(record, moves[k]), color) by {
                assert(MatchingColors.score(successor_of(record, moves[j]), color)
                    <= MatchingColors.score(successor_of(record, moves[k]), color));
            }
        }
        if forall|j: int|
            0 <= j < moves.len() ==> #[trigger] matching_colors_score(
                successor_of(record, moves[j]),
                color,
            ) <= matching_colors_score(successor_of(record, moves[k]), color) {
            assert forall|j: int| 0 <= j < moves.len() implies #[trigger] MatchingColors.score(
                successor_of(record, moves[j]),
                color,
            ) <= MatchingColors.score(successor_of(record, moves[k]), color) by {
                assert(matching_colors_score(successor_of(record, moves[j]), color)
                    <= matching_colors_score(successor_of(record, moves[k]), color));
            }
        }
    }
}

/// An engine that plays for `color` and looks one move ahead with `eval`.
#[derive(Debug)]
pub struct SingleLookaheadEngine<E: Evaluator> {
    pub color: Color,
    pub eval: E,
}

impl<E: Evaluator> SingleLookaheadEngine<E> {
    /// An engine that plays for `color` with the evaluator `eval`.
    pub fn new(color: Color, eval: E) -> (engine: Self)
        ensures
            engine.color == color,
            engine.eval == eval,
    {
        SingleLookaheadEngine { color, eval }
    }

    /// Whether the engine can score the moves of a position: an evaluator
    /// for the side that has just moved asks that the engine's side be to
    /// move.
    pub open spec fn ready(&self, record: Seq<char>) -> bool {
        self.eval.opponent_relative() ==> side_of(record) == self.color
    }

    /// Whether the engine can score the moves of a position.
    pub fn is_ready(&self, board: &Position) -> (r: bool)
        ensures
            r == self.ready(board@),
    {
        !self.eval.is_opponent_relative() || board.side_to_move() == self.color
    }

    /// The moves among which the engine draws: those tied for best.
    pub open spec fn candidates(&self, record: Seq<char>) -> Seq<ChessMove> {
        tied_moves(legal_moves_of(record), lookahead_scores(self.eval, record, self.color))
    }

    /// The score of each legal move, in the order of the moves.
    pub fn scores(&self, board: &Position) -> (scores: Vec<Value>)
        requires
            self.ready(board@),
        ensures
            values_of(scores@) == lookahead_scores(self.eval, board@, self.color),
    {
        let moves = available_moves(board);
        let mut scores: Vec<Value> = Vec::new();
        let mut k: usize = 0;
        while k < moves.len()
            invariant
                k <= moves.len(),
                moves@ == legal_moves_of(board@),
                self.ready(board@),
                scores.len() == k,
                forall|j: int|
                    0 <= j < k ==> scores[j]@ == lookahead_scores(
                        self.eval,
                        board@,
                        self.color,
                    )[j],
            decreases moves.len() - k,
        {
            let res = board.make_move_new(moves[k]);
            let score = self.eval.evaluate(&res, self.color);
            scores.push(Value::Finite(score));
            k = k + 1;
        }
        assert(values_of(scores@) == lookahead_scores(self.eval, board@, self.color));
        scores
    }

    /// The moves tied for best.
    pub fn best_moves(&self, board: &Position) -> (best_moves: Vec<ChessMove>)
        requires
            self.ready(board@),
        ensures
            best_moves@ == self.candidates(board@),
            legal_moves_of(board@).len() > 0 ==> best_moves.len() > 0,
            forall|k: int|
                0 <= k < best_moves.len() ==> legal_moves_of(board@).contains(
                    #[trigger] best_moves[k],
                ),
    {
        let moves = available_moves(board);
        let scores = self.scores(board);
        proof {
            tied_moves_are_moves(moves@, values_of(scores@));
        }
        select_tied(&moves, &scores)
    }
}

impl<E: Evaluator> ChessAlgorithm for SingleLookaheadEngine<E> {
    open spec fn accepts(&self, record: Seq<char>) -> bool {
        self.ready(record)
    }

    fn can_play(&self, board: &Position) -> (ok: bool) {
        self.is_ready(board)
    }

    fn get_move(&mut self, board: &Position) -> (m: ChessMove)
        ensures
            old(self).candidates(board@).contains(m),
            *final(self) == *old(self),
    {
        let best_moves = self.best_moves(board);
        pick(&best_moves)
    }

    fn do_move(&mut self, board: &Position, chess_move: ChessMove)
        ensures
            *final(self) == *old(self),
    {
    }
}

} // verus!
