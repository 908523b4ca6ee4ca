//! The searching engine: a depth-limited minimax with alpha-beta pruning
//! below each move, and the tie-breaking rule at the root.

use vstd::prelude::*;
use crate::alg::chess_alg::{available_moves, ChessAlgorithm};
use crate::alg::evaluators::Evaluator;
use crate::alg::one_lookahead::{lookahead_scores, SingleLookaheadEngine};
use crate::alg::tie_break::{
    equal_scores_are_all_tied, equal_scores_tie_all_moves, is_whole, pick,
    scores_well_apart_tie_at_the_greatest, select_tied, tally, tied_moves, tied_moves_are_moves,
    values_of, well_apart, whole_scores_are_well_apart,
};
use crate::board::{ChessMove, Color};
use crate::position::{legal_moves_of, successor_of, Position};
use crate::rules::side_of;
use crate::score::{Extended, Value, SCALE};

verus! {

/// The side to move after `plies` more moves.
pub open spec fn side_after(side: Color, plies: nat) -> Color {
    if plies % 2 == 0 {
        side
    } else {
        side.other()
    }
}

/// The value of a maximizing layer: the evaluator's score at depth 0;
/// otherwise what the window's lower bound has been raised to by the moves,
/// or the upper bound as soon as a move reaches it.
pub open spec fn max_value<E: Evaluator>(
    eval: E,
    record: Seq<char>,
    color: Color,
    alpha: Extended,
    beta: Extended,
    depth: nat,
) -> Extended
    decreases depth, 1int, 0int,
{
    if depth == 0 {
        Extended::Finite(eval.score(record, color))
    } else {
        max_value_from(eval, record, color, alpha, beta, depth, 0)
    }
}

/// The value of a maximizing layer whose moves before the `k`-th have been
/// searched and have left the lower bound at `alpha`.
pub open spec fn max_value_from<E: Evaluator>(
    eval: E,
    record: Seq<char>,
    color: Color,
    alpha: Extended,
    beta: Extended,
    depth: nat,
    k: nat,
) -> Extended
    decreases depth, 0int, legal_moves_of(record).len() - k,
{
    if depth == 0 || k >= legal_moves_of(record).len() {
        alpha
    } else {
        let score = min_value(
            eval,
            successor_of(record, legal_moves_of(record)[k as int]),
            color,
            alpha,
            beta,
            (depth - 1) as nat,
        );
        if beta.le(score) {
            beta
        } else {
            max_value_from(
                eval,
                record,
                color,
                if alpha.lt(score) {
                    score
                } else {
                    alpha
                },
                beta,
                depth,
                k + 1,
            )
        }
    }
}

/// The value of a minimizing layer: the evaluator's score at depth 0;
/// otherwise what the window's upper bound has been lowered to by the moves,
/// or the lower bound as soon as a move reaches it.
pub open spec fn min_value<E: Evaluator>(
    eval: E,
    record: Seq<char>,
    color: Color,
    alpha: Extended,
    beta: Extended,
    depth: nat,
) -> Extended
    decreases depth, 1int, 0int,
{
    if depth == 0 {
        Extended::Finite(eval.score(record, color))
    } else {
        min_value_from(eval, record, color, alpha, beta, depth, 0)
    }
}

/// The value of a minimizing layer whose moves before the `k`-th have been
/// searched and have left the upper bound at `beta`.
pub open spec fn min_value_from<E: Evaluator>(
    eval: E,
    record: Seq<char>,
    color: Color,
    alpha: Extended,
    beta: Extended,
    depth: nat,
    k: nat,
) -> Extended
    decreases depth, 0int, legal_moves_of(record).len() - k,
{
    if depth == 0 || k >= legal_moves_of(record).len() {
        beta
    } else {
        let score = max_value(
            eval,
            successor_of(record, legal_moves_of(record)[k as int]),
            color,
            alpha,
            beta,
            (depth - 1) as nat,
        );
        if score.le(alpha) {
            alpha
        } else {
            min_value_from(
                eval,
                record,
                color,
                alpha,
                if score.lt(beta) {
                    score
                } else {
                    beta
                },
                depth,
                k + 1,
            )
        }
    }
}

/// The value of each legal move, in the order of the moves: that of a
/// minimizing layer of the given depth, over the full window, on the
/// position the move leads to.
pub open spec fn search_scores<E: Evaluator>(
    eval: E,
    record: Seq<char>,
    color: Color,
    depth: nat,
) -> Seq<Extended> {
    Seq::new(
        legal_moves_of(record).len(),
        |k: int|
            min_value(
                eval,
                successor_of(record, legal_moves_of(record)[k]),
                color,
                Extended::NegInf,
                Extended::PosInf,
                depth,
            ),
    )
}

/// The greater of two values.
pub open spec fn max_of(a: Extended, b: Extended) -> Extended {
    if a.lt(b) {
        b
    } else {
        a
    }
}

/// The lesser of two values.
pub open spec fn min_of(a: Extended, b: Extended) -> Extended {
    if b.lt(a) {
        b
    } else {
        a
    }
}

/// A value brought into a window: the lower bound for a value at or below
/// it, the upper bound for a value at or above it.
pub open spec fn clip(value: Extended, alpha: Extended, beta: Extended) -> Extended {
    if value.le(alpha) {
        alpha
    } else if beta.le(value) {
        beta
    } else {
        value
    }
}

/// The minimax value of a position in which the engine's side is to move:
/// the evaluator's score at depth 0, otherwise the greatest of the values
/// that the moves lead to, and minus infinity where there is no move.
pub open spec fn greatest_value<E: Evaluator>(
    eval: E,
    record: Seq<char>,
    color: Color,
    depth: nat,
) -> Extended
    decreases depth, 1int, 0int,
{
    if depth == 0 {
        Extended::Finite(eval.score(record, color))
    } else {
        greatest_value_from(eval, record, color, depth, 0)
    }
}

/// The greatest of the values that the moves from the `k`-th on lead to.
pub open spec fn greatest_value_from<E: Evaluator>(
    eval: E,
    record: Seq<char>,
    color: Color,
    depth: nat,
    k: nat,
) -> Extended
    decreases depth, 0int, legal_moves_of(record).len() - k,
{
    if depth == 0 || k >= legal_moves_of(record).len() {
        Extended::NegInf
    } else {
        max_of(
            least_value(
                eval,
                successor_of(record, legal_moves_of(record)[k as int]),
                color,
                (depth - 1) as nat,
            ),
            greatest_value_from(eval, record, color, depth, k + 1),
        )
    }
}

/// The minimax value of a position in which the other side is to move: the
/// evaluator's score at depth 0, otherwise the least of the values that the
/// moves lead to, and plus infinity where there is no move.
pub open spec fn least_value<E: Evaluator>(
    eval: E,
    record: Seq<char>,
    color: Color,
    depth: nat,
) -> Extended
    decreases depth, 1int, 0int,
{
    if depth == 0 {
        Extended::Finite(eval.score(record, color))
    } else {
        least_value_from(eval, record, color, depth, 0)
    }
}

/// The least of the values that the moves from the `k`-th on lead to.
pub open spec fn least_value_from<E: Evaluator>(
    eval: E,
    record: Seq<char>,
    color: Color,
    depth: nat,
    k: nat,
) -> Extended
    decreases depth, 0int, legal_moves_of(record).len() - k,
{
    if depth == 0 || k >= legal_moves_of(record).len() {
        Extended::PosInf
    } else {
        min_of(
            greatest_value(
                eval,
                successor_of(record, legal_moves_of(record)[k as int]),
                color,
                (depth - 1) as nat,
            ),
            least_value_from(eval, record, color, depth, k + 1),
        )
    }
}

/// Pruning loses nothing: over a window that is not empty, a layer of the
/// search has the minimax value of its position, brought into the window.
/// At depth 0 it has the evaluator's score as it stands.
pub proof fn pruning_keeps_the_value<E: Evaluator>(
    eval: E,
    record: Seq<char>,
    color: Color,
    alpha: Extended,
    beta: Extended,
    depth: nat,
)
    requires
        alpha.lt(beta),
    ensures
        depth == 0 ==> max_value(eval, record, color, alpha, beta, depth) == greatest_value(
            eval,
            record,
            color,
            depth,
        ),
        depth == 0 ==> min_value(eval, record, color, alpha, beta, depth) == least_value(
            eval,
            record,
            color,
            depth,
        ),
        depth > 0 ==> max_value(eval, record, color, alpha, beta, depth) == clip(
            greatest_value(eval, record, color, depth),
            alpha,
            beta,
        ),
        depth > 0 ==> min_value(eval, record, color, alpha, beta, depth) == clip(
            least_value(eval, record, color, depth),
            alpha,
            beta,
        ),
    decreases depth, 1int, 0int,
{
    if depth > 0 {
        max_layer_is_clipped(eval, record, color, alpha, beta, depth, 0);
        min_layer_is_clipped(eval, record, color, alpha, beta, depth, 0);
    }
}

/// A maximizing layer some of whose moves have been searched: its value is
/// the greater of its lower bound and of the minimax values of the moves
/// still to come, brought into the window.
proof fn max_layer_is_clipped<E: Evaluator>(
    eval: E,
    record: Seq<char>,
    color: Color,
    alpha: Extended,
    beta: Extended,
    depth: nat,
    k: nat,
)
    requires
        depth > 0,
        alpha.lt(beta),
        k <= legal_moves_of(record).len(),
    ensures
        max_value_from(eval, record, color, alpha, beta, depth, k) == clip(
            max_of(alpha, greatest_value_from(eval, record, color, depth, k)),
            alpha,
            beta,
        ),
    decreases depth, 0int, legal_moves_of(record).len() - k,
{
    if k < legal_moves_of(record).len() {
        let next = successor_of(record, legal_moves_of(record)[k as int]);
        pruning_keeps_the_value(eval, next, color, alpha, beta, (depth - 1) as nat);
        let score = min_value(eval, next, color, alpha, beta, (depth - 1) as nat);
        if !beta.le(score) {
            let raised = if alpha.lt(score) {
                score
            } else {
                alpha
            };
            max_layer_is_clipped(eval, record, color, raised, beta, depth, k + 1);
        }
    }
}

/// A minimizing layer some of whose moves have been searched: its value is
/// the lesser of its upper bound and of the minimax values of the moves
/// still to come, brought into the window.
proof fn min_layer_is_clipped<E: Evaluator>(
    eval: E,
    record: Seq<char>,
    color: Color,
    alpha: Extended,
    beta: Extended,
    depth: nat,
    k: nat,
)
    requires
        depth > 0,
        alpha.lt(beta),
        k <= legal_moves_of(record).len(),
    ensures
        min_value_from(eval, record, color, alpha, beta, depth, k) == clip(
            min_of(beta, least_value_from(eval, record, color, depth, k)),
            alpha,
            beta,
        ),
    decreases depth, 0int, legal_moves_of(record).len() - k,
{
    if k < legal_moves_of(record).len() {
        let next = successor_of(record, legal_moves_of(record)[k as int]);
        pruning_keeps_the_value(eval, next, color, alpha, beta, (depth - 1) as nat);
        let score = max_value(eval, next, color, alpha, beta, (depth - 1) as nat);
        if !score.le(alpha) {
            let lowered = if score.lt(beta) {
                score
            } else {
                beta
            };
            min_layer_is_clipped(eval, record, color, alpha, lowered, depth, k + 1);
        }
    }
}

/// The value that the search gives each legal move is the minimax value of
/// the position the move leads to.
pub proof fn search_scores_are_minimax<E: Evaluator>(
    eval: E,
    record: Seq<char>,
    color: Color,
    depth: nat,
)
    ensures
        forall|k: int|
            0 <= k < legal_moves_of(record).len() ==> #[trigger] search_scores(
                eval,
                record,
                color,
                depth,
            )[k] == least_value(
                eval,
                successor_of(record, legal_moves_of(record)[k]),
                color,
                depth,
            ),
{
    assert forall|k: int| 0 <= k < legal_moves_of(record).len() implies #[trigger] search_scores(
        eval,
        record,
        color,
        depth,
    )[k] == least_value(eval, successor_of(record, legal_moves_of(record)[k]), color, depth) by {
        pruning_keeps_the_value(
            eval,
            successor_of(record, legal_moves_of(record)[k]),
            color,
            Extended::NegInf,
            Extended::PosInf,
            depth,
        );
    }
}

/// Under an evaluator whose scores are whole numbers, every minimax value is
/// a whole number or an infinity.
pub proof fn minimax_values_are_whole<E: Evaluator>(
    eval: E,
    record: Seq<char>,
    color: Color,
    depth: nat,
)
    requires
        forall|r: Seq<char>, side: Color| #[trigger] eval.score(r, side) % (SCALE as int) == 0,
    ensures
        is_whole(greatest_value(eval, record, color, depth)),
        is_whole(least_value(eval, record, color, depth)),
    decreases depth, 1int, 0int,
{
    if depth > 0 {
        minimax_values_from_are_whole(eval, record, color, depth, 0);
    }
}

/// The same for the values of the moves from the `k`-th on.
proof fn minimax_values_from_are_whole<E: Evaluator>(
    eval: E,
    record: Seq<char>,
    color: Color,
    depth: nat,
    k: nat,
)
    requires
        forall|r: Seq<char>, side: Color| #[trigger] eval.score(r, side) % (SCALE as int) == 0,
        depth > 0,
    ensures
        is_whole(greatest_value_from(eval, record, color, depth, k)),
        is_whole(least_value_from(eval, record, color, depth, k)),
    decreases depth, 0int, legal_moves_of(record).len() - k,
{
    if k < legal_moves_of(record).len() {
        let next = successor_of(record, legal_moves_of(record)[k as int]);
        minimax_values_are_whole(eval, next, color, (depth - 1) as nat);
        minimax_values_from_are_whole(eval, record, color, depth, k + 1);
    }
}

/// Under an evaluator whose scores are whole numbers, the search draws among
/// exactly the moves of greatest minimax value: a move is tied for best if
/// and only if no move leads to a position of greater minimax value.
pub proof fn whole_scores_search_for_the_greatest<E: Evaluator>(
    eval: E,
    record: Seq<char>,
    color: Color,
    depth: nat,
)
    requires
        forall|r: Seq<char>, side: Color| #[trigger] eval.score(r, side) % (SCALE as int) == 0,
    ensures
        forall|k: int|
            0 <= k < legal_moves_of(record).len() ==> (tally(
                search_scores(eval, record, color, depth),
            ).tied.contains(k) <==> forall|j: int|
                0 <= j < legal_moves_of(record).len() ==> (#[trigger] least_value(
                    eval,
                    successor_of(record, legal_moves_of(record)[j]),
                    color,
                    depth,
                )).le(
                    #[trigger] least_value(
                        eval,
                        successor_of(record, legal_moves_of(record)[k]),
                        color,
                        depth,
                    ),
                )),
{
    let moves = legal_moves_of(record);
    let scores = search_scores(eval, record, color, depth);
    search_scores_are_minimax(eval, record, color, depth);
    assert forall|k: int| 0 <= k < scores.len() implies is_whole(#[trigger] scores[k]) by {
        minimax_values_are_whole(eval, successor_of(record, moves[k]), color, depth);
    }
    whole_scores_are_well_apart(scores);
    scores_well_apart_tie_at_the_greatest(scores);
    assert forall|k: int| 0 <= k < moves.len() implies (tally(scores).tied.contains(k) <==> forall|
        j: int,
    |
        0 <= j < moves.len() ==> (#[trigger] least_value(
            eval,
            successor_of(record, moves[j]),
            color,
            depth,
        )).le(#[trigger] least_value(eval, successor_of(record, moves[k]), color, depth))) by {
        if tally(scores).tied.contains(k) {
            assert forall|j: int| 0 <= j < moves.len() implies (#[trigger] least_value(
                eval,
                successor_of(record, moves[j]),
                color,
                depth,
            )).le(least_value(eval, successor_of(record, moves[k]), color, depth)) by {
                assert(scores[j].le(scores[k]));
            }
        }
        if forall|j: int|
            0 <= j < moves.len() ==> (#[trigger] least_value(
                eval,
                successor_of(record, moves[j]),
                color,
                depth,
            )).le(least_value(eval, successor_of(record, moves[k]), color, depth)) {
            assert forall|j: int| 0 <= j < scores.len() implies (#[trigger] scores[j]).le(
                scores[k],
            ) by {
                assert(least_value(eval, successor_of(record, moves[j]), color, depth).le(
                    least_value(eval, successor_of(record, moves[k]), color, depth),
                ));
            }
        }
    }
}

/// A search of depth 0 gives every move the score of a one-ply lookahead
/// with the same evaluator, so the two engines draw among the same moves.
pub proof fn depth_zero_is_lookahead<E: Evaluator>(eval: E, record: Seq<char>, color: Color)
    ensures
        search_scores(eval, record, color, 0) == lookahead_scores(eval, record, color),
        (TreeSearchEngine { color, eval, depth: 0 }).candidates(record) == (SingleLookaheadEngine {
            color,
            eval,
        }).candidates(record),
{
    assert(search_scores(eval, record, color, 0) == lookahead_scores(eval, record, color));
}

/// Whether play can go on for `plies` more moves whatever is played: every
/// position reached in fewer moves has a legal move.
pub open spec fn plays_on(record: Seq<char>, plies: nat) -> bool
    decreases plies,
{
    plies == 0 || (legal_moves_of(record).len() > 0 && forall|k: int|
        0 <= k < legal_moves_of(record).len() ==> plays_on(
            successor_of(record, #[trigger] legal_moves_of(record)[k]),
            (plies - 1) as nat,
        ))
}

/// The minimax value of the position that the `k`-th legal move leads to.
pub open spec fn root_value<E: Evaluator>(
    eval: E,
    record: Seq<char>,
    color: Color,
    depth: nat,
    k: int,
) -> Extended {
    least_value(eval, successor_of(record, legal_moves_of(record)[k]), color, depth)
}

/// Whether a value is the given score or an infinity.
pub open spec fn constant_or_infinite(value: Extended, constant: int) -> bool {
    value matches Extended::Finite(v) ==> v == constant
}

/// Under an evaluator that scores every position alike, every minimax value
/// is that score or an infinity, and it is that score where play goes on to
/// the horizon.
pub proof fn constant_values<E: Evaluator>(
    eval: E,
    record: Seq<char>,
    color: Color,
    depth: nat,
    constant: int,
)
    requires
        forall|r: Seq<char>, side: Color| #[trigger] eval.score(r, side) == constant,
    ensures
        constant_or_infinite(greatest_value(eval, record, color, depth), constant),
        constant_or_infinite(least_value(eval, record, color, depth), constant),
        plays_on(record, depth) ==> greatest_value(eval, record, color, depth) == Extended::Finite(
            constant,
        ),
        plays_on(record, depth) ==> least_value(eval, record, color, depth) == Extended::Finite(
            constant,
        ),
    decreases depth, 1int, 0int,
{
    if depth > 0 {
        constant_values_from(eval, record, color, depth, 0, constant);
    }
}

/// The same for the values of the moves from the `k`-th on.
proof fn constant_values_from<E: Evaluator>(
    eval: E,
    record: Seq<char>,
    color: Color,
    depth: nat,
    k: nat,
    constant: int,
)
    requires
        forall|r: Seq<char>, side: Color| #[trigger] eval.score(r, side) == constant,
        depth > 0,
    ensures
        constant_or_infinite(greatest_value_from(eval, record, color, depth, k), constant),
        constant_or_infinite(least_value_from(eval, record, color, depth, k), constant),
        plays_on(record, depth) && k < legal_moves_of(record).len() ==> greatest_value_from(
            eval,
            record,
            color,
            depth,
            k,
        ) == Extended::Finite(constant),
        plays_on(record, depth) && k < legal_moves_of(record).len() ==> least_value_from(
            eval,
            record,
            color,
            depth,
            k,
        ) == Extended::Finite(constant),
    decreases depth, 0int, legal_moves_of(record).len() - k,
{
    if k < legal_moves_of(record).len() {
        let next = successor_of(record, legal_moves_of(record)[k as int]);
        constant_values(eval, next, color, (depth - 1) as nat, constant);
        constant_values_from(eval, record, color, depth, k + 1, constant);
        if plays_on(record, depth) {
            assert(plays_on(next, (depth - 1) as nat));
        }
    }
}

/// Under an evaluator that scores every position alike, at any depth, all
/// legal moves are tied for best if and only if they all lead to positions of
/// one and the same minimax value. That value is the evaluator's score
/// wherever play goes on to the horizon after the move; it is an infinity
/// only where some line of play ends before the horizon.
pub proof fn constant_search_ties_all_moves<E: Evaluator>(
    eval: E,
    record: Seq<char>,
    color: Color,
    depth: nat,
    constant: int,
)
    requires
        forall|r: Seq<char>, side: Color| #[trigger] eval.score(r, side) == constant,
    ensures
        (forall|j: int, k: int|
            0 <= j < legal_moves_of(record).len() && 0 <= k < legal_moves_of(record).len()
                ==> #[trigger] root_value(eval, record, color, depth, j) == #[trigger] root_value(
                eval,
                record,
                color,
                depth,
                k,
            )) <==> tally(search_scores(eval, record, color, depth)).tied == Seq::new(
            legal_moves_of(record).len(),
            |k: int| k,
        ),
        tally(search_scores(eval, record, color, depth)).tied == Seq::new(
            legal_moves_of(record).len(),
            |k: int| k,
        ) ==> tied_moves(legal_moves_of(record), search_scores(eval, record, color, depth))
            == legal_moves_of(record),
        (forall|k: int|
            0 <= k < legal_moves_of(record).len() ==> #[trigger] root_value(
                eval,
                record,
                color,
                depth,
                k,
            ) == Extended::Finite(constant)) ==> tied_moves(
            legal_moves_of(record),
            search_scores(eval, record, color, depth),
        ) == legal_moves_of(record),
        (forall|k: int|
            0 <= k < legal_moves_of(record).len() ==> #[trigger] root_value(
                eval,
                record,
                color,
                depth,
                k,
            ) == Extended::Finite(constant)) && depth <= u32::MAX ==> (TreeSearchEngine {
            color,
            eval,
            depth: depth as u32,
        }).candidates(record) == legal_moves_of(record),
        forall|k: int|
            0 <= k < legal_moves_of(record).len() ==> constant_or_infinite(
                #[trigger] root_value(eval, record, color, depth, k),
                constant,
            ),
        forall|k: int|
            0 <= k < legal_moves_of(record).len() && plays_on(
                successor_of(record, legal_moves_of(record)[k]),
                depth,
            ) ==> #[trigger] root_value(eval, record, color, depth, k) == Extended::Finite(
                constant,
            ),
{
    let moves = legal_moves_of(record);
    let scores = search_scores(eval, record, color, depth);
    let all = Seq::new(moves.len(), |k: int| k);
    search_scores_are_minimax(eval, record, color, depth);
    assert forall|k: int| 0 <= k < moves.len() implies scores[k] == #[trigger] root_value(
        eval,
        record,
        color,
        depth,
        k,
    ) && constant_or_infinite(root_value(eval, record, color, depth, k), constant) && (plays_on(
        successor_of(record, moves[k]),
        depth,
    ) ==> root_value(eval, record, color, depth, k) == Extended::Finite(constant)) by {
        constant_values(eval, successor_of(record, moves[k]), color, depth, constant);
    }
    assert forall|i: int, j: int|
        0 <= i < scores.len() && 0 <= j < scores.len() && (#[trigger] scores[i]).tied_with(
            #[trigger] scores[j],
        ) implies scores[i] == scores[j] by {
        assert(scores[i] == root_value(eval, record, color, depth, i));
        assert(scores[j] == root_value(eval, record, color, depth, j));
    }
    assert(well_apart(scores));
    scores_well_apart_tie_at_the_greatest(scores);
    if forall|j: int, k: int|
        0 <= j < moves.len() && 0 <= k < moves.len() ==> #[trigger] root_value(
            eval,
            record,
            color,
            depth,
            j,
        ) == #[trigger] root_value(eval, record, color, depth, k) {
        if moves.len() > 0 {
            let first = scores[0];
            assert forall|k: int| 0 <= k < scores.len() implies #[trigger] scores[k] == first by {
                assert(root_value(eval, record, color, depth, k) == root_value(
                    eval,
                    record,
                    color,
                    depth,
                    0,
                ));
            }
            equal_scores_are_all_tied(scores, first);
        } else {
            equal_scores_are_all_tied(scores, Extended::NegInf);
        }
        assert(tally(scores).tied == all);
    }
    if tally(scores).tied == all {
        assert forall|j: int, k: int| 0 <= j < moves.len() && 0 <= k < moves.len() implies #[trigger] root_value(
            eval,
            record,
            color,
            depth,
            j,
        ) == #[trigger] root_value(eval, record, color, depth, k) by {
            assert(all[j] == j);
            assert(all[k] == k);
            assert(tally(scores).tied.contains(j));
            assert(tally(scores).tied.contains(k));
            assert(scores[j].le(scores[k]));
            assert(scores[k].le(scores[j]));
        }
        assert(tied_moves(moves, scores) == moves);
    }
    if forall|k: int|
        0 <= k < moves.len() ==> #[trigger] root_value(eval, record, color, depth, k)
            == Extended::Finite(constant) {
        assert forall|k: int| 0 <= k < scores.len() implies #[trigger] scores[k]
            == Extended::Finite(constant) by {
            assert(root_value(eval, record, color, depth, k) == Extended::Finite(constant));
        }
        equal_scores_tie_all_moves(moves, scores, Extended::Finite(constant));
    }
}

/// An engine that plays for `color` and searches `depth` plies below each
/// of its moves, scoring with `eval` at the horizon.
#[derive(Debug)]
pub struct TreeSearchEngine<E: Evaluator> {
    pub color: Color,
    pub eval: E,
    pub depth: u32,
}

impl<E: Evaluator> TreeSearchEngine<E> {
    /// An engine that plays for `color` with the evaluator `eval`, searching
    /// `depth` plies below each of its moves.
    pub fn new(color: Color, eval: E, depth: u32) -> (engine: Self)
        ensures
            engine.color == color,
            engine.eval == eval,
            engine.depth == depth,
    {
        TreeSearchEngine { color, eval, depth }
    }

    /// Whether the evaluator can score the positions `depth` plies below a
    /// position: an evaluator for the side that has just moved asks that the
    /// engine's side not be to move there.
    pub open spec fn reaches(&self, record: Seq<char>, depth: nat) -> bool {
        self.eval.opponent_relative() ==> side_after(side_of(record), depth) != self.color
    }

    /// Whether the engine can score the moves of a position.
    pub open spec fn ready(&self, record: Seq<char>) -> bool {
        self.eval.opponent_relative() ==> side_after(side_of(record).other(), self.depth as nat)
            != self.color
    }

    /// Whether the engine can score the moves of a position.
    pub fn is_ready(&self, board: &Position) -> (r: bool)
        ensures
            r == self.ready(board@),
    {
        if self.eval.is_opponent_relative() {
            let next = board.side_to_move().opposite();
            let leaf = if self.depth % 2 == 0 {
                next
            } else {
                next.opposite()
            };
            leaf != self.color
        } else {
            true
        }
    }

    /// The moves among which the engine draws: those tied for best.
    pub open spec fn candidates(&self, record: Seq<char>) -> Seq<ChessMove> {
        tied_moves(
            legal_moves_of(record),
            search_scores(self.eval, record, self.color, self.depth as nat),
        )
    }

    /// Searches a layer in which the engine's side is to move. Over a window
    /// that is not empty the value is the minimax value of the position,
    /// brought into the window.
    pub fn alpha_beta_max(&self, board: &Position, alpha: Value, beta: Value, depth: u32) -> (value:
        Value)
        requires
            self.reaches(board@, depth as nat),
        ensures
            value@ == max_value(self.eval, board@, self.color, alpha@, beta@, depth as nat),
            depth == 0 ==> value@ == greatest_value(self.eval, board@, self.color, 0),
            depth > 0 && alpha@.lt(beta@) ==> value@ == clip(
                greatest_value(self.eval, board@, self.color, depth as nat),
                alpha@,
                beta@,
            ),
        decreases depth,
    {
        proof {
            if alpha@.lt(beta@) {
                pruning_keeps_the_value(
                    self.eval,
                    board@,
                    self.color,
                    alpha@,
                    beta@,
                    depth as nat,
                );
            }
        }
        if depth == 0 {
            return Value::Finite(self.eval.evaluate(board, self.color));
        }
        let moves = available_moves(board);
        let mut raised = alpha;
        let mut k: usize = 0;
        while k < moves.len()
            invariant
                k <= moves.len(),
                depth > 0,
                moves@ == legal_moves_of(board@),
                self.reaches(board@, depth as nat),
                max_value_from(
                    self.eval,
                    board@,
                    self.color,
                    raised@,
                    beta@,
                    depth as nat,
                    k as nat,
                ) == max_value(self.eval, board@, self.color, alpha@, beta@, depth as nat),
                alpha@.lt(beta@) ==> max_value(
                    self.eval,
                    board@,
                    self.color,
                    alpha@,
                    beta@,
                    depth as nat,
                ) == clip(
                    greatest_value(self.eval, board@, self.color, depth as nat),
                    alpha@,
                    beta@,
                ),
            decreases moves.len() - k,
        {
            let res = board.make_move_new(moves[k]);
            let score = self.alpha_beta_min(&res, raised, beta, depth - 1);
            if beta.at_most(&score) {
                return beta;
            }
            if raised.less_than(&score) {
                raised = score;
            }
            k = k + 1;
        }
        raised
    }

    /// Searches a layer in which the other side is to move. Over a window
    /// that is not empty the value is the minimax value of the position,
    /// brought into the window.
    pub fn alpha_beta_min(&self, board: &Position, alpha: Value, beta: Value, depth: u32) -> (value:
        Value)
        requires
            self.reaches(board@, depth as nat),
        ensures
            value@ == min_value(self.eval, board@, self.color, alpha@, beta@, depth as nat),
            depth == 0 ==> value@ == least_value(self.eval, board@, self.color, 0),
            depth > 0 && alpha@.lt(beta@) ==> value@ == clip(
                least_value(self.eval, board@, self.color, depth as nat),
                alpha@,
                beta@,
            ),
        decreases depth,
    {
        proof {
            if alpha@.lt(beta@) {
                pruning_keeps_the_value(
                    self.eval,
                    board@,
                    self.color,
                    alpha@,
                    beta@,
                    depth as nat,
                );
            }
        }
        if depth == 0 {
            return Value::Finite(self.eval.evaluate(board, self.color));
        }
        let moves = available_moves(board);
        let mut lowered = beta;
        let mut k: usize = 0;
        while k < moves.len()
            invariant
                k <= moves.len(),
                depth > 0,
                moves@ == legal_moves_of(board@),
                self.reaches(board@, depth as nat),
                min_value_from(
                    self.eval,
                    board@,
                    self.color,
                    alpha@,
                    lowered@,
                    depth as nat,
                    k as nat,
                ) == min_value(self.eval, board@, self.color, alpha@, beta@, depth as nat),
                alpha@.lt(beta@) ==> min_value(
                    self.eval,
                    board@,
                    self.color,
                    alpha@,
                    beta@,
                    depth as nat,
                ) == clip(
                    least_value(self.eval, board@, self.color, depth as nat),
                    alpha@,
                    beta@,
                ),
            decreases moves.len() - k,
        {
            let res = board.make_move_new(moves[k]);
            let score = self.alpha_beta_max(&res, alpha, lowered, depth - 1);
            if score.at_most(&alpha) {
                return alpha;
            }
            if score.less_than(&lowered) {
                lowered = score;
            }
            k = k + 1;
        }
        lowered
    }

    /// The value of each legal move, in the order of the moves: the minimax
    /// value of the position the move leads to.
    pub fn scores(&self, board: &Position) -> (scores: Vec<Value>)
        requires
            self.ready(board@),
        ensures
            values_of(scores@) == search_scores(self.eval, board@, self.color, self.depth as nat),
            scores.len() == legal_moves_of(board@).len(),
            forall|k: int|
                0 <= k < scores.len() ==> (#[trigger] scores[k])@ == least_value(
                    self.eval,
                    successor_of(board@, legal_moves_of(board@)[k]),
                    self.color,
                    self.depth as nat,
                ),
    {
        proof {
            search_scores_are_minimax(self.eval, board@, self.color, self.depth as nat);
        }
        let moves = available_moves(board);
        let mut scores: Vec<Value> = Vec::new();
        let mut k: usize = 0;
        while k < moves.len()
            invariant
                k <= moves.len(),
                moves@ == legal_moves_of(board@),
                self.ready(board@),
                scores.len() == k,
                forall|j: int|
                    0 <= j < k ==> scores[j]@ == search_scores(
                        self.eval,
                        board@,
                        self.color,
                        self.depth as nat,
                    )[j],
            decreases moves.len() - k,
        {
            let res = board.make_move_new(moves[k]);
            let score = self.alpha_beta_min(&res, Value::NegInf, Value::PosInf, self.depth);
            scores.push(score);
            k = k + 1;
        }
        assert(values_of(scores@) == search_scores(
            self.eval,
            board@,
            self.color,
            self.depth as nat,
        ));
        assert forall|k: int| 0 <= k < scores.len() implies (#[trigger] scores[k])@ == least_value(
            self.eval,
            successor_of(board@, legal_moves_of(board@)[k]),
            self.color,
            self.depth as nat,
        ) by {
            assert(scores[k]@ == search_scores(
                self.eval,
                board@,
                self.color,
                self.depth as nat,
            )[k]);
        }
        scores
    }

    /// The moves tied for best.
    pub fn best_moves(&self, board: &Position) -> (best_moves: Vec<ChessMove>)
        requires
            self.ready(board@),
        ensures
            best_moves@ == self.candidates(board@),
            legal_moves_of(board@).len() > 0 ==> best_moves.len() > 0,
            forall|k: int|
                0 <= k < best_moves.len() ==> legal_moves_of(board@).contains(
                    #[trigger] best_moves[k],
                ),
    {
        let moves = available_moves(board);
        let scores = self.scores(board);
        proof {
            tied_moves_are_moves(moves@, values_of(scores@));
        }
        select_tied(&moves, &scores)
    }
}

impl<E: Evaluator> ChessAlgorithm for TreeSearchEngine<E> {
    open spec fn accepts(&self, record: Seq<char>) -> bool {
        self.ready(record)
    }

    fn can_play(&self, board: &Position) -> (ok: bool) {
        self.is_ready(board)
    }

    fn get_move(&mut self, board: &Position) -> (m: ChessMove)
        ensures
            old(self).candidates(board@).contains(m),
            *final(self) == *old(self),
    {
        let best_moves = self.best_moves(board);
        pick(&best_moves)
    }

    fn do_move(&mut self, board: &Position, chess_move: ChessMove)
        ensures
            *final(self) == *old(self),
    {
    }
}

} // verus!
