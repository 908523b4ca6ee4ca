//! The rule by which the engines keep the best moves seen so far: a running
//! best value and the places of the moves tied with it.

use vstd::prelude::*;
use crate::board::ChessMove;
use crate::rules::random_index;
use crate::score::{Extended, Value, SCALE};

verus! {

/// The running state of the rule: the best value so far and the places of
/// the scores tied with it, in the order in which they came.
pub struct Tally {
    pub best: Extended,
    pub tied: Seq<int>,
}

/// What one more score does to the tally. A score tied with the best joins
/// the tied places; otherwise a greater score becomes the best and starts
/// the tied places afresh; otherwise the score is passed over.
pub open spec fn tally_step(t: Tally, score: Extended, place: int) -> Tally {
    if score.tied_with(t.best) {
        Tally { best: t.best, tied: t.tied.push(place) }
    } else if t.best.lt(score) {
        Tally { best: score, tied: seq![place] }
    } else {
        t
    }
}

/// The tally after all of `scores`, taken in order from minus infinity and
/// no tied place.
pub open spec fn tally(scores: Seq<Extended>) -> Tally
    decreases scores.len(),
{
    if scores.len() == 0 {
        Tally { best: Extended::NegInf, tied: Seq::empty() }
    } else {
        tally_step(tally(scores.drop_last()), scores.last(), scores.len() - 1)
    }
}

/// The mathematical values of some search values.
pub open spec fn values_of(scores: Seq<Value>) -> Seq<Extended> {
    Seq::new(scores.len(), |k: int| scores[k]@)
}

/// The places in `tied`, as integers.
pub open spec fn places_of(tied: Seq<usize>) -> Seq<int> {
    Seq::new(tied.len(), |k: int| tied[k] as int)
}

/// The tied places are places of scores, in rising order, and there is one
/// as soon as there is a score. The score at each tied place is tied with the
/// best value, and every score is tied with the best value or lies below it.
pub proof fn tally_is_sound(scores: Seq<Extended>)
    ensures
        scores.len() > 0 ==> tally(scores).tied.len() > 0,
        tally(scores).tied.len() == 0 ==> tally(scores).best == Extended::NegInf,
        forall|k: int|
            0 <= k < tally(scores).tied.len() ==> 0 <= #[trigger] tally(scores).tied[k]
                < scores.len(),
        forall|j: int, k: int|
            0 <= j < k < tally(scores).tied.len() ==> tally(scores).tied[j] < tally(
                scores,
            ).tied[k],
        forall|k: int|
            0 <= k < tally(scores).tied.len() ==> scores[#[trigger] tally(scores).tied[k]].tied_with(
                tally(scores).best,
            ),
        forall|j: int|
            0 <= j < scores.len() ==> #[trigger] scores[j].tied_with(tally(scores).best)
                || scores[j].lt(tally(scores).best),
    decreases scores.len(),
{
    if scores.len() > 0 {
        tally_is_sound(scores.drop_last());
        let before = tally(scores.drop_last());
        let after = tally(scores);
        assert(after == tally_step(before, scores.last(), scores.len() - 1));
        assert forall|k: int| 0 <= k < after.tied.len() implies scores[#[trigger] after.tied[k]].tied_with(
            after.best,
        ) by {
            if scores.last().tied_with(before.best) {
                if k < before.tied.len() {
                    assert(after.tied[k] == before.tied[k]);
                    assert(scores.drop_last()[before.tied[k]] == scores[before.tied[k]]);
                }
            } else if before.best.lt(scores.last()) {
            } else {
                assert(after.tied[k] == before.tied[k]);
                assert(scores.drop_last()[before.tied[k]] == scores[before.tied[k]]);
            }
        }
        assert forall|j: int| 0 <= j < scores.len() implies #[trigger] scores[j].tied_with(
            after.best,
        ) || scores[j].lt(after.best) by {
            if j < scores.len() - 1 {
                assert(scores.drop_last()[j] == scores[j]);
                assert(scores.drop_last()[j].tied_with(before.best) || scores.drop_last()[j].lt(
                    before.best,
                ));
            }
        }
    }
}

/// Where all scores are one and the same value, every place is tied.
pub proof fn equal_scores_are_all_tied(scores: Seq<Extended>, value: Extended)
    requires
        forall|k: int| 0 <= k < scores.len() ==> scores[k] == value,
    ensures
        tally(scores).tied == Seq::new(scores.len(), |k: int| k),
        scores.len() > 0 ==> tally(scores).best == value,
    decreases scores.len(),
{
    if scores.len() > 0 {
        equal_scores_are_all_tied(scores.drop_last(), value);
        let before = tally(scores.drop_last());
        assert(scores.last() == value);
        if scores.len() == 1 {
            assert(before.tied == Seq::<int>::empty());
            assert(tally(scores).tied == Seq::new(scores.len(), |k: int| k));
        } else {
            assert(before.best == value);
            assert(value.tied_with(value));
            assert(tally(scores).tied == before.tied.push(scores.len() - 1));
            assert(tally(scores).tied == Seq::new(scores.len(), |k: int| k));
        }
    }
}

/// Whether a score lies below another and is not tied with it.
pub open spec fn clearly_below(low: Extended, high: Extended) -> bool {
    low.lt(high) && !low.tied_with(high)
}

/// The tally after the first `n` scores, where two scores at the places
/// `first < second` are tied with each other and every other score lies
/// clearly below both: nothing is tied before the first of the two, the
/// first alone from there on, and both from the second on.
proof fn tally_with_two_leaders(scores: Seq<Extended>, first: int, second: int, n: int)
    requires
        0 <= first < second < scores.len(),
        0 <= n <= scores.len(),
        scores[first].tied_with(scores[second]),
        forall|k: int|
            0 <= k < scores.len() && k != first && k != second ==> clearly_below(
                #[trigger] scores[k],
                scores[first],
            ) && clearly_below(scores[k], scores[second]),
    ensures
        n <= first ==> clearly_below(tally(scores.take(n)).best, scores[first]) || tally(
            scores.take(n),
        ) == (Tally { best: Extended::NegInf, tied: Seq::empty() }),
        first < n <= second ==> tally(scores.take(n)) == (Tally {
            best: scores[first],
            tied: seq![first],
        }),
        second < n ==> tally(scores.take(n)) == (Tally {
            best: scores[first],
            tied: seq![first, second],
        }),
    decreases n,
{
    if n > 0 {
        tally_with_two_leaders(scores, first, second, n - 1);
        assert(scores.take(n).drop_last() == scores.take(n - 1));
        assert(scores.take(n).last() == scores[n - 1]);
        let before = tally(scores.take(n - 1));
        assert(tally(scores.take(n)) == tally_step(before, scores[n - 1], n - 1));
        if n - 1 == second {
            assert(seq![first].push(second) == seq![first, second]);
        }
    }
}

/// Where two scores are tied with each other and every other score lies
/// clearly below both, the places of those two, and no third, are tied for
/// best.
pub proof fn two_leaders_are_the_tied(scores: Seq<Extended>, first: int, second: int)
    requires
        0 <= first < second < scores.len(),
        scores[first].tied_with(scores[second]),
        forall|k: int|
            0 <= k < scores.len() && k != first && k != second ==> clearly_below(
                #[trigger] scores[k],
                scores[first],
            ) && clearly_below(scores[k], scores[second]),
    ensures
        tally(scores).tied == seq![first, second],
{
    tally_with_two_leaders(scores, first, second, scores.len() as int);
    assert(scores.take(scores.len() as int) == scores);
}

/// Whether the scores keep their distance: two of them are tied only where
/// they are the same.
pub open spec fn well_apart(scores: Seq<Extended>) -> bool {
    forall|i: int, j: int|
        0 <= i < scores.len() && 0 <= j < scores.len() && (#[trigger] scores[i]).tied_with(
            #[trigger] scores[j],
        ) ==> scores[i] == scores[j]
}

/// Where the scores keep their distance, the best value after the first `n`
/// of them is the score at every tied place, and every place among the first
/// `n` whose score is the best value is tied.
proof fn tally_of_scores_well_apart(scores: Seq<Extended>, n: int)
    requires
        well_apart(scores),
        0 <= n <= scores.len(),
    ensures
        forall|k: int|
            0 <= k < n && #[trigger] scores[k] == tally(scores.take(n)).best ==> tally(
                scores.take(n),
            ).tied.contains(k),
        n > 0 ==> exists|k: int| 0 <= k < n && #[trigger] scores[k] == tally(scores.take(n)).best,
    decreases n,
{
    if n > 0 {
        tally_of_scores_well_apart(scores, n - 1);
        assert(scores.take(n).drop_last() == scores.take(n - 1));
        assert(scores.take(n).last() == scores[n - 1]);
        let before = tally(scores.take(n - 1));
        let after = tally(scores.take(n));
        assert(after == tally_step(before, scores[n - 1], n - 1));
        if n > 1 {
            let lead = choose|k: int| 0 <= k < n - 1 && #[trigger] scores[k] == before.best;
            assert(scores[n - 1].tied_with(scores[lead]) ==> scores[n - 1] == scores[lead]);
        }
        if scores[n - 1].tied_with(before.best) {
            assert(after.tied == before.tied.push(n - 1));
            assert(after.tied[before.tied.len() as int] == n - 1);
            assert forall|k: int| 0 <= k < n && #[trigger] scores[k] == after.best implies after.tied.contains(
                k,
            ) by {
                if k < n - 1 {
                    let at = choose|at: int| 0 <= at < before.tied.len() && before.tied[at] == k;
                    assert(after.tied[at] == k);
                }
            }
            if n == 1 {
                assert(scores[0] == after.best);
            }
        } else if before.best.lt(scores[n - 1]) {
            assert(after.tied == seq![n - 1]);
            assert(after.tied[0] == n - 1);
            assert(scores[n - 1] == after.best);
            tally_is_sound(scores.take(n - 1));
            assert forall|k: int| 0 <= k < n - 1 implies #[trigger] scores[k] != after.best by {
                assert(scores.take(n - 1)[k] == scores[k]);
                assert(scores.take(n - 1)[k].tied_with(before.best) || scores.take(n - 1)[k].lt(
                    before.best,
                ));
            }
        } else {
            assert(scores[n - 1] != after.best);
            assert forall|k: int| 0 <= k < n && #[trigger] scores[k] == after.best implies after.tied.contains(
                k,
            ) by {
                assert(before.tied.contains(k));
            }
        }
    }
}

/// Where the scores keep their distance, as whole numbers do, a place is
/// tied for best exactly if no score is greater than the score at that place.
pub proof fn scores_well_apart_tie_at_the_greatest(scores: Seq<Extended>)
    requires
        well_apart(scores),
    ensures
        forall|k: int|
            0 <= k < scores.len() ==> (tally(scores).tied.contains(k) <==> forall|j: int|
                0 <= j < scores.len() ==> (#[trigger] scores[j]).le(#[trigger] scores[k])),
{
    tally_of_scores_well_apart(scores, scores.len() as int);
    assert(scores.take(scores.len() as int) == scores);
    tally_is_sound(scores);
    let t = tally(scores);
    assert forall|k: int| 0 <= k < scores.len() implies (t.tied.contains(k) <==> forall|j: int|
        0 <= j < scores.len() ==> (#[trigger] scores[j]).le(#[trigger] scores[k])) by {
        let lead = choose|m: int| 0 <= m < scores.len() && #[trigger] scores[m] == t.best;
        if t.tied.contains(k) {
            let at = choose|at: int| 0 <= at < t.tied.len() && t.tied[at] == k;
            assert(scores[t.tied[at]].tied_with(t.best));
            assert(scores[k].tied_with(scores[lead]));
            assert(scores[k] == t.best);
            assert forall|j: int| 0 <= j < scores.len() implies (#[trigger] scores[j]).le(
                scores[k],
            ) by {
                assert(scores[j].tied_with(t.best) || scores[j].lt(t.best));
                assert(scores[j].tied_with(scores[lead]) ==> scores[j] == scores[lead]);
            }
        }
        if forall|j: int| 0 <= j < scores.len() ==> (#[trigger] scores[j]).le(scores[k]) {
            assert(scores[lead].le(scores[k]));
            assert(scores[k].tied_with(t.best) || scores[k].lt(t.best));
            assert(scores[k].tied_with(scores[lead]) ==> scores[k] == scores[lead]);
            assert(scores[k] == t.best);
        }
    }
}

/// Whether a value is an infinity or a whole number.
pub open spec fn is_whole(value: Extended) -> bool {
    value matches Extended::Finite(v) ==> v % (SCALE as int) == 0
}

/// Values that are whole numbers or infinities keep their distance.
pub proof fn whole_scores_are_well_apart(scores: Seq<Extended>)
    requires
        forall|k: int| 0 <= k < scores.len() ==> is_whole(#[trigger] scores[k]),
    ensures
        well_apart(scores),
{
    assert forall|i: int, j: int|
        0 <= i < scores.len() && 0 <= j < scores.len() && (#[trigger] scores[i]).tied_with(
            #[trigger] scores[j],
        ) implies scores[i] == scores[j] by {
        assert(is_whole(scores[i]));
        assert(is_whole(scores[j]));
    }
}

/// The places of the scores that the rule leaves tied for best.
pub fn tied_best(scores: &Vec<Value>) -> (tied: Vec<usize>)
    ensures
        places_of(tied@) == tally(values_of(scores@)).tied,
        tied.len() == tally(values_of(scores@)).tied.len(),
        forall|k: int| 0 <= k < tied.len() ==> tied[k] == tally(values_of(scores@)).tied[k],
        scores.len() > 0 ==> tied.len() > 0,
        forall|k: int| 0 <= k < tied.len() ==> tied[k] < scores.len(),
{
    let ghost all = values_of(scores@);
    let mut best = Value::NegInf;
    let mut tied: Vec<usize> = Vec::new();
    let mut i: usize = 0;
    assert(all.take(0) == Seq::<Extended>::empty());
    while i < scores.len()
        invariant
            i <= scores.len(),
            all == values_of(scores@),
            best@ == tally(all.take(i as int)).best,
            places_of(tied@) == tally(all.take(i as int)).tied,
        decreases scores.len() - i,
    {
        let ghost before = tally(all.take(i as int));
        assert(all.take(i + 1).drop_last() == all.take(i as int));
        assert(all.take(i + 1).last() == scores[i as int]@);
        let score = scores[i];
        if score.tied_with(&best) {
            tied.push(i);
            assert(places_of(tied@) == before.tied.push(i as int));
        } else if best.less_than(&score) {
            best = score;
            tied = Vec::new();
            tied.push(i);
            assert(places_of(tied@) == seq![i as int]);
        }
        i = i + 1;
    }
    assert(all.take(i as int) == all);
    proof {
        tally_is_sound(all);
        assert(places_of(tied@).len() == tied.len());
        assert forall|k: int| 0 <= k < tied.len() implies tied[k] == tally(all).tied[k] by {
            assert(places_of(tied@)[k] == tied[k]);
        }
    }
    tied
}

/// The moves that the rule leaves tied for best, given the score of each
/// move: the moves at the tied places, in order.
pub open spec fn tied_moves(moves: Seq<ChessMove>, scores: Seq<Extended>) -> Seq<ChessMove> {
    Seq::new(tally(scores).tied.len(), |k: int| moves[tally(scores).tied[k]])
}

/// Every move tied for best is one of the moves, and a move is tied for best
/// as soon as there is a move.
pub proof fn tied_moves_are_moves(moves: Seq<ChessMove>, scores: Seq<Extended>)
    requires
        moves.len() == scores.len(),
    ensures
        moves.len() > 0 ==> tied_moves(moves, scores).len() > 0,
        forall|k: int|
            0 <= k < tied_moves(moves, scores).len() ==> moves.contains(
                #[trigger] tied_moves(moves, scores)[k],
            ),
{
    tally_is_sound(scores);
    assert forall|k: int| 0 <= k < tied_moves(moves, scores).len() implies moves.contains(
        #[trigger] tied_moves(moves, scores)[k],
    ) by {
        let place = tally(scores).tied[k];
        assert(0 <= place < moves.len());
        assert(moves[place] == tied_moves(moves, scores)[k]);
    }
}

/// Where every move has one and the same value, every move is tied for
/// best.
pub proof fn equal_scores_tie_all_moves(moves: Seq<ChessMove>, scores: Seq<Extended>, value: Extended)
    requires
        moves.len() == scores.len(),
        forall|k: int| 0 <= k < scores.len() ==> scores[k] == value,
    ensures
        tied_moves(moves, scores) == moves,
{
    equal_scores_are_all_tied(scores, value);
    assert(tied_moves(moves, scores) == moves);
}

/// The moves that the rule leaves tied for best, given the score of each
/// move.
pub fn select_tied(moves: &Vec<ChessMove>, scores: &Vec<Value>) -> (best_moves: Vec<ChessMove>)
    requires
        moves.len() == scores.len(),
    ensures
        best_moves@ == tied_moves(moves@, values_of(scores@)),
        moves.len() > 0 ==> best_moves.len() > 0,
{
    let tied = tied_best(scores);
    let ghost places = tally(values_of(scores@)).tied;
    let mut best_moves: Vec<ChessMove> = Vec::new();
    let mut k: usize = 0;
    assert(places_of(tied@).len() == tied.len());
    while k < tied.len()
        invariant
            k <= tied.len(),
            moves.len() == scores.len(),
            places == places_of(tied@),
            places.len() == tied.len(),
            forall|j: int| 0 <= j < tied.len() ==> tied[j] < scores.len(),
            best_moves.len() == k,
            forall|j: int| 0 <= j < k ==> best_moves[j] == moves[places[j]],
        decreases tied.len() - k,
    {
        assert(places[k as int] == tied[k as int]);
        best_moves.push(moves[tied[k]]);
        k = k + 1;
    }
    assert(best_moves@ == tied_moves(moves@, values_of(scores@)));
    best_moves
}

/// One of the given moves, drawn at random.
pub fn pick(best_moves: &Vec<ChessMove>) -> (m: ChessMove)
    requires
        best_moves.len() > 0,
    ensures
        best_moves@.contains(m),
{
    let k = random_index(best_moves.len());
    best_moves[k]
}

} // verus!
