//! Scores and search values.
//!
//! A score is a decimal number with six places after the point, held as a
//! count of millionths. A search value is a score or one of the two
//! infinities that bound a search window.

use vstd::prelude::*;

verus! {

/// The number of millionths in one unit of score.
pub const SCALE: i128 = 1_000_000;

/// The tie tolerance, 0.0001, in millionths.
pub const TOLERANCE: i128 = 100;

/// The score, in millionths, of a position in which the perspective has been
/// checkmated: minus ten to the twenty-first.
pub const CHECKMATED: i128 = -1_000_000_000_000_000_000_000_000_000;

/// The score, in millionths, of a position in which the perspective is in
/// check, or that is a stalemate: minus ten to the eleventh.
pub const THREATENED: i128 = -100_000_000_000_000_000;

/// Whether two scores, in millionths, lie no further apart than the tie
/// tolerance.
pub open spec fn within_tolerance(a: int, b: int) -> bool {
    -(TOLERANCE as int) <= a - b <= TOLERANCE as int
}

/// A score: larger is better for the side it was computed for.
#[derive(Clone, Copy, Debug, PartialEq, Eq, Structural)]
pub struct Score {
    millionths: i128,
}

impl View for Score {
    type V = int;

    closed spec fn view(&self) -> int {
        self.millionths as int
    }
}

impl Score {
    /// The score of a whole number.
    pub fn from_int(n: i64) -> (s: Score)
        ensures
            s@ == n * SCALE,
    {
        Score { millionths: (n as i128) * SCALE }
    }

    /// The score of a count of millionths.
    pub fn from_millionths(millionths: i128) -> (s: Score)
        ensures
            s@ == millionths,
    {
        Score { millionths }
    }

    /// The score as a count of millionths.
    pub fn millionths(&self) -> (u: i128)
        ensures
            u == self@,
    {
        self.millionths
    }

    /// Whether this score lies no further from `other` than the tie
    /// tolerance.
    pub fn near(&self, other: &Score) -> (r: bool)
        ensures
            r == within_tolerance(self@, other@),
    {
        match self.millionths.checked_sub(other.millionths) {
            Some(d) => -TOLERANCE <= d && d <= TOLERANCE,
            None => false,
        }
    }
}

/// The mathematical value of a search: a count of millionths, or an
/// infinity.
pub enum Extended {
    NegInf,
    Finite(int),
    PosInf,
}

impl Extended {
    /// Strictly less, with minus infinity below and plus infinity above
    /// every score.
    pub open spec fn lt(self, other: Extended) -> bool {
        match (self, other) {
            (Extended::NegInf, Extended::NegInf) => false,
            (Extended::NegInf, _) => true,
            (Extended::Finite(_), Extended::NegInf) => false,
            (Extended::Finite(a), Extended::Finite(b)) => a < b,
            (Extended::Finite(_), Extended::PosInf) => true,
            (Extended::PosInf, _) => false,
        }
    }

    /// Less or equal.
    pub open spec fn le(self, other: Extended) -> bool {
        !other.lt(self)
    }

    /// Tied: two scores no further apart than the tie tolerance, or the same
    /// infinity twice.
    pub open spec fn tied_with(self, other: Extended) -> bool {
        match (self, other) {
            (Extended::NegInf, Extended::NegInf) => true,
            (Extended::Finite(a), Extended::Finite(b)) => within_tolerance(a, b),
            (Extended::PosInf, Extended::PosInf) => true,
            _ => false,
        }
    }
}

/// A search value: a score, or an infinity.
#[derive(Clone, Copy, Debug, PartialEq, Eq, Structural)]
pub enum Value {
    NegInf,
    Finite(Score),
    PosInf,
}

impl View for Value {
    type V = Extended;

    open spec fn view(&self) -> Extended {
        match self {
            Value::NegInf => Extended::NegInf,
            Value::Finite(s) => Extended::Finite(s@),
            Value::PosInf => Extended::PosInf,
        }
    }
}

impl Value {
    /// Whether this value is strictly less than `other`.
    pub fn less_than(&self, other: &Value) -> (r: bool)
        ensures
            r == self@.lt(other@),
    {
        match (self, other) {
            (Value::NegInf, Value::NegInf) => false,
            (Value::NegInf, _) => true,
            (Value::Finite(_), Value::NegInf) => false,
            (Value::Finite(a), Value::Finite(b)) => a.millionths() < b.millionths(),
            (Value::Finite(_), Value::PosInf) => true,
            (Value::PosInf, _) => false,
        }
    }

    /// Whether this value is less than or equal to `other`.
    pub fn at_most(&self, other: &Value) -> (r: bool)
        ensures
            r == self@.le(other@),
    {
        !other.less_than(self)
    }

    /// Whether this value is tied with `other`.
    pub fn tied_with(&self, other: &Value) -> (r: bool)
        ensures
            r == self@.tied_with(other@),
    {
        match (self, other) {
            (Value::NegInf, Value::NegInf) => true,
            (Value::Finite(a), Value::Finite(b)) => a.near(b),
            (Value::PosInf, Value::PosInf) => true,
            _ => false,
        }
    }
}

} // verus!
