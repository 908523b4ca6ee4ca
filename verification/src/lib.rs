//! Move selection for a chess-playing agent: position evaluators, a greedy
//! one-ply engine and a depth-limited alpha-beta engine.
//!
//! The rules of the game come from the `chess` crate. A [`position::Position`]
//! carries the record that the rules engine understands, in Forsyth-Edwards
//! notation, together with what the engine reports to stand on each square;
//! the record is the mathematical view of the position. What the rules
//! engine answers for a record is given a name in [`rules`], and the
//! contracts of this library are stated over those names: the legal moves of
//! a record, the record a move leads to, whether the side to move is in
//! check.
//!
//! Scores are exact decimal numbers with six places after the point
//! ([`score::Score`]); search values add the two infinities
//! ([`score::Value`]). An evaluator is a function of the record and of the
//! side it scores for ([`alg::evaluators::Evaluator`]).
//!
//! Every algorithm implements [`alg::chess_alg::ChessAlgorithm`]. The two
//! engines score each legal move, keep the moves tied for best by the rule
//! of [`alg::tie_break`], and draw one of them at random.

pub mod board;
pub mod rules;
pub mod position;
pub mod score;
pub mod alg;
pub mod util;
pub mod game;
