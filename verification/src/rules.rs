//! The rules of chess, as the `chess` crate knows them.
//!
//! A position travels to the rules engine as a record in Forsyth-Edwards
//! notation. Everything in this file is taken on trust: each function below
//! puts one question to an outside crate, and its contract says what the
//! answer is taken to be. Nothing here is proved.
//!
//! The answers are given names. A name stands for whatever the outside crate
//! answers, and says only that the same question has the same answer every
//! time.
//!
//! The rules engine reads its tables without a check at the square of the
//! mover's king, which must therefore be on the board, and it lists the
//! pieces that can move in a list of fixed length, which sixteen pieces a
//! side cannot overrun: only the first question, which reads the record and
//! nothing else, may be asked of any text.

use vstd::prelude::*;
use crate::board::{ChessMove, Color, Piece, Square};

verus! {

/// What the rules engine reads on each of the 64 squares of a record, in the
/// order a1, b1, .., h8, before it judges the position. Empty where it
/// cannot read the record.
pub uninterp spec fn engine_placement(record: Seq<char>) -> Seq<Option<(Piece, Color)>>;

/// Whether the rules engine takes the record for a position.
pub uninterp spec fn engine_accepts(record: Seq<char>) -> bool;

/// The legal moves of the position, in the order in which the rules engine
/// enumerates them.
pub uninterp spec fn engine_moves(record: Seq<char>) -> Seq<ChessMove>;

/// The squares from which the rules engine finds the side to move in check,
/// one bit for each square in the order a1, b1, .., h8.
pub uninterp spec fn engine_checkers(record: Seq<char>) -> u64;

/// The record that the rules engine writes for the position that a legal
/// move leads to.
pub uninterp spec fn engine_successor(record: Seq<char>, m: ChessMove) -> Seq<char>;

/// Whether a king of `color` stands somewhere in the placement.
pub open spec fn has_king(placement: Seq<Option<(Piece, Color)>>, color: Color) -> bool {
    exists|i: int| 0 <= i < placement.len() && #[trigger] placement[i] == Some((Piece::King, color))
}

/// The number of squares of the placement on which a piece of `color`
/// stands.
pub open spec fn men(placement: Seq<Option<(Piece, Color)>>, color: Color) -> nat
    decreases placement.len(),
{
    if placement.len() == 0 {
        0
    } else if placement.last() matches Some((_, side)) && side == color {
        men(placement.drop_last(), color) + 1
    } else {
        men(placement.drop_last(), color)
    }
}

/// Whether a record describes a position that can be played: the rules
/// engine reads a king of each side in it and no more than sixteen pieces a
/// side, and accepts it.
pub open spec fn record_accepted(record: Seq<char>) -> bool {
    &&& has_king(engine_placement(record), Color::White)
    &&& has_king(engine_placement(record), Color::Black)
    &&& men(engine_placement(record), Color::White) <= 16
    &&& men(engine_placement(record), Color::Black) <= 16
    &&& engine_accepts(record)
}

/// The side that a record names as the one to move: Black where the first
/// blank is followed by `b` or `B`, White otherwise.
pub open spec fn side_of(record: Seq<char>) -> Color
    decreases record.len(),
{
    if record.len() < 2 {
        Color::White
    } else if record[0] == ' ' {
        if record[1] == 'b' || record[1] == 'B' {
            Color::Black
        } else {
            Color::White
        }
    } else {
        side_of(record.drop_first())
    }
}

/// `BoardBuilder::from_str` of the `chess` crate, and the builder's index by
/// square, asked for every square of `ALL_SQUARES` in turn. The builder only
/// reads the text, so any text may be handed to it. The answers are taken to
/// depend on the record alone.
#[verifier::external_body]
pub(crate) fn rules_placement(record: &str) -> (found: Vec<Option<(Piece, Color)>>)
    ensures
        found@ == engine_placement(record@),
{
    let side = |c: chess::Color| match c {
        chess::Color::White => Color::White,
        chess::Color::Black => Color::Black,
    };
    record.parse::<chess::BoardBuilder>().map(|b| chess::ALL_SQUARES.iter().map(|s| b[*s].map(|(p, c)| (match p {
        chess::Piece::Pawn => Piece::Pawn,
        chess::Piece::Knight => Piece::Knight,
        chess::Piece::Bishop => Piece::Bishop,
        chess::Piece::Rook => Piece::Rook,
        chess::Piece::Queen => Piece::Queen,
        chess::Piece::King => Piece::King,
    }, side(c)))).collect()).unwrap_or_default()
}

/// `Board::from_str` of the `chess` crate, asked whether it succeeds. It
/// looks up the square of the mover's king before it checks that there is
/// one, so it is only asked of records with both kings. The answer is taken
/// to depend on the record alone.
#[verifier::external_body]
pub(crate) fn rules_accepts(record: &str) -> (ok: bool)
    requires
        has_king(engine_placement(record@), Color::White),
        has_king(engine_placement(record@), Color::Black),
    ensures
        ok == engine_accepts(record@),
{
    record.parse::<chess::Board>().is_ok()
}

/// `MoveGen::new_legal` of the `chess` crate, run to its end on the board
/// that `Board::from_str` makes of the record. It keeps one entry for each
/// piece of the mover that can move, and up to two more for captures en
/// passant, in a list of eighteen that it fills without a check: it is only
/// asked of records with no more than sixteen pieces a side. The moves and
/// their order are taken to depend on the record alone.
#[verifier::external_body]
pub(crate) fn rules_legal_moves(record: &str) -> (moves: Vec<ChessMove>)
    requires
        record_accepted(record@),
    ensures
        moves@ == engine_moves(record@),
{
    let sq = |s: chess::Square| Square { rank: s.get_rank().to_index() as u8, file: s.get_file().to_index() as u8 };
    record.parse::<chess::Board>().map(|b| {
        chess::MoveGen::new_legal(&b).map(|m| ChessMove {
            source: sq(m.get_source()),
            dest: sq(m.get_dest()),
            promotion: m.get_promotion().map(|p| match p {
                chess::Piece::Pawn => Piece::Pawn,
                chess::Piece::Knight => Piece::Knight,
                chess::Piece::Bishop => Piece::Bishop,
                chess::Piece::Rook => Piece::Rook,
                chess::Piece::Queen => Piece::Queen,
                chess::Piece::King => Piece::King,
            }),
        }).collect()
    }).unwrap_or_default()
}

/// `Board::checkers` of the `chess` crate, on the board that
/// `Board::from_str` makes of the record: the bits of the set it hands out.
/// They are taken to depend on the record alone.
#[verifier::external_body]
pub(crate) fn rules_checkers(record: &str) -> (bits: u64)
    requires
        record_accepted(record@),
    ensures
        bits == engine_checkers(record@),
{
    record.parse::<chess::Board>().map(|b| b.checkers().0).unwrap_or_default()
}

/// `Board::make_move_new` of the `chess` crate, on the board that
/// `Board::from_str` makes of the record, written back as a record by the
/// board's `Display`. The new record is taken to depend on the old one and on
/// the move alone. `make_move` hands the turn to the other side, and
/// `Display` writes `w` or `b` for it right after the first blank.
#[verifier::external_body]
pub(crate) fn rules_make_move(record: &str, m: ChessMove) -> (next: String)
    requires
        record_accepted(record@),
        engine_moves(record@).contains(m),
    ensures
        next@ == engine_successor(record@, m),
        side_of(next@) == side_of(record@).other(),
{
    let sq = |s: Square| chess::Square::make_square(chess::Rank::from_index(s.rank as usize), chess::File::from_index(s.file as usize));
    let step = chess::ChessMove::new(sq(m.source), sq(m.dest), m.promotion.map(|p| match p {
        Piece::Pawn => chess::Piece::Pawn,
        Piece::Knight => chess::Piece::Knight,
        Piece::Bishop => chess::Piece::Bishop,
        Piece::Rook => chess::Piece::Rook,
        Piece::Queen => chess::Piece::Queen,
        Piece::King => chess::Piece::King,
    }));
    record.parse::<chess::Board>().map(|b| b.make_move_new(step).to_string()).unwrap_or_default()
}

/// `Rng::gen_range` of the `rand` crate on `thread_rng()`, over `0..n`. It
/// panics on an empty range; any number below `n` may come back.
#[verifier::external_body]
pub(crate) fn random_index(n: usize) -> (k: usize)
    requires
        n > 0,
    ensures
        k < n,
{
    rand::Rng::gen_range(&mut rand::thread_rng(), 0..n)
}

} // verus!
