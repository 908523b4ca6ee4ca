//! A position of the game: what the evaluators and engines read of it, held
//! as plain values beside the record that the rules engine understands.

use vstd::prelude::*;
use crate::board::{BoardStatus, ChessMove, Color, Piece, Square};
use crate::rules::{
    engine_checkers, engine_moves, engine_placement, engine_successor, has_king, men,
    record_accepted, rules_accepts, rules_checkers, rules_legal_moves, rules_make_move,
    rules_placement, side_of,
};

verus! {

/// The piece on each of the 64 squares of a record, in the order a1, b1, ..,
/// h8.
pub open spec fn pieces_of(record: Seq<char>) -> Seq<Option<Piece>> {
    Seq::new(
        engine_placement(record).len(),
        |i: int|
            match engine_placement(record)[i] {
                Some((piece, _)) => Some(piece),
                None => None,
            },
    )
}

/// The side whose piece stands on each of the 64 squares of a record, in the
/// order a1, b1, .., h8.
pub open spec fn colors_of(record: Seq<char>) -> Seq<Option<Color>> {
    Seq::new(
        engine_placement(record).len(),
        |i: int|
            match engine_placement(record)[i] {
                Some((_, color)) => Some(color),
                None => None,
            },
    )
}

/// The legal moves of a position, in the order of the rules engine. A record
/// that describes no playable position has none.
pub open spec fn legal_moves_of(record: Seq<char>) -> Seq<ChessMove> {
    if record_accepted(record) {
        engine_moves(record)
    } else {
        Seq::empty()
    }
}

/// Whether the side to move is in check: whether the rules engine finds a
/// square from which check is given. Nobody is in check in a record that
/// describes no playable position.
pub open spec fn in_check_of(record: Seq<char>) -> bool {
    record_accepted(record) && engine_checkers(record) != 0
}

/// The record of the position that a legal move leads to.
pub open spec fn successor_of(record: Seq<char>, m: ChessMove) -> Seq<char> {
    engine_successor(record, m)
}

/// The piece on the square with place `i`, none beyond the board.
pub open spec fn piece_at(record: Seq<char>, i: int) -> Option<Piece> {
    if 0 <= i < pieces_of(record).len() {
        pieces_of(record)[i]
    } else {
        None
    }
}

/// The side that holds the square with place `i`, none beyond the board.
pub open spec fn color_at(record: Seq<char>, i: int) -> Option<Color> {
    if 0 <= i < colors_of(record).len() {
        colors_of(record)[i]
    } else {
        None
    }
}

/// Whether the king of `color` stands on the square with place `i`.
pub open spec fn king_at(record: Seq<char>, color: Color, i: int) -> bool {
    piece_at(record, i) == Some(Piece::King) && color_at(record, i) == Some(color)
}

/// The first place from `from` on, below 64, where the king of `color`
/// stands; 64 where there is none.
pub open spec fn king_place_from(record: Seq<char>, color: Color, from: int) -> int
    decreases 64 - from,
{
    if from >= 64 {
        64
    } else if king_at(record, color, from) {
        from
    } else {
        king_place_from(record, color, from + 1)
    }
}

/// The square of the king of `color`: the first square in the order a1, b1,
/// .., h8 that holds it. Where the board has no such king, a1.
pub open spec fn king_square_of(record: Seq<char>, color: Color) -> Square {
    Square::at(king_place_from(record, color, 0))
}

/// How the game stands: checkmate or stalemate where no move is legal,
/// according to whether the side to move is in check; ongoing otherwise.
pub open spec fn status_of(record: Seq<char>) -> BoardStatus {
    if legal_moves_of(record).len() == 0 {
        if in_check_of(record) {
            BoardStatus::Checkmate
        } else {
            BoardStatus::Stalemate
        }
    } else {
        BoardStatus::Ongoing
    }
}

/// The record of the standard starting position.
pub open spec fn start_record() -> Seq<char> {
    "rnbqkbnr/pppppppp/8/8/8/8/PPPPPPPP/RNBQKBNR w KQkq - 0 1"@
}

/// A snapshot of the game. Its view is its record in Forsyth-Edwards
/// notation; the board contents and the side to move are kept beside it.
pub struct Position {
    record: String,
    squares: Vec<Option<(Piece, Color)>>,
    side: Color,
    playable: bool,
}

impl View for Position {
    type V = Seq<char>;

    closed spec fn view(&self) -> Seq<char> {
        self.record@
    }
}

/// Reads the side to move off a record.
fn read_side(record: &str) -> (side: Color)
    ensures
        side == side_of(record@),
{
    let n = record.unicode_len();
    let mut i: usize = 0;
    assert(record@.skip(0) == record@);
    while n - i >= 2
        invariant
            n == record@.len(),
            i <= n,
            side_of(record@) == side_of(record@.skip(i as int)),
        decreases n - i,
    {
        let c = record.get_char(i);
        let ghost rest = record@.skip(i as int);
        assert(rest.len() >= 2);
        assert(rest[0] == c);
        assert(rest.drop_first() == record@.skip(i + 1));
        if c == ' ' {
            let d = record.get_char(i + 1);
            assert(rest[1] == d);
            if d == 'b' || d == 'B' {
                return Color::Black;
            } else {
                return Color::White;
            }
        }
        i = i + 1;
    }
    assert(record@.skip(i as int).len() < 2);
    Color::White
}

/// Whether a king of `color` stands somewhere in the placement.
fn find_king(placement: &Vec<Option<(Piece, Color)>>, color: Color) -> (found: bool)
    ensures
        found == has_king(placement@, color),
{
    let mut i: usize = 0;
    while i < placement.len()
        invariant
            i <= placement.len(),
            forall|k: int| 0 <= k < i ==> placement@[k] != Some((Piece::King, color)),
        decreases placement.len() - i,
    {
        match placement[i] {
            Some((Piece::King, side)) => {
                if side == color {
                    return true;
                }
            },
            _ => {},
        }
        i = i + 1;
    }
    false
}

/// The number of squares of the placement on which a piece of `color`
/// stands, as far as it matters: counting stops above sixteen.
fn count_men(placement: &Vec<Option<(Piece, Color)>>, color: Color) -> (count: usize)
    ensures
        count <= 17,
        count <= 16 ==> count == men(placement@, color),
        count == 17 ==> men(placement@, color) > 16,
{
    let mut count: usize = 0;
    let mut i: usize = 0;
    assert(placement@.take(0) == Seq::<Option<(Piece, Color)>>::empty());
    while i < placement.len() && count <= 16
        invariant
            i <= placement.len(),
            count <= 17,
            count == men(placement@.take(i as int), color),
        decreases placement.len() - i,
    {
        assert(placement@.take(i + 1).drop_last() == placement@.take(i as int));
        assert(placement@.take(i + 1).last() == placement@[i as int]);
        match placement[i] {
            Some((_, side)) => {
                if side == color {
                    count = count + 1;
                }
            },
            None => {},
        }
        i = i + 1;
    }
    proof {
        if count <= 16 {
            assert(placement@.take(i as int) == placement@);
        } else {
            men_grow(placement@, color, i as int);
        }
    }
    count
}

/// A longer placement holds no fewer pieces than its beginning.
proof fn men_grow(placement: Seq<Option<(Piece, Color)>>, color: Color, n: int)
    requires
        0 <= n <= placement.len(),
    ensures
        men(placement.take(n), color) <= men(placement, color),
    decreases placement.len() - n,
{
    if n < placement.len() {
        men_grow(placement, color, n + 1);
        assert(placement.take(n + 1).drop_last() == placement.take(n));
    } else {
        assert(placement.take(n) == placement);
    }
}

impl Position {
    #[verifier::type_invariant]
    spec fn consistent(&self) -> bool {
        &&& self.squares@ == engine_placement(self.record@)
        &&& self.side == side_of(self.record@)
        &&& self.playable == record_accepted(self.record@)
    }

    /// Reads a record into a position, playable or not.
    fn load(record: String) -> (p: Position)
        ensures
            p@ == record@,
            p.playable == record_accepted(record@),
    {
        let squares = rules_placement(record.as_str());
        let side = read_side(record.as_str());
        let playable = find_king(&squares, Color::White) && find_king(&squares, Color::Black)
            && count_men(&squares, Color::White) <= 16 && count_men(&squares, Color::Black) <= 16
            && rules_accepts(record.as_str());
        Position { record, squares, side, playable }
    }

    /// The position that a record in Forsyth-Edwards notation describes, if
    /// it describes one that can be played.
    pub fn from_fen(fen: &str) -> (r: Option<Position>)
        ensures
            r.is_some() == record_accepted(fen@),
            r matches Some(p) ==> p@ == fen@,
    {
        let p = Position::load(String::from_str(fen));
        if p.playable {
            Some(p)
        } else {
            None
        }
    }

    /// Whether the position can be played: it has a king of each side, no
    /// more than sixteen pieces a side, and the rules engine accepts it. A
    /// position that cannot be played has no legal move.
    pub fn is_playable(&self) -> (r: bool)
        ensures
            r == record_accepted(self@),
    {
        proof {
            use_type_invariant(self);
        }
        self.playable
    }

    /// The record of the position in Forsyth-Edwards notation.
    pub fn to_fen(&self) -> (fen: &str)
        ensures
            fen@ == self@,
    {
        self.record.as_str()
    }

    /// Whether the position has the given record.
    pub fn has_record(&self, record: &String) -> (r: bool)
        ensures
            r == (self@ == record@),
    {
        self.record == *record
    }

    /// The side whose turn it is.
    pub fn side_to_move(&self) -> (c: Color)
        ensures
            c == side_of(self@),
    {
        proof {
            use_type_invariant(self);
        }
        self.side
    }

    /// The piece on a square, if any.
    pub fn piece_on(&self, square: Square) -> (p: Option<Piece>)
        ensures
            p == piece_at(self@, square.index()),
    {
        proof {
            use_type_invariant(self);
        }
        let i = square.to_index();
        if i < self.squares.len() {
            match self.squares[i] {
                Some((piece, _)) => Some(piece),
                None => None,
            }
        } else {
            None
        }
    }

    /// The side whose piece stands on a square, if any.
    pub fn color_on(&self, square: Square) -> (c: Option<Color>)
        ensures
            c == color_at(self@, square.index()),
    {
        proof {
            use_type_invariant(self);
        }
        let i = square.to_index();
        if i < self.squares.len() {
            match self.squares[i] {
                Some((_, color)) => Some(color),
                None => None,
            }
        } else {
            None
        }
    }

    /// The square on which the king of `color` stands.
    pub fn king_square(&self, color: Color) -> (s: Square)
        ensures
            s == king_square_of(self@, color),
    {
        let mut i: u8 = 0;
        while i < 64
            invariant
                i <= 64,
                king_place_from(self@, color, 0) == king_place_from(self@, color, i as int),
            decreases 64 - i,
        {
            let sq = Square::from_index(i);
            let p = self.piece_on(sq);
            let c = self.color_on(sq);
            if p == Some(Piece::King) && c == Some(color) {
                return sq;
            }
            i = i + 1;
        }
        Square::from_index(64)
    }

    /// The legal moves, in the order of the rules engine.
    pub fn legal_moves(&self) -> (moves: Vec<ChessMove>)
        ensures
            moves@ == legal_moves_of(self@),
    {
        proof {
            use_type_invariant(self);
        }
        if self.playable {
            rules_legal_moves(self.record.as_str())
        } else {
            Vec::new()
        }
    }

    /// Whether the side to move is in check.
    pub fn in_check(&self) -> (check: bool)
        ensures
            check == in_check_of(self@),
    {
        proof {
            use_type_invariant(self);
        }
        self.playable && rules_checkers(self.record.as_str()) != 0
    }

    /// Whether the game goes on, or has ended in stalemate or checkmate.
    pub fn status(&self) -> (s: BoardStatus)
        ensures
            s == status_of(self@),
    {
        let moves = self.legal_moves();
        if moves.len() == 0 {
            if self.in_check() {
                BoardStatus::Checkmate
            } else {
                BoardStatus::Stalemate
            }
        } else {
            BoardStatus::Ongoing
        }
    }

    /// Whether a move is legal here.
    pub fn legal(&self, m: ChessMove) -> (ok: bool)
        ensures
            ok == legal_moves_of(self@).contains(m),
    {
        let moves = self.legal_moves();
        let mut i: usize = 0;
        while i < moves.len()
            invariant
                i <= moves.len(),
                moves@ == legal_moves_of(self@),
                forall|k: int| 0 <= k < i ==> moves@[k] != m,
            decreases moves.len() - i,
        {
            if moves[i].same(&m) {
                return true;
            }
            i = i + 1;
        }
        false
    }

    /// The position after a legal move.
    pub fn make_move_new(&self, m: ChessMove) -> (next: Position)
        requires
            legal_moves_of(self@).contains(m),
        ensures
            next@ == successor_of(self@, m),
            side_of(next@) == side_of(self@).other(),
    {
        proof {
            use_type_invariant(self);
        }
        Position::load(rules_make_move(self.record.as_str(), m))
    }

    /// The position after a move, if the move is legal.
    pub fn try_move(&self, m: ChessMove) -> (next: Option<Position>)
        ensures
            next.is_some() == legal_moves_of(self@).contains(m),
            next matches Some(p) ==> p@ == successor_of(self@, m),
    {
        if self.legal(m) {
            Some(self.make_move_new(m))
        } else {
            None
        }
    }
}

impl Default for Position {
    /// The standard starting position.
    fn default() -> (p: Position)
        ensures
            p@ == start_record(),
    {
        Position::load(String::from_str("rnbqkbnr/pppppppp/8/8/8/8/PPPPPPPP/RNBQKBNR w KQkq - 0 1"))
    }
}

} // verus!
