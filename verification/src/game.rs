//! The course of a game: the position, what came before it, and how and when
//! the game ends.

use vstd::prelude::*;
use crate::alg::evaluators::sum_squares;
use crate::board::{BoardStatus, ChessMove, Color, Piece, Square};
use crate::position::{
    color_at, legal_moves_of, piece_at, start_record, status_of, successor_of, Position,
};
use crate::rules::side_of;

verus! {

/// How a game has ended.
#[derive(Clone, Copy, Debug, PartialEq, Eq, Structural)]
pub enum GameOutcome {
    Checkmate(Color),
    Stalemate,
    InsufficientMaterial,
    DrawByRepetition,
    DrawBy50MoveRule,
}

/// The words in which an outcome is announced.
pub open spec fn outcome_text(outcome: GameOutcome) -> Seq<char> {
    match outcome {
        GameOutcome::Checkmate(Color::White) => "White wins by checkmate"@,
        GameOutcome::Checkmate(Color::Black) => "Black wins by checkmate"@,
        GameOutcome::Stalemate => "Stalemate"@,
        GameOutcome::InsufficientMaterial => "Draw by insufficient material"@,
        GameOutcome::DrawByRepetition => "Draw by repetition"@,
        GameOutcome::DrawBy50MoveRule => "Draw by 50 move rule"@,
    }
}

impl GameOutcome {
    /// The words in which the outcome is announced.
    pub fn get_text(&self) -> (text: &'static str)
        ensures
            text@ == outcome_text(*self),
    {
        match self {
            GameOutcome::Checkmate(color) => match color {
                Color::White => "White wins by checkmate",
                Color::Black => "Black wins by checkmate",
            },
            GameOutcome::Stalemate => "Stalemate",
            GameOutcome::InsufficientMaterial => "Draw by insufficient material",
            GameOutcome::DrawByRepetition => "Draw by repetition",
            GameOutcome::DrawBy50MoveRule => "Draw by 50 move rule",
        }
    }
}

/// What a square adds to the count of the pieces of one kind and side.
pub open spec fn piece_term(record: Seq<char>, color: Color, piece: Piece, i: int) -> int {
    if piece_at(record, i) == Some(piece) && color_at(record, i) == Some(color) {
        1
    } else {
        0
    }
}

/// The number of pieces of one kind that a side has on the board.
pub open spec fn piece_count(record: Seq<char>, color: Color, piece: Piece) -> int {
    sum_squares(|i: int| piece_term(record, color, piece, i), 64)
}

/// Whether a side has what it takes to give mate: a pawn, a queen, a rook,
/// two bishops or three knights.
pub open spec fn can_mate(record: Seq<char>, color: Color) -> bool {
    ||| piece_count(record, color, Piece::Pawn) > 0
    ||| piece_count(record, color, Piece::Queen) > 0
    ||| piece_count(record, color, Piece::Rook) > 0
    ||| piece_count(record, color, Piece::Bishop) > 1
    ||| piece_count(record, color, Piece::Knight) > 2
}

/// Whether neither side has what it takes to give mate.
pub open spec fn insufficient_material(record: Seq<char>) -> bool {
    !can_mate(record, Color::White) && !can_mate(record, Color::Black)
}

/// The number of pieces of one kind that a side has on the board.
pub fn count_pieces(board: &Position, color: Color, piece: Piece) -> (count: u8)
    ensures
        count == piece_count(board@, color, piece),
        count <= 64,
{
    let ghost term = |i: int| piece_term(board@, color, piece, i);
    let mut count: u8 = 0;
    let mut i: u8 = 0;
    while i < 64
        invariant
            i <= 64,
            term == |i: int| piece_term(board@, color, piece, i),
            count == sum_squares(term, i as int),
            count <= i,
        decreases 64 - i,
    {
        let square = Square::from_index(i);
        if board.piece_on(square) == Some(piece) && board.color_on(square) == Some(color) {
            count = count + 1;
        }
        i = i + 1;
    }
    count
}

/// Whether a side has what it takes to give mate.
fn has_mating_material(board: &Position, color: Color) -> (r: bool)
    ensures
        r == can_mate(board@, color),
{
    let num_pawns = count_pieces(board, color, Piece::Pawn);
    let num_queens = count_pieces(board, color, Piece::Queen);
    let num_rooks = count_pieces(board, color, Piece::Rook);
    let num_bishops = count_pieces(board, color, Piece::Bishop);
    let num_knights = count_pieces(board, color, Piece::Knight);
    num_pawns > 0 || num_queens > 0 || num_rooks > 0 || num_bishops > 1 || num_knights > 2 || (
    num_knights > 1 && num_bishops > 1)
}

/// Whether neither side has what it takes to give mate.
pub fn is_insufficient_material(board: &Position) -> (r: bool)
    ensures
        r == insufficient_material(board@),
{
    !has_mating_material(board, Color::White) && !has_mating_material(board, Color::Black)
}

/// How often a record occurs among earlier ones.
pub open spec fn occurrences(history: Seq<Seq<char>>, record: Seq<char>) -> nat
    decreases history.len(),
{
    if history.len() == 0 {
        0
    } else if history.last() == record {
        occurrences(history.drop_last(), record) + 1
    } else {
        occurrences(history.drop_last(), record)
    }
}

/// The records of some positions.
pub open spec fn records_of(history: Seq<String>) -> Seq<Seq<char>> {
    Seq::new(history.len(), |k: int| history[k]@)
}

/// The draw, if any, that a position brings: stalemate, too little material,
/// a position that has stood three times before, or fifty moves on end
/// without a pawn move or a capture.
pub open spec fn draw_of(record: Seq<char>, history: Seq<Seq<char>>, quiet_moves: int) -> Option<
    GameOutcome,
> {
    if status_of(record) == BoardStatus::Stalemate {
        Some(GameOutcome::Stalemate)
    } else if insufficient_material(record) {
        Some(GameOutcome::InsufficientMaterial)
    } else if occurrences(history, record) >= 3 {
        Some(GameOutcome::DrawByRepetition)
    } else if quiet_moves >= 50 {
        Some(GameOutcome::DrawBy50MoveRule)
    } else {
        None
    }
}

/// The end, if any, that a position brings: a win for the side that has
/// given mate, or a draw.
pub open spec fn end_of(record: Seq<char>, history: Seq<Seq<char>>, quiet_moves: int) -> Option<
    GameOutcome,
> {
    if status_of(record) == BoardStatus::Checkmate {
        Some(GameOutcome::Checkmate(side_of(record).other()))
    } else {
        draw_of(record, history, quiet_moves)
    }
}

/// Whether a move is quiet: no pawn moves and nothing stands where it goes.
pub open spec fn is_quiet(record: Seq<char>, m: ChessMove) -> bool {
    piece_at(record, m.source.index()) != Some(Piece::Pawn) && piece_at(
        record,
        m.dest.index(),
    ).is_none()
}

/// A game in progress: the position on the board, the records of the
/// positions before it, the number of quiet moves played on end, and the
/// outcome once there is one.
pub struct Game {
    pub board: Position,
    pub history: Vec<String>,
    pub reversable_moves: u32,
    pub outcome: Option<GameOutcome>,
}

impl Game {
    /// A game at the standard starting position.
    pub fn new() -> (game: Game)
        ensures
            game.board@ == start_record(),
            game.history@.len() == 0,
            game.reversable_moves == 0,
            game.outcome == end_of(start_record(), Seq::empty(), 0),
    {
        let mut game = Game {
            board: Position::default(),
            history: Vec::new(),
            reversable_moves: 0,
            outcome: None,
        };
        assert(records_of(game.history@) == Seq::<Seq<char>>::empty());
        game.on_new_move();
        game
    }

    /// How often the position on the board has stood before.
    pub fn repetitions(&self) -> (count: usize)
        ensures
            count == occurrences(records_of(self.history@), self.board@),
    {
        let ghost all = records_of(self.history@);
        let mut count: usize = 0;
        let mut k: usize = 0;
        assert(all.take(0) == Seq::<Seq<char>>::empty());
        while k < self.history.len()
            invariant
                k <= self.history.len(),
                all == records_of(self.history@),
                count == occurrences(all.take(k as int), self.board@),
                count <= k,
            decreases self.history.len() - k,
        {
            assert(all.take(k + 1).drop_last() == all.take(k as int));
            assert(all.take(k + 1).last() == self.history[k as int]@);
            if self.board.has_record(&self.history[k]) {
                count = count + 1;
            }
            k = k + 1;
        }
        assert(all.take(k as int) == all);
        count
    }

    /// Looks for a draw on the board and records it.
    fn detect_draw(&mut self) -> (drawn: bool)
        ensures
            final(self).board@ == old(self).board@,
            final(self).history == old(self).history,
            final(self).reversable_moves == old(self).reversable_moves,
            drawn == draw_of(
                old(self).board@,
                records_of(old(self).history@),
                old(self).reversable_moves as int,
            ).is_some(),
            drawn ==> final(self).outcome == draw_of(
                old(self).board@,
                records_of(old(self).history@),
                old(self).reversable_moves as int,
            ),
            !drawn ==> final(self).outcome == old(self).outcome,
    {
        if self.board.status() == BoardStatus::Stalemate {
            self.outcome = Some(GameOutcome::Stalemate);
            return true;
        }
        if is_insufficient_material(&self.board) {
            self.outcome = Some(GameOutcome::InsufficientMaterial);
            return true;
        }
        let num_occurences = self.repetitions();
        if num_occurences >= 3 {
            self.outcome = Some(GameOutcome::DrawByRepetition);
            return true;
        }
        if self.reversable_moves >= 50 {
            self.outcome = Some(GameOutcome::DrawBy50MoveRule);
            return true;
        }
        false
    }

    /// Looks for the end of the game on the board and records it. Returns
    /// whether the game goes on.
    fn on_new_move(&mut self) -> (goes_on: bool)
        ensures
            final(self).board@ == old(self).board@,
            final(self).history == old(self).history,
            final(self).reversable_moves == old(self).reversable_moves,
            final(self).outcome == match end_of(
                old(self).board@,
                records_of(old(self).history@),
                old(self).reversable_moves as int,
            ) {
                Some(outcome) => Some(outcome),
                None => old(self).outcome,
            },
            goes_on == final(self).outcome.is_none(),
    {
        if self.board.status() == BoardStatus::Checkmate {
            match self.board.side_to_move() {
                Color::White => {
                    self.outcome = Some(GameOutcome::Checkmate(Color::Black));
                },
                Color::Black => {
                    self.outcome = Some(GameOutcome::Checkmate(Color::White));
                },
            }
            return false;
        }
        if self.detect_draw() {
            return false;
        }
        self.outcome.is_none()
    }

    /// Plays a legal move: counts it if it is quiet and starts the count
    /// afresh if it is not, keeps the record of the position it was played
    /// in, and looks for the end of the game in the new position. Returns
    /// whether the game goes on.
    pub fn do_move(&mut self, m: ChessMove) -> (goes_on: bool)
        requires
            legal_moves_of(old(self).board@).contains(m),
        ensures
            final(self).board@ == successor_of(old(self).board@, m),
            records_of(final(self).history@) == records_of(old(self).history@).push(
                old(self).board@,
            ),
            final(self).reversable_moves == if is_quiet(old(self).board@, m) {
                if old(self).reversable_moves < u32::MAX {
                    old(self).reversable_moves + 1
                } else {
                    u32::MAX as int
                }
            } else {
                0
            },
            final(self).outcome == match end_of(
                final(self).board@,
                records_of(final(self).history@),
                final(self).reversable_moves as int,
            ) {
                Some(outcome) => Some(outcome),
                None => old(self).outcome,
            },
            goes_on == final(self).outcome.is_none(),
    {
        let mut reversable = true;
        if self.board.piece_on(m.get_source()) == Some(Piece::Pawn) {
            reversable = false;
        } else if self.board.piece_on(m.get_dest()).is_some() {
            reversable = false;
        }
        if reversable {
            if self.reversable_moves < u32::MAX {
                self.reversable_moves = self.reversable_moves + 1;
            }
        } else {
            self.reversable_moves = 0;
        }
        let next = self.board.make_move_new(m);
        self.history.push(String::from_str(self.board.to_fen()));
        assert(records_of(self.history@) == records_of(old(self).history@).push(old(self).board@));
        self.board = next;
        self.on_new_move()
    }

    /// Plays a move if it is legal, and says whether it was.
    pub fn try_move(&mut self, m: ChessMove) -> (played: bool)
        ensures
            played == legal_moves_of(old(self).board@).contains(m),
            played ==> final(self).board@ == successor_of(old(self).board@, m),
            played ==> records_of(final(self).history@) == records_of(old(self).history@).push(
                old(self).board@,
            ),
            played ==> final(self).reversable_moves == if is_quiet(old(self).board@, m) {
                if old(self).reversable_moves < u32::MAX {
                    old(self).reversable_moves + 1
                } else {
                    u32::MAX as int
                }
            } else {
                0
            },
            played ==> final(self).outcome == match end_of(
                final(self).board@,
                records_of(final(self).history@),
                final(self).reversable_moves as int,
            ) {
                Some(outcome) => Some(outcome),
                None => old(self).outcome,
            },
            !played ==> final(self).board@ == old(self).board@,
            !played ==> final(self).history == old(self).history,
            !played ==> final(self).reversable_moves == old(self).reversable_moves,
            !played ==> final(self).outcome == old(self).outcome,
    {
        if self.board.legal(m) {
            self.do_move(m);
            true
        } else {
            false
        }
    }

    /// The legal moves that start on a square, each with the rank and file
    /// numbers of the square it goes to.
    pub fn generate_moves(&self, square: Square) -> (found: Vec<(ChessMove, (u8, u8))>)
        ensures
            found@ == moves_from(legal_moves_of(self.board@), square),
    {
        let moves = self.board.legal_moves();
        let mut found: Vec<(ChessMove, (u8, u8))> = Vec::new();
        let mut k: usize = 0;
        while k < moves.len()
            invariant
                k <= moves.len(),
                found@ == moves_from(moves@.take(k as int), square),
            decreases moves.len() - k,
        {
            assert(moves@.take(k + 1).drop_last() == moves@.take(k as int));
            let m = moves[k];
            if m.get_source().to_index() == square.to_index() {
                found.push(
                    (m, (m.get_dest().get_rank().to_index(), m.get_dest().get_file().to_index())),
                );
            }
            k = k + 1;
        }
        assert(moves@.take(k as int) == moves@);
        found
    }
}

/// Those of the moves that start on a square, in order, each with the rank
/// and file numbers of the square it goes to.
pub open spec fn moves_from(moves: Seq<ChessMove>, square: Square) -> Seq<(ChessMove, (u8, u8))>
    decreases moves.len(),
{
    if moves.len() == 0 {
        Seq::empty()
    } else if moves.last().source.index() == square.index() {
        moves_from(moves.drop_last(), square).push(
            (
                moves.last(),
                (moves.last().dest.rank_index() as u8, moves.last().dest.file_index() as u8),
            ),
        )
    } else {
        moves_from(moves.drop_last(), square)
    }
}

/// What a click on a square of the board asks for: to play a move, or to
/// change which square is selected.
#[derive(Clone, Copy, Debug, PartialEq, Eq)]
pub enum Click {
    Play(ChessMove),
    Select(Option<(u8, u8)>),
}

/// The first of the offered moves that goes to the square with the given
/// rank and file numbers.
pub open spec fn first_move_to(offered: Seq<(ChessMove, (u8, u8))>, target: (u8, u8)) -> Option<
    ChessMove,
>
    decreases offered.len(),
{
    if offered.len() == 0 {
        None
    } else if offered[0].1 == target {
        Some(offered[0].0)
    } else {
        first_move_to(offered.drop_first(), target)
    }
}

/// What a click asks for: the first offered move that goes to the clicked
/// square, if there is one; otherwise the clicked square becomes the
/// selected one, or none is selected where it was selected already.
pub open spec fn click_of(
    offered: Seq<(ChessMove, (u8, u8))>,
    selected: Option<(u8, u8)>,
    target: (u8, u8),
) -> Click {
    match first_move_to(offered, target) {
        Some(m) => Click::Play(m),
        None => if selected == Some(target) {
            Click::Select(None)
        } else {
            Click::Select(Some(target))
        },
    }
}

/// What a click on the square with the given rank and file numbers asks
/// for, given the moves on offer from the selected square.
pub fn click(offered: &Vec<(ChessMove, (u8, u8))>, selected: Option<(u8, u8)>, target: (u8, u8)) -> (c:
    Click)
    ensures
        c == click_of(offered@, selected, target),
{
    let mut k: usize = 0;
    assert(offered@.skip(0) == offered@);
    while k < offered.len()
        invariant
            k <= offered.len(),
            first_move_to(offered@, target) == first_move_to(offered@.skip(k as int), target),
        decreases offered.len() - k,
    {
        assert(offered@.skip(k as int)[0] == offered[k as int]);
        assert(offered@.skip(k as int).drop_first() == offered@.skip(k + 1));
        let (m, (rank, file)) = offered[k];
        if rank == target.0 && file == target.1 {
            return Click::Play(m);
        }
        k = k + 1;
    }
    match selected {
        Some((rank, file)) => {
            if rank == target.0 && file == target.1 {
                Click::Select(None)
            } else {
                Click::Select(Some(target))
            }
        },
        None => Click::Select(Some(target)),
    }
}

} // verus!
