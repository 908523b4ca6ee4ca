//! Move notation: the short algebraic form of a move.

use vstd::prelude::*;
use crate::board::{BoardStatus, ChessMove, File, Piece, Rank, Square};
use crate::position::{
    in_check_of, legal_moves_of, piece_at, status_of, successor_of, Position,
};

verus! {

/// The digit that names a rank.
pub open spec fn rank_char(rank: Rank) -> char {
    match rank {
        Rank::First => '1',
        Rank::Second => '2',
        Rank::Third => '3',
        Rank::Fourth => '4',
        Rank::Fifth => '5',
        Rank::Sixth => '6',
        Rank::Seventh => '7',
        Rank::Eighth => '8',
    }
}

/// The letter that names a file.
pub open spec fn file_char(file: File) -> char {
    match file {
        File::A => 'a',
        File::B => 'b',
        File::C => 'c',
        File::D => 'd',
        File::E => 'e',
        File::F => 'f',
        File::G => 'g',
        File::H => 'h',
    }
}

/// The digit that names a rank.
pub fn rank_to_char(rank: Rank) -> (c: char)
    ensures
        c == rank_char(rank),
{
    match rank {
        Rank::First => '1',
        Rank::Second => '2',
        Rank::Third => '3',
        Rank::Fourth => '4',
        Rank::Fifth => '5',
        Rank::Sixth => '6',
        Rank::Seventh => '7',
        Rank::Eighth => '8',
    }
}

/// The letter that names a file.
pub fn file_to_char(file: File) -> (c: char)
    ensures
        c == file_char(file),
{
    match file {
        File::A => 'a',
        File::B => 'b',
        File::C => 'c',
        File::D => 'd',
        File::E => 'e',
        File::F => 'f',
        File::G => 'g',
        File::H => 'h',
    }
}

/// The lower-case form of an ASCII capital; any other character unchanged.
pub open spec fn lower(c: char) -> char {
    if 'A' <= c && c <= 'Z' {
        ((c as int) + 32) as char
    } else {
        c
    }
}

/// The lower-case form of an ASCII capital; any other character unchanged.
pub fn to_lower(c: char) -> (l: char)
    ensures
        l == lower(c),
{
    if 'A' <= c && c <= 'Z' {
        ((c as u8) + 32) as char
    } else {
        c
    }
}

/// How many of the moves satisfy `keep`.
pub open spec fn count_where(moves: Seq<ChessMove>, keep: spec_fn(ChessMove) -> bool) -> nat
    decreases moves.len(),
{
    if moves.len() == 0 {
        0
    } else if keep(moves.last()) {
        count_where(moves.drop_last(), keep) + 1
    } else {
        count_where(moves.drop_last(), keep)
    }
}

/// Whether `x` goes where `m` goes, with a piece of the same kind.
pub open spec fn rival(record: Seq<char>, m: ChessMove, x: ChessMove) -> bool {
    x.dest == m.dest && piece_at(record, x.source.index()) == piece_at(record, m.source.index())
}

/// Whether `x` is a rival of `m` that starts on the same rank.
pub open spec fn rank_rival(record: Seq<char>, m: ChessMove, x: ChessMove) -> bool {
    rival(record, m, x) && x.source.rank_index() == m.source.rank_index()
}

/// Whether `x` is a rival of `m` that starts on the same file.
pub open spec fn file_rival(record: Seq<char>, m: ChessMove, x: ChessMove) -> bool {
    rival(record, m, x) && x.source.file_index() == m.source.file_index()
}

/// The number of legal moves that go where `m` goes with a piece of the
/// same kind, `m` among them.
pub open spec fn rivals(record: Seq<char>, m: ChessMove) -> nat {
    count_where(legal_moves_of(record), |x: ChessMove| rival(record, m, x))
}

/// The capital that names a piece; nothing for a pawn.
pub open spec fn piece_letter(piece: Option<Piece>) -> Seq<char> {
    match piece {
        Some(Piece::Bishop) => seq!['B'],
        Some(Piece::King) => seq!['K'],
        Some(Piece::Knight) => seq!['N'],
        Some(Piece::Queen) => seq!['Q'],
        Some(Piece::Rook) => seq!['R'],
        _ => Seq::empty(),
    }
}

/// The letter and digit that name a square.
pub open spec fn square_name(square: Square) -> Seq<char> {
    seq![file_char(File::at(square.file as int)), rank_char(Rank::at(square.rank as int))]
}

/// What tells `m` from its rivals: nothing where it has none, the file of
/// its source where another rival starts on the same rank, else the rank
/// where another starts on the same file, else both.
pub open spec fn origin_mark(record: Seq<char>, m: ChessMove) -> Seq<char> {
    if rivals(record, m) > 1 {
        if count_where(legal_moves_of(record), |x: ChessMove| rank_rival(record, m, x)) > 1 {
            seq![file_char(File::at(m.source.file as int))]
        } else if count_where(legal_moves_of(record), |x: ChessMove| file_rival(record, m, x))
            > 1 {
            seq![rank_char(Rank::at(m.source.rank as int))]
        } else {
            square_name(m.source)
        }
    } else {
        Seq::empty()
    }
}

/// The mark of a capture: `x` where the destination is occupied, after the
/// file of the source for a pawn that has no rival.
pub open spec fn capture_mark(record: Seq<char>, m: ChessMove) -> Seq<char> {
    if piece_at(record, m.dest.index()).is_some() {
        if piece_at(record, m.source.index()) == Some(Piece::Pawn) && rivals(record, m) == 1 {
            seq![file_char(File::at(m.source.file as int)), 'x']
        } else {
            seq!['x']
        }
    } else {
        Seq::empty()
    }
}

/// The mark of a promotion: `=` and the capital of the new piece.
pub open spec fn promotion_mark(m: ChessMove) -> Seq<char> {
    match m.promotion {
        None => Seq::empty(),
        Some(Piece::Bishop) => seq!['=', 'B'],
        Some(Piece::Knight) => seq!['=', 'N'],
        Some(Piece::Queen) => seq!['=', 'Q'],
        Some(Piece::Rook) => seq!['=', 'R'],
        Some(_) => seq!['='],
    }
}

/// The mark of what the move does to the other side: `#` for checkmate,
/// `+` for check.
pub open spec fn check_mark(record: Seq<char>, m: ChessMove) -> Seq<char> {
    let next = successor_of(record, m);
    if status_of(next) == BoardStatus::Checkmate {
        seq!['#']
    } else if in_check_of(next) {
        seq!['+']
    } else {
        Seq::empty()
    }
}

/// Whether the move is a king's move over more than one file: castling.
pub open spec fn is_castling(record: Seq<char>, m: ChessMove) -> bool {
    piece_at(record, m.source.index()) == Some(Piece::King) && (m.source.file_index()
        - m.dest.file_index() > 1 || m.dest.file_index() - m.source.file_index() > 1)
}

/// The short algebraic notation of a move.
pub open spec fn san_of(record: Seq<char>, m: ChessMove) -> Seq<char> {
    if is_castling(record, m) {
        if m.source.file_index() < m.dest.file_index() {
            seq!['O', '-', 'O']
        } else {
            seq!['O', '-', 'O', '-', 'O']
        }
    } else {
        piece_letter(piece_at(record, m.source.index())) + origin_mark(record, m) + capture_mark(
            record,
            m,
        ) + square_name(m.dest) + promotion_mark(m) + check_mark(record, m)
    }
}

/// Writes the capital that names a piece.
fn push_piece_letter(san: &mut Vec<char>, piece: Option<Piece>)
    ensures
        final(san)@ == old(san)@ + piece_letter(piece),
{
    match piece {
        Some(Piece::Bishop) => san.push('B'),
        Some(Piece::King) => san.push('K'),
        Some(Piece::Knight) => san.push('N'),
        Some(Piece::Queen) => san.push('Q'),
        Some(Piece::Rook) => san.push('R'),
        _ => {},
    }
    assert(san@ == old(san)@ + piece_letter(piece));
}

/// Counts the rivals of a move among the legal moves: all of them, those
/// that start on its rank, and those that start on its file.
fn count_rivals(board: &Position, m: ChessMove) -> (counts: (usize, usize, usize))
    ensures
        counts.0 == rivals(board@, m),
        counts.1 == count_where(legal_moves_of(board@), |x: ChessMove| rank_rival(board@, m, x)),
        counts.2 == count_where(legal_moves_of(board@), |x: ChessMove| file_rival(board@, m, x)),
{
    let piece = board.piece_on(m.get_source());
    let all_moves = board.legal_moves();
    let ghost same = |x: ChessMove| rival(board@, m, x);
    let ghost same_rank = |x: ChessMove| rank_rival(board@, m, x);
    let ghost same_file = |x: ChessMove| file_rival(board@, m, x);
    let mut with_same_piece: usize = 0;
    let mut on_same_rank: usize = 0;
    let mut on_same_file: usize = 0;
    let mut k: usize = 0;
    while k < all_moves.len()
        invariant
            k <= all_moves.len(),
            all_moves@ == legal_moves_of(board@),
            piece == piece_at(board@, m.source.index()),
            same == |x: ChessMove| rival(board@, m, x),
            same_rank == |x: ChessMove| rank_rival(board@, m, x),
            same_file == |x: ChessMove| file_rival(board@, m, x),
            with_same_piece == count_where(all_moves@.take(k as int), same),
            on_same_rank == count_where(all_moves@.take(k as int), same_rank),
            on_same_file == count_where(all_moves@.take(k as int), same_file),
            with_same_piece <= k,
            on_same_rank <= k,
            on_same_file <= k,
        decreases all_moves.len() - k,
    {
        assert(all_moves@.take(k + 1).drop_last() == all_moves@.take(k as int));
        let x = all_moves[k];
        if x.get_dest() == m.get_dest() && board.piece_on(x.get_source()) == piece {
            with_same_piece = with_same_piece + 1;
            if x.get_source().get_rank().to_index() == m.get_source().get_rank().to_index() {
                on_same_rank = on_same_rank + 1;
            }
            if x.get_source().get_file().to_index() == m.get_source().get_file().to_index() {
                on_same_file = on_same_file + 1;
            }
        }
        k = k + 1;
    }
    assert(all_moves@.take(k as int) == all_moves@);
    (with_same_piece, on_same_rank, on_same_file)
}

/// Writes what tells a move from its rivals.
fn push_origin_mark(san: &mut Vec<char>, board: &Position, m: ChessMove, counts: (usize, usize, usize))
    requires
        counts.0 == rivals(board@, m),
        counts.1 == count_where(legal_moves_of(board@), |x: ChessMove| rank_rival(board@, m, x)),
        counts.2 == count_where(legal_moves_of(board@), |x: ChessMove| file_rival(board@, m, x)),
    ensures
        final(san)@ == old(san)@ + origin_mark(board@, m),
{
    let source_file = file_to_char(m.get_source().get_file());
    let source_rank = rank_to_char(m.get_source().get_rank());
    if counts.0 > 1 {
        if counts.1 > 1 {
            san.push(source_file);
        } else if counts.2 > 1 {
            san.push(source_rank);
        } else {
            san.push(source_file);
            san.push(source_rank);
        }
    }
    assert(san@ == old(san)@ + origin_mark(board@, m));
}

/// Writes the mark of a capture.
fn push_capture_mark(san: &mut Vec<char>, board: &Position, m: ChessMove, with_same_piece: usize)
    requires
        with_same_piece == rivals(board@, m),
    ensures
        final(san)@ == old(san)@ + capture_mark(board@, m),
{
    if board.piece_on(m.get_dest()).is_some() {
        if board.piece_on(m.get_source()) == Some(Piece::Pawn) && with_same_piece == 1 {
            san.push(file_to_char(m.get_source().get_file()));
        }
        san.push('x');
    }
    assert(san@ == old(san)@ + capture_mark(board@, m));
}

/// Writes the letter and digit that name a square.
fn push_square_name(san: &mut Vec<char>, square: Square)
    ensures
        final(san)@ == old(san)@ + square_name(square),
{
    san.push(file_to_char(square.get_file()));
    san.push(rank_to_char(square.get_rank()));
    assert(san@ == old(san)@ + square_name(square));
}

/// Writes the mark of a promotion.
fn push_promotion_mark(san: &mut Vec<char>, m: ChessMove)
    ensures
        final(san)@ == old(san)@ + promotion_mark(m),
{
    match m.get_promotion() {
        None => {},
        Some(promoted) => {
            san.push('=');
            match promoted {
                Piece::Bishop => san.push('B'),
                Piece::Knight => san.push('N'),
                Piece::Queen => san.push('Q'),
                Piece::Rook => san.push('R'),
                _ => {},
            }
        },
    }
    assert(san@ == old(san)@ + promotion_mark(m));
}

/// Writes the mark of checkmate or check.
fn push_check_mark(san: &mut Vec<char>, board: &Position, m: ChessMove)
    requires
        legal_moves_of(board@).contains(m),
    ensures
        final(san)@ == old(san)@ + check_mark(board@, m),
{
    let resulting_board = board.make_move_new(m);
    if resulting_board.status() == BoardStatus::Checkmate {
        san.push('#');
    } else if resulting_board.in_check() {
        san.push('+');
    }
    assert(san@ == old(san)@ + check_mark(board@, m));
}

/// The short algebraic notation of a legal move, character by character.
pub fn san_chars(board: &Position, m: ChessMove) -> (san: Vec<char>)
    requires
        legal_moves_of(board@).contains(m),
    ensures
        san@ == san_of(board@, m),
{
    let piece = board.piece_on(m.get_source());
    let start_file: u8 = m.get_source().get_file().to_index();
    let end_file: u8 = m.get_dest().get_file().to_index();
    let mut san: Vec<char> = Vec::new();
    if piece == Some(Piece::King) && (start_file > end_file + 1 || end_file > start_file + 1) {
        san.push('O');
        san.push('-');
        san.push('O');
        if start_file >= end_file {
            san.push('-');
            san.push('O');
        }
        assert(san@ == san_of(board@, m));
        return san;
    }
    let counts = count_rivals(board, m);
    push_piece_letter(&mut san, piece);
    push_origin_mark(&mut san, board, m, counts);
    push_capture_mark(&mut san, board, m, counts.0);
    push_square_name(&mut san, m.get_dest());
    push_promotion_mark(&mut san, m);
    push_check_mark(&mut san, board, m);
    assert(san@ == san_of(board@, m));
    san
}

/// `String::from_iter` of std, on the characters of a vector: the string
/// made of them, in order.
#[verifier::external_body]
fn string_of(chars: &Vec<char>) -> (text: String)
    ensures
        text@ == chars@,
{
    chars.iter().collect()
}

/// The short algebraic notation of a legal move.
#[allow(non_snake_case)]
pub fn move_to_SAN(board: &Position, m: ChessMove) -> (san: String)
    requires
        legal_moves_of(board@).contains(m),
    ensures
        san@ == san_of(board@, m),
{
    let chars = san_chars(board, m);
    string_of(&chars)
}

/// The short algebraic notation of a move, if the move is legal.
pub fn notation(board: &Position, m: ChessMove) -> (san: Option<String>)
    ensures
        san.is_some() == legal_moves_of(board@).contains(m),
        san matches Some(text) ==> text@ == san_of(board@, m),
{
    if board.legal(m) {
        Some(move_to_SAN(board, m))
    } else {
        None
    }
}

} // verus!
