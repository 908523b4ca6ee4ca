//! The plain vocabulary of the game: sides, pieces, squares and moves.

use vstd::prelude::*;

verus! {

/// One of the two sides.
#[derive(Clone, Copy, Debug, PartialEq, Eq, Structural)]
pub enum Color {
    White,
    Black,
}

impl Color {
    /// The other side.
    pub open spec fn other(self) -> Color {
        match self {
            Color::White => Color::Black,
            Color::Black => Color::White,
        }
    }

    /// The other side.
    pub fn opposite(self) -> (c: Color)
        ensures
            c == self.other(),
    {
        match self {
            Color::White => Color::Black,
            Color::Black => Color::White,
        }
    }
}

/// A kind of piece.
#[derive(Clone, Copy, Debug, PartialEq, Eq, Structural)]
pub enum Piece {
    Pawn,
    Knight,
    Bishop,
    Rook,
    Queen,
    King,
}

impl Piece {
    /// The standard material value: pawn 1, knight and bishop 3, rook 5,
    /// queen 9, king 0.
    pub open spec fn material(self) -> int {
        match self {
            Piece::Pawn => 1,
            Piece::Knight => 3,
            Piece::Bishop => 3,
            Piece::Rook => 5,
            Piece::Queen => 9,
            Piece::King => 0,
        }
    }

    /// The place of the piece in the order pawn, knight, bishop, rook,
    /// queen, king.
    pub open spec fn ordinal(self) -> int {
        match self {
            Piece::Pawn => 0,
            Piece::Knight => 1,
            Piece::Bishop => 2,
            Piece::Rook => 3,
            Piece::Queen => 4,
            Piece::King => 5,
        }
    }

    /// The place of the piece in the order pawn, knight, bishop, rook,
    /// queen, king.
    pub fn to_index(self) -> (i: u8)
        ensures
            i == self.ordinal(),
    {
        match self {
            Piece::Pawn => 0,
            Piece::Knight => 1,
            Piece::Bishop => 2,
            Piece::Rook => 3,
            Piece::Queen => 4,
            Piece::King => 5,
        }
    }
}

/// A row of the board, counted from White's side.
#[derive(Clone, Copy, Debug, PartialEq, Eq, Structural)]
pub enum Rank {
    First,
    Second,
    Third,
    Fourth,
    Fifth,
    Sixth,
    Seventh,
    Eighth,
}

impl Rank {
    /// The rank's number, 0 for the first rank up to 7 for the eighth.
    pub open spec fn index(self) -> int {
        match self {
            Rank::First => 0,
            Rank::Second => 1,
            Rank::Third => 2,
            Rank::Fourth => 3,
            Rank::Fifth => 4,
            Rank::Sixth => 5,
            Rank::Seventh => 6,
            Rank::Eighth => 7,
        }
    }

    /// The rank with the given number, taken modulo 8.
    pub open spec fn at(i: int) -> Rank {
        let k = i % 8;
        if k == 0 {
            Rank::First
        } else if k == 1 {
            Rank::Second
        } else if k == 2 {
            Rank::Third
        } else if k == 3 {
            Rank::Fourth
        } else if k == 4 {
            Rank::Fifth
        } else if k == 5 {
            Rank::Sixth
        } else if k == 6 {
            Rank::Seventh
        } else {
            Rank::Eighth
        }
    }

    /// The rank's number, 0 for the first rank up to 7 for the eighth.
    pub fn to_index(self) -> (i: u8)
        ensures
            i == self.index(),
            i < 8,
    {
        match self {
            Rank::First => 0,
            Rank::Second => 1,
            Rank::Third => 2,
            Rank::Fourth => 3,
            Rank::Fifth => 4,
            Rank::Sixth => 5,
            Rank::Seventh => 6,
            Rank::Eighth => 7,
        }
    }

    /// The rank with the given number; numbers above 7 wrap around.
    pub fn from_index(i: u8) -> (r: Rank)
        ensures
            r == Rank::at(i as int),
            i < 8 ==> r.index() == i,
    {
        let k: u8 = i % 8;
        if k == 0 {
            Rank::First
        } else if k == 1 {
            Rank::Second
        } else if k == 2 {
            Rank::Third
        } else if k == 3 {
            Rank::Fourth
        } else if k == 4 {
            Rank::Fifth
        } else if k == 5 {
            Rank::Sixth
        } else if k == 6 {
            Rank::Seventh
        } else {
            Rank::Eighth
        }
    }
}

/// A column of the board, counted from the queen's side.
#[derive(Clone, Copy, Debug, PartialEq, Eq, Structural)]
pub enum File {
    A,
    B,
    C,
    D,
    E,
    F,
    G,
    H,
}

impl File {
    /// The file's number, 0 for the a-file up to 7 for the h-file.
    pub open spec fn index(self) -> int {
        match self {
            File::A => 0,
            File::B => 1,
            File::C => 2,
            File::D => 3,
            File::E => 4,
            File::F => 5,
            File::G => 6,
            File::H => 7,
        }
    }

    /// The file with the given number, taken modulo 8.
    pub open spec fn at(i: int) -> File {
        let k = i % 8;
        if k == 0 {
            File::A
        } else if k == 1 {
            File::B
        } else if k == 2 {
            File::C
        } else if k == 3 {
            File::D
        } else if k == 4 {
            File::E
        } else if k == 5 {
            File::F
        } else if k == 6 {
            File::G
        } else {
            File::H
        }
    }

    /// The file's number, 0 for the a-file up to 7 for the h-file.
    pub fn to_index(self) -> (i: u8)
        ensures
            i == self.index(),
            i < 8,
    {
        match self {
            File::A => 0,
            File::B => 1,
            File::C => 2,
            File::D => 3,
            File::E => 4,
            File::F => 5,
            File::G => 6,
            File::H => 7,
        }
    }

    /// The file with the given number; numbers above 7 wrap around.
    pub fn from_index(i: u8) -> (f: File)
        ensures
            f == File::at(i as int),
            i < 8 ==> f.index() == i,
    {
        let k: u8 = i % 8;
        if k == 0 {
            File::A
        } else if k == 1 {
            File::B
        } else if k == 2 {
            File::C
        } else if k == 3 {
            File::D
        } else if k == 4 {
            File::E
        } else if k == 5 {
            File::F
        } else if k == 6 {
            File::G
        } else {
            File::H
        }
    }
}

/// A square of the board, held as the numbers of its rank and file.
///
/// Both numbers are read modulo 8, so every value names a square.
#[derive(Clone, Copy, Debug, PartialEq, Eq, Structural)]
pub struct Square {
    pub rank: u8,
    pub file: u8,
}

impl Square {
    /// The rank number of the square, between 0 and 7.
    pub open spec fn rank_index(self) -> int {
        self.rank as int % 8
    }

    /// The file number of the square, between 0 and 7.
    pub open spec fn file_index(self) -> int {
        self.file as int % 8
    }

    /// The place of the square in the order a1, b1, .., h1, a2, .., h8.
    pub open spec fn index(self) -> int {
        self.rank_index() * 8 + self.file_index()
    }

    /// The side whose colour the square has: the squares whose rank and file
    /// numbers add up to an even number are Black's.
    pub open spec fn shade(self) -> Color {
        if (self.rank_index() + self.file_index()) % 2 == 0 {
            Color::Black
        } else {
            Color::White
        }
    }

    /// The number of king steps between two squares: the larger of the rank
    /// distance and the file distance.
    pub open spec fn distance(self, other: Square) -> int {
        let dr = if self.rank_index() >= other.rank_index() {
            self.rank_index() - other.rank_index()
        } else {
            other.rank_index() - self.rank_index()
        };
        let df = if self.file_index() >= other.file_index() {
            self.file_index() - other.file_index()
        } else {
            other.file_index() - self.file_index()
        };
        if dr >= df {
            dr
        } else {
            df
        }
    }

    /// The square with the given place in the order a1, b1, .., h8.
    pub open spec fn at(i: int) -> Square {
        Square { rank: ((i / 8) % 8) as u8, file: (i % 8) as u8 }
    }

    /// The square on the given rank and file.
    pub fn make_square(rank: Rank, file: File) -> (s: Square)
        ensures
            s.rank == rank.index(),
            s.file == file.index(),
    {
        Square { rank: rank.to_index(), file: file.to_index() }
    }

    /// The square with the given place in the order a1, b1, .., h8; places
    /// above 63 wrap around.
    pub fn from_index(i: u8) -> (s: Square)
        ensures
            s == Square::at(i as int),
            i < 64 ==> s.index() == i,
    {
        Square { rank: (i / 8) % 8, file: i % 8 }
    }

    /// The rank the square is on.
    pub fn get_rank(&self) -> (r: Rank)
        ensures
            r == Rank::at(self.rank as int),
            r.index() == self.rank_index(),
    {
        Rank::from_index(self.rank)
    }

    /// The file the square is on.
    pub fn get_file(&self) -> (f: File)
        ensures
            f == File::at(self.file as int),
            f.index() == self.file_index(),
    {
        File::from_index(self.file)
    }

    /// The place of the square in the order a1, b1, .., h8.
    pub fn to_index(&self) -> (i: usize)
        ensures
            i == self.index(),
            i < 64,
    {
        let r: usize = (self.rank % 8) as usize;
        let f: usize = (self.file % 8) as usize;
        r * 8 + f
    }
}

/// A move: the square a piece leaves, the square it reaches, and the piece a
/// pawn turns into where it promotes.
#[derive(Clone, Copy, Debug, PartialEq, Eq, Structural)]
pub struct ChessMove {
    pub source: Square,
    pub dest: Square,
    pub promotion: Option<Piece>,
}

impl ChessMove {
    /// A move from `source` to `dest`.
    pub fn new(source: Square, dest: Square, promotion: Option<Piece>) -> (m: ChessMove)
        ensures
            m == (ChessMove { source, dest, promotion }),
    {
        ChessMove { source, dest, promotion }
    }

    /// The square the piece leaves.
    pub fn get_source(&self) -> (s: Square)
        ensures
            s == self.source,
    {
        self.source
    }

    /// The square the piece reaches.
    pub fn get_dest(&self) -> (s: Square)
        ensures
            s == self.dest,
    {
        self.dest
    }

    /// The piece a promoting pawn turns into.
    pub fn get_promotion(&self) -> (p: Option<Piece>)
        ensures
            p == self.promotion,
    {
        self.promotion
    }

    /// Whether two moves are the same.
    pub fn same(&self, other: &ChessMove) -> (r: bool)
        ensures
            r == (*self == *other),
    {
        *self == *other
    }
}

/// How a game stands: still running, or ended without a legal move.
#[derive(Clone, Copy, Debug, PartialEq, Eq, Structural)]
pub enum BoardStatus {
    Ongoing,
    Stalemate,
    Checkmate,
}

} // verus!
