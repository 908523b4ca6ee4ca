//! What every move-choosing algorithm offers, and the three algorithms that
//! need no search.

use vstd::prelude::*;
use crate::board::{ChessMove, Color, Piece};
use crate::position::{legal_moves_of, Position};
use crate::rules::{random_index, side_of};
use crate::util::{lower, san_chars, san_of, to_lower};

verus! {

/// The legal moves of a position, in the order of the rules engine.
pub fn available_moves(board: &Position) -> (moves: Vec<ChessMove>)
    ensures
        moves@ == legal_moves_of(board@),
{
    board.legal_moves()
}

/// A way of choosing a move.
pub trait ChessAlgorithm {
    /// What the algorithm asks of a position, beyond its having a legal
    /// move, before it can choose there.
    spec fn accepts(&self, record: Seq<char>) -> bool;

    /// Whether the algorithm can choose in a position that has a legal move.
    fn can_play(&self, board: &Position) -> (ok: bool)
        ensures
            ok == self.accepts(board@),
    ;

    /// Chooses a legal move in a position that has one.
    fn get_move(&mut self, board: &Position) -> (m: ChessMove)
        requires
            old(self).accepts(board@),
            legal_moves_of(board@).len() > 0,
        ensures
            legal_moves_of(board@).contains(m),
    ;

    /// Tells the algorithm that a move has been played on the board. The
    /// algorithms of this library keep nothing between calls and ignore it.
    fn do_move(&mut self, board: &Position, chess_move: ChessMove) {
    }
}

/// Lets an algorithm choose where it can: in a position that it accepts and
/// that has a legal move. Nothing elsewhere.
pub fn choose_move<A: ChessAlgorithm>(algorithm: &mut A, board: &Position) -> (choice: Option<
    ChessMove,
>)
    ensures
        choice.is_some() == (old(algorithm).accepts(board@) && legal_moves_of(board@).len() > 0),
        choice matches Some(m) ==> legal_moves_of(board@).contains(m),
{
    if !algorithm.can_play(board) {
        return None;
    }
    let moves = available_moves(board);
    if moves.len() > 0 {
        Some(algorithm.get_move(board))
    } else {
        None
    }
}

/// Chooses among the legal moves at random.
#[derive(Clone, Copy, Debug)]
pub struct RandomChessAlgorithm;

impl ChessAlgorithm for RandomChessAlgorithm {
    open spec fn accepts(&self, record: Seq<char>) -> bool {
        true
    }

    fn can_play(&self, board: &Position) -> (ok: bool) {
        true
    }

    fn get_move(&mut self, board: &Position) -> (m: ChessMove)
        ensures
            *final(self) == *old(self),
    {
        let moves = available_moves(board);
        let k = random_index(moves.len());
        moves[k]
    }

    fn do_move(&mut self, board: &Position, chess_move: ChessMove)
        ensures
            *final(self) == *old(self),
    {
    }
}

/// Whether the `i`-th thing comes before the `j`-th in the order `before`.
pub open spec fn precedes(before: spec_fn(int, int) -> bool, i: int, j: int) -> bool {
    before(i, j)
}

/// The place of the first least among `n` things: the things are taken in
/// order, and one takes the lead only by coming before the one that holds
/// it.
pub open spec fn first_least(n: nat, before: spec_fn(int, int) -> bool) -> int
    decreases n,
{
    if n <= 1 {
        0
    } else {
        let lead = first_least((n - 1) as nat, before);
        if precedes(before, n - 1, lead) {
            n - 1
        } else {
            lead
        }
    }
}

/// Where `before` orders the things as a strict order in which any two are
/// comparable or equivalent, nothing comes before the first least, and the
/// first least comes before everything that precedes it in the sequence.
pub proof fn first_least_is_least(n: nat, before: spec_fn(int, int) -> bool)
    requires
        n > 0,
        forall|i: int, j: int|
            0 <= i < n && 0 <= j < n && #[trigger] precedes(before, i, j) ==> !precedes(
                before,
                j,
                i,
            ),
        forall|i: int, j: int, k: int|
            0 <= i < n && 0 <= j < n && 0 <= k < n && #[trigger] precedes(before, i, j)
                && !#[trigger] precedes(before, k, j) ==> precedes(before, i, k),
    ensures
        0 <= first_least(n, before) < n,
        forall|i: int| 0 <= i < n ==> !#[trigger] precedes(before, i, first_least(n, before)),
        forall|i: int|
            0 <= i < first_least(n, before) ==> #[trigger] precedes(
                before,
                first_least(n, before),
                i,
            ),
    decreases n,
{
    if n > 1 {
        first_least_is_least((n - 1) as nat, before);
        let lead = first_least((n - 1) as nat, before);
        if precedes(before, n - 1, lead) {
            assert forall|i: int| 0 <= i < n implies !#[trigger] precedes(before, i, n - 1) by {
                if i < n - 1 && precedes(before, i, n - 1) {
                    assert(!precedes(before, lead, n - 1));
                    assert(precedes(before, i, lead));
                }
            }
            assert forall|i: int| 0 <= i < n - 1 implies #[trigger] precedes(before, n - 1, i) by {
                assert(!precedes(before, i, lead));
            }
        }
    }
}

/// The place of a promotion in the order: no promotion first, then the
/// pieces from pawn to king.
pub open spec fn promotion_rank(promotion: Option<Piece>) -> int {
    match promotion {
        None => 0,
        Some(p) => 1 + p.ordinal(),
    }
}

/// The key by which `FirstMoveAlgorithm` orders the moves: the rank and
/// file of the source, the rank and file of the destination, and the
/// promotion; for Black the ranks are counted from the eighth.
pub open spec fn first_key(side: Color, m: ChessMove) -> (int, int, int, int, int) {
    if side == Color::White {
        (
            m.source.rank_index(),
            m.source.file_index(),
            m.dest.rank_index(),
            m.dest.file_index(),
            promotion_rank(m.promotion),
        )
    } else {
        (
            7 - m.source.rank_index(),
            m.source.file_index(),
            7 - m.dest.rank_index(),
            m.dest.file_index(),
            promotion_rank(m.promotion),
        )
    }
}

/// Whether one key comes before another: by the first entry in which they
/// differ.
pub open spec fn key_before(a: (int, int, int, int, int), b: (int, int, int, int, int)) -> bool {
    if a.0 != b.0 {
        a.0 < b.0
    } else if a.1 != b.1 {
        a.1 < b.1
    } else if a.2 != b.2 {
        a.2 < b.2
    } else if a.3 != b.3 {
        a.3 < b.3
    } else {
        a.4 < b.4
    }
}

/// The place, among the legal moves, of the move that `FirstMoveAlgorithm`
/// plays.
pub open spec fn first_move_place(record: Seq<char>) -> int {
    first_least(
        legal_moves_of(record).len(),
        |i: int, j: int|
            key_before(
                first_key(side_of(record), legal_moves_of(record)[i]),
                first_key(side_of(record), legal_moves_of(record)[j]),
            ),
    )
}

/// The move of `FirstMoveAlgorithm` has the least key of all legal moves,
/// and it is the first such move in the order of the rules engine.
pub proof fn first_move_is_least(record: Seq<char>)
    requires
        legal_moves_of(record).len() > 0,
    ensures
        0 <= first_move_place(record) < legal_moves_of(record).len(),
        forall|i: int|
            0 <= i < legal_moves_of(record).len() ==> !key_before(
                first_key(side_of(record), #[trigger] legal_moves_of(record)[i]),
                first_key(side_of(record), legal_moves_of(record)[first_move_place(record)]),
            ),
        forall|i: int|
            0 <= i < first_move_place(record) ==> key_before(
                first_key(side_of(record), legal_moves_of(record)[first_move_place(record)]),
                first_key(side_of(record), #[trigger] legal_moves_of(record)[i]),
            ),
{
    let before = |i: int, j: int|
        key_before(
            first_key(side_of(record), legal_moves_of(record)[i]),
            first_key(side_of(record), legal_moves_of(record)[j]),
        );
    first_least_is_least(legal_moves_of(record).len(), before);
    let lead = first_move_place(record);
    assert forall|i: int| 0 <= i < legal_moves_of(record).len() implies !key_before(
        first_key(side_of(record), #[trigger] legal_moves_of(record)[i]),
        first_key(side_of(record), legal_moves_of(record)[lead]),
    ) by {
        assert(!precedes(before, i, lead));
    }
    assert forall|i: int| 0 <= i < lead implies key_before(
        first_key(side_of(record), legal_moves_of(record)[lead]),
        first_key(side_of(record), #[trigger] legal_moves_of(record)[i]),
    ) by {
        assert(precedes(before, lead, i));
    }
}

/// The key of a move.
fn move_key(side: Color, m: &ChessMove) -> (key: (u8, u8, u8, u8, u8))
    ensures
        (key.0 as int, key.1 as int, key.2 as int, key.3 as int, key.4 as int) == first_key(
            side,
            *m,
        ),
{
    let source_rank: u8 = m.get_source().get_rank().to_index();
    let source_file: u8 = m.get_source().get_file().to_index();
    let dest_rank: u8 = m.get_dest().get_rank().to_index();
    let dest_file: u8 = m.get_dest().get_file().to_index();
    let promotion: u8 = match m.get_promotion() {
        None => 0,
        Some(p) => 1 + p.to_index(),
    };
    if side == Color::White {
        (source_rank, source_file, dest_rank, dest_file, promotion)
    } else {
        (7 - source_rank, source_file, 7 - dest_rank, dest_file, promotion)
    }
}

/// Whether one key comes before another.
fn key_less(a: (u8, u8, u8, u8, u8), b: (u8, u8, u8, u8, u8)) -> (r: bool)
    ensures
        r == key_before(
            (a.0 as int, a.1 as int, a.2 as int, a.3 as int, a.4 as int),
            (b.0 as int, b.1 as int, b.2 as int, b.3 as int, b.4 as int),
        ),
{
    if a.0 != b.0 {
        a.0 < b.0
    } else if a.1 != b.1 {
        a.1 < b.1
    } else if a.2 != b.2 {
        a.2 < b.2
    } else if a.3 != b.3 {
        a.3 < b.3
    } else {
        a.4 < b.4
    }
}

/// Plays the move that starts nearest to the mover's own first rank, then
/// nearest to the a-file; among such moves the one that ends nearest in the
/// same way, without promotion before with.
#[derive(Clone, Copy, Debug)]
pub struct FirstMoveAlgorithm;

impl ChessAlgorithm for FirstMoveAlgorithm {
    open spec fn accepts(&self, record: Seq<char>) -> bool {
        true
    }

    fn can_play(&self, board: &Position) -> (ok: bool) {
        true
    }

    fn get_move(&mut self, board: &Position) -> (m: ChessMove)
        ensures
            m == legal_moves_of(board@)[first_move_place(board@)],
            *final(self) == *old(self),
    {
        let moves = available_moves(board);
        let side = board.side_to_move();
        let ghost before = |i: int, j: int|
            key_before(
                first_key(side_of(board@), legal_moves_of(board@)[i]),
                first_key(side_of(board@), legal_moves_of(board@)[j]),
            );
        let mut lead: usize = 0;
        let mut lead_key = move_key(side, &moves[0]);
        let mut k: usize = 1;
        while k < moves.len()
            invariant
                1 <= k <= moves.len(),
                moves@ == legal_moves_of(board@),
                side == side_of(board@),
                before == |i: int, j: int|
                    key_before(
                        first_key(side_of(board@), legal_moves_of(board@)[i]),
                        first_key(side_of(board@), legal_moves_of(board@)[j]),
                    ),
                lead == first_least(k as nat, before),
                lead < k,
                (
                    lead_key.0 as int,
                    lead_key.1 as int,
                    lead_key.2 as int,
                    lead_key.3 as int,
                    lead_key.4 as int,
                ) == first_key(side, moves[lead as int]),
            decreases moves.len() - k,
        {
            let key = move_key(side, &moves[k]);
            if key_less(key, lead_key) {
                lead = k;
                lead_key = key;
            }
            k = k + 1;
        }
        moves[lead]
    }

    fn do_move(&mut self, board: &Position, chess_move: ChessMove)
        ensures
            *final(self) == *old(self),
    {
    }
}

/// The text with its ASCII capitals turned into lower case.
pub open spec fn lower_text(text: Seq<char>) -> Seq<char> {
    Seq::new(text.len(), |i: int| lower(text[i]))
}

/// Whether one text comes before another in the order of the dictionary:
/// by the first character in which they differ, a text before its
/// extensions.
pub open spec fn text_before(a: Seq<char>, b: Seq<char>) -> bool
    decreases a.len(),
{
    if b.len() == 0 {
        false
    } else if a.len() == 0 {
        true
    } else if a[0] != b[0] {
        a[0] < b[0]
    } else {
        text_before(a.drop_first(), b.drop_first())
    }
}

/// The key by which `AlphabeticalChessAlgorithm` orders the moves: the
/// notation of the move in lower case.
pub open spec fn alphabetical_key(record: Seq<char>, m: ChessMove) -> Seq<char> {
    lower_text(san_of(record, m))
}

/// The place, among the legal moves, of the move that
/// `AlphabeticalChessAlgorithm` plays.
pub open spec fn alphabetical_place(record: Seq<char>) -> int {
    first_least(
        legal_moves_of(record).len(),
        |i: int, j: int|
            text_before(
                alphabetical_key(record, legal_moves_of(record)[i]),
                alphabetical_key(record, legal_moves_of(record)[j]),
            ),
    )
}

/// No text comes before itself, and of two texts at most one comes before
/// the other.
pub proof fn text_order_is_strict(a: Seq<char>, b: Seq<char>)
    ensures
        text_before(a, b) ==> !text_before(b, a),
    decreases a.len(),
{
    if a.len() > 0 && b.len() > 0 && a[0] == b[0] {
        text_order_is_strict(a.drop_first(), b.drop_first());
    }
}

/// A text that comes before another comes before everything that the other
/// does not come after.
pub proof fn text_order_is_total(a: Seq<char>, b: Seq<char>, c: Seq<char>)
    requires
        text_before(a, b),
        !text_before(c, b),
    ensures
        text_before(a, c),
    decreases a.len(),
{
    if a.len() > 0 && b.len() > 0 && c.len() > 0 && a[0] == b[0] && b[0] == c[0] {
        text_order_is_total(a.drop_first(), b.drop_first(), c.drop_first());
    }
}

/// The move of `AlphabeticalChessAlgorithm` has the first key of all legal
/// moves in the order of the dictionary, and it is the first such move in
/// the order of the rules engine.
pub proof fn alphabetical_move_is_least(record: Seq<char>)
    requires
        legal_moves_of(record).len() > 0,
    ensures
        0 <= alphabetical_place(record) < legal_moves_of(record).len(),
        forall|i: int|
            0 <= i < legal_moves_of(record).len() ==> !text_before(
                alphabetical_key(record, #[trigger] legal_moves_of(record)[i]),
                alphabetical_key(record, legal_moves_of(record)[alphabetical_place(record)]),
            ),
        forall|i: int|
            0 <= i < alphabetical_place(record) ==> text_before(
                alphabetical_key(record, legal_moves_of(record)[alphabetical_place(record)]),
                alphabetical_key(record, #[trigger] legal_moves_of(record)[i]),
            ),
{
    let moves = legal_moves_of(record);
    let before = |i: int, j: int|
        text_before(
            alphabetical_key(record, legal_moves_of(record)[i]),
            alphabetical_key(record, legal_moves_of(record)[j]),
        );
    assert forall|i: int, j: int|
        0 <= i < moves.len() && 0 <= j < moves.len() && #[trigger] precedes(
            before,
            i,
            j,
        ) implies !precedes(before, j, i) by {
        text_order_is_strict(alphabetical_key(record, moves[i]), alphabetical_key(record, moves[j]));
    }
    assert forall|i: int, j: int, k: int|
        0 <= i < moves.len() && 0 <= j < moves.len() && 0 <= k < moves.len()
            && #[trigger] precedes(before, i, j) && !#[trigger] precedes(
            before,
            k,
            j,
        ) implies precedes(before, i, k) by {
        text_order_is_total(
            alphabetical_key(record, moves[i]),
            alphabetical_key(record, moves[j]),
            alphabetical_key(record, moves[k]),
        );
    }
    first_least_is_least(moves.len(), before);
    let lead = alphabetical_place(record);
    assert forall|i: int| 0 <= i < moves.len() implies !text_before(
        alphabetical_key(record, #[trigger] legal_moves_of(record)[i]),
        alphabetical_key(record, legal_moves_of(record)[lead]),
    ) by {
        assert(!precedes(before, i, lead));
    }
    assert forall|i: int| 0 <= i < lead implies text_before(
        alphabetical_key(record, legal_moves_of(record)[lead]),
        alphabetical_key(record, #[trigger] legal_moves_of(record)[i]),
    ) by {
        assert(precedes(before, lead, i));
    }
}

/// Whether one text comes before another in the order of the dictionary.
pub fn text_less(a: &Vec<char>, b: &Vec<char>) -> (r: bool)
    ensures
        r == text_before(a@, b@),
{
    let mut i: usize = 0;
    assert(a@.skip(0) == a@);
    assert(b@.skip(0) == b@);
    while i < a.len() && i < b.len()
        invariant
            i <= a.len(),
            i <= b.len(),
            text_before(a@, b@) == text_before(a@.skip(i as int), b@.skip(i as int)),
        decreases a.len() - i,
    {
        assert(a@.skip(i as int)[0] == a[i as int]);
        assert(b@.skip(i as int)[0] == b[i as int]);
        assert(a@.skip(i as int).drop_first() == a@.skip(i + 1));
        assert(b@.skip(i as int).drop_first() == b@.skip(i + 1));
        if a[i] != b[i] {
            return a[i] < b[i];
        }
        i = i + 1;
    }
    i < b.len()
}

/// The notation of a legal move in lower case.
fn lower_san(board: &Position, m: ChessMove) -> (key: Vec<char>)
    requires
        legal_moves_of(board@).contains(m),
    ensures
        key@ == alphabetical_key(board@, m),
{
    let san = san_chars(board, m);
    let mut key: Vec<char> = Vec::new();
    let mut i: usize = 0;
    while i < san.len()
        invariant
            i <= san.len(),
            key.len() == i,
            forall|j: int| 0 <= j < i ==> key[j] == lower(san[j]),
        decreases san.len() - i,
    {
        key.push(to_lower(san[i]));
        i = i + 1;
    }
    assert(key@ == lower_text(san@));
    key
}

/// Plays the move whose notation, in lower case, comes first in the order of
/// the dictionary.
#[derive(Clone, Copy, Debug)]
pub struct AlphabeticalChessAlgorithm;

impl ChessAlgorithm for AlphabeticalChessAlgorithm {
    open spec fn accepts(&self, record: Seq<char>) -> bool {
        true
    }

    fn can_play(&self, board: &Position) -> (ok: bool) {
        true
    }

    fn get_move(&mut self, board: &Position) -> (m: ChessMove)
        ensures
            m == legal_moves_of(board@)[alphabetical_place(board@)],
            *final(self) == *old(self),
    {
        let moves = available_moves(board);
        let ghost before = |i: int, j: int|
            text_before(
                alphabetical_key(board@, legal_moves_of(board@)[i]),
                alphabetical_key(board@, legal_moves_of(board@)[j]),
            );
        let mut lead: usize = 0;
        let mut lead_key = lower_san(board, moves[0]);
        let mut k: usize = 1;
        while k < moves.len()
            invariant
                1 <= k <= moves.len(),
                moves@ == legal_moves_of(board@),
                before == |i: int, j: int|
                    text_before(
                        alphabetical_key(board@, legal_moves_of(board@)[i]),
                        alphabetical_key(board@, legal_moves_of(board@)[j]),
                    ),
                lead == first_least(k as nat, before),
                lead < k,
                lead_key@ == alphabetical_key(board@, moves[lead as int]),
            decreases moves.len() - k,
        {
            let key = lower_san(board, moves[k]);
            if text_less(&key, &lead_key) {
                lead = k;
                lead_key = key;
            }
            k = k + 1;
        }
        moves[lead]
    }

    fn do_move(&mut self, board: &Position, chess_move: ChessMove)
        ensures
            *final(self) == *old(self),
    {
    }
}

} // verus!
