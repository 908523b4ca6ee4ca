//! The ways of choosing a move, and the list of those on offer.

use vstd::prelude::*;
use crate::alg::chess_alg::{
    alphabetical_place, first_move_place, AlphabeticalChessAlgorithm, ChessAlgorithm,
    FirstMoveAlgorithm, RandomChessAlgorithm,
};
use crate::alg::evaluators::{
    Generous, Huddle, Insist2, Insist3, MatchingColors, OppositeColors, Pacifist, Swarm,
};
use crate::alg::one_lookahead::SingleLookaheadEngine;
use crate::board::{ChessMove, Color};
use crate::position::{legal_moves_of, Position};

pub mod evaluators;
pub mod tie_break;
pub mod chess_alg;
pub mod one_lookahead;
pub mod tree_search;

verus! {

/// The number of kinds of player on offer.
pub const PLAYER_TYPE_COUNT: usize = 12;

/// The name of each kind of player on offer, in the order of the list; no
/// name beyond the list.
pub open spec fn player_type_name_of(index: int) -> Option<Seq<char>> {
    if index == 0 {
        Some("Human"@)
    } else if index == 1 {
        Some("Random"@)
    } else if index == 2 {
        Some("Matching"@)
    } else if index == 3 {
        Some("Opposite"@)
    } else if index == 4 {
        Some("Pacifist"@)
    } else if index == 5 {
        Some("First"@)
    } else if index == 6 {
        Some("Alphabetical"@)
    } else if index == 7 {
        Some("Huddle"@)
    } else if index == 8 {
        Some("Swarm"@)
    } else if index == 9 {
        Some("Generous"@)
    } else if index == 10 {
        Some("I Insist 2"@)
    } else if index == 11 {
        Some("I Insist 3"@)
    } else {
        None
    }
}

/// The name of the kind of player at a place in the list.
pub fn player_type_name(index: usize) -> (name: Option<&'static str>)
    ensures
        name.is_some() == (index < PLAYER_TYPE_COUNT),
        match name {
            Some(text) => player_type_name_of(index as int) == Some(text@),
            None => player_type_name_of(index as int).is_none(),
        },
{
    if index == 0 {
        Some("Human")
    } else if index == 1 {
        Some("Random")
    } else if index == 2 {
        Some("Matching")
    } else if index == 3 {
        Some("Opposite")
    } else if index == 4 {
        Some("Pacifist")
    } else if index == 5 {
        Some("First")
    } else if index == 6 {
        Some("Alphabetical")
    } else if index == 7 {
        Some("Huddle")
    } else if index == 8 {
        Some("Swarm")
    } else if index == 9 {
        Some("Generous")
    } else if index == 10 {
        Some("I Insist 2")
    } else if index == 11 {
        Some("I Insist 3")
    } else {
        None
    }
}

/// A player that is an algorithm: one of those on offer.
#[derive(Debug)]
pub enum ComputerPlayer {
    Random(RandomChessAlgorithm),
    Matching(SingleLookaheadEngine<MatchingColors>),
    Opposite(SingleLookaheadEngine<OppositeColors>),
    Pacifist(SingleLookaheadEngine<Pacifist>),
    First(FirstMoveAlgorithm),
    Alphabetical(AlphabeticalChessAlgorithm),
    Huddle(SingleLookaheadEngine<Huddle>),
    Swarm(SingleLookaheadEngine<Swarm>),
    Generous(SingleLookaheadEngine<Generous>),
    Insist2(SingleLookaheadEngine<Insist2>),
    Insist3(SingleLookaheadEngine<Insist3>),
}

/// The player on offer at a place in the list, playing for `color`. The
/// first place is the human player's, which is no algorithm.
pub open spec fn computer_player_of(index: int, color: Color) -> Option<ComputerPlayer> {
    if index == 1 {
        Some(ComputerPlayer::Random(RandomChessAlgorithm))
    } else if index == 2 {
        Some(ComputerPlayer::Matching(SingleLookaheadEngine { color, eval: MatchingColors }))
    } else if index == 3 {
        Some(ComputerPlayer::Opposite(SingleLookaheadEngine { color, eval: OppositeColors }))
    } else if index == 4 {
        Some(ComputerPlayer::Pacifist(SingleLookaheadEngine { color, eval: Pacifist }))
    } else if index == 5 {
        Some(ComputerPlayer::First(FirstMoveAlgorithm))
    } else if index == 6 {
        Some(ComputerPlayer::Alphabetical(AlphabeticalChessAlgorithm))
    } else if index == 7 {
        Some(ComputerPlayer::Huddle(SingleLookaheadEngine { color, eval: Huddle }))
    } else if index == 8 {
        Some(ComputerPlayer::Swarm(SingleLookaheadEngine { color, eval: Swarm }))
    } else if index == 9 {
        Some(ComputerPlayer::Generous(SingleLookaheadEngine { color, eval: Generous }))
    } else if index == 10 {
        Some(ComputerPlayer::Insist2(SingleLookaheadEngine { color, eval: Insist2 }))
    } else if index == 11 {
        Some(ComputerPlayer::Insist3(SingleLookaheadEngine { color, eval: Insist3 }))
    } else {
        None
    }
}

/// The player on offer at a place in the list, playing for `color`.
pub fn computer_player(index: usize, color: Color) -> (player: Option<ComputerPlayer>)
    ensures
        player == computer_player_of(index as int, color),
{
    if index == 1 {
        Some(ComputerPlayer::Random(RandomChessAlgorithm))
    } else if index == 2 {
        Some(ComputerPlayer::Matching(SingleLookaheadEngine::new(color, MatchingColors)))
    } else if index == 3 {
        Some(ComputerPlayer::Opposite(SingleLookaheadEngine::new(color, OppositeColors)))
    } else if index == 4 {
        Some(ComputerPlayer::Pacifist(SingleLookaheadEngine::new(color, Pacifist)))
    } else if index == 5 {
        Some(ComputerPlayer::First(FirstMoveAlgorithm))
    } else if index == 6 {
        Some(ComputerPlayer::Alphabetical(AlphabeticalChessAlgorithm))
    } else if index == 7 {
        Some(ComputerPlayer::Huddle(SingleLookaheadEngine::new(color, Huddle)))
    } else if index == 8 {
        Some(ComputerPlayer::Swarm(SingleLookaheadEngine::new(color, Swarm)))
    } else if index == 9 {
        Some(ComputerPlayer::Generous(SingleLookaheadEngine::new(color, Generous)))
    } else if index == 10 {
        Some(ComputerPlayer::Insist2(SingleLookaheadEngine::new(color, Insist2)))
    } else if index == 11 {
        Some(ComputerPlayer::Insist3(SingleLookaheadEngine::new(color, Insist3)))
    } else {
        None
    }
}

impl ChessAlgorithm for ComputerPlayer {
    open spec fn accepts(&self, record: Seq<char>) -> bool {
        match self {
            ComputerPlayer::Random(a) => a.accepts(record),
            ComputerPlayer::Matching(a) => a.accepts(record),
            ComputerPlayer::Opposite(a) => a.accepts(record),
            ComputerPlayer::Pacifist(a) => a.accepts(record),
            ComputerPlayer::First(a) => a.accepts(record),
            ComputerPlayer::Alphabetical(a) => a.accepts(record),
            ComputerPlayer::Huddle(a) => a.accepts(record),
            ComputerPlayer::Swarm(a) => a.accepts(record),
            ComputerPlayer::Generous(a) => a.accepts(record),
            ComputerPlayer::Insist2(a) => a.accepts(record),
            ComputerPlayer::Insist3(a) => a.accepts(record),
        }
    }

    fn can_play(&self, board: &Position) -> (ok: bool) {
        match self {
            ComputerPlayer::Random(a) => a.can_play(board),
            ComputerPlayer::Matching(a) => a.can_play(board),
            ComputerPlayer::Opposite(a) => a.can_play(board),
            ComputerPlayer::Pacifist(a) => a.can_play(board),
            ComputerPlayer::First(a) => a.can_play(board),
            ComputerPlayer::Alphabetical(a) => a.can_play(board),
            ComputerPlayer::Huddle(a) => a.can_play(board),
            ComputerPlayer::Swarm(a) => a.can_play(board),
            ComputerPlayer::Generous(a) => a.can_play(board),
            ComputerPlayer::Insist2(a) => a.can_play(board),
            ComputerPlayer::Insist3(a) => a.can_play(board),
        }
    }

    fn get_move(&mut self, board: &Position) -> (m: ChessMove)
        ensures
            *final(self) == *old(self),
            match *old(self) {
                ComputerPlayer::Random(_) => true,
                ComputerPlayer::Matching(a) => a.candidates(board@).contains(m),
                ComputerPlayer::Opposite(a) => a.candidates(board@).contains(m),
                ComputerPlayer::Pacifist(a) => a.candidates(board@).contains(m),
                ComputerPlayer::First(_) => m == legal_moves_of(board@)[first_move_place(board@)],
                ComputerPlayer::Alphabetical(_) => m == legal_moves_of(board@)[alphabetical_place(
                    board@,
                )],
                ComputerPlayer::Huddle(a) => a.candidates(board@).contains(m),
                ComputerPlayer::Swarm(a) => a.candidates(board@).contains(m),
                ComputerPlayer::Generous(a) => a.candidates(board@).contains(m),
                ComputerPlayer::Insist2(a) => a.candidates(board@).contains(m),
                ComputerPlayer::Insist3(a) => a.candidates(board@).contains(m),
            },
    {
        match self {
            ComputerPlayer::Random(a) => a.get_move(board),
            ComputerPlayer::Matching(a) => a.get_move(board),
            ComputerPlayer::Opposite(a) => a.get_move(board),
            ComputerPlayer::Pacifist(a) => a.get_move(board),
            ComputerPlayer::First(a) => a.get_move(board),
            ComputerPlayer::Alphabetical(a) => a.get_move(board),
            ComputerPlayer::Huddle(a) => a.get_move(board),
            ComputerPlayer::Swarm(a) => a.get_move(board),
            ComputerPlayer::Generous(a) => a.get_move(board),
            ComputerPlayer::Insist2(a) => a.get_move(board),
            ComputerPlayer::Insist3(a) => a.get_move(board),
        }
    }

    fn do_move(&mut self, board: &Position, chess_move: ChessMove)
        ensures
            *final(self) == *old(self),
    {
    }
}

} // verus!
