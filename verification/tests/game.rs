use chess_arena::board::{ChessMove, Color, File, Piece, Rank, Square};
use chess_arena::game::{
    click, count_pieces, is_insufficient_material, Click, Game, GameOutcome,
};
use chess_arena::position::Position;

const START: &str = "rnbqkbnr/pppppppp/8/8/8/8/PPPPPPPP/RNBQKBNR w KQkq - 0 1";

fn at(fen: &str) -> Position {
    Position::from_fen(fen).unwrap()
}

fn mv(from: (File, Rank), to: (File, Rank)) -> ChessMove {
    ChessMove::new(Square::make_square(from.1, from.0), Square::make_square(to.1, to.0), None)
}

fn game_at(fen: &str, reversable_moves: u32) -> Game {
    Game { board: at(fen), history: Vec::new(), reversable_moves, outcome: None }
}

#[test]
fn a_new_game_stands_at_the_start() {
    let game = Game::new();
    assert_eq!(game.board.to_fen(), START);
    assert!(game.history.is_empty());
    assert_eq!(game.reversable_moves, 0);
    assert_eq!(game.outcome, None);
    assert_eq!(game.repetitions(), 0);
}

#[test]
fn the_outcomes_are_announced() {
    assert_eq!(GameOutcome::Checkmate(Color::White).get_text(), "White wins by checkmate");
    assert_eq!(GameOutcome::Checkmate(Color::Black).get_text(), "Black wins by checkmate");
    assert_eq!(GameOutcome::Stalemate.get_text(), "Stalemate");
    assert_eq!(GameOutcome::InsufficientMaterial.get_text(), "Draw by insufficient material");
    assert_eq!(GameOutcome::DrawByRepetition.get_text(), "Draw by repetition");
    assert_eq!(GameOutcome::DrawBy50MoveRule.get_text(), "Draw by 50 move rule");
}

#[test]
fn a_game_that_ends_in_mate() {
    let mut game = Game::new();
    assert!(game.do_move(mv((File::F, Rank::Second), (File::F, Rank::Third))));
    assert!(game.do_move(mv((File::E, Rank::Seventh), (File::E, Rank::Fifth))));
    assert!(game.do_move(mv((File::G, Rank::Second), (File::G, Rank::Fourth))));
    assert_eq!(game.outcome, None);
    assert!(!game.do_move(mv((File::D, Rank::Eighth), (File::H, Rank::Fourth))));
    assert_eq!(game.outcome, Some(GameOutcome::Checkmate(Color::Black)));
    assert_eq!(game.board.to_fen(), "rnb1kbnr/pppp1ppp/8/4p3/6Pq/5P2/PPPPP2P/RNBQKBNR w KQkq - 0 1");
    assert_eq!(game.history.len(), 4);
    assert_eq!(game.history[0], START);
}

#[test]
fn an_illegal_move_changes_nothing() {
    let mut game = Game::new();
    assert!(!game.try_move(mv((File::E, Rank::Second), (File::E, Rank::Fifth))));
    assert_eq!(game.board.to_fen(), START);
    assert!(game.history.is_empty());
    assert_eq!(game.reversable_moves, 0);
    assert_eq!(game.outcome, None);
    assert!(game.try_move(mv((File::E, Rank::Second), (File::E, Rank::Fourth))));
    assert_eq!(game.history.len(), 1);
    assert_eq!(game.board.side_to_move(), Color::Black);
}

#[test]
fn quiet_moves_are_counted() {
    let mut game = Game::new();
    game.do_move(mv((File::G, Rank::First), (File::F, Rank::Third)));
    assert_eq!(game.reversable_moves, 1);
    game.do_move(mv((File::B, Rank::Eighth), (File::C, Rank::Sixth)));
    assert_eq!(game.reversable_moves, 2);
    // a pawn move starts the count afresh
    game.do_move(mv((File::E, Rank::Second), (File::E, Rank::Fourth)));
    assert_eq!(game.reversable_moves, 0);
    game.do_move(mv((File::C, Rank::Sixth), (File::D, Rank::Fourth)));
    assert_eq!(game.reversable_moves, 1);
    // and so does a capture
    game.do_move(mv((File::F, Rank::Third), (File::D, Rank::Fourth)));
    assert_eq!(game.reversable_moves, 0);
}

#[test]
fn the_count_stops_at_its_limit() {
    let mut game = game_at("7k/8/8/8/8/8/8/KR6 w - - 0 1", u32::MAX);
    game.do_move(mv((File::B, Rank::First), (File::B, Rank::Second)));
    assert_eq!(game.reversable_moves, u32::MAX);
}

#[test]
fn a_position_that_has_stood_three_times_before_is_a_draw() {
    let mut game = Game::new();
    let cycle = [
        mv((File::G, Rank::First), (File::F, Rank::Third)),
        mv((File::G, Rank::Eighth), (File::F, Rank::Sixth)),
        mv((File::F, Rank::Third), (File::G, Rank::First)),
        mv((File::F, Rank::Sixth), (File::G, Rank::Eighth)),
    ];
    for round in 0..3 {
        for (k, m) in cycle.iter().enumerate() {
            assert_eq!(game.outcome, None);
            let goes_on = game.do_move(*m);
            let last = round == 2 && k == 3;
            assert_eq!(goes_on, !last);
        }
        assert_eq!(game.board.to_fen(), START);
        assert_eq!(game.repetitions(), round + 1);
    }
    assert_eq!(game.outcome, Some(GameOutcome::DrawByRepetition));
    assert_eq!(game.reversable_moves, 12);
}

#[test]
fn fifty_quiet_moves_are_a_draw() {
    let mut game = game_at("7k/8/8/8/8/8/8/KR6 w - - 0 1", 48);
    assert!(game.do_move(mv((File::B, Rank::First), (File::B, Rank::Second))));
    assert_eq!(game.reversable_moves, 49);
    assert_eq!(game.outcome, None);
    assert!(!game.do_move(mv((File::H, Rank::Eighth), (File::H, Rank::Seventh))));
    assert_eq!(game.reversable_moves, 50);
    assert_eq!(game.outcome, Some(GameOutcome::DrawBy50MoveRule));
}

#[test]
fn a_stalemate_is_a_draw() {
    let mut game = game_at("7k/8/6K1/8/8/8/5Q2/8 w - - 0 1", 0);
    assert!(!game.do_move(mv((File::F, Rank::Second), (File::F, Rank::Seventh))));
    assert_eq!(game.outcome, Some(GameOutcome::Stalemate));
}

#[test]
fn a_capture_that_leaves_bare_kings_is_a_draw() {
    let mut game = game_at("7k/8/8/8/8/8/1q6/K7 w - - 0 1", 7);
    assert!(!game.do_move(mv((File::A, Rank::First), (File::B, Rank::Second))));
    assert_eq!(game.outcome, Some(GameOutcome::InsufficientMaterial));
    assert_eq!(game.reversable_moves, 0);
}

#[test]
fn an_outcome_stays_until_another_is_found() {
    let mut game = game_at("7k/8/8/8/8/8/8/KR6 w - - 0 1", 0);
    game.outcome = Some(GameOutcome::DrawByRepetition);
    assert!(!game.do_move(mv((File::B, Rank::First), (File::B, Rank::Second))));
    assert_eq!(game.outcome, Some(GameOutcome::DrawByRepetition));
}

#[test]
fn pieces_are_counted_by_kind_and_side() {
    let p = Position::default();
    assert_eq!(count_pieces(&p, Color::White, Piece::Pawn), 8);
    assert_eq!(count_pieces(&p, Color::Black, Piece::Pawn), 8);
    assert_eq!(count_pieces(&p, Color::White, Piece::Knight), 2);
    assert_eq!(count_pieces(&p, Color::White, Piece::Bishop), 2);
    assert_eq!(count_pieces(&p, Color::Black, Piece::Rook), 2);
    assert_eq!(count_pieces(&p, Color::Black, Piece::Queen), 1);
    assert_eq!(count_pieces(&p, Color::White, Piece::King), 1);
    let p = at("7k/8/8/8/8/8/1q6/K7 w - - 0 1");
    assert_eq!(count_pieces(&p, Color::White, Piece::Queen), 0);
    assert_eq!(count_pieces(&p, Color::Black, Piece::Queen), 1);
}

#[test]
fn what_is_too_little_to_mate_with() {
    assert!(!is_insufficient_material(&Position::default()));
    assert!(is_insufficient_material(&at("7k/8/8/8/8/8/8/K7 w - - 0 1")));
    assert!(is_insufficient_material(&at("7k/8/8/8/8/8/8/KB6 w - - 0 1")));
    assert!(is_insufficient_material(&at("7k/8/8/8/8/8/8/KN6 w - - 0 1")));
    assert!(is_insufficient_material(&at("7k/8/8/8/8/8/8/KNN5 w - - 0 1")));
    assert!(is_insufficient_material(&at("6bk/8/8/8/8/8/8/KNN5 w - - 0 1")));
    assert!(is_insufficient_material(&at("7k/8/8/8/8/8/8/KBN5 w - - 0 1")));
    assert!(!is_insufficient_material(&at("7k/8/8/8/8/8/8/KNNN4 w - - 0 1")));
    assert!(!is_insufficient_material(&at("7k/8/8/8/8/8/8/KBB5 w - - 0 1")));
    assert!(!is_insufficient_material(&at("7k/8/8/8/8/8/P7/K7 w - - 0 1")));
    assert!(!is_insufficient_material(&at("7k/8/8/8/8/8/8/KR6 w - - 0 1")));
    assert!(!is_insufficient_material(&at("7k/8/8/8/8/8/8/KQ6 w - - 0 1")));
    assert!(!is_insufficient_material(&at("6rk/8/8/8/8/8/8/K7 w - - 0 1")));
    assert!(!is_insufficient_material(&at("5bbk/8/8/8/8/8/8/K7 w - - 0 1")));
}

#[test]
fn the_moves_from_a_square() {
    let game = Game::new();
    let from_g1 = game.generate_moves(Square::make_square(Rank::First, File::G));
    assert_eq!(from_g1.len(), 2);
    for (m, (rank, file)) in from_g1.iter() {
        assert_eq!(m.get_source(), Square::make_square(Rank::First, File::G));
        assert_eq!(m.get_dest().get_rank().to_index(), *rank);
        assert_eq!(m.get_dest().get_file().to_index(), *file);
        assert_eq!(*rank, 2);
        assert!(*file == 5 || *file == 7);
    }
    let from_e2 = game.generate_moves(Square::make_square(Rank::Second, File::E));
    let targets: Vec<(u8, u8)> = from_e2.iter().map(|(_, t)| *t).collect();
    assert_eq!(targets.len(), 2);
    assert!(targets.contains(&(2, 4)));
    assert!(targets.contains(&(3, 4)));
    assert!(game.generate_moves(Square::make_square(Rank::First, File::E)).is_empty());
    assert!(game.generate_moves(Square::make_square(Rank::Fourth, File::E)).is_empty());
    assert!(game.generate_moves(Square::make_square(Rank::Seventh, File::E)).is_empty());
}

#[test]
fn a_click_plays_selects_or_deselects() {
    let game = Game::new();
    let offered = game.generate_moves(Square::make_square(Rank::Second, File::E));
    let e4 = mv((File::E, Rank::Second), (File::E, Rank::Fourth));
    // a square that a move on offer goes to: the move is played
    assert_eq!(click(&offered, Some((1, 4)), (3, 4)), Click::Play(e4));
    // the selected square itself: nothing is selected any more
    assert_eq!(click(&offered, Some((1, 4)), (1, 4)), Click::Select(None));
    // any other square: it becomes the selected one
    assert_eq!(click(&offered, Some((1, 4)), (0, 6)), Click::Select(Some((0, 6))));
    assert_eq!(click(&Vec::new(), None, (0, 6)), Click::Select(Some((0, 6))));
    // with nothing on offer the square of a move is only selected
    assert_eq!(click(&Vec::new(), Some((1, 4)), (3, 4)), Click::Select(Some((3, 4))));
}
