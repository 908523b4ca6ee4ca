use chess_arena::board::{BoardStatus, ChessMove, Color, File, Piece, Rank, Square};
use chess_arena::position::Position;

const START: &str = "rnbqkbnr/pppppppp/8/8/8/8/PPPPPPPP/RNBQKBNR w KQkq - 0 1";

fn sq(file: File, rank: Rank) -> Square {
    Square::make_square(rank, file)
}

#[test]
fn the_default_position_is_the_start() {
    let p = Position::default();
    assert_eq!(p.to_fen(), START);
    assert_eq!(p.side_to_move(), Color::White);
    assert_eq!(p.status(), BoardStatus::Ongoing);
    assert!(!p.in_check());
    assert!(p.is_playable());
}

#[test]
fn from_fen_keeps_the_record() {
    let fen = "rnbqkbnr/ppp1pppp/8/3p4/4P3/8/PPPP1PPP/RNBQKBNR w KQkq - 0 2";
    let p = Position::from_fen(fen).unwrap();
    assert_eq!(p.to_fen(), fen);
    assert_eq!(p.side_to_move(), Color::White);
}

#[test]
fn from_fen_rejects_what_the_rules_reject() {
    assert!(Position::from_fen("").is_none());
    assert!(Position::from_fen("not a position").is_none());
    // no black king
    assert!(Position::from_fen("8/8/8/8/8/8/8/K7 w - - 0 1").is_none());
    // no white king, and White to move
    assert!(Position::from_fen("7k/8/8/8/8/8/8/8 w - - 0 1").is_none());
    // no king at all
    assert!(Position::from_fen("8/8/8/8/8/8/8/8 w - - 0 1").is_none());
    // two white kings
    assert!(Position::from_fen("7k/8/8/8/8/8/8/K6K w - - 0 1").is_none());
    // the kings stand next to each other
    assert!(Position::from_fen("8/8/8/8/8/8/8/Kk6 w - - 0 1").is_none());
    // twenty-six white pieces: more than the rules engine can list the moves of
    assert!(Position::from_fen("4k3/8/8/8/NNNNNNNN/NNNNNNNN/NNNNNNNN/4K3 w - - 0 1").is_none());
    // seventeen white pieces
    assert!(Position::from_fen("4k3/8/8/8/8/NNNNNNNN/NNNNNNNN/4K3 w - - 0 1").is_none());
    // seventeen black pieces, White to move
    assert!(Position::from_fen("4k3/nnnnnnnn/nnnnnnnn/8/8/8/8/4K3 w - - 0 1").is_none());
    // a letter that names no piece
    assert!(Position::from_fen("7k/8/8/8/8/8/8/K6x w - - 0 1").is_none());
    // the side that is not to move is in check
    assert!(Position::from_fen("7k/8/8/8/8/8/8/K6r b - - 0 1").is_none());
}

#[test]
fn the_side_to_move_is_read_off_the_record() {
    let p = Position::from_fen("rnbqkbnr/pppppppp/8/8/4P3/8/PPPP1PPP/RNBQKBNR b KQkq - 0 1").unwrap();
    assert_eq!(p.side_to_move(), Color::Black);
}

#[test]
fn pieces_and_colors_of_the_start() {
    let p = Position::default();
    assert_eq!(p.piece_on(sq(File::A, Rank::First)), Some(Piece::Rook));
    assert_eq!(p.piece_on(sq(File::B, Rank::First)), Some(Piece::Knight));
    assert_eq!(p.piece_on(sq(File::C, Rank::First)), Some(Piece::Bishop));
    assert_eq!(p.piece_on(sq(File::D, Rank::First)), Some(Piece::Queen));
    assert_eq!(p.piece_on(sq(File::E, Rank::First)), Some(Piece::King));
    assert_eq!(p.piece_on(sq(File::E, Rank::Second)), Some(Piece::Pawn));
    assert_eq!(p.piece_on(sq(File::E, Rank::Fourth)), None);
    assert_eq!(p.piece_on(sq(File::D, Rank::Eighth)), Some(Piece::Queen));
    assert_eq!(p.color_on(sq(File::E, Rank::First)), Some(Color::White));
    assert_eq!(p.color_on(sq(File::E, Rank::Seventh)), Some(Color::Black));
    assert_eq!(p.color_on(sq(File::E, Rank::Fifth)), None);
}

#[test]
fn the_kings_of_the_start() {
    let p = Position::default();
    assert_eq!(p.king_square(Color::White), sq(File::E, Rank::First));
    assert_eq!(p.king_square(Color::Black), sq(File::E, Rank::Eighth));
}

#[test]
fn the_king_is_found_wherever_it_stands() {
    let p = Position::from_fen("7k/8/8/8/8/8/1q6/K7 w - - 0 1").unwrap();
    assert_eq!(p.king_square(Color::White), sq(File::A, Rank::First));
    assert_eq!(p.king_square(Color::Black), sq(File::H, Rank::Eighth));
}

#[test]
fn the_start_has_twenty_moves() {
    let p = Position::default();
    let moves = p.legal_moves();
    assert_eq!(moves.len(), 20);
    let e4 = ChessMove::new(sq(File::E, Rank::Second), sq(File::E, Rank::Fourth), None);
    assert!(moves.contains(&e4));
    assert!(p.legal(e4));
    let e5 = ChessMove::new(sq(File::E, Rank::Second), sq(File::E, Rank::Fifth), None);
    assert!(!moves.contains(&e5));
    assert!(!p.legal(e5));
}

#[test]
fn a_move_leads_to_the_next_position() {
    let p = Position::default();
    let e4 = ChessMove::new(sq(File::E, Rank::Second), sq(File::E, Rank::Fourth), None);
    let next = p.make_move_new(e4);
    assert_eq!(next.to_fen(), "rnbqkbnr/pppppppp/8/8/4P3/8/PPPP1PPP/RNBQKBNR b KQkq - 0 1");
    assert_eq!(next.side_to_move(), Color::Black);
    assert_eq!(next.piece_on(sq(File::E, Rank::Fourth)), Some(Piece::Pawn));
    assert_eq!(next.color_on(sq(File::E, Rank::Fourth)), Some(Color::White));
    assert_eq!(next.piece_on(sq(File::E, Rank::Second)), None);
    assert!(next.is_playable());
    // the position moved from is untouched
    assert_eq!(p.to_fen(), START);
    assert_eq!(p.piece_on(sq(File::E, Rank::Second)), Some(Piece::Pawn));
}

#[test]
fn try_move_refuses_an_illegal_move() {
    let p = Position::default();
    let e5 = ChessMove::new(sq(File::E, Rank::Second), sq(File::E, Rank::Fifth), None);
    assert!(p.try_move(e5).is_none());
    let nf3 = ChessMove::new(sq(File::G, Rank::First), sq(File::F, Rank::Third), None);
    let next = p.try_move(nf3).unwrap();
    assert_eq!(next.piece_on(sq(File::F, Rank::Third)), Some(Piece::Knight));
}

#[test]
fn a_promotion_puts_the_new_piece_on_the_board() {
    let p = Position::from_fen("7k/4P3/8/8/8/8/8/K7 w - - 0 1").unwrap();
    let m = ChessMove::new(sq(File::E, Rank::Seventh), sq(File::E, Rank::Eighth), Some(Piece::Knight));
    let next = p.try_move(m).unwrap();
    assert_eq!(next.piece_on(sq(File::E, Rank::Eighth)), Some(Piece::Knight));
    assert_eq!(next.to_fen(), "4N2k/8/8/8/8/8/8/K7 b - - 0 1");
}

#[test]
fn checkmate_is_told_from_stalemate() {
    let mate = Position::from_fen("rnb1kbnr/pppp1ppp/8/4p3/6Pq/5P2/PPPPP2P/RNBQKBNR w KQkq - 1 3").unwrap();
    assert_eq!(mate.status(), BoardStatus::Checkmate);
    assert!(mate.in_check());
    assert_eq!(mate.legal_moves().len(), 0);
    let stale = Position::from_fen("7k/5Q2/6K1/8/8/8/8/8 b - - 0 1").unwrap();
    assert_eq!(stale.status(), BoardStatus::Stalemate);
    assert!(!stale.in_check());
    assert_eq!(stale.legal_moves().len(), 0);
}

#[test]
fn check_without_mate_goes_on() {
    let p = Position::from_fen("rnbqkbnr/ppppp1pp/8/5p1Q/4P3/8/PPPP1PPP/RNB1KBNR b KQkq - 1 2").unwrap();
    assert!(p.in_check());
    assert_eq!(p.status(), BoardStatus::Ongoing);
}

#[test]
fn sixteen_pieces_a_side_can_be_played() {
    let p = Position::from_fen("4k3/8/8/8/8/NNNNNNN1/NNNNNNNN/4K3 w - - 0 1").unwrap();
    assert!(p.is_playable());
    assert!(!p.legal_moves().is_empty());
    let p = Position::from_fen("nnnnknnn/nnnnnnnn/8/8/8/8/NNNNNNNN/NNNNKNNN b - - 0 1").unwrap();
    assert!(!p.legal_moves().is_empty());
}
