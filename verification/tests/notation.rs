use chess_arena::alg::chess_alg::text_less;
use chess_arena::board::{ChessMove, File, Piece, Rank, Square};
use chess_arena::position::Position;
use chess_arena::util::{file_to_char, move_to_SAN, notation, rank_to_char, san_chars, to_lower};

fn at(fen: &str) -> Position {
    Position::from_fen(fen).unwrap()
}

fn mv(from: (File, Rank), to: (File, Rank)) -> ChessMove {
    ChessMove::new(Square::make_square(from.1, from.0), Square::make_square(to.1, to.0), None)
}

#[test]
fn ranks_are_digits() {
    assert_eq!(rank_to_char(Rank::First), '1');
    assert_eq!(rank_to_char(Rank::Second), '2');
    assert_eq!(rank_to_char(Rank::Third), '3');
    assert_eq!(rank_to_char(Rank::Fourth), '4');
    assert_eq!(rank_to_char(Rank::Fifth), '5');
    assert_eq!(rank_to_char(Rank::Sixth), '6');
    assert_eq!(rank_to_char(Rank::Seventh), '7');
    assert_eq!(rank_to_char(Rank::Eighth), '8');
}

#[test]
fn files_are_letters() {
    assert_eq!(file_to_char(File::A), 'a');
    assert_eq!(file_to_char(File::B), 'b');
    assert_eq!(file_to_char(File::C), 'c');
    assert_eq!(file_to_char(File::D), 'd');
    assert_eq!(file_to_char(File::E), 'e');
    assert_eq!(file_to_char(File::F), 'f');
    assert_eq!(file_to_char(File::G), 'g');
    assert_eq!(file_to_char(File::H), 'h');
}

#[test]
fn capitals_are_lowered() {
    assert_eq!(to_lower('A'), 'a');
    assert_eq!(to_lower('Z'), 'z');
    assert_eq!(to_lower('N'), 'n');
    assert_eq!(to_lower('a'), 'a');
    assert_eq!(to_lower('3'), '3');
    assert_eq!(to_lower('-'), '-');
    assert_eq!(to_lower('@'), '@');
    assert_eq!(to_lower('['), '[');
}

#[test]
fn pawn_and_piece_moves() {
    let p = Position::default();
    assert_eq!(move_to_SAN(&p, mv((File::E, Rank::Second), (File::E, Rank::Fourth))), "e4");
    assert_eq!(move_to_SAN(&p, mv((File::G, Rank::First), (File::F, Rank::Third))), "Nf3");
    let chars = san_chars(&p, mv((File::B, Rank::First), (File::C, Rank::Third)));
    assert_eq!(chars, vec!['N', 'c', '3']);
}

#[test]
fn a_pawn_capture_names_its_file() {
    let p = at("rnbqkbnr/ppp1pppp/8/3p4/4P3/8/PPPP1PPP/RNBQKBNR w KQkq - 0 2");
    assert_eq!(move_to_SAN(&p, mv((File::E, Rank::Fourth), (File::D, Rank::Fifth))), "exd5");
}

#[test]
fn a_piece_capture_has_an_x() {
    let p = at("3r3k/8/8/8/8/8/8/K2Q4 w - - 0 1");
    assert_eq!(move_to_SAN(&p, mv((File::D, Rank::First), (File::D, Rank::Eighth))), "Qxd8+");
}

#[test]
fn castling_on_either_side() {
    let p = at("r3k2r/8/8/8/8/8/8/R3K2R w KQkq - 0 1");
    assert_eq!(move_to_SAN(&p, mv((File::E, Rank::First), (File::G, Rank::First))), "O-O");
    assert_eq!(move_to_SAN(&p, mv((File::E, Rank::First), (File::C, Rank::First))), "O-O-O");
    assert_eq!(move_to_SAN(&p, mv((File::E, Rank::First), (File::F, Rank::First))), "Kf1");
}

#[test]
fn a_promotion_names_the_new_piece() {
    // The four promotions of one pawn go to the same square with the same piece, so
    // each counts the others as rivals from its own rank, and the file is written.
    let p = at("7k/4P3/8/8/8/8/8/K7 w - - 0 1");
    let to_queen = ChessMove::new(
        Square::make_square(Rank::Seventh, File::E),
        Square::make_square(Rank::Eighth, File::E),
        Some(Piece::Queen),
    );
    assert_eq!(move_to_SAN(&p, to_queen), "ee8=Q+");
    let to_knight = ChessMove::new(
        Square::make_square(Rank::Seventh, File::E),
        Square::make_square(Rank::Eighth, File::E),
        Some(Piece::Knight),
    );
    assert_eq!(move_to_SAN(&p, to_knight), "ee8=N");
}

#[test]
fn mate_and_check_are_marked() {
    let p = at("rnbqkbnr/pppp1ppp/8/4p3/6P1/5P2/PPPPP2P/RNBQKBNR b KQkq - 0 2");
    assert_eq!(move_to_SAN(&p, mv((File::D, Rank::Eighth), (File::H, Rank::Fourth))), "Qh4#");
    let p = at("rnbqkbnr/ppppp1pp/8/5p2/4P3/8/PPPP1PPP/RNBQKBNR w KQkq - 0 2");
    assert_eq!(move_to_SAN(&p, mv((File::D, Rank::First), (File::H, Rank::Fifth))), "Qh5+");
}

#[test]
fn rivals_are_told_apart() {
    // knights on b1 and f1 both reach d2: the file tells them apart
    let p = at("7k/8/8/8/8/8/8/KN3N2 w - - 0 1");
    assert_eq!(move_to_SAN(&p, mv((File::B, Rank::First), (File::D, Rank::Second))), "Nbd2");
    assert_eq!(move_to_SAN(&p, mv((File::F, Rank::First), (File::D, Rank::Second))), "Nfd2");
    // rooks on a1 and a5 both reach a3: the rank tells them apart
    let p = at("7k/8/8/R7/8/8/8/R3K3 w - - 0 1");
    assert_eq!(move_to_SAN(&p, mv((File::A, Rank::First), (File::A, Rank::Third))), "R1a3");
    assert_eq!(move_to_SAN(&p, mv((File::A, Rank::Fifth), (File::A, Rank::Third))), "R5a3");
    // knights on b1 and f3 both reach d2, from different ranks and files: both are named
    let p = at("7k/8/8/8/8/5N2/8/KN6 w - - 0 1");
    assert_eq!(move_to_SAN(&p, mv((File::B, Rank::First), (File::D, Rank::Second))), "Nb1d2");
}

#[test]
fn two_pawns_that_capture_on_one_square() {
    let p = at("7k/8/8/3p4/2P1P3/8/8/K7 w - - 0 1");
    assert_eq!(move_to_SAN(&p, mv((File::C, Rank::Fourth), (File::D, Rank::Fifth))), "cxd5");
    assert_eq!(move_to_SAN(&p, mv((File::E, Rank::Fourth), (File::D, Rank::Fifth))), "exd5");
}

#[test]
fn notation_is_for_legal_moves_only() {
    let p = Position::default();
    assert_eq!(notation(&p, mv((File::E, Rank::Second), (File::E, Rank::Fourth))), Some("e4".to_string()));
    assert_eq!(notation(&p, mv((File::E, Rank::Second), (File::E, Rank::Fifth))), None);
    assert_eq!(notation(&p, mv((File::E, Rank::Fourth), (File::E, Rank::Fifth))), None);
}

#[test]
fn texts_are_ordered_as_in_a_dictionary() {
    let t = |s: &str| s.chars().collect::<Vec<char>>();
    assert!(text_less(&t("a3"), &t("a4")));
    assert!(!text_less(&t("a4"), &t("a3")));
    assert!(!text_less(&t("a3"), &t("a3")));
    assert!(text_less(&t("a"), &t("a3")));
    assert!(!text_less(&t("a3"), &t("a")));
    assert!(text_less(&t(""), &t("a")));
    assert!(!text_less(&t(""), &t("")));
    assert!(text_less(&t("ba3"), &t("h3")));
    assert!(text_less(&t("Na3"), &t("a3")));
    assert!(text_less(&t("o-o"), &t("o-o-o")));
}
