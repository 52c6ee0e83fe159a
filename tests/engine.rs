use chess_rules::apply::{MoveError, Terminal};
use chess_rules::board::Game;
use chess_rules::decode::FenError;
use chess_rules::piece::{Move, Piece, Square, BLACK, NO_COLOR, WHITE};

const START: &str = "rnbqkbnr/pppppppp/8/8/8/8/PPPPPPPP/RNBQKBNR w KQkq - 0 1";

fn game(fen: &str) -> Game {
    Game::from_fen(fen).unwrap()
}

fn sorted(mut v: Vec<(usize, usize)>) -> Vec<(usize, usize)> {
    v.sort();
    v
}

#[test]
fn starting_position_fen() {
    let g = Game::new();
    assert_eq!(g.create_fen_string(), START);
}

#[test]
fn starting_position_decodes_to_new_game() {
    assert_eq!(game(START), Game::new());
}

#[test]
fn square_new_keeps_piece_and_colour() {
    let s = Square::new(Piece::Knight, BLACK);
    assert_eq!(s.piece, Piece::Knight);
    assert_eq!(s.color, BLACK);
    assert_eq!(Square::empty().color, NO_COLOR);
}

#[test]
fn move_sets() {
    assert_eq!(Square::new(Piece::Rook, WHITE).moves(), vec![Move::U, Move::D, Move::R, Move::L]);
    assert_eq!(Square::new(Piece::Pawn, WHITE).moves(), vec![Move::U, Move::UL, Move::UR]);
    assert_eq!(Square::new(Piece::Pawn, BLACK).moves(), vec![Move::D, Move::DL, Move::DR]);
    assert_eq!(Square::new(Piece::Knight, WHITE).moves().len(), 8);
    assert!(Square::empty().moves().is_empty());
}

#[test]
fn round_trip_of_several_positions() {
    for fen in [
        START,
        "rnbqkbnr/pppp1ppp/8/4p3/4P3/8/PPPP1PPP/RNBQKBNR w KQkq e6 0 2",
        "r3k2r/8/8/8/8/8/8/R3K2R b Kq - 12 40",
        "4k3/8/8/8/8/8/8/4K3 w - - 0 1",
        "8/2p5/3p4/KP5r/1R3p1k/8/4P1P1/8 w - - 99 1234567",
    ] {
        let g = game(fen);
        assert_eq!(g.create_fen_string(), fen);
        assert_eq!(game(&g.create_fen_string()), g);
    }
}

#[test]
fn fen_decode_fields() {
    let g = game("r3k2r/8/8/8/8/8/8/R3K2R b Kq c3 7 21");
    assert_eq!(g.turn, BLACK);
    assert_eq!(g.castling_rights, [[true, false], [false, true]]);
    assert_eq!(g.en_passant, Some((2, 5)));
    assert_eq!(g.king_coords, [(4, 7), (4, 0)]);
    assert_eq!(g.halfmove_clock, 7);
    assert_eq!(g.fullmoves, 21);
    assert_eq!(g.square(0, 0), Square::new(Piece::Rook, BLACK));
    assert_eq!(g.square(7, 7), Square::new(Piece::Rook, WHITE));
}

#[test]
fn fen_with_too_few_fields_is_malformed() {
    assert_eq!(Game::from_fen("8/8/8/8/8/8/8/8 w - -"), Err(FenError::MalformedFen));
}

#[test]
fn fen_with_short_rank_is_malformed() {
    assert_eq!(Game::from_fen("7/8/8/8/8/8/8/8 w - - 0 1"), Err(FenError::MalformedFen));
    assert_eq!(Game::from_fen("9/8/8/8/8/8/8/8 w - - 0 1"), Err(FenError::MalformedFen));
    assert_eq!(Game::from_fen("8/8/8/8/8/8/8 w - - 0 1"), Err(FenError::MalformedFen));
}

#[test]
fn fen_with_non_numeric_counter_is_malformed() {
    assert_eq!(Game::from_fen("4k3/8/8/8/8/8/8/4K3 w - - x 1"), Err(FenError::MalformedFen));
    assert_eq!(Game::from_fen("4k3/8/8/8/8/8/8/4K3 w - - 0 1a"), Err(FenError::MalformedFen));
}

#[test]
fn failed_fill_leaves_game_unchanged() {
    let mut g = Game::new();
    assert_eq!(g.fill_board_from_fen_string("garbage"), Err(FenError::MalformedFen));
    assert_eq!(g, Game::new());
    assert_eq!(g.fill_board_from_fen_string("4k3/8/8/8/8/8/8/4K3 b - - 3 9"), Ok(()));
    assert_eq!(g.create_fen_string(), "4k3/8/8/8/8/8/8/4K3 b - - 3 9");
}

#[test]
fn rook_attacks_along_open_file() {
    let g = game("4r3/8/8/8/8/8/8/4K3 w - - 0 1");
    assert!(g.is_attacked(4, 6));
    assert!(g.is_attacked(4, 7));
    assert!(!g.is_attacked(3, 6));
    assert!(g.is_in_check(WHITE));
    assert!(!g.is_in_check(BLACK));
}

#[test]
fn pawn_and_knight_attacks() {
    let g = game("4k3/8/8/3p4/8/5n2/8/4K3 w - - 0 1");
    assert!(g.is_attacked(2, 4));
    assert!(g.is_attacked(4, 4));
    assert!(g.is_attacked(3, 4));
    assert!(!g.is_attacked(3, 5));
    assert!(g.is_attacked(4, 7));
    assert!(g.is_attacked(6, 7));
}

#[test]
fn king_cannot_step_along_checking_file() {
    let mut g = game("4r3/8/8/8/8/8/8/4K3 w - - 0 1");
    let m = sorted(g.legal_moves(4, 7));
    assert_eq!(m, vec![(3, 6), (3, 7), (5, 6), (5, 7)]);
}

#[test]
fn bishop_pinned_on_file_has_no_moves() {
    let mut g = game("4r3/8/8/8/8/8/4B3/4K3 w - - 0 1");
    assert_eq!(g.check_for_pin(4, 6), Some((Move::D, Move::U)));
    assert!(g.legal_moves(4, 6).is_empty());
}

#[test]
fn pinned_rook_moves_along_pin() {
    let mut g = game("4r3/8/8/8/8/8/4R3/4K3 w - - 0 1");
    let m = sorted(g.legal_moves(4, 6));
    assert_eq!(m, vec![(4, 0), (4, 1), (4, 2), (4, 3), (4, 4), (4, 5)]);
}

#[test]
fn pinned_knight_has_no_moves() {
    let mut g = game("4k3/8/8/b7/8/8/3N4/4K3 w - - 0 1");
    assert!(g.check_for_pin(3, 6).is_some());
    assert!(g.legal_moves(3, 6).is_empty());
}

#[test]
fn en_passant_capture() {
    let mut g = game("4k3/3p4/8/4P3/8/8/8/4K3 b - - 0 1");
    let out = g.apply_move((3, 1), (3, 3), None).unwrap();
    assert!(!out.pending_promotion);
    assert_eq!(g.en_passant, Some((3, 2)));
    assert_eq!(g.create_fen_string(), "4k3/8/8/3pP3/8/8/8/4K3 w - d6 0 2");
    assert!(g.legal_moves(4, 3).contains(&(3, 2)));
    g.apply_move((4, 3), (3, 2), None).unwrap();
    assert_eq!(g.square(3, 3), Square::empty());
    assert_eq!(g.square(3, 2), Square::new(Piece::Pawn, WHITE));
    assert_eq!(g.en_passant, None);
}

#[test]
fn both_castles_are_offered() {
    let mut g = game("r3k2r/8/8/8/8/8/8/R3K2R w KQkq - 0 1");
    let m = g.legal_moves(4, 7);
    assert!(m.contains(&(6, 7)));
    assert!(m.contains(&(2, 7)));
}

#[test]
fn kingside_castle_moves_rook_and_clears_rights() {
    let mut g = game("r3k2r/8/8/8/8/8/8/R3K2R w KQkq - 0 1");
    g.apply_move((4, 7), (6, 7), None).unwrap();
    assert_eq!(g.square(5, 7), Square::new(Piece::Rook, WHITE));
    assert_eq!(g.square(6, 7), Square::new(Piece::King, WHITE));
    assert_eq!(g.square(7, 7), Square::empty());
    assert_eq!(g.castling_rights[0], [false, false]);
    assert_eq!(g.castling_rights[1], [true, true]);
    assert_eq!(g.king_coords[0], (6, 7));
}

#[test]
fn queenside_castle_moves_rook_and_clears_rights() {
    let mut g = game("r3k2r/8/8/8/8/8/8/R3K2R w KQkq - 0 1");
    g.apply_move((4, 7), (2, 7), None).unwrap();
    assert_eq!(g.square(3, 7), Square::new(Piece::Rook, WHITE));
    assert_eq!(g.square(2, 7), Square::new(Piece::King, WHITE));
    assert_eq!(g.square(0, 7), Square::empty());
    assert_eq!(g.castling_rights[0], [false, false]);
    assert_eq!(g.create_fen_string(), "r3k2r/8/8/8/8/8/8/2KR3R b kq - 1 1");
}

#[test]
fn castle_blocked_through_attacked_square() {
    let mut g = game("r3k2r/8/8/8/8/8/5r2/R3K2R w KQkq - 0 1");
    let m = g.legal_moves(4, 7);
    assert!(!m.contains(&(6, 7)));
    assert!(m.contains(&(2, 7)));
}

#[test]
fn rook_move_clears_one_right() {
    let mut g = game("r3k2r/8/8/8/8/8/8/R3K2R w KQkq - 0 1");
    g.apply_move((7, 7), (7, 3), None).unwrap();
    assert_eq!(g.castling_rights, [[false, true], [true, true]]);
}

#[test]
fn back_rank_checkmate() {
    let mut g = game("6k1/5ppp/8/8/8/8/8/R5K1 w - - 0 1");
    let out = g.apply_move((0, 7), (0, 0), None).unwrap();
    assert!(out.check);
    assert_eq!(out.terminal, Terminal::Checkmate);
    assert_eq!(g.check_for_mate(), Terminal::Checkmate);
}

#[test]
fn queen_stalemate() {
    let mut g = game("7k/8/5Q2/8/8/8/8/K7 w - - 0 1");
    let out = g.apply_move((5, 2), (6, 2), None).unwrap();
    assert!(!out.check);
    assert_eq!(out.terminal, Terminal::Stalemate);
}

#[test]
fn ongoing_game_is_not_terminal() {
    let mut g = Game::new();
    assert_eq!(g.check_for_mate(), Terminal::Ongoing);
    assert!(g.any_legal_move());
}

#[test]
fn clocks_follow_moves() {
    let mut g = Game::new();
    g.apply_move((6, 7), (5, 5), None).unwrap();
    assert_eq!((g.halfmove_clock, g.fullmoves, g.turn), (1, 1, BLACK));
    g.apply_move((6, 0), (5, 2), None).unwrap();
    assert_eq!((g.halfmove_clock, g.fullmoves, g.turn), (2, 2, WHITE));
    g.apply_move((4, 6), (4, 4), None).unwrap();
    assert_eq!((g.halfmove_clock, g.fullmoves), (0, 2));
    assert_eq!(g.en_passant, Some((4, 5)));
    g.apply_move((1, 0), (2, 2), None).unwrap();
    assert_eq!((g.halfmove_clock, g.fullmoves), (1, 3));
    g.apply_move((5, 5), (4, 3), None).unwrap();
    assert_eq!(g.halfmove_clock, 2);
    g.apply_move((2, 2), (4, 3), None).unwrap();
    assert_eq!((g.halfmove_clock, g.fullmoves), (0, 4));
    assert_eq!(g.create_fen_string(), "r1bqkb1r/pppppppp/5n2/4n3/4P3/8/PPPP1PPP/RNBQKB1R w KQkq - 0 4");
}

#[test]
fn starting_moves() {
    let mut g = Game::new();
    assert_eq!(sorted(g.legal_moves(4, 6)), vec![(4, 4), (4, 5)]);
    assert_eq!(sorted(g.legal_moves(6, 7)), vec![(5, 5), (7, 5)]);
    assert!(g.legal_moves(4, 7).is_empty());
    assert!(g.legal_moves(3, 7).is_empty());
    assert!(g.legal_moves(4, 1).is_empty());
    assert!(g.legal_moves(4, 4).is_empty());
}

#[test]
fn blocked_pawn_cannot_jump() {
    let mut g = game("4k3/8/8/8/8/4n3/4P3/4K3 w - - 0 1");
    assert!(g.legal_moves(4, 6).is_empty());
}

#[test]
fn in_check_only_blocking_moves() {
    let mut g = game("4r2k/8/8/8/8/8/R7/4K3 w - - 0 1");
    assert_eq!(g.legal_moves(0, 6), vec![(4, 6)]);
}

#[test]
fn illegal_destination_is_refused() {
    let mut g = Game::new();
    assert_eq!(g.apply_move((4, 6), (4, 3), None), Err(MoveError::IllegalSelection));
    assert_eq!(g.apply_move((4, 4), (4, 3), None), Err(MoveError::IllegalSelection));
    assert_eq!(g, Game::new());
}

#[test]
fn promotion_with_choice() {
    let mut g = game("8/P6k/8/8/8/8/8/K7 w - - 0 1");
    assert_eq!(g.apply_move((0, 1), (0, 0), Some(Piece::King)), Err(MoveError::InvalidPromotion));
    let out = g.apply_move((0, 1), (0, 0), Some(Piece::Knight)).unwrap();
    assert!(!out.pending_promotion);
    assert_eq!(g.square(0, 0), Square::new(Piece::Knight, WHITE));
    assert_eq!(g.turn, BLACK);
}

#[test]
fn promotion_pending_then_chosen() {
    let mut g = game("8/P6k/8/8/8/8/8/K7 w - - 0 1");
    let out = g.apply_move((0, 1), (0, 0), None).unwrap();
    assert!(out.pending_promotion);
    assert_eq!(g.turn, WHITE);
    assert_eq!(g.promote_pawn(1, 0, Piece::Queen), Err(MoveError::NoPendingPromotion));
    assert_eq!(g.promote_pawn(0, 0, Piece::Pawn), Err(MoveError::InvalidPromotion));
    let out = g.promote_pawn(0, 0, Piece::Queen).unwrap();
    assert!(!out.check);
    assert_eq!(g.square(0, 0), Square::new(Piece::Queen, WHITE));
    assert_eq!(g.turn, BLACK);
    assert_eq!(g.create_fen_string(), "Q7/7k/8/8/8/8/8/K7 b - - 0 1");
}

#[test]
fn editing_keeps_king_square_and_rights() {
    let mut g = Game::new();
    g.empty_square(4, 7);
    assert_eq!(g.square(4, 7), Square::empty());
    g.place_piece(Piece::King, WHITE, 4, 5);
    assert_eq!(g.king_coords[0], (4, 5));
    assert_eq!(g.castling_rights, [[false, false], [true, true]]);
    g.place_piece(Piece::Queen, BLACK, 0, 5);
    assert_eq!(g.square(0, 5), Square::new(Piece::Queen, BLACK));
    assert!(g.is_in_check(WHITE));
}
