use chess_rules::piece::{Color, Piece, Promotion};
use chess_rules::position::{EnPassant, Game};
use chess_rules::rules::{MoveResult, SideEffect};

/// The index of a square given as file letter and rank digit.
fn sq(name: &str) -> usize {
    let bytes = name.as_bytes();
    (bytes[1] - b'1') as usize * 8 + (bytes[0] - b'a') as usize
}

fn position(record: &str) -> Game {
    Game::from_fen(record).unwrap()
}

fn play(game: &mut Game, from: &str, to: &str) -> MoveResult {
    game.move_checked(sq(from), sq(to), None)
}

#[test]
fn initial_position_has_twenty_moves() {
    let game = Game::default();
    let mut pawn_moves = 0;
    let mut knight_moves = 0;
    let mut other_moves = 0;
    for from in 0..64 {
        let list = game.all_legal_moves(from);
        match game.board.0[from] {
            Some(Piece::WPawn) => pawn_moves += list.len(),
            Some(Piece::WKnight) => knight_moves += list.len(),
            _ => other_moves += list.len(),
        }
        for to in list {
            assert_eq!(game.is_legal_move(from, to, Some(Promotion::Queen)), MoveResult::Valid);
        }
    }
    assert_eq!(pawn_moves, 16);
    assert_eq!(knight_moves, 4);
    assert_eq!(other_moves, 0);
}

#[test]
fn initial_pawn_and_knight_destinations() {
    let game = Game::default();
    assert_eq!(game.all_legal_moves(sq("e2")), vec![sq("e3"), sq("e4")]);
    assert_eq!(game.all_legal_moves(sq("b1")), vec![sq("a3"), sq("c3")]);
    assert_eq!(game.all_legal_moves(sq("e1")), Vec::<usize>::new());
}

#[test]
fn destinations_are_empty_without_own_piece() {
    let game = Game::default();
    assert!(game.all_legal_moves(sq("e4")).is_empty());
    assert!(game.all_legal_moves(sq("e7")).is_empty());
    assert!(game.all_legal_moves(64).is_empty());
    assert!(game.all_legal_moves(usize::MAX).is_empty());
}

#[test]
fn destinations_agree_with_full_legality() {
    let game = position("r3k2r/pp1b1ppp/2n1pn2/q2p4/1b1P4/2NBPN2/PPQ2PPP/R1B1K2R w KQkq - 4 9");
    for from in 0..64 {
        let list = game.all_legal_moves(from);
        for to in 0..64 {
            let legal = game.is_legal_move(from, to, Some(Promotion::Queen)).is_ok();
            assert_eq!(list.contains(&to), legal, "from {} to {}", from, to);
        }
    }
}

#[test]
fn scholars_mate_ends_in_checkmate() {
    let mut game = Game::default();
    assert_eq!(play(&mut game, "e2", "e4"), MoveResult::Valid);
    assert_eq!(play(&mut game, "e7", "e5"), MoveResult::Valid);
    assert_eq!(play(&mut game, "d1", "h5"), MoveResult::Valid);
    assert_eq!(play(&mut game, "b8", "c6"), MoveResult::Valid);
    assert_eq!(play(&mut game, "f1", "c4"), MoveResult::Valid);
    assert_eq!(play(&mut game, "g8", "f6"), MoveResult::Valid);
    assert_eq!(game.is_legal_move(sq("h5"), sq("f7"), None), MoveResult::Checkmate);
    assert_eq!(play(&mut game, "h5", "f7"), MoveResult::Checkmate);
    assert!(game.is_in_check(Color::Black));
    assert!(game.is_in_checkmate(Color::Black));
    assert!(!game.is_in_check(Color::White));
    assert!(!game.is_stalemate());
    assert_eq!(
        game.as_fen(),
        "r1bqkb1r/pppp1Qpp/2n2n2/4p3/2B1P3/8/PPPP1PPP/RNB1K1NR b KQkq - 0 4"
    );
}

#[test]
fn check_is_reported_and_can_be_blocked() {
    let mut game = position("4k3/8/8/8/8/8/3r4/R3K3 b - - 0 1");
    assert_eq!(play(&mut game, "d2", "e2"), MoveResult::Check);
    assert_eq!(game.all_legal_moves(sq("e1")), vec![sq("d1"), sq("f1"), sq("e2")]);
    let mut game = position("4k3/8/8/8/8/8/3r4/R6K b - - 0 1");
    assert_eq!(play(&mut game, "d2", "d1"), MoveResult::Check);
    assert!(game.is_in_check(Color::White));
    assert!(!game.is_in_checkmate(Color::White));
    assert_eq!(game.all_legal_moves(sq("a1")), vec![sq("d1")]);
}

#[test]
fn rook_check_along_a_file_can_be_blocked() {
    let game = position("4r2k/8/8/8/R7/8/8/4K3 w - - 0 1");
    assert!(game.is_in_check(Color::White));
    assert!(!game.is_in_checkmate(Color::White));
    assert!(game.all_legal_moves(sq("a4")).contains(&sq("e4")));
    let smothered = position("4r2k/8/8/8/7R/8/3PPP2/3QKB2 w - - 0 1");
    assert!(smothered.is_in_check(Color::White) == false);
    let boxed = position("4r2k/8/8/8/R7/8/3P1P2/3QKB2 w - - 0 1");
    assert!(boxed.is_in_check(Color::White));
    assert!(!boxed.is_in_checkmate(Color::White));
    assert_eq!(boxed.all_legal_moves(sq("a4")), vec![sq("e4")]);
}

#[test]
fn back_rank_mate() {
    let mut game = position("6k1/5ppp/8/8/8/8/8/R3K3 w - - 0 1");
    assert_eq!(play(&mut game, "a1", "a8"), MoveResult::Checkmate);
    assert!(game.is_in_checkmate(Color::Black));
}

#[test]
fn pinned_piece_may_not_leave_the_line() {
    let game = position("4r2k/8/8/8/8/8/4B3/4K3 w - - 0 1");
    assert_eq!(game.is_legal_checkless(sq("e2"), sq("d3"), None, true), MoveResult::Valid);
    assert_eq!(game.is_legal_move(sq("e2"), sq("d3"), None), MoveResult::Illegal);
    assert!(game.all_legal_moves(sq("e2")).is_empty());
}

#[test]
fn impossible_moves() {
    let game = Game::default();
    assert_eq!(game.is_legal_move(64, 0, None), MoveResult::Impossible);
    assert_eq!(game.is_legal_move(0, 64, None), MoveResult::Impossible);
    assert_eq!(game.is_legal_move(sq("e4"), sq("e5"), None), MoveResult::Impossible);
    assert_eq!(game.is_legal_move(sq("e7"), sq("e5"), None), MoveResult::Impossible);
    assert_eq!(game.is_legal_checkless(usize::MAX, 3, None, false), MoveResult::Impossible);
}

#[test]
fn illegal_moves() {
    let game = Game::default();
    assert_eq!(game.is_legal_move(sq("a1"), sq("a3"), None), MoveResult::Illegal);
    assert_eq!(game.is_legal_move(sq("a1"), sq("a2"), None), MoveResult::Illegal);
    assert_eq!(game.is_legal_move(sq("c1"), sq("a3"), None), MoveResult::Illegal);
    assert_eq!(game.is_legal_move(sq("e2"), sq("e5"), None), MoveResult::Illegal);
    assert_eq!(game.is_legal_move(sq("e2"), sq("d3"), None), MoveResult::Illegal);
    assert_eq!(game.is_legal_move(sq("b1"), sq("b3"), None), MoveResult::Illegal);
    assert_eq!(game.is_legal_move(sq("e1"), sq("e3"), None), MoveResult::Illegal);
    assert_eq!(game.is_legal_move(sq("h2"), sq("a3"), None), MoveResult::Illegal);
}

#[test]
fn outcome_is_ok_only_for_legal_moves() {
    assert!(MoveResult::Valid.is_ok());
    assert!(MoveResult::Check.is_ok());
    assert!(MoveResult::Checkmate.is_ok());
    assert!(MoveResult::Stalemate.is_ok());
    assert!(MoveResult::Draw.is_ok());
    assert!(!MoveResult::MissingPromotion.is_ok());
    assert!(!MoveResult::Illegal.is_ok());
    assert!(!MoveResult::Impossible.is_ok());
}

#[test]
fn pawn_moves() {
    let game = position("4k3/8/8/8/3p4/4P3/P7/4K3 w - - 0 1");
    assert_eq!(game.is_legal_move(sq("a2"), sq("a3"), None), MoveResult::Valid);
    assert_eq!(game.is_legal_move(sq("a2"), sq("a4"), None), MoveResult::Valid);
    assert_eq!(game.is_legal_move(sq("a2"), sq("b3"), None), MoveResult::Illegal);
    assert_eq!(game.is_legal_move(sq("e3"), sq("e5"), None), MoveResult::Illegal);
    assert_eq!(game.is_legal_move(sq("e3"), sq("d4"), None), MoveResult::Valid);
    assert_eq!(game.is_legal_move(sq("e3"), sq("e2"), None), MoveResult::Illegal);
    let blocked = position("4k3/8/8/8/8/p7/P7/4K3 w - - 0 1");
    assert_eq!(blocked.is_legal_move(sq("a2"), sq("a3"), None), MoveResult::Illegal);
    assert_eq!(blocked.is_legal_move(sq("a2"), sq("a4"), None), MoveResult::Illegal);
    let black = position("4k3/p7/8/8/8/8/8/4K3 b - - 0 1");
    assert_eq!(black.is_legal_move(sq("a7"), sq("a5"), None), MoveResult::Valid);
    assert_eq!(black.is_legal_move(sq("a7"), sq("a8"), None), MoveResult::Illegal);
}

#[test]
fn missing_promotion_and_promotion() {
    let game = position("8/P7/8/8/8/8/8/k6K w - - 0 1");
    assert_eq!(game.is_legal_move(sq("a7"), sq("a8"), None), MoveResult::MissingPromotion);
    assert_eq!(game.is_legal_checkless(sq("a7"), sq("a8"), None, true), MoveResult::MissingPromotion);
    assert_eq!(game.is_legal_move(sq("a7"), sq("a8"), Some(Promotion::Queen)), MoveResult::Check);
    assert_eq!(game.is_legal_move(sq("a7"), sq("a8"), Some(Promotion::Knight)), MoveResult::Draw);
    let crowded = position("8/P7/8/8/8/8/p7/k6K w - - 0 1");
    assert_eq!(crowded.is_legal_move(sq("a7"), sq("a8"), Some(Promotion::Knight)), MoveResult::Valid);
    let mut played = game;
    assert_eq!(played.move_checked(sq("a7"), sq("a8"), None), MoveResult::MissingPromotion);
    assert_eq!(played, game);
    assert_eq!(played.move_checked(sq("a7"), sq("a8"), Some(Promotion::Rook)), MoveResult::Check);
    assert_eq!(played.board.0[sq("a8")], Some(Piece::WRook));
    assert_eq!(played.board.0[sq("a7")], None);
    let black = position("K6k/8/8/8/8/8/7p/8 b - - 0 1");
    let mut played = black;
    assert!(played.move_checked(sq("h2"), sq("h1"), Some(Promotion::Bishop)).is_ok());
    assert_eq!(played.board.0[sq("h1")], Some(Piece::BBishop));
}

#[test]
fn unchecked_move_of_a_pawn_without_promotion_keeps_the_pawn() {
    let mut game = position("8/P7/8/8/8/8/8/k6K w - - 0 1");
    assert!(game.move_unchecked(sq("a7"), sq("a8"), None));
    assert_eq!(game.board.0[sq("a8")], Some(Piece::WPawn));
    assert_eq!(game.turn, Color::Black);
}

#[test]
fn unchecked_move_from_an_empty_square_changes_nothing() {
    let mut game = Game::default();
    assert!(!game.move_unchecked(sq("e4"), sq("e5"), None));
    assert_eq!(game, Game::default());
}

#[test]
fn stalemate_is_reported() {
    let mut game = position("7k/5K2/8/6Q1/8/8/8/8 w - - 0 1");
    assert_eq!(play(&mut game, "g5", "g6"), MoveResult::Stalemate);
    assert!(game.is_stalemate());
    assert!(!game.is_in_check(Color::Black));
    assert!(!Game::default().is_stalemate());
}

#[test]
fn draw_by_bare_kings_after_capture() {
    let mut game = position("8/8/8/8/8/8/1q6/K6k w - - 0 1");
    assert_eq!(play(&mut game, "a1", "b2"), MoveResult::Draw);
    assert!(game.is_draw());
}

#[test]
fn draw_by_the_clock() {
    let mut game = position("4k3/8/8/8/8/8/R7/4K3 w - - 99 80");
    assert!(!game.is_draw());
    assert_eq!(play(&mut game, "a2", "a3"), MoveResult::Draw);
    assert_eq!(game.hm_clock, 100);
    assert!(game.is_draw());
    assert_eq!(play(&mut game, "e8", "e7"), MoveResult::Valid);
    assert_eq!(game.hm_clock, 101);
    assert!(!game.is_draw());
}

#[test]
fn draw_comes_before_stalemate() {
    let mut game = position("7k/5K2/8/6Q1/8/8/8/8 w - - 99 60");
    assert_eq!(play(&mut game, "g5", "g6"), MoveResult::Draw);
    assert!(game.is_draw());
    assert!(game.is_stalemate());
    let mut bare = position("k7/8/1K6/8/8/8/8/8 b - - 0 1");
    assert!(bare.is_draw());
    assert_eq!(play(&mut bare, "a8", "b8"), MoveResult::Draw);
}

#[test]
fn material_draws() {
    assert!(position("8/8/8/4k3/8/8/3K4/8 w - - 0 1").is_draw());
    assert!(position("8/8/8/4k3/8/8/3K4/6N1 w - - 0 1").is_draw());
    assert!(position("8/8/8/4k3/8/8/3K4/6b1 w - - 0 1").is_draw());
    assert!(!position("8/8/8/4k3/8/8/3K4/6Q1 w - - 0 1").is_draw());
    assert!(!position("8/8/8/4k3/8/8/3K4/6R1 w - - 0 1").is_draw());
    assert!(!position("8/8/8/4k3/8/8/3KP3/8 w - - 0 1").is_draw());
    assert!(!position("8/8/8/4k3/8/8/3Kp3/8 w - - 0 1").is_draw());
    assert!(position("8/8/8/4k3/8/8/3K4/2B1b3 w - - 0 1").is_draw());
    assert!(!position("8/8/8/4k3/8/8/3K4/2Bb4 w - - 0 1").is_draw());
    assert!(!position("8/8/8/4k3/8/8/3K4/2B1B3 w - - 0 1").is_draw());
    assert!(!position("8/8/8/4k3/8/8/3K4/2B1n3 w - - 0 1").is_draw());
    assert!(!position("8/8/8/4k3/8/8/3K4/1NB1b3 w - - 0 1").is_draw());
    assert!(!Game::default().is_draw());
}

#[test]
fn three_kings_are_no_draw() {
    assert!(!position("8/8/8/4k3/8/8/3K4/6K1 w - - 0 1").is_draw());
    assert!(!position("8/8/8/4k3/8/8/3K4/5kB1 w - - 0 1").is_draw());
}

#[test]
fn a_king_gives_no_check() {
    let game = position("k7/8/1K6/8/8/8/8/7R b - - 0 1");
    assert!(!game.is_in_check(Color::Black));
    assert_eq!(game.all_legal_moves(sq("a8")), vec![sq("a7"), sq("b7"), sq("b8")]);
    assert_eq!(game.is_legal_move(sq("a8"), sq("b7"), None), MoveResult::Valid);
}

#[test]
fn find_king_gives_the_square() {
    let game = Game::default();
    assert_eq!(game.find_king(Color::White), Some(4));
    assert_eq!(game.find_king(Color::Black), Some(60));
    let lone = position("8/8/8/8/8/8/8/4K3 w - - 0 1");
    assert_eq!(lone.find_king(Color::Black), None);
    assert!(!lone.is_in_check(Color::Black));
    assert!(!lone.is_in_check(Color::White));
}

#[test]
fn castling_kingside_moves_the_rook() {
    let mut game = position("k7/8/8/8/8/8/8/4K2R w K - 0 1");
    assert_eq!(game.all_legal_moves(sq("e1")).contains(&sq("g1")), true);
    assert_eq!(play(&mut game, "e1", "g1"), MoveResult::Valid);
    assert_eq!(game.board.0[sq("g1")], Some(Piece::WKing));
    assert_eq!(game.board.0[sq("f1")], Some(Piece::WRook));
    assert_eq!(game.board.0[sq("h1")], None);
    assert_eq!(game.board.0[sq("e1")], None);
    assert_eq!(game.as_fen(), "k7/8/8/8/8/8/8/5RK1 b - - 1 1");
}

#[test]
fn castling_queenside_moves_the_rook() {
    let mut game = position("r3k3/8/8/8/8/8/8/4K3 b q - 0 1");
    assert_eq!(play(&mut game, "e8", "c8"), MoveResult::Valid);
    assert_eq!(game.board.0[sq("c8")], Some(Piece::BKing));
    assert_eq!(game.board.0[sq("d8")], Some(Piece::BRook));
    assert_eq!(game.board.0[sq("a8")], None);
    assert_eq!(game.as_fen(), "2kr4/8/8/8/8/8/8/4K3 w - - 1 2");
}

#[test]
fn castling_over_an_attacked_square_is_illegal() {
    let game = position("k4r2/8/8/8/8/8/8/4K2R w K - 0 1");
    assert!(!game.is_in_check(Color::White));
    assert_eq!(game.is_legal_checkless(sq("e1"), sq("g1"), None, true), MoveResult::Illegal);
    assert_eq!(game.is_legal_move(sq("e1"), sq("g1"), None), MoveResult::Illegal);
    assert!(!game.all_legal_moves(sq("e1")).contains(&sq("g1")));
}

#[test]
fn castling_onto_an_attacked_square_is_illegal() {
    let game = position("k5r1/8/8/8/8/8/8/4K2R w K - 0 1");
    assert_eq!(game.is_legal_checkless(sq("e1"), sq("g1"), None, true), MoveResult::Valid);
    assert_eq!(game.is_legal_move(sq("e1"), sq("g1"), None), MoveResult::Illegal);
}

#[test]
fn castling_out_of_check_is_illegal() {
    let game = position("k3r3/8/8/8/8/8/8/4K2R w K - 0 1");
    assert!(game.is_in_check(Color::White));
    assert_eq!(game.is_legal_move(sq("e1"), sq("g1"), None), MoveResult::Illegal);
}

#[test]
fn castling_needs_the_right_and_an_empty_lane() {
    let no_right = position("k7/8/8/8/8/8/8/4K2R w Q - 0 1");
    assert_eq!(no_right.is_legal_move(sq("e1"), sq("g1"), None), MoveResult::Illegal);
    let blocked = position("k7/8/8/8/8/8/8/4KB1R w K - 0 1");
    assert_eq!(blocked.is_legal_move(sq("e1"), sq("g1"), None), MoveResult::Illegal);
    let queenside_blocked = position("k7/8/8/8/8/8/8/RN2K3 w Q - 0 1");
    assert_eq!(queenside_blocked.is_legal_move(sq("e1"), sq("c1"), None), MoveResult::Illegal);
    let queenside = position("k7/8/8/8/8/8/8/R3K3 w Q - 0 1");
    assert_eq!(queenside.is_legal_move(sq("e1"), sq("c1"), None), MoveResult::Valid);
}

#[test]
fn castling_from_another_square_is_illegal() {
    let game = position("k7/8/8/8/4K3/8/8/7R w K - 0 1");
    assert_eq!(game.is_legal_move(sq("e4"), sq("g4"), None), MoveResult::Illegal);
    let far = position("5K2/8/8/8/8/8/8/k7 w K - 0 1");
    assert_eq!(far.is_legal_move(sq("f8"), sq("h8"), None), MoveResult::Illegal);
}

#[test]
fn moving_king_or_rook_gives_up_rights() {
    let start = position("r3k2r/8/8/8/8/8/8/R3K2R w KQkq - 0 1");
    let mut game = start;
    play(&mut game, "h1", "g1");
    assert_eq!(game.as_fen(), "r3k2r/8/8/8/8/8/8/R3K1R1 b Qkq - 1 1");
    play(&mut game, "a8", "b8");
    assert_eq!(game.as_fen(), "1r2k2r/8/8/8/8/8/8/R3K1R1 w Qk - 2 2");
    play(&mut game, "e1", "e2");
    assert_eq!(game.as_fen(), "1r2k2r/8/8/8/8/8/4K3/R5R1 b k - 3 2");
    play(&mut game, "e8", "d8");
    assert_eq!(game.as_fen(), "1r1k3r/8/8/8/8/8/4K3/R5R1 w - - 4 3");
}

#[test]
fn taking_a_rook_on_its_corner_gives_up_the_right() {
    let mut game = position("r3k2r/8/8/8/8/8/8/R3K2R w KQkq - 0 1");
    assert_eq!(play(&mut game, "a1", "a8"), MoveResult::Check);
    assert_eq!(game.as_fen(), "R3k2r/8/8/8/8/8/8/4K2R b Kk - 0 1");
    assert_eq!(play(&mut game, "h8", "h1"), MoveResult::Illegal);
}

#[test]
fn en_passant_takes_the_pawn_that_stepped_past() {
    let mut game = Game::default();
    assert_eq!(play(&mut game, "e2", "e4"), MoveResult::Valid);
    assert_eq!(game.en_passant, Some(EnPassant::E2));
    assert_eq!(play(&mut game, "a7", "a6"), MoveResult::Valid);
    assert_eq!(game.en_passant, None);
    assert_eq!(play(&mut game, "e4", "e5"), MoveResult::Valid);
    assert_eq!(play(&mut game, "d7", "d5"), MoveResult::Valid);
    assert_eq!(game.en_passant, Some(EnPassant::D5));
    assert_eq!(game.en_passant.unwrap().location(), sq("d6"));
    assert_eq!(game.en_passant.unwrap().pawn_lost_pos(), sq("d5"));
    assert_eq!(game.board.0[sq("d6")], None);
    assert_eq!(game.all_legal_moves(sq("e5")), vec![sq("d6"), sq("e6")]);
    assert_eq!(play(&mut game, "e5", "d6"), MoveResult::Valid);
    assert_eq!(game.board.0[sq("d6")], Some(Piece::WPawn));
    assert_eq!(game.board.0[sq("d5")], None);
    assert_eq!(game.board.0[sq("e5")], None);
    assert_eq!(game.board.0[sq("d7")], None);
    assert_eq!(game.hm_clock, 0);
    assert_eq!(game.en_passant, None);
}

#[test]
fn en_passant_by_black() {
    let mut game = position("4k3/8/8/8/3p4/8/4P3/4K3 w - - 0 1");
    assert_eq!(play(&mut game, "e2", "e4"), MoveResult::Valid);
    assert_eq!(game.en_passant, Some(EnPassant::E2));
    assert_eq!(game.en_passant.unwrap().pawn_lost_pos(), sq("e4"));
    assert_eq!(game.all_legal_moves(sq("d4")), vec![sq("d3"), sq("e3")]);
    assert_eq!(play(&mut game, "d4", "e3"), MoveResult::Valid);
    assert_eq!(game.board.0[sq("e3")], Some(Piece::BPawn));
    assert_eq!(game.board.0[sq("e4")], None);
    assert_eq!(game.board.0[sq("d4")], None);
}

#[test]
fn en_passant_lasts_one_reply() {
    let mut game = position("4k3/8/8/8/3p4/8/4P3/4K3 w - - 0 1");
    play(&mut game, "e2", "e4");
    play(&mut game, "e8", "e7");
    play(&mut game, "e1", "e2");
    assert_eq!(game.en_passant, None);
    assert_eq!(game.is_legal_move(sq("d4"), sq("e3"), None), MoveResult::Illegal);
}

#[test]
fn clocks_advance() {
    let mut game = Game::default();
    play(&mut game, "g1", "f3");
    assert_eq!((game.hm_clock, game.fm_clock), (1, 1));
    play(&mut game, "g8", "f6");
    assert_eq!((game.hm_clock, game.fm_clock), (2, 2));
    play(&mut game, "e2", "e4");
    assert_eq!((game.hm_clock, game.fm_clock), (0, 2));
    play(&mut game, "f6", "e4");
    assert_eq!((game.hm_clock, game.fm_clock), (0, 3));
    assert_eq!(game.turn, Color::White);
}

#[test]
fn a_move_leaves_one_king_a_side() {
    let mut game = position("r3k2r/8/8/8/8/8/8/R3K2R w KQkq - 0 1");
    play(&mut game, "e1", "g1");
    play(&mut game, "e8", "c8");
    let kings = |g: &Game, k: Piece| g.board.0.iter().filter(|s| **s == Some(k)).count();
    assert_eq!(kings(&game, Piece::WKing), 1);
    assert_eq!(kings(&game, Piece::BKing), 1);
}

#[test]
fn the_enemy_king_is_spared_only_on_request() {
    let game = position("4k3/8/8/8/8/8/8/4R2K w - - 0 1");
    assert_eq!(game.is_legal_checkless(sq("e1"), sq("e8"), None, false), MoveResult::Valid);
    assert_eq!(game.is_legal_checkless(sq("e1"), sq("e8"), None, true), MoveResult::Illegal);
    let black = position("4K3/8/8/8/8/8/8/4r2k b - - 0 1");
    assert_eq!(black.is_legal_checkless(sq("e1"), sq("e8"), None, false), MoveResult::Valid);
    assert_eq!(black.is_legal_checkless(sq("e1"), sq("e8"), None, true), MoveResult::Illegal);
    assert!(!game.all_legal_moves(sq("e1")).contains(&sq("e8")));
    assert!(game.all_legal_moves(sq("e1")).contains(&sq("e7")));
    assert_eq!(game.is_legal_move(sq("e1"), sq("e8"), Some(Promotion::Queen)), MoveResult::Illegal);
}

#[test]
fn piece_patterns() {
    assert!(Piece::WKnight.can_move(1, -2));
    assert!(!Piece::WKnight.can_move(2, 2));
    assert!(Piece::BBishop.can_move(-3, 3));
    assert!(!Piece::BBishop.can_move(0, 3));
    assert!(Piece::WRook.can_move(0, -7));
    assert!(!Piece::WRook.can_move(0, 0));
    assert!(Piece::BQueen.can_move(5, 5));
    assert!(Piece::BQueen.can_move(5, 0));
    assert!(!Piece::BQueen.can_move(5, 4));
    assert!(Piece::WKing.can_move(1, 1));
    assert!(!Piece::WKing.can_move(2, 0));
    assert!(Piece::WPawn.can_move(3, 4));
}

#[test]
fn piece_colours_letters_and_promotions() {
    assert_eq!(Piece::WQueen.color(), Color::White);
    assert_eq!(Piece::BPawn.color(), Color::Black);
    assert_eq!(!Color::White, Color::Black);
    assert_eq!(!Color::Black, Color::White);
    assert_eq!(Piece::from_promotion(Promotion::Knight, Color::Black), Piece::BKnight);
    assert_eq!(Piece::from_promotion(Promotion::Queen, Color::White), Piece::WQueen);
    assert_eq!(Piece::from_promotion(Promotion::Rook, Color::White), Piece::WRook);
    assert_eq!(Piece::from_promotion(Promotion::Bishop, Color::Black), Piece::BBishop);
    for piece in [
        Piece::WPawn, Piece::WKnight, Piece::WBishop, Piece::WRook, Piece::WQueen, Piece::WKing,
        Piece::BPawn, Piece::BKnight, Piece::BBishop, Piece::BRook, Piece::BQueen, Piece::BKing,
    ] {
        assert_eq!(Piece::from_letter(piece.to_letter()), Some(piece));
    }
    assert_eq!(Piece::WKnight.to_letter(), 'N');
    assert_eq!(Piece::BKing.to_letter(), 'k');
    assert_eq!(Piece::from_letter('x'), None);
}

#[test]
fn en_passant_squares() {
    assert_eq!(EnPassant::A2.location(), 16);
    assert_eq!(EnPassant::H5.location(), 47);
    assert_eq!(EnPassant::from_pawn_location(12), Some(EnPassant::E2));
    assert_eq!(EnPassant::from_pawn_location(52), Some(EnPassant::E5));
    assert_eq!(EnPassant::from_pawn_location(20), None);
    assert_eq!(EnPassant::from_take_location(20), Some(EnPassant::E2));
    assert_eq!(EnPassant::from_take_location(44), Some(EnPassant::E5));
    assert_eq!(EnPassant::from_take_location(28), None);
    assert_eq!(EnPassant::E2.pawn_lost_pos(), 28);
    assert_eq!(EnPassant::E5.pawn_lost_pos(), 36);
}

#[test]
fn side_effects_of_moves() {
    let game = position("r3k2r/8/8/3pP3/8/8/8/R3K2R w KQkq d6 0 1");
    assert_eq!(game.side_effect(sq("e5"), sq("d6")), SideEffect::Passing { square: sq("d5") });
    assert_eq!(game.side_effect(sq("e5"), sq("e6")), SideEffect::Nothing);
    assert_eq!(game.side_effect(sq("a1"), sq("a8")), SideEffect::Capture);
    assert_eq!(
        game.side_effect(sq("e1"), sq("g1")),
        SideEffect::Castle { rook_from: sq("h1"), rook_to: sq("f1") }
    );
    assert_eq!(
        game.side_effect(sq("e1"), sq("c1")),
        SideEffect::Castle { rook_from: sq("a1"), rook_to: sq("d1") }
    );
    assert_eq!(game.side_effect(sq("e4"), sq("e5")), SideEffect::Nothing);
    assert_eq!(game.side_effect(64, 0), SideEffect::Nothing);
}

#[test]
fn a_full_half_move_clock_still_takes_a_pawn_move() {
    let mut game = position("4k3/8/8/8/8/8/P7/4K3 w - - 255 9");
    assert_eq!(game.is_legal_move(sq("e1"), sq("d1"), None), MoveResult::Valid);
    assert_eq!(play(&mut game, "a2", "a4"), MoveResult::Valid);
    assert_eq!(game.hm_clock, 0);
}

#[test]
fn outcome_of_a_position() {
    assert_eq!(Game::default().outcome(), MoveResult::Valid);
    assert_eq!(position("7k/5K2/6Q1/8/8/8/8/8 b - - 0 1").outcome(), MoveResult::Stalemate);
    assert_eq!(position("R5k1/5ppp/8/8/8/8/8/4K3 b - - 0 1").outcome(), MoveResult::Checkmate);
    assert_eq!(position("R5k1/5pp1/8/8/8/8/8/4K3 b - - 0 1").outcome(), MoveResult::Check);
    assert_eq!(position("R5k1/5ppp/8/8/8/8/8/4K3 b - - 100 1").outcome(), MoveResult::Draw);
    assert_eq!(position("6k1/8/8/8/8/8/8/4K3 b - - 0 1").outcome(), MoveResult::Draw);
}

#[test]
fn destinations_on_an_open_board() {
    let rook = position("k7/8/8/8/3R4/8/8/K7 w - - 0 1");
    assert_eq!(rook.all_legal_moves(sq("d4")).len(), 14);
    let bishop = position("k7/8/8/8/3B4/8/8/7K w - - 0 1");
    assert_eq!(bishop.all_legal_moves(sq("d4")).len(), 13);
    let queen = position("k7/8/8/8/3Q4/8/8/7K w - - 0 1");
    assert_eq!(queen.all_legal_moves(sq("d4")).len(), 27);
    let king = position("k7/8/8/8/3K4/8/8/8 w - - 0 1");
    assert_eq!(king.all_legal_moves(sq("d4")).len(), 8);
    let knight = position("k7/8/8/8/3N4/8/8/7K w - - 0 1");
    assert_eq!(
        knight.all_legal_moves(sq("d4")),
        vec![sq("c2"), sq("e2"), sq("b3"), sq("f3"), sq("b5"), sq("f5"), sq("c6"), sq("e6")]
    );
}

#[test]
fn moves_do_not_wrap_round_the_edge() {
    let game = position("k7/8/8/8/8/8/8/K5RN w - - 0 1");
    assert_eq!(game.all_legal_moves(sq("h1")), vec![sq("f2"), sq("g3")]);
    assert_eq!(game.is_legal_move(sq("h1"), sq("a3"), None), MoveResult::Illegal);
    assert_eq!(
        game.all_legal_moves(sq("g1")),
        vec![
            sq("b1"), sq("c1"), sq("d1"), sq("e1"), sq("f1"), sq("g2"), sq("g3"), sq("g4"),
            sq("g5"), sq("g6"), sq("g7"), sq("g8")
        ]
    );
    let rook = position("k7/8/8/8/8/8/R7/K7 w - - 0 1");
    assert_eq!(rook.is_legal_move(sq("a2"), sq("h1"), None), MoveResult::Illegal);
    let pawn = position("k7/8/8/8/8/p7/7P/K7 w - - 0 1");
    assert_eq!(pawn.is_legal_move(sq("h2"), sq("a3"), None), MoveResult::Illegal);
    assert_eq!(pawn.is_legal_move(sq("h2"), sq("a4"), None), MoveResult::Illegal);
}

#[test]
fn sliders_are_stopped_by_pieces() {
    let game = position("k7/8/8/3p4/8/1P6/8/K2Q4 w - - 0 1");
    assert_eq!(
        game.all_legal_moves(sq("d1")),
        vec![
            sq("b1"), sq("c1"), sq("e1"), sq("f1"), sq("g1"), sq("h1"), sq("c2"), sq("d2"),
            sq("e2"), sq("d3"), sq("f3"), sq("d4"), sq("g4"), sq("d5"), sq("h5")
        ]
    );
    assert_eq!(game.is_legal_move(sq("d1"), sq("d6"), None), MoveResult::Illegal);
    assert_eq!(game.is_legal_move(sq("d1"), sq("a4"), None), MoveResult::Illegal);
    assert_eq!(game.is_legal_move(sq("d1"), sq("b3"), None), MoveResult::Illegal);
}

#[test]
fn a_move_may_not_uncover_the_king() {
    let game = position("k3r3/8/8/8/8/8/4N3/4K3 w - - 0 1");
    assert!(game.all_legal_moves(sq("e2")).is_empty());
    assert_eq!(game.is_legal_move(sq("e2"), sq("c3"), None), MoveResult::Illegal);
    assert_eq!(game.all_legal_moves(sq("e1")), vec![sq("d1"), sq("f1"), sq("d2"), sq("f2")]);
}

#[test]
fn double_check_leaves_only_king_moves() {
    let game = position("k3r3/8/8/8/7b/8/3P4/R3K3 w - - 0 1");
    assert!(game.is_in_check(Color::White));
    assert!(game.all_legal_moves(sq("d2")).is_empty());
    assert!(game.all_legal_moves(sq("a1")).is_empty());
    assert_eq!(game.all_legal_moves(sq("e1")), vec![sq("d1"), sq("f1")]);
    assert!(!game.is_in_checkmate(Color::White));
}

#[test]
fn a_checking_knight_can_be_taken() {
    let game = position("k7/8/8/8/8/3n4/8/R3K2R w - - 0 1");
    assert!(game.is_in_check(Color::White));
    assert!(!game.is_in_checkmate(Color::White));
    let boxed = position("k7/8/8/8/8/3n2B1/3PPP2/3RKR2 w - - 0 1");
    assert!(boxed.is_in_check(Color::White));
    assert!(!boxed.is_in_checkmate(Color::White));
    assert_eq!(boxed.all_legal_moves(sq("e2")), vec![sq("d3")]);
    assert_eq!(boxed.all_legal_moves(sq("g3")), Vec::<usize>::new());
    let smothered = position("k7/8/8/8/8/3n4/3PPP2/3RKR2 w - - 0 1");
    assert!(smothered.is_in_check(Color::White));
    assert!(!smothered.is_in_checkmate(Color::White));
    let mated = position("k7/8/8/8/8/3n4/3BNB2/3RKR2 w - - 0 1");
    assert!(mated.is_in_checkmate(Color::White));
    assert_eq!(mated.outcome(), MoveResult::Checkmate);
}

#[test]
fn a_checking_pawn_can_be_taken_in_passing() {
    let mut game = position("8/8/8/2k5/8/8/3P4/4K3 w - - 0 1");
    assert_eq!(play(&mut game, "d2", "d4"), MoveResult::Check);
    assert!(game.is_in_check(Color::Black));
    let mut boxed = position("8/8/1ppp4/1pkp4/1pp1p3/8/3P4/R3K3 w - - 0 1");
    assert_eq!(boxed.is_legal_move(sq("d2"), sq("d4"), None), MoveResult::Check);
    assert_eq!(play(&mut boxed, "d2", "d4"), MoveResult::Check);
    assert_eq!(boxed.all_legal_moves(sq("c4")), vec![sq("d3")]);
    assert_eq!(boxed.all_legal_moves(sq("e4")), vec![sq("d3")]);
    assert_eq!(play(&mut boxed, "e4", "d3"), MoveResult::Valid);
    assert_eq!(boxed.board.0[sq("d4")], None);
}

#[test]
fn taking_in_passing_empties_the_square_behind_the_target() {
    let mut game = position("4k3/8/8/8/3pN3/8/8/4K3 b - e3 0 1");
    assert_eq!(game.side_effect(sq("d4"), sq("e3")), SideEffect::Passing { square: sq("e4") });
    assert!(game.move_unchecked(sq("d4"), sq("e3"), None));
    assert_eq!(game.board.0[sq("e3")], Some(Piece::BPawn));
    assert_eq!(game.board.0[sq("e4")], None);
    assert_eq!(game.board.0[sq("d4")], None);
    let mut white = position("4k3/8/8/3Pp3/8/8/8/4K3 w - e6 0 1");
    assert!(white.move_unchecked(sq("d5"), sq("e6"), None));
    assert_eq!(white.board.0[sq("e6")], Some(Piece::WPawn));
    assert_eq!(white.board.0[sq("e5")], None);
    let mut empty = position("4k3/8/8/3P4/8/8/8/4K3 w - e6 0 1");
    assert!(empty.move_unchecked(sq("d5"), sq("e6"), None));
    assert_eq!(empty.as_fen(), "4k3/8/4P3/8/8/8/8/4K3 b - - 0 1");
}

#[test]
fn stalemate_counts_legal_moves_only() {
    let game = position("k7/P7/K7/8/8/8/8/8 b - - 0 1");
    assert!(!game.is_in_check(Color::Black));
    assert_eq!(game.all_legal_moves(sq("a8")), vec![sq("a7"), sq("b7")]);
    assert!(!game.is_stalemate());

}
