use chess_engine::engine::ChessEngine;

const START_FEN: &str = "rnbqkbnr/pppppppp/8/8/8/8/PPPPPPPP/RNBQKBNR w KQkq - 0 1";

#[test]
fn new_engine_starts_from_initial_position() {
    let engine = ChessEngine::new();
    assert_eq!(engine.get_fen(), START_FEN);
    assert_eq!(engine.get_turn(), "w");
    assert_eq!(engine.move_count(), 0);
    assert_eq!(engine.get_san_history(), "[]");
    assert!(!engine.game_over());
    assert!(!engine.in_check());
    assert!(!engine.in_checkmate());
    assert!(!engine.in_stalemate());
    assert!(!engine.in_draw());
    assert_eq!(engine.castling_rights(), "KQkq");
    assert_eq!(engine.en_passant_target(), "");
    assert_eq!(engine.search_depth(), 4);
}

#[test]
fn initial_position_evaluates_to_first_move_bonus() {
    let engine = ChessEngine::new();
    assert_eq!(engine.get_evaluation(), 1);
}

#[test]
fn make_move_plays_and_records() {
    let mut engine = ChessEngine::new();
    let res = engine.make_move("e2", "e4", "");
    assert_eq!(res, r#"{"from":"e2","to":"e4","san":"e4"}"#);
    assert_eq!(engine.move_count(), 1);
    assert_eq!(engine.get_turn(), "b");
    assert_eq!(engine.get_san_history(), r#"["e4"]"#);
    // pawn from e2 (-20) to e4 (+20)
    assert_eq!(engine.get_evaluation(), 41);
}

#[test]
fn make_move_trims_square_names() {
    let mut engine = ChessEngine::new();
    let res = engine.make_move("  g1 ", "\tf3\n", "");
    assert_eq!(res, r#"{"from":"g1","to":"f3","san":"Nf3"}"#);
    // U+3000 and U+00A0 are Unicode white space too
    let res = engine.make_move("\u{3000}g8", "f6\u{a0}", "");
    assert_eq!(res, r#"{"from":"g8","to":"f6","san":"Nf6"}"#);
    // U+200B is not white space, so the name does not read
    assert_eq!(engine.make_move("\u{200b}b1", "c3", ""), "");
}

#[test]
fn illegal_or_unreadable_move_changes_nothing() {
    let mut engine = ChessEngine::new();
    assert_eq!(engine.make_move("e2", "e5", ""), "");
    assert_eq!(engine.make_move("z9", "e4", ""), "");
    assert_eq!(engine.make_move("e2", "E4", ""), "");
    assert_eq!(engine.make_move("e2", "e4x", ""), "");
    assert_eq!(engine.move_count(), 0);
    assert_eq!(engine.get_fen(), START_FEN);
}

#[test]
fn opening_sequence_and_history() {
    let mut engine = ChessEngine::new();
    assert!(!engine.make_move("e2", "e4", "").is_empty());
    assert!(!engine.make_move("e7", "e5", "").is_empty());
    assert!(!engine.make_move("g1", "f3", "").is_empty());
    assert!(!engine.make_move("g8", "f6", "").is_empty());
    assert_eq!(engine.move_count(), 4);
    assert_eq!(engine.get_san_history(), r#"["e4","e5","Nf3","Nf6"]"#);
    assert_eq!(engine.get_turn(), "w");
}

#[test]
fn san_moves_are_played_and_refused() {
    let mut engine = ChessEngine::new();
    assert_eq!(engine.make_san_move(" e4 "), r#"{"from":"e2","to":"e4","san":"e4"}"#);
    assert_eq!(engine.make_san_move("Nc6"), r#"{"from":"b8","to":"c6","san":"Nc6"}"#);
    assert_eq!(engine.make_san_move("Ke3"), "");
    assert_eq!(engine.make_san_move("??"), "");
    assert_eq!(engine.move_count(), 2);
}

#[test]
fn scholars_mate_is_checkmate() {
    let mut engine = ChessEngine::new();
    for san in ["e4", "e5", "Bc4", "Nc6", "Qh5", "Nf6"] {
        assert!(!engine.make_san_move(san).is_empty());
    }
    let res = engine.make_san_move("Qxf7");
    assert_eq!(res, r#"{"from":"h5","to":"f7","san":"Qxf7#"}"#);
    assert!(engine.in_check());
    assert!(engine.in_checkmate());
    assert!(engine.game_over());
    assert!(!engine.in_stalemate());
    assert!(!engine.in_draw());
    assert_eq!(engine.best_move(3), "");
    assert_eq!(engine.make_best_move(), "");
    assert_eq!(engine.legal_moves_san(), "[]");
}

#[test]
fn load_fen_accepts_and_rejects() {
    let mut engine = ChessEngine::new();
    assert!(engine.make_move("e2", "e4", "").len() > 0);
    assert!(!engine.load_fen("not a fen"));
    assert_eq!(engine.move_count(), 1);
    let fen = "4k3/8/8/8/8/8/8/4K2R w K - 0 1";
    assert!(engine.load_fen(&format!("  {}  ", fen)));
    assert_eq!(engine.get_fen(), fen);
    assert_eq!(engine.move_count(), 0);
    assert_eq!(engine.castling_rights(), "K");
}

#[test]
fn load_fen_rejects_impossible_position() {
    let mut engine = ChessEngine::new();
    // two white kings
    assert!(!engine.load_fen("4k3/8/8/8/8/8/8/3KK3 w - - 0 1"));
    assert_eq!(engine.get_fen(), START_FEN);
}

#[test]
fn stalemate_is_a_draw() {
    let mut engine = ChessEngine::new();
    assert!(engine.load_fen("7k/5Q2/6K1/8/8/8/8/8 b - - 0 1"));
    assert!(engine.in_stalemate());
    assert!(!engine.in_checkmate());
    assert!(engine.in_draw());
    assert!(engine.game_over());
}

#[test]
fn insufficient_material_is_a_draw() {
    let mut engine = ChessEngine::new();
    assert!(engine.load_fen("8/8/8/4k3/8/8/8/4K3 w - - 0 1"));
    assert!(engine.in_draw());
    assert!(engine.game_over());
    assert!(!engine.in_stalemate());
}

#[test]
fn fifty_move_rule_counts_as_draw() {
    let mut engine = ChessEngine::new();
    assert!(engine.load_fen("4k3/8/8/8/8/8/8/R3K3 w - - 100 80"));
    assert!(engine.in_draw());
    assert!(!engine.game_over());
}

#[test]
fn legal_moves_for_a_square() {
    let engine = ChessEngine::new();
    assert_eq!(
        engine.legal_moves_for("g1"),
        r#"[{"from":"g1","to":"f3","flags":"n","san":"Nf3"},{"from":"g1","to":"h3","flags":"n","san":"Nh3"}]"#
    );
    assert_eq!(engine.legal_moves_for("e4"), "[]");
    assert_eq!(engine.legal_moves_for("x1"), "[]");
}

#[test]
fn castling_moves_show_king_destination() {
    let mut engine = ChessEngine::new();
    assert!(engine.load_fen("r3k2r/8/8/8/8/8/8/R3K2R w KQkq - 0 1"));
    let listing = engine.legal_moves_for("g1");
    assert_eq!(listing, r#"[{"from":"g1","to":"g1","flags":"k","san":"O-O"}]"#);
    let listing = engine.legal_moves_for("c1");
    assert_eq!(listing, r#"[{"from":"c1","to":"c1","flags":"q","san":"O-O-O"}]"#);
    assert!(!engine.legal_moves_for("e1").contains("O-O"));
    assert_eq!(engine.make_move("e1", "g1", ""), "");
    let res = engine.make_move("g1", "g1", "");
    assert_eq!(res, r#"{"from":"g1","to":"g1","san":"O-O"}"#);
    assert_eq!(engine.get_fen(), "r3k2r/8/8/8/8/8/8/R4RK1 b kq - 1 1");
    assert_eq!(engine.castling_rights(), "kq");
}

#[test]
fn castling_by_notation_reports_king_destination() {
    let mut engine = ChessEngine::new();
    assert!(engine.load_fen("r3k2r/8/8/8/8/8/8/R3K2R b KQkq - 0 1"));
    assert_eq!(engine.make_san_move("O-O-O"), r#"{"from":"c8","to":"c8","san":"O-O-O"}"#);
}

#[test]
fn en_passant_target_and_capture() {
    let mut engine = ChessEngine::new();
    assert!(engine.load_fen("rnbqkbnr/ppp1p1pp/8/3pPp2/8/8/PPPP1PPP/RNBQKBNR w KQkq f6 0 3"));
    assert_eq!(engine.en_passant_target(), "f6");
    let listing = engine.legal_moves_for("e5");
    assert!(listing.contains(r#"{"from":"e5","to":"f6","flags":"e","san":"exf6"}"#));
    assert_eq!(engine.make_move("e5", "f6", ""), r#"{"from":"e5","to":"f6","san":"exf6"}"#);
}

#[test]
fn promotion_defaults_to_queen_and_follows_request() {
    let mut engine = ChessEngine::new();
    assert!(engine.load_fen("8/P6k/8/8/8/8/8/K7 w - - 0 1"));
    let listing = engine.legal_moves_for("a7");
    assert!(listing.contains(r#""flags":"p""#));
    assert_eq!(engine.make_move("a7", "a8", ""), r#"{"from":"a7","to":"a8","san":"a8=Q"}"#);
    let mut engine = ChessEngine::new();
    assert!(engine.load_fen("8/P6k/8/8/8/8/8/K7 w - - 0 1"));
    assert_eq!(engine.make_move("a7", "a8", "n"), r#"{"from":"a7","to":"a8","san":"a8=N"}"#);
    let mut engine = ChessEngine::new();
    assert!(engine.load_fen("8/P6k/8/8/8/8/8/K7 w - - 0 1"));
    assert_eq!(engine.make_move("a7", "a8", "K"), "");
    assert_eq!(engine.move_count(), 0);
    let mut engine = ChessEngine::new();
    assert!(engine.load_fen("k7/4P3/8/8/8/8/8/7K w - - 0 1"));
    assert_eq!(engine.make_move("e7", "e8", ""), r#"{"from":"e7","to":"e8","san":"e8=Q+"}"#);
    assert_eq!(engine.get_fen(), "k3Q3/8/8/8/8/8/8/7K b - - 0 1");
    assert_eq!(engine.get_san_history(), r#"["e8=Q+"]"#);
}

#[test]
fn promotion_letter_is_ignored_for_other_moves() {
    let mut engine = ChessEngine::new();
    assert_eq!(engine.make_move("e2", "e4", "n"), r#"{"from":"e2","to":"e4","san":"e4"}"#);
    assert_eq!(engine.get_fen(), "rnbqkbnr/pppppppp/8/8/4P3/8/PPPP1PPP/RNBQKBNR b KQkq - 0 1");
    assert_eq!(engine.get_san_history(), r#"["e4"]"#);
}

#[test]
fn board_json_of_initial_position() {
    let engine = ChessEngine::new();
    let board = engine.get_board();
    let expected_rank8 = r#"[{"type":"r","color":"b"},{"type":"n","color":"b"},{"type":"b","color":"b"},{"type":"q","color":"b"},{"type":"k","color":"b"},{"type":"b","color":"b"},{"type":"n","color":"b"},{"type":"r","color":"b"}]"#;
    let empty = "[null,null,null,null,null,null,null,null]";
    assert!(board.starts_with(&format!("[{},", expected_rank8)));
    assert!(board.contains(&format!("{},{},{},{}", empty, empty, empty, empty)));
    assert!(board.ends_with(r#"{"type":"r","color":"w"}]]"#));
    assert_eq!(board.matches("null").count(), 32);
}

#[test]
fn legal_moves_san_lists_all_twenty_opening_moves() {
    let engine = ChessEngine::new();
    let list = engine.legal_moves_san();
    assert!(list.starts_with('[') && list.ends_with(']'));
    assert_eq!(list.matches(',').count(), 19);
    assert!(list.contains("\"e4\""));
    assert!(list.contains("\"Nf3\""));
}

#[test]
fn best_move_finds_mate_in_one() {
    let mut engine = ChessEngine::new();
    assert!(engine.load_fen("6k1/5ppp/8/8/8/8/5PPP/R5K1 w - - 0 1"));
    assert_eq!(engine.best_move(2), "Ra8#");
    assert_eq!(engine.move_count(), 0);
    assert_eq!(engine.get_fen(), "6k1/5ppp/8/8/8/8/5PPP/R5K1 w - - 0 1");
}

#[test]
fn best_move_takes_hanging_queen() {
    let mut engine = ChessEngine::new();
    assert!(engine.load_fen("4k3/8/8/3q4/8/8/3R4/4K3 w - - 0 1"));
    assert_eq!(engine.best_move(1), "Rxd5");
}

#[test]
fn black_best_move_takes_hanging_rook() {
    let mut engine = ChessEngine::new();
    assert!(engine.load_fen("4k3/8/8/3r4/8/3R4/8/K7 b - - 0 1"));
    assert_eq!(engine.best_move(2), "Rxd3");
}

#[test]
fn make_best_move_plays_the_mate() {
    let mut engine = ChessEngine::new();
    assert!(engine.load_fen("6k1/5ppp/8/8/8/8/5PPP/R5K1 w - - 0 1"));
    let res = engine.make_best_move();
    assert_eq!(res, "Ra8#");
    assert_eq!(engine.get_san_history(), r#"["Ra8#"]"#);
    assert_eq!(engine.move_count(), 1);
    assert!(engine.in_checkmate());
}

#[test]
fn reset_returns_to_start() {
    let mut engine = ChessEngine::new();
    assert!(!engine.make_move("d2", "d4", "").is_empty());
    engine.reset();
    assert_eq!(engine.get_fen(), START_FEN);
    assert_eq!(engine.move_count(), 0);
}

#[test]
fn mirrored_knight_positions_score_opposite() {
    let mut engine = ChessEngine::new();
    assert!(engine.load_fen("4k3/8/8/8/8/8/3N4/4K3 w - - 0 1"));
    let white = engine.get_evaluation();
    assert!(engine.load_fen("4k3/3n4/8/8/8/8/8/4K3 b - - 0 1"));
    let black = engine.get_evaluation();
    assert_eq!(white, 326);
    assert_eq!(black, -324);
    assert_eq!(white - 1, -(black - 1));
}

#[test]
fn best_move_on_finished_game_accepts_depth_zero() {
    let mut engine = ChessEngine::new();
    assert!(engine.load_fen("7k/5Q2/6K1/8/8/8/8/8 b - - 0 1"));
    assert_eq!(engine.best_move(0), "");
}

#[test]
fn reset_after_load_and_search_matches_new() {
    let mut engine = ChessEngine::new();
    assert!(engine.load_fen("6k1/5ppp/8/8/8/8/8/R5K1 w - - 0 1"));
    assert!(!engine.best_move(2).is_empty());
    assert!(!engine.make_move("a1", "a8", "").is_empty());
    engine.reset();
    let fresh = ChessEngine::new();
    assert_eq!(engine.get_fen(), fresh.get_fen());
    assert_eq!(engine.get_san_history(), "[]");
    assert_eq!(engine.move_count(), 0);
    assert_eq!(engine.get_evaluation(), fresh.get_evaluation());
    engine.reset();
    assert_eq!(engine.get_fen(), START_FEN);
}

#[test]
fn adding_a_piece_moves_the_evaluation_its_way() {
    let mut engine = ChessEngine::new();
    assert!(engine.load_fen("4k3/8/8/8/8/8/8/4K3 w - - 0 1"));
    let bare = engine.get_evaluation();
    assert!(engine.load_fen("4k3/8/8/8/8/8/3N4/4K3 w - - 0 1"));
    let with_white = engine.get_evaluation();
    assert!(engine.load_fen("4k3/3n4/8/8/8/8/8/4K3 w - - 0 1"));
    let with_black = engine.get_evaluation();
    assert!(with_white > bare);
    assert!(with_black < bare);
    assert_eq!(with_white - bare, 325);
    assert_eq!(bare - with_black, 325);
}
