use std::collections::HashMap;

use chess_engine::eval::positional_value;
use chess_engine::moves::{move_flags, move_from, move_to, promotion_request, select_move, ChessMove};
use chess_engine::ordering::{order_score, stable_order};
use chess_engine::pieces::{piece_value, role_from_char, role_to_char, Color, Piece, Role};
use chess_engine::report::{castling_json, optional_square_name, turn_text};
use chess_engine::search::{
    choose_best, fold_child, game_status, is_draw, limit_table, mate_score, stand_pat, table_probe,
    tactical_moves, StandPat, Window, CHECKMATE_VAL, MAX_TT_ENTRIES,
};
use chess_engine::squares::{parse_square, square_name};
use chess_engine::text::{is_space, json_array, json_string_array, trim};

#[test]
fn piece_values() {
    assert_eq!(piece_value(Role::Pawn), 100);
    assert_eq!(piece_value(Role::Knight), 320);
    assert_eq!(piece_value(Role::Bishop), 330);
    assert_eq!(piece_value(Role::Rook), 500);
    assert_eq!(piece_value(Role::Queen), 900);
    assert_eq!(piece_value(Role::King), 20_000);
}

#[test]
fn role_letters_round_trip() {
    for role in [Role::Pawn, Role::Knight, Role::Bishop, Role::Rook, Role::Queen, Role::King] {
        assert_eq!(role_from_char(role_to_char(role)), Some(role));
        assert_eq!(role_from_char(role_to_char(role).to_ascii_uppercase()), Some(role));
    }
    assert_eq!(role_to_char(Role::Knight), 'n');
    assert_eq!(role_from_char('x'), None);
    assert_eq!(role_from_char('1'), None);
}

#[test]
fn square_names_and_parsing() {
    assert_eq!(parse_square("a1"), Some(0));
    assert_eq!(parse_square("h8"), Some(63));
    assert_eq!(parse_square("e4"), Some(28));
    assert_eq!(parse_square("i1"), None);
    assert_eq!(parse_square("a9"), None);
    assert_eq!(parse_square("A1"), None);
    assert_eq!(parse_square("a10"), None);
    assert_eq!(parse_square(""), None);
    for sq in 0..64u8 {
        assert_eq!(parse_square(&square_name(sq)), Some(sq));
    }
    assert_eq!(square_name(12), "e2");
}

#[test]
fn positional_values_by_table() {
    // white knight on d4: row 4, file 3
    assert_eq!(positional_value(Role::Knight, Color::White, 27), 20);
    // black pawn on e7 reads the mirrored row 6: -20
    assert_eq!(positional_value(Role::Pawn, Color::Black, 52), -20);
    // white pawn on e2
    assert_eq!(positional_value(Role::Pawn, Color::White, 12), -20);
    // knight table is read from White's side for Black too: b8 -> row 0
    assert_eq!(positional_value(Role::Knight, Color::Black, 57), -40);
    // king on g1: table 30 plus safety -30
    assert_eq!(positional_value(Role::King, Color::White, 6), 0);
    // black king on e8 reads row 7: 0 + -40
    assert_eq!(positional_value(Role::King, Color::Black, 60), -40);
    // black knight on d7 mirrors the white knight on d2
    assert_eq!(positional_value(Role::Knight, Color::Black, 51), 5);
    assert_eq!(positional_value(Role::Knight, Color::White, 11), 5);
    // black queen on d8 mirrors the white queen on d1
    assert_eq!(positional_value(Role::Queen, Color::Black, 59), positional_value(Role::Queen, Color::White, 3));
    assert_eq!(positional_value(Role::Queen, Color::Black, 34), positional_value(Role::Queen, Color::White, 26));
}

#[test]
fn castle_squares_and_flags() {
    let short = ChessMove::Castle { king: 4, rook: 7 };
    let long = ChessMove::Castle { king: 60, rook: 56 };
    assert_eq!(move_from(&short), Some(6));
    assert_eq!(move_from(&long), Some(58));
    assert_eq!(move_to(&short), 6);
    assert_eq!(move_flags(&short), "k");
    assert_eq!(move_to(&long), 58);
    assert_eq!(move_flags(&long), "q");
}

#[test]
fn move_flags_by_kind() {
    let ep = ChessMove::EnPassant { from: 36, to: 45 };
    assert_eq!(move_flags(&ep), "e");
    let quiet = ChessMove::Normal { role: Role::Pawn, from: 12, capture: None, to: 28, promotion: None };
    assert_eq!(move_flags(&quiet), "n");
    let capture = ChessMove::Normal { role: Role::Knight, from: 21, capture: Some(Role::Pawn), to: 36, promotion: None };
    assert_eq!(move_flags(&capture), "c");
    let promo = ChessMove::Normal { role: Role::Pawn, from: 48, capture: None, to: 56, promotion: Some(Role::Queen) };
    assert_eq!(move_flags(&promo), "p");
    let both = ChessMove::Normal { role: Role::Pawn, from: 48, capture: Some(Role::Rook), to: 57, promotion: Some(Role::Queen) };
    assert_eq!(move_flags(&both), "cp");
    let drop = ChessMove::Put { role: Role::Knight, to: 20 };
    assert_eq!(move_from(&drop), None);
    assert_eq!(move_to(&drop), 20);
    assert_eq!(move_flags(&drop), "n");
}

#[test]
fn mvv_lva_scores() {
    let pawn_takes_queen = ChessMove::Normal { role: Role::Pawn, from: 27, capture: Some(Role::Queen), to: 36, promotion: None };
    let pawn = Some(Piece { role: Role::Pawn, color: Color::White });
    assert_eq!(order_score(&pawn_takes_queen, pawn), 1000 + 900 - 10);
    let queen = Some(Piece { role: Role::Queen, color: Color::White });
    let queen_takes_pawn = ChessMove::Normal { role: Role::Queen, from: 3, capture: Some(Role::Pawn), to: 51, promotion: None };
    assert_eq!(order_score(&queen_takes_pawn, queen), 1000 + 100 - 90);
    let king = Some(Piece { role: Role::King, color: Color::White });
    assert_eq!(order_score(&queen_takes_pawn, king), 1000 + 100 - 2000);
    assert_eq!(order_score(&queen_takes_pawn, None), 1000 + 100 - 10);
    let promo = ChessMove::Normal { role: Role::Pawn, from: 48, capture: None, to: 56, promotion: Some(Role::Queen) };
    assert_eq!(order_score(&promo, pawn), 900);
    let ep = ChessMove::EnPassant { from: 36, to: 45 };
    assert_eq!(order_score(&ep, pawn), 1090);
    let quiet = ChessMove::Normal { role: Role::Knight, from: 6, capture: None, to: 21, promotion: None };
    assert_eq!(order_score(&quiet, None), 0);
}

#[test]
fn stable_descending_order() {
    assert_eq!(stable_order(&vec![5, 7, 5, 9]), vec![3, 1, 0, 2]);
    assert_eq!(stable_order(&vec![0, 0, 0]), vec![0, 1, 2]);
    assert_eq!(stable_order(&vec![-900, 0, 1890, 0, 1010]), vec![2, 4, 1, 3, 0]);
    assert_eq!(stable_order(&vec![]), Vec::<usize>::new());
}

#[test]
fn first_best_choice() {
    assert_eq!(choose_best(true, &vec![3, 5, 5, 1]), Some(1));
    assert_eq!(choose_best(false, &vec![3, 5, 1, 1]), Some(2));
    assert_eq!(choose_best(true, &vec![i32::MIN, i32::MIN]), Some(0));
    assert_eq!(choose_best(true, &vec![]), None);
}

#[test]
fn mate_distance_scores() {
    assert_eq!(CHECKMATE_VAL, 100_000);
    assert_eq!(mate_score(true, 3), -99_997);
    assert_eq!(mate_score(false, 3), 99_997);
    assert!(mate_score(false, 1) > mate_score(false, 3));
    assert!(mate_score(true, 1) < mate_score(true, 3));
}

#[test]
fn game_status_rules() {
    let mate = game_status(true, true, false);
    assert!(mate.over && mate.checkmate && !mate.stalemate);
    let stale = game_status(true, false, false);
    assert!(stale.over && !stale.checkmate && stale.stalemate);
    let bare = game_status(false, false, true);
    assert!(bare.over && !bare.checkmate && !bare.stalemate);
    let playing = game_status(false, true, false);
    assert!(!playing.over && !playing.checkmate && !playing.stalemate);
}

#[test]
fn transposition_table_probe_and_limit() {
    let mut table: HashMap<u64, (i32, u32)> = HashMap::new();
    table.insert(7, (35, 3));
    assert_eq!(table_probe(&table, 7, 2), Some(35));
    assert_eq!(table_probe(&table, 7, 3), Some(35));
    assert_eq!(table_probe(&table, 7, 4), None);
    assert_eq!(table_probe(&table, 8, 0), None);
    limit_table(&mut table);
    assert_eq!(table.len(), 1);
    for k in 0..=(MAX_TT_ENTRIES as u64) {
        table.insert(k + 100, (0, 0));
    }
    assert!(table.len() > MAX_TT_ENTRIES);
    limit_table(&mut table);
    assert!(table.is_empty());
}

#[test]
fn quiescence_move_selection() {
    let quiet = ChessMove::Normal { role: Role::Knight, from: 6, capture: None, to: 21, promotion: None };
    let capture = ChessMove::Normal { role: Role::Knight, from: 21, capture: Some(Role::Pawn), to: 36, promotion: None };
    let ep = ChessMove::EnPassant { from: 36, to: 45 };
    let promo = ChessMove::Normal { role: Role::Pawn, from: 48, capture: None, to: 56, promotion: Some(Role::Queen) };
    let moves = vec![quiet, capture, promo, ep];
    assert_eq!(tactical_moves(&moves, false), vec![1, 3]);
    assert_eq!(tactical_moves(&moves, true), vec![0, 1, 2, 3]);
}

#[test]
fn move_request_selection() {
    let pawn = |p: Role| ChessMove::Normal { role: Role::Pawn, from: 48, capture: None, to: 56, promotion: Some(p) };
    let moves = vec![
        ChessMove::Normal { role: Role::King, from: 0, capture: None, to: 1, promotion: None },
        pawn(Role::Queen),
        pawn(Role::Rook),
        pawn(Role::Bishop),
        pawn(Role::Knight),
    ];
    assert_eq!(select_move(&moves, 48, 56, None), Some(1));
    assert_eq!(select_move(&moves, 48, 56, Some(Role::Knight)), Some(4));
    assert_eq!(select_move(&moves, 48, 56, Some(Role::King)), None);
    assert_eq!(select_move(&moves, 0, 1, None), Some(0));
    assert_eq!(select_move(&moves, 0, 1, Some(Role::Knight)), Some(0));
    assert_eq!(select_move(&moves, 0, 2, None), None);
    let only_rook = vec![pawn(Role::Rook)];
    assert_eq!(select_move(&only_rook, 48, 56, None), None);
    assert_eq!(select_move(&only_rook, 48, 56, Some(Role::Rook)), Some(0));
    let castle = vec![ChessMove::Castle { king: 4, rook: 7 }];
    assert_eq!(select_move(&castle, 4, 6, None), None);
    assert_eq!(select_move(&castle, 6, 6, None), Some(0));
}

#[test]
fn promotion_request_reads_first_letter() {
    assert_eq!(promotion_request("q"), Some(Role::Queen));
    assert_eq!(promotion_request("Nq"), Some(Role::Knight));
    assert_eq!(promotion_request(""), None);
    assert_eq!(promotion_request("x"), None);
}

#[test]
fn small_texts() {
    assert_eq!(castling_json(true, true, true, true), "KQkq");
    assert_eq!(castling_json(false, true, true, false), "Qk");
    assert_eq!(castling_json(false, false, false, false), "");
    assert_eq!(optional_square_name(Some(44)), "e6");
    assert_eq!(optional_square_name(None), "");
    assert_eq!(turn_text(true), "w");
    assert_eq!(turn_text(false), "b");
    assert_eq!(json_array(&vec!["1".to_string(), "null".to_string()]), "[1,null]");
    assert_eq!(json_array(&vec![]), "[]");
    assert_eq!(json_string_array(&vec!["e4".to_string(), "Nf3".to_string()]), r#"["e4","Nf3"]"#);
}

#[test]
fn alpha_beta_window_updates() {
    let start = Window { best: i32::MIN, alpha: i32::MIN, beta: i32::MAX };
    let w = fold_child(true, start, 5);
    assert_eq!(w, Window { best: 5, alpha: 5, beta: i32::MAX });
    let w = fold_child(true, w, 3);
    assert_eq!(w, Window { best: 5, alpha: 5, beta: i32::MAX });
    let w = fold_child(true, Window { best: 1, alpha: 8, beta: 9 }, 4);
    assert_eq!(w, Window { best: 4, alpha: 8, beta: 9 });
    let start = Window { best: i32::MAX, alpha: -10, beta: 10 };
    let w = fold_child(false, start, 7);
    assert_eq!(w, Window { best: 7, alpha: -10, beta: 7 });
    let w = fold_child(false, w, -20);
    assert_eq!(w, Window { best: -20, alpha: -10, beta: -20 });
}

#[test]
fn stand_pat_decisions() {
    assert_eq!(stand_pat(true, 10, 0, 5), StandPat::Answer(5));
    assert_eq!(stand_pat(true, 5, 0, 5), StandPat::Answer(5));
    assert_eq!(stand_pat(true, 3, 0, 5), StandPat::Search(3, 5));
    assert_eq!(stand_pat(true, -3, 0, 5), StandPat::Search(0, 5));
    assert_eq!(stand_pat(false, -1, 0, 5), StandPat::Answer(0));
    assert_eq!(stand_pat(false, 2, 0, 5), StandPat::Search(0, 2));
    assert_eq!(stand_pat(false, 9, 0, 5), StandPat::Search(0, 5));
}

#[test]
fn draw_rules() {
    assert!(is_draw(true, false, 0));
    assert!(is_draw(false, true, 3));
    assert!(is_draw(false, false, 100));
    assert!(!is_draw(false, false, 99));
}

#[test]
fn trimming_matches_std() {
    assert_eq!(trim("  e2\t\n"), "e2");
    assert_eq!(trim("\u{3000}a b\u{a0}"), "a b");
    assert_eq!(trim("   "), "");
    assert_eq!(trim(""), "");
    assert_eq!(trim("x"), "x");
    for s in ["  e2\t\n", "\u{2028}Nf3\u{85}", " \u{200b}x ", "\u{1680}\u{180e}"] {
        assert_eq!(trim(s), s.trim());
    }
    assert!(is_space('\u{2009}'));
    assert!(!is_space('\u{200b}'));
    assert!(!is_space('a'));
}
