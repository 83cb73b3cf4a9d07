//! The engine a user interface talks to: one game position, the moves played
//! in it, and the transposition table its searches share.

use vstd::prelude::*;
use std::collections::HashMap;
use shakmaty::{Chess, Move};

use crate::eval::{eval_of, evaluate};
use crate::moves::{
    ChessMove, is_first_match, move_from, no_match, promotion_request, select_move,
    spec_move_from, spec_move_to, spec_promotion_request,
};
use crate::outside::{
    board_contents, board_of, castling_right_of, en_passant_square, ep_square_of,
    fen_into_position, fen_is_well_formed, fen_of_text, fen_text_of, halfmoves, halfmoves_of,
    has_castling_right, insufficient_of, is_check, is_insufficient_material, legal_move_list,
    legal_moves, move_record, parse_fen, parse_san, play, play_of, position_board, position_fen,
    san_is_well_formed, san_move_of, san_of_text, san_plus_of, san_plus_text, san_to_move,
    setup_of, side_to_move, starting_fen, starting_position, turn_of,
};
use crate::report::{
    board_json, board_text, castling_json, castling_text, move_entry_json, move_entry_text,
    opt_square_text, optional_square_name, played_json, played_text, turn_text,
};
use crate::search::{
    MAX_TT_ENTRIES, best_move_san, game_status, is_draw, is_first_best, keeps_keys, legal_infos,
    limit_table, limited_table, move_of, move_records, root_scores, searched_move, status_of,
    white_to_move,
};
use crate::squares::{parse_square, spec_parse_square, square_text};
use crate::text::{bracketed, json_array, json_string_array, string_list_text, texts, trim, trimmed};

verus! {

broadcast use vstd::std_specs::hash::group_hash_axioms;

/// The depth `make_best_move` searches to.
pub const DEFAULT_SEARCH_DEPTH: u32 = 4;

/// A game in progress with its move history and search cache.
pub struct ChessEngine {
    position: Chess,
    san_history: Vec<String>,
    tt: HashMap<u64, (i32, u32)>,
}

/// What an engine holds: the current position, the notation of each move
/// played since the position was set up, and the transposition table
/// (position key to score and depth searched).
pub ghost struct EngineState {
    pub position: Chess,
    pub history: Seq<Seq<char>>,
    pub table: Map<u64, (i32, u32)>,
}

impl View for ChessEngine {
    type V = EngineState;

    closed spec fn view(&self) -> EngineState {
        EngineState { position: self.position, history: texts(self.san_history@), table: self.tt@ }
    }
}

/// The entries of `legal_moves_for`: each of the first `n` legal moves of
/// `pos` (in generation order) that is shown starting on `sq`, with its
/// notation.
pub open spec fn listing_entries(pos: Chess, sq: u8, n: nat) -> Seq<Seq<char>>
    decreases n,
{
    if n == 0 {
        Seq::empty()
    } else {
        let prev = listing_entries(pos, sq, (n - 1) as nat);
        let m = legal_move_list(pos)[n - 1];
        if spec_move_from(move_of(m)) == Some(sq) {
            prev.push(move_entry_text(move_of(m), san_plus_of(pos, m)))
        } else {
            prev
        }
    }
}

/// The index of the legal move that a request names (see
/// `crate::moves::matches_request`): the first that matches, when both
/// square names read.
pub open spec fn requested_move(pos: Chess, from_text: Seq<char>, to_text: Seq<char>, promo_text: Seq<char>) -> Option<int> {
    let moves = legal_infos(pos);
    let promo = spec_promotion_request(promo_text);
    match (spec_parse_square(trimmed(from_text)), spec_parse_square(trimmed(to_text))) {
        (Some(f), Some(t)) => if exists|i: int| is_first_match(moves, i, f, t, promo) {
            Some(choose|i: int| is_first_match(moves, i, f, t, promo))
        } else {
            None
        },
        _ => None,
    }
}

/// The castling rights of a position in FEN style (see `castling_text`).
pub open spec fn castling_report(pos: Chess) -> Seq<char> {
    castling_text(
        castling_right_of(pos, true, true),
        castling_right_of(pos, true, false),
        castling_right_of(pos, false, true),
        castling_right_of(pos, false, false),
    )
}

/// The castling report names each right the position still holds by its own
/// letter and no other: 'K' and 'Q' for White's king-side and queen-side
/// rights, 'k' and 'q' for Black's, whatever the other rights are.
pub proof fn lemma_castling_report(pos: Chess)
    ensures
        castling_report(pos).contains('K') == castling_right_of(pos, true, true),
        castling_report(pos).contains('Q') == castling_right_of(pos, true, false),
        castling_report(pos).contains('k') == castling_right_of(pos, false, true),
        castling_report(pos).contains('q') == castling_right_of(pos, false, false),
        forall|x: char| #[trigger] castling_report(pos).contains(x) ==> x == 'K' || x == 'Q' || x == 'k' || x == 'q',
{
    crate::report::lemma_castling_letters(
        castling_right_of(pos, true, true),
        castling_right_of(pos, true, false),
        castling_right_of(pos, false, true),
        castling_right_of(pos, false, false),
    );
}

/// How many of the first `n` legal moves of `pos` are shown starting on `sq`.
pub open spec fn moves_shown_from(pos: Chess, sq: u8, n: nat) -> nat
    decreases n,
{
    if n == 0 {
        0
    } else if spec_move_from(move_of(legal_move_list(pos)[n - 1])) == Some(sq) {
        moves_shown_from(pos, sq, (n - 1) as nat) + 1
    } else {
        moves_shown_from(pos, sq, (n - 1) as nat)
    }
}

/// The listing of a square holds exactly the legal moves shown starting
/// there, one entry each: every such move is listed with its notation, every
/// entry is that of such a move, and there are as many entries as such
/// moves.
pub proof fn lemma_listing_complete(pos: Chess, sq: u8, n: nat)
    requires
        n <= legal_move_list(pos).len(),
    ensures
        listing_entries(pos, sq, n).len() == moves_shown_from(pos, sq, n),
        forall|k: int|
            0 <= k < n && spec_move_from(move_of(#[trigger] legal_move_list(pos)[k])) == Some(sq)
                ==> listing_entries(pos, sq, n).contains(
                move_entry_text(move_of(legal_move_list(pos)[k]), san_plus_of(pos, legal_move_list(pos)[k])),
            ),
        forall|e: Seq<char>|
            #[trigger] listing_entries(pos, sq, n).contains(e) ==> exists|k: int|
                0 <= k < n && spec_move_from(move_of(#[trigger] legal_move_list(pos)[k])) == Some(sq) && e
                    == move_entry_text(move_of(legal_move_list(pos)[k]), san_plus_of(pos, legal_move_list(pos)[k])),
    decreases n,
{
    if n > 0 {
        lemma_listing_complete(pos, sq, (n - 1) as nat);
        let prev = listing_entries(pos, sq, (n - 1) as nat);
        let cur = listing_entries(pos, sq, n);
        let last = legal_move_list(pos)[n - 1];
        let entry = move_entry_text(move_of(last), san_plus_of(pos, last));
        if spec_move_from(move_of(last)) == Some(sq) {
            assert(cur == prev.push(entry));
            assert(cur[prev.len() as int] == entry);
            assert forall|k: int|
                0 <= k < n && spec_move_from(move_of(#[trigger] legal_move_list(pos)[k])) == Some(sq)
                    implies cur.contains(
                    move_entry_text(move_of(legal_move_list(pos)[k]), san_plus_of(pos, legal_move_list(pos)[k])),
                ) by {
                if k < n - 1 {
                    let e = move_entry_text(move_of(legal_move_list(pos)[k]), san_plus_of(pos, legal_move_list(pos)[k]));
                    assert(prev.contains(e));
                    let j = choose|j: int| 0 <= j < prev.len() && prev[j] == e;
                    assert(cur[j] == e);
                }
            }
            assert forall|e: Seq<char>| #[trigger] cur.contains(e) implies exists|k: int|
                0 <= k < n && spec_move_from(move_of(#[trigger] legal_move_list(pos)[k])) == Some(sq) && e
                    == move_entry_text(move_of(legal_move_list(pos)[k]), san_plus_of(pos, legal_move_list(pos)[k])) by {
                let j = choose|j: int| 0 <= j < cur.len() && cur[j] == e;
                if j < prev.len() {
                    assert(prev[j] == e);
                    assert(prev.contains(e));
                } else {
                    assert(legal_move_list(pos)[n - 1] == last);
                }
            }
        } else {
            assert(cur == prev);
        }
    }
}

/// The move `make_move` plays for a request starts on the requested square
/// and lands on the requested square; and when some legal move starts and
/// lands there without promoting, a move is always found.
pub proof fn lemma_requested_move_squares(pos: Chess, from_text: Seq<char>, to_text: Seq<char>, promo_text: Seq<char>)
    ensures
        requested_move(pos, from_text, to_text, promo_text) matches Some(i) ==> {
            &&& 0 <= i < legal_move_list(pos).len()
            &&& spec_parse_square(trimmed(from_text)) matches Some(f) && spec_move_from(legal_infos(pos)[i])
                == Some(f)
            &&& spec_parse_square(trimmed(to_text)) matches Some(t) && spec_move_to(legal_infos(pos)[i]) == t as int
        },
        forall|k: int|
            0 <= k < legal_move_list(pos).len() && spec_parse_square(trimmed(from_text)) is Some
                && spec_parse_square(trimmed(to_text)) is Some && spec_move_from(#[trigger] legal_infos(pos)[k])
                == spec_parse_square(trimmed(from_text)) && spec_move_to(legal_infos(pos)[k]) == spec_parse_square(
                trimmed(to_text),
            )->0 as int && legal_infos(pos)[k].spec_promotion() is None ==> requested_move(
                pos,
                from_text,
                to_text,
                promo_text,
            ) is Some,
{
    let moves = legal_infos(pos);
    let promo = spec_promotion_request(promo_text);
    match (spec_parse_square(trimmed(from_text)), spec_parse_square(trimmed(to_text))) {
        (Some(f), Some(t)) => {
            if exists|i: int| is_first_match(moves, i, f, t, promo) {
                let i = choose|i: int| is_first_match(moves, i, f, t, promo);
                crate::moves::lemma_first_match_squares(moves, i, f, t, promo);
            } else {
                assert forall|k: int|
                    0 <= k < moves.len() && spec_move_from(#[trigger] moves[k]) == Some(f) && spec_move_to(moves[k])
                        == t as int && moves[k].spec_promotion() is None implies false by {
                    lemma_first_match_exists(moves, k, f, t, promo);
                }
            }
        },
        _ => {},
    }
}

proof fn lemma_first_match_exists(moves: Seq<ChessMove>, k: int, f: u8, t: u8, p: Option<crate::pieces::Role>)
    requires
        0 <= k < moves.len(),
        crate::moves::matches_request(moves[k], f, t, p),
    ensures
        exists|i: int| is_first_match(moves, i, f, t, p),
    decreases k,
{
    if exists|j: int| 0 <= j < k && crate::moves::matches_request(#[trigger] moves[j], f, t, p) {
        let j = choose|j: int| 0 <= j < k && crate::moves::matches_request(#[trigger] moves[j], f, t, p);
        lemma_first_match_exists(moves, j, f, t, p);
    } else {
        assert(is_first_match(moves, k, f, t, p));
    }
}

/// The legal move a notation names in a position, when it reads and names
/// exactly one.
pub open spec fn named_move(pos: Chess, text: Seq<char>) -> Option<Move> {
    let t = trimmed(text);
    if san_is_well_formed(t) {
        san_move_of(san_of_text(t), pos)
    } else {
        None
    }
}

/// The state after playing legal move `m` with notation `san`.
pub open spec fn after_move(before: EngineState, m: Move) -> EngineState {
    EngineState {
        position: play_of(before.position, m)->0,
        history: before.history.push(san_plus_of(before.position, m)),
        table: before.table,
    }
}

proof fn lemma_first_match_unique(moves: Seq<ChessMove>, i: int, j: int, f: u8, t: u8, p: Option<crate::pieces::Role>)
    requires
        is_first_match(moves, i, f, t, p),
        is_first_match(moves, j, f, t, p),
    ensures
        i == j,
{
    if i < j {
        assert(!crate::moves::matches_request(moves[i], f, t, p));
    } else if j < i {
        assert(!crate::moves::matches_request(moves[j], f, t, p));
    }
}

impl ChessEngine {
    /// A new game from the standard starting position.
    pub fn new() -> (e: ChessEngine)
        ensures
            fen_text_of(e@.position) == starting_fen(),
            e@.history.len() == 0,
            e@.table == Map::<u64, (i32, u32)>::empty(),
    {
        ChessEngine { position: starting_position(), san_history: Vec::new(), tt: HashMap::new() }
    }

    /// Starts over from the standard starting position, forgetting the move
    /// history and the search cache: afterwards the engine is in the state a
    /// new one starts in, whatever it held before.
    pub fn reset(&mut self)
        ensures
            fen_text_of(final(self)@.position) == starting_fen(),
            final(self)@.history.len() == 0,
            final(self)@.table == Map::<u64, (i32, u32)>::empty(),
    {
        self.position = starting_position();
        self.san_history.clear();
        self.tt.clear();
    }

    /// Sets up the position a FEN record describes (surrounding whitespace is
    /// ignored). It succeeds exactly when the text reads as FEN and sets up a
    /// legal position; then that is the position, and the move history and the
    /// search cache are forgotten. On failure nothing changes.
    pub fn load_fen(&mut self, fen: &str) -> (ok: bool)
        ensures
            ok == (fen_is_well_formed(trimmed(fen@)) && setup_of(fen_of_text(trimmed(fen@))) is Some),
            ok ==> final(self)@ == (EngineState {
                position: setup_of(fen_of_text(trimmed(fen@)))->0,
                history: Seq::empty(),
                table: Map::empty(),
            }),
            !ok ==> *final(self) == *old(self),
    {
        let text = trim(fen);
        match parse_fen(text) {
            Ok(record) => match fen_into_position(record) {
                Ok(pos) => {
                    self.position = pos;
                    self.san_history.clear();
                    self.tt.clear();
                    assert(texts(self.san_history@) =~= Seq::empty());
                    true
                },
                Err(_) => false,
            },
            Err(_) => false,
        }
    }

    /// The current position as a FEN record.
    pub fn get_fen(&self) -> (res: String)
        ensures
            res@ == fen_text_of(self@.position),
    {
        position_fen(&self.position)
    }

    /// The side to move: "w" or "b".
    pub fn get_turn(&self) -> (res: String)
        ensures
            res@ == seq![if turn_of(self@.position) == 1 { 'w' } else { 'b' }],
    {
        turn_text(side_to_move(&self.position) == 1)
    }

    /// Whether the game is over: no legal move, or no mating material left.
    pub fn game_over(&self) -> (res: bool)
        ensures
            res == status_of(self@.position).over,
    {
        let no_moves = legal_moves(&self.position).len() == 0;
        let insufficient = if no_moves {
            false
        } else {
            is_insufficient_material(&self.position)
        };
        game_status(no_moves, false, insufficient).over
    }

    /// Whether the side to move is in check.
    pub fn in_check(&self) -> (res: bool)
        ensures
            res == crate::outside::check_of(self@.position),
    {
        is_check(&self.position)
    }

    /// Whether the side to move is checkmated.
    pub fn in_checkmate(&self) -> (res: bool)
        ensures
            res == status_of(self@.position).checkmate,
    {
        let check = is_check(&self.position);
        let no_moves = legal_moves(&self.position).len() == 0;
        game_status(no_moves, check, false).checkmate
    }

    /// Whether the side to move is stalemated.
    pub fn in_stalemate(&self) -> (res: bool)
        ensures
            res == status_of(self@.position).stalemate,
    {
        let check = is_check(&self.position);
        let no_moves = legal_moves(&self.position).len() == 0;
        game_status(no_moves, check, false).stalemate
    }

    /// Whether the game is drawn: insufficient material, stalemate, or at
    /// least 100 half-moves without a capture or pawn move.
    pub fn in_draw(&self) -> (res: bool)
        ensures
            res == (insufficient_of(self@.position) || status_of(self@.position).stalemate
                || halfmoves_of(self@.position) >= 100),
    {
        let insufficient = is_insufficient_material(&self.position);
        let stalemate = if insufficient {
            false
        } else {
            self.in_stalemate()
        };
        let clock = if insufficient || stalemate {
            0
        } else {
            halfmoves(&self.position)
        };
        is_draw(insufficient, stalemate, clock)
    }

    /// How many moves have been played since the position was set up
    /// (wrapping at 2^32).
    pub fn move_count(&self) -> (n: u32)
        ensures
            n == self@.history.len() as u32,
    {
        self.san_history.len() as u32
    }

    /// The static evaluation of the current position (positive favours White).
    pub fn get_evaluation(&self) -> (v: i32)
        ensures
            v == eval_of(self@.position),
    {
        evaluate(&self.position)
    }

    /// The board as JSON (see `board_json`).
    pub fn get_board(&self) -> (res: String)
        ensures
            res@ == board_text(board_contents(board_of(self@.position))),
    {
        let board = position_board(&self.position);
        board_json(&board)
    }

    /// The legal moves shown starting on the named square, in generation
    /// order, as a JSON array of `{"from":..,"to":..,"flags":..,"san":..}`;
    /// `[]` when the square name does not read.
    pub fn legal_moves_for(&self, square: &str) -> (res: String)
        ensures
            spec_parse_square(trimmed(square@)) is None ==> res@ == seq!['[', ']'],
            spec_parse_square(trimmed(square@)) matches Some(sq) ==> res@ == bracketed(
                listing_entries(self@.position, sq, legal_move_list(self@.position).len()),
            ),
    {
        let sq = match parse_square(trim(square)) {
            Some(s) => s,
            None => {
                proof {
                    reveal_strlit("[]");
                }
                return String::from_str("[]");
            },
        };
        let moves = legal_moves(&self.position);
        let mut out: Vec<String> = Vec::new();
        let mut i: usize = 0;
        while i < moves.len()
            invariant
                i <= moves.len(),
                moves@ == legal_move_list(self@.position),
                texts(out@) == listing_entries(self@.position, sq, i as nat),
            decreases moves.len() - i,
        {
            let m = ChessMove::from_raw(move_record(&moves[i]));
            if move_from(&m) == Some(sq) {
                let san = san_plus_text(&self.position, &moves[i]);
                let entry = move_entry_json(&m, &san);
                let ghost before = out@;
                out.push(entry);
                assert(texts(out@) =~= texts(before).push(entry@));
            }
            i = i + 1;
        }
        json_array(&out)
    }

    /// Every legal move in standard algebraic notation, in generation order,
    /// as a JSON array of strings.
    pub fn legal_moves_san(&self) -> (res: String)
        ensures
            res@ == string_list_text(
                legal_move_list(self@.position).map_values(|m: Move| san_plus_of(self@.position, m)),
            ),
    {
        let moves = legal_moves(&self.position);
        let mut sans: Vec<String> = Vec::new();
        let mut i: usize = 0;
        while i < moves.len()
            invariant
                i <= moves.len(),
                moves@ == legal_move_list(self@.position),
                sans.len() == i,
                forall|k: int| 0 <= k < i ==> #[trigger] sans@[k]@ == san_plus_of(self@.position, moves@[k]),
            decreases moves.len() - i,
        {
            let ghost before = sans@;
            sans.push(san_plus_text(&self.position, &moves[i]));
            assert(forall|k: int| 0 <= k < i ==> sans@[k] == before[k]);
            i = i + 1;
        }
        assert(texts(sans@) =~= legal_move_list(self@.position).map_values(
            |m: Move| san_plus_of(self@.position, m),
        ));
        json_string_array(&sans)
    }

    /// Plays the legal move a user asks for by the squares it is shown to
    /// start from and land on (a castling king is shown on its destination
    /// both times) and, for a promotion, the named piece (a queen when none is
    /// named; a piece named for a move that does not promote is ignored). The
    /// first legal move that matches is played and recorded, and the answer is
    /// `{"from":..,"to":..,"san":..}`. When a square name does not read or no
    /// legal move matches, the answer is "" and nothing changes.
    pub fn make_move(&mut self, from_sq: &str, to_sq: &str, promotion: &str) -> (res: String)
        ensures
            match requested_move(old(self)@.position, from_sq@, to_sq@, promotion@) {
                None => res@.len() == 0 && *final(self) == *old(self),
                Some(i) => {
                    let m = legal_move_list(old(self)@.position)[i];
                    &&& final(self)@ == after_move(old(self)@, m)
                    &&& res@ == played_text(
                        square_text(spec_parse_square(trimmed(from_sq@))->0 as int),
                        square_text(spec_parse_square(trimmed(to_sq@))->0 as int),
                        san_plus_of(old(self)@.position, m),
                    )
                },
            },
    {
        let ghost before = self@;
        let from = match parse_square(trim(from_sq)) {
            Some(s) => s,
            None => return String::new(),
        };
        let to = match parse_square(trim(to_sq)) {
            Some(s) => s,
            None => return String::new(),
        };
        let promo = promotion_request(promotion);
        let moves = legal_moves(&self.position);
        let infos = move_records(&moves);
        let ghost all = legal_infos(before.position);
        assert(infos@ == all);
        match select_move(&infos, from, to, promo) {
            Some(i) => {
                proof {
                    let c = choose|j: int| is_first_match(all, j, from, to, promo);
                    lemma_first_match_unique(all, i as int, c, from, to, promo);
                    assert(legal_move_list(before.position).contains(moves@[i as int]));
                }
                let m = &infos[i];
                let san = san_plus_text(&self.position, &moves[i]);
                match play(&self.position, &moves[i]) {
                    Ok(next) => {
                        let res = played_json(m, &san);
                        self.position = next;
                        let ghost hist = self.san_history@;
                        self.san_history.push(san);
                        proof {
                            assert(texts(self.san_history@) =~= texts(hist).push(
                                san_plus_of(before.position, moves@[i as int]),
                            ));
                        }
                        res
                    },
                    Err(_) => String::new(),
                }
            },
            None => String::new(),
        }
    }

    /// Plays the move written in standard algebraic notation (surrounding
    /// whitespace is ignored), answering `{"from":..,"to":..,"san":..}` and
    /// recording the move. When the notation does not read or names no single
    /// legal move, the answer is "" and nothing changes.
    pub fn make_san_move(&mut self, san_str: &str) -> (res: String)
        ensures
            match named_move(old(self)@.position, san_str@) {
                None => res@.len() == 0 && *final(self) == *old(self),
                Some(m) => {
                    &&& legal_move_list(old(self)@.position).contains(m)
                    &&& san_plus_of(old(self)@.position, m).len() > 0
                    &&& final(self)@ == after_move(old(self)@, m)
                    &&& res@ == played_text(
                        opt_square_text(spec_move_from(move_of(m))),
                        square_text(spec_move_to(move_of(m))),
                        san_plus_of(old(self)@.position, m),
                    )
                },
            },
    {
        let ghost before = self@;
        let san = match parse_san(trim(san_str)) {
            Ok(s) => s,
            Err(_) => return String::new(),
        };
        match san_to_move(&san, &self.position) {
            Ok(mv) => {
                let m = ChessMove::from_raw(move_record(&mv));
                let san_actual = san_plus_text(&self.position, &mv);
                match play(&self.position, &mv) {
                    Ok(next) => {
                        let res = played_json(&m, &san_actual);
                        self.position = next;
                        let ghost hist = self.san_history@;
                        self.san_history.push(san_actual);
                        proof {
                            assert(texts(self.san_history@) =~= texts(hist).push(san_plus_of(before.position, mv)));
                        }
                        res
                    },
                    Err(_) => String::new(),
                }
            },
            Err(_) => String::new(),
        }
    }

    /// The depth `make_best_move` searches to.
    pub fn search_depth(&self) -> (d: u32)
        ensures
            d == DEFAULT_SEARCH_DEPTH,
    {
        DEFAULT_SEARCH_DEPTH
    }

    /// The best move found by a `depth`-ply search, in standard algebraic
    /// notation: "" when the game is over, otherwise the notation of the legal
    /// move with the first best `minimax` score in search order (`root_scores`,
    /// `is_first_best`). The position and the move history stay as they are; the
    /// search cache is emptied first when it has grown past `MAX_TT_ENTRIES`,
    /// and otherwise only gains entries.
    pub fn best_move(&mut self, depth: u32) -> (res: String)
        requires
            1 <= depth || status_of(old(self)@.position).over,
            depth <= i32::MAX,
        ensures
            final(self)@.position == old(self)@.position,
            final(self)@.history == old(self)@.history,
            status_of(old(self)@.position).over ==> res@.len() == 0 && *final(self) == *old(self),
            !status_of(old(self)@.position).over ==> res@.len() > 0 && exists|i: int|
                0 <= i < legal_move_list(old(self)@.position).len() && res@ == #[trigger] san_plus_of(
                    old(self)@.position,
                    legal_move_list(old(self)@.position)[i],
                ),
            !status_of(old(self)@.position).over ==> exists|vals: Seq<i32>, tables: Seq<Map<u64, (i32, u32)>>, i: int|
                #![trigger root_scores(old(self)@.position, depth, limited_table(old(self)@.table), final(self)@.table, vals, tables), is_first_best(white_to_move(old(self)@.position), vals, i)]
                root_scores(old(self)@.position, depth, limited_table(old(self)@.table), final(self)@.table, vals, tables)
                    && is_first_best(white_to_move(old(self)@.position), vals, i)
                    && res@ == san_plus_of(old(self)@.position, searched_move(old(self)@.position, i)),
            old(self)@.table.len() <= MAX_TT_ENTRIES ==> keeps_keys(old(self)@.table, final(self)@.table),
    {
        if self.game_over() {
            return String::new();
        }
        limit_table(&mut self.tt);
        assert(self.tt@ == limited_table(old(self)@.table));
        let ghost pos = self.position;
        let res = best_move_san(&self.position, depth, &mut self.tt);
        proof {
            if legal_move_list(pos).len() > 0 {
                let (vals, tables, i) = choose|vals: Seq<i32>, tables: Seq<Map<u64, (i32, u32)>>, i: int|
                    root_scores(pos, depth, limited_table(old(self)@.table), self.tt@, vals, tables)
                        && is_first_best(white_to_move(pos), vals, i)
                        && res@ == san_plus_of(pos, searched_move(pos, i));
                assert(self@.table == self.tt@);
                assert(old(self)@.position == pos);
                assert(root_scores(old(self)@.position, depth, limited_table(old(self)@.table), self@.table, vals, tables));
                assert(is_first_best(white_to_move(old(self)@.position), vals, i));
                assert(res@ == san_plus_of(old(self)@.position, searched_move(old(self)@.position, i)));
            }
        }
        res
    }

    /// Searches `DEFAULT_SEARCH_DEPTH` plies and plays the best move found,
    /// answering its notation as recorded; "" when the game is over, with
    /// nothing changed. The best move's notation (see `best_move`) is played
    /// as `make_san_move` plays it: when it names a legal move, the position is
    /// the one after that move and the history has grown by exactly the
    /// answer; otherwise "" with the position and history unchanged.
    pub fn make_best_move(&mut self) -> (res: String)
        ensures
            status_of(old(self)@.position).over ==> res@.len() == 0 && *final(self) == *old(self),
            res@.len() == 0 ==> final(self)@.position == old(self)@.position && final(self)@.history
                == old(self)@.history,
            res@.len() > 0 ==> exists|m: Move|
                #[trigger] legal_move_list(old(self)@.position).contains(m) && final(self)@.position
                    == play_of(old(self)@.position, m)->0 && res@ == san_plus_of(old(self)@.position, m)
                    && final(self)@.history == old(self)@.history.push(res@),
            !status_of(old(self)@.position).over ==> exists|vals: Seq<i32>, tables: Seq<Map<u64, (i32, u32)>>, i: int|
                #![trigger root_scores(old(self)@.position, DEFAULT_SEARCH_DEPTH, limited_table(old(self)@.table), final(self)@.table, vals, tables), is_first_best(white_to_move(old(self)@.position), vals, i)]
                root_scores(old(self)@.position, DEFAULT_SEARCH_DEPTH, limited_table(old(self)@.table), final(self)@.table, vals, tables)
                    && is_first_best(white_to_move(old(self)@.position), vals, i)
                    && match named_move(old(self)@.position, san_plus_of(old(self)@.position, searched_move(old(self)@.position, i))) {
                        None => res@.len() == 0 && final(self)@.position == old(self)@.position
                            && final(self)@.history == old(self)@.history,
                        Some(m) => final(self)@.position == play_of(old(self)@.position, m)->0
                            && res@ == san_plus_of(old(self)@.position, m)
                            && final(self)@.history == old(self)@.history.push(res@),
                    },
    {
        let ghost start = self@;
        let san = self.best_move(DEFAULT_SEARCH_DEPTH);
        if san.as_str().unicode_len() == 0 {
            return String::new();
        }
        let ghost mid = self@;
        let ghost (vals, tables, i) = choose|vals: Seq<i32>, tables: Seq<Map<u64, (i32, u32)>>, i: int|
            root_scores(start.position, DEFAULT_SEARCH_DEPTH, limited_table(start.table), mid.table, vals, tables)
                && is_first_best(white_to_move(start.position), vals, i)
                && san@ == san_plus_of(start.position, searched_move(start.position, i));
        let count = self.san_history.len();
        self.make_san_move(san.as_str());
        proof {
            assert(self@.history.len() == self.san_history@.len());
            assert(mid.history.len() == count);
        }
        if self.san_history.len() == count {
            proof {
                if !status_of(start.position).over {
                    assert(root_scores(start.position, DEFAULT_SEARCH_DEPTH, limited_table(start.table), self@.table, vals, tables));
                    assert(is_first_best(white_to_move(start.position), vals, i));
                }
            }
            return String::new();
        }
        proof {
            let m = named_move(mid.position, san@)->0;
            assert(self@ == after_move(mid, m));
        }
        let n = self.san_history.len();
        let res = self.san_history[n - 1].clone();
        assert(res@ == texts(self.san_history@).last());
        proof {
            if !status_of(start.position).over {
                assert(root_scores(start.position, DEFAULT_SEARCH_DEPTH, limited_table(start.table), self@.table, vals, tables));
                assert(is_first_best(white_to_move(start.position), vals, i));
            }
        }
        res
    }

    /// The notation of every move played, as a JSON array of strings.
    pub fn get_san_history(&self) -> (res: String)
        ensures
            res@ == string_list_text(self@.history),
    {
        json_string_array(&self.san_history)
    }

    /// The castling rights still held, FEN style: "K", "Q", "k", "q" for each
    /// right held, in that order.
    pub fn castling_rights(&self) -> (res: String)
        ensures
            res@ == castling_report(self@.position),
    {
        let wk = has_castling_right(&self.position, true, true);
        let wq = has_castling_right(&self.position, true, false);
        let bk = has_castling_right(&self.position, false, true);
        let bq = has_castling_right(&self.position, false, false);
        castling_json(wk, wq, bk, bq)
    }

    /// The en passant target square, or "" when there is none.
    pub fn en_passant_target(&self) -> (res: String)
        ensures
            res@ == opt_square_text(ep_square_of(self@.position)),
    {
        optional_square_name(en_passant_square(&self.position))
    }
}

} // verus!
