//! The texts the engine answers with: the board, move lists, played moves,
//! castling rights and the side to move.

use vstd::prelude::*;
use shakmaty::Board;

use crate::moves::{ChessMove, move_flags, move_from, move_to, spec_move_flags, spec_move_from, spec_move_to};
use crate::outside::{board_contents, board_piece_at};
use crate::pieces::{Color, Piece, role_str, spec_piece_from_codes, spec_role_char};
use crate::squares::{push_square_name, spec_file, spec_rank, square_at, square_text};
use crate::text::{bracketed, json_array, texts};

verus! {

/// The letter of a colour: "w" or "b".
pub open spec fn color_char(c: Color) -> char {
    if c == Color::White {
        'w'
    } else {
        'b'
    }
}

/// A piece as a JSON object, such as `{"type":"p","color":"w"}`.
pub open spec fn piece_text(p: Piece) -> Seq<char> {
    "{\"type\":\""@ + seq![spec_role_char(p.role)] + "\",\"color\":\""@ + seq![color_char(p.color)]
        + "\"}"@
}

/// A square of the board as JSON: its piece, or `null`.
pub open spec fn cell_text(contents: Map<u8, (u8, u8)>, sq: int) -> Seq<char> {
    if contents.contains_key(sq as u8) {
        match spec_piece_from_codes(contents[sq as u8]) {
            Some(p) => piece_text(p),
            None => "null"@,
        }
    } else {
        "null"@
    }
}

/// One rank of the board as a JSON array, files a to h.
pub open spec fn rank_text(contents: Map<u8, (u8, u8)>, rank: int) -> Seq<char> {
    bracketed(Seq::new(8, |f: int| cell_text(contents, rank * 8 + f)))
}

/// The board as a JSON array of ranks, rank 8 first.
pub open spec fn board_text(contents: Map<u8, (u8, u8)>) -> Seq<char> {
    bracketed(Seq::new(8, |i: int| rank_text(contents, 7 - i)))
}

fn push_color(out: &mut String, c: Color)
    ensures
        final(out)@ == old(out)@ + seq![color_char(c)],
{
    match c {
        Color::White => {
            proof { reveal_strlit("w"); }
            out.append("w");
        },
        Color::Black => {
            proof { reveal_strlit("b"); }
            out.append("b");
        },
    }
}

fn cell_json(board: &Board, sq: u8) -> (res: String)
    requires
        sq < 64,
    ensures
        res@ == cell_text(board_contents(*board), sq as int),
{
    let piece = match board_piece_at(board, sq) {
        Some(codes) => Piece::from_codes(codes),
        None => None,
    };
    let mut out = String::new();
    match piece {
        Some(p) => {
            out.append("{\"type\":\"");
            out.append(role_str(p.role));
            out.append("\",\"color\":\"");
            push_color(&mut out, p.color);
            out.append("\"}");
        },
        None => {
            out.append("null");
        },
    }
    out
}

/// The board as a JSON array of ranks (rank 8 first), each an array of
/// squares (file a first) holding `{"type":..,"color":..}` or `null`.
pub fn board_json(board: &Board) -> (res: String)
    ensures
        res@ == board_text(board_contents(*board)),
{
    let ghost contents = board_contents(*board);
    let mut rows: Vec<String> = Vec::new();
    let mut i: u8 = 0;
    while i < 8
        invariant
            contents == board_contents(*board),
            i <= 8,
            rows.len() == i,
            forall|k: int| 0 <= k < i ==> #[trigger] rows@[k]@ == rank_text(contents, 7 - k),
        decreases 8 - i,
    {
        let rank = 7 - i;
        let mut cells: Vec<String> = Vec::new();
        let mut f: u8 = 0;
        while f < 8
            invariant
                contents == board_contents(*board),
                rank < 8,
                f <= 8,
                cells.len() == f,
                forall|k: int| 0 <= k < f ==> #[trigger] cells@[k]@ == cell_text(contents, rank * 8 + k),
            decreases 8 - f,
        {
            let sq = square_at(f, rank);
            let ghost before = cells@;
            cells.push(cell_json(board, sq));
            assert(forall|k: int| 0 <= k < f ==> cells@[k] == before[k]);
            f = f + 1;
        }
        let row = json_array(&cells);
        assert(texts(cells@) =~= Seq::new(8, |f: int| cell_text(contents, rank * 8 + f)));
        let ghost before = rows@;
        rows.push(row);
        assert(forall|k: int| 0 <= k < i ==> rows@[k] == before[k]);
        i = i + 1;
    }
    assert(texts(rows@) =~= Seq::new(8, |i: int| rank_text(contents, 7 - i)));
    json_array(&rows)
}

/// The name of an optional square; empty for none.
pub open spec fn opt_square_text(sq: Option<u8>) -> Seq<char> {
    match sq {
        Some(s) => square_text(s as int),
        None => Seq::empty(),
    }
}

/// A legal move as a JSON object with its origin and landing squares as the
/// user interface shows them, its flag and its notation:
/// `{"from":..,"to":..,"flags":..,"san":..}`.
pub open spec fn move_entry_text(m: ChessMove, san: Seq<char>) -> Seq<char> {
    "{\"from\":\""@ + opt_square_text(spec_move_from(m)) + "\",\"to\":\""@ + square_text(spec_move_to(m))
        + "\",\"flags\":\""@ + spec_move_flags(m) + "\",\"san\":\""@ + san + "\"}"@
}

/// A legal move as a JSON object (see `move_entry_text`).
pub fn move_entry_json(m: &ChessMove, san: &String) -> (res: String)
    requires
        m.well_formed(),
    ensures
        res@ == move_entry_text(*m, san@),
{
    let mut out = String::new();
    out.append("{\"from\":\"");
    match move_from(m) {
        Some(from) => push_square_name(&mut out, from),
        None => {},
    }
    out.append("\",\"to\":\"");
    push_square_name(&mut out, move_to(m));
    out.append("\",\"flags\":\"");
    out.append(move_flags(m));
    out.append("\",\"san\":\"");
    out.append(san.as_str());
    out.append("\"}");
    out
}

/// A played move as a JSON object: `{"from":..,"to":..,"san":..}`.
pub open spec fn played_text(from: Seq<char>, to: Seq<char>, san: Seq<char>) -> Seq<char> {
    "{\"from\":\""@ + from + "\",\"to\":\""@ + to + "\",\"san\":\""@ + san + "\"}"@
}

/// A played move as a JSON object, from the move and its notation.
pub fn played_json(m: &ChessMove, san: &String) -> (res: String)
    requires
        m.well_formed(),
    ensures
        res@ == played_text(opt_square_text(spec_move_from(*m)), square_text(spec_move_to(*m)), san@),
{
    let mut out = String::new();
    out.append("{\"from\":\"");
    match move_from(m) {
        Some(from) => push_square_name(&mut out, from),
        None => {},
    }
    out.append("\",\"to\":\"");
    push_square_name(&mut out, move_to(m));
    out.append("\",\"san\":\"");
    out.append(san.as_str());
    out.append("\"}");
    out
}

/// Castling rights in FEN style: "K", "Q", "k", "q" for each right held, in
/// that order.
pub open spec fn castling_text(white_king: bool, white_queen: bool, black_king: bool, black_queen: bool) -> Seq<char> {
    (if white_king { seq!['K'] } else { Seq::empty() })
        + (if white_queen { seq!['Q'] } else { Seq::empty() })
        + (if black_king { seq!['k'] } else { Seq::empty() })
        + (if black_queen { seq!['q'] } else { Seq::empty() })
}

/// Castling rights in FEN style.
pub fn castling_json(white_king: bool, white_queen: bool, black_king: bool, black_queen: bool) -> (res: String)
    ensures
        res@ == castling_text(white_king, white_queen, black_king, black_queen),
{
    proof {
        reveal_strlit("K");
        reveal_strlit("Q");
        reveal_strlit("k");
        reveal_strlit("q");
    }
    let mut out = String::new();
    if white_king {
        out.append("K");
    }
    if white_queen {
        out.append("Q");
    }
    if black_king {
        out.append("k");
    }
    if black_queen {
        out.append("q");
    }
    assert(out@ =~= castling_text(white_king, white_queen, black_king, black_queen));
    out
}

/// The board as rows of cells, each row a JSON array and the whole an array
/// of the rows.
pub open spec fn grid_text(rows: Seq<Seq<Seq<char>>>) -> Seq<char> {
    bracketed(rows.map_values(|r: Seq<Seq<char>>| bracketed(r)))
}

/// The board text is an array of eight rows of eight cells, and row `i`
/// describes rank 8 - i from file a to h: the cell in row 7 - rank, column
/// file is the piece on that square as JSON, or `null` when it is empty.
pub proof fn lemma_board_rows(contents: Map<u8, (u8, u8)>)
    ensures
        exists|rows: Seq<Seq<Seq<char>>>|
            #![trigger grid_text(rows)]
            {
                &&& grid_text(rows) == board_text(contents)
                &&& rows.len() == 8
                &&& forall|i: int| 0 <= i < 8 ==> (#[trigger] rows[i]).len() == 8
                &&& forall|sq: int|
                    0 <= sq < 64 ==> rows[7 - spec_rank(sq)][spec_file(sq)] == #[trigger] cell_text(contents, sq)
            },
{
    let rows = Seq::new(8, |i: int| Seq::new(8, |f: int| cell_text(contents, (7 - i) * 8 + f)));
    assert forall|i: int| 0 <= i < 8 implies #[trigger] bracketed(rows[i]) == rank_text(contents, 7 - i) by {
        assert(rows[i] =~= Seq::new(8, |f: int| cell_text(contents, (7 - i) * 8 + f)));
    }
    assert(rows.map_values(|r: Seq<Seq<char>>| bracketed(r)) =~= Seq::new(8, |i: int| rank_text(contents, 7 - i)));
    assert forall|sq: int| 0 <= sq < 64 implies rows[7 - spec_rank(sq)][spec_file(sq)] == #[trigger] cell_text(contents, sq) by {
        let r = spec_rank(sq);
        let f = spec_file(sq);
        assert(0 <= r < 8 && 0 <= f < 8);
        assert((7 - (7 - r)) * 8 + f == sq);
    }
    assert(grid_text(rows) == board_text(contents));
}

/// A square's cell in the board JSON, from the codes stored for it: an empty
/// square, or one whose codes name no piece, is `null`; a piece is
/// `{"type":"<letter>","color":"<w or b>"}` with its role's letter and `w`
/// exactly when its colour code is White's (1).
pub proof fn lemma_cell_text(contents: Map<u8, (u8, u8)>, sq: int)
    ensures
        !contents.contains_key(sq as u8) ==> cell_text(contents, sq) == "null"@,
        contents.contains_key(sq as u8) ==> match spec_piece_from_codes(contents[sq as u8]) {
            None => cell_text(contents, sq) == "null"@,
            Some(p) => cell_text(contents, sq) == "{\"type\":\""@ + seq![spec_role_char(p.role)] + "\",\"color\":\""@
                + seq![if contents[sq as u8].1 == 1 { 'w' } else { 'b' }] + "\"}"@,
        },
{
}

proof fn lemma_contains_concat(a: Seq<char>, b: Seq<char>, x: char)
    ensures
        (a + b).contains(x) <==> a.contains(x) || b.contains(x),
{
    if (a + b).contains(x) {
        let i = choose|i: int| 0 <= i < (a + b).len() && (a + b)[i] == x;
        if i < a.len() {
            assert(a[i] == x);
        } else {
            assert(b[i - a.len()] == x);
        }
    }
    if a.contains(x) {
        let i = choose|i: int| 0 <= i < a.len() && a[i] == x;
        assert((a + b)[i] == x);
    }
    if b.contains(x) {
        let i = choose|i: int| 0 <= i < b.len() && b[i] == x;
        assert((a + b)[a.len() + i] == x);
    }
}

proof fn lemma_flag_text(flag: bool, c: char, x: char)
    ensures
        (if flag { seq![c] } else { Seq::<char>::empty() }).contains(x) <==> flag && c == x,
{
    if flag {
        assert(seq![c][0] == c);
    }
}

/// Each castling right is reported by its own letter, whatever the other
/// rights are: the text holds 'K' exactly when White may castle king-side,
/// 'Q' queen-side, and 'k' and 'q' likewise for Black; it holds nothing
/// else, one letter for each right held.
pub proof fn lemma_castling_letters(white_king: bool, white_queen: bool, black_king: bool, black_queen: bool)
    ensures
        castling_text(white_king, white_queen, black_king, black_queen).contains('K') == white_king,
        castling_text(white_king, white_queen, black_king, black_queen).contains('Q') == white_queen,
        castling_text(white_king, white_queen, black_king, black_queen).contains('k') == black_king,
        castling_text(white_king, white_queen, black_king, black_queen).contains('q') == black_queen,
        castling_text(white_king, white_queen, black_king, black_queen).len() == (if white_king { 1int } else { 0 })
            + (if white_queen { 1int } else { 0 }) + (if black_king { 1int } else { 0 }) + (if black_queen {
            1int
        } else {
            0
        }),
        forall|x: char| #[trigger] castling_text(white_king, white_queen, black_king, black_queen).contains(x)
            ==> x == 'K' || x == 'Q' || x == 'k' || x == 'q',
{
    let a = if white_king { seq!['K'] } else { Seq::<char>::empty() };
    let b = if white_queen { seq!['Q'] } else { Seq::<char>::empty() };
    let c = if black_king { seq!['k'] } else { Seq::<char>::empty() };
    let d = if black_queen { seq!['q'] } else { Seq::<char>::empty() };
    assert(castling_text(white_king, white_queen, black_king, black_queen) == a + b + c + d);
    assert forall|x: char| #[trigger] (a + b + c + d).contains(x) == (
        (white_king && x == 'K') || (white_queen && x == 'Q') || (black_king && x == 'k') || (black_queen && x == 'q')
    ) by {
        lemma_contains_concat(a + b + c, d, x);
        lemma_contains_concat(a + b, c, x);
        lemma_contains_concat(a, b, x);
        lemma_flag_text(white_king, 'K', x);
        lemma_flag_text(white_queen, 'Q', x);
        lemma_flag_text(black_king, 'k', x);
        lemma_flag_text(black_queen, 'q', x);
    }
    assert((a + b + c + d).contains('K') == white_king);
    assert((a + b + c + d).contains('Q') == white_queen);
    assert((a + b + c + d).contains('k') == black_king);
    assert((a + b + c + d).contains('q') == black_queen);
}

/// The name of an optional square; empty for none.
pub fn optional_square_name(sq: Option<u8>) -> (res: String)
    requires
        sq matches Some(s) ==> s < 64,
    ensures
        res@ == opt_square_text(sq),
{
    let mut out = String::new();
    match sq {
        Some(s) => push_square_name(&mut out, s),
        None => {},
    }
    assert(out@ =~= opt_square_text(sq));
    out
}

/// The letter of the side to move: "w" or "b".
pub fn turn_text(white: bool) -> (res: String)
    ensures
        res@ == seq![if white { 'w' } else { 'b' }],
{
    let mut out = String::new();
    if white {
        push_color(&mut out, Color::White);
    } else {
        push_color(&mut out, Color::Black);
    }
    assert(out@ =~= seq![if white { 'w' } else { 'b' }]);
    out
}

} // verus!
