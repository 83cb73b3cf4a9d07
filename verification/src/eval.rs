//! Static evaluation: material plus piece-square tables, from White's side.

use vstd::prelude::*;
use shakmaty::{Board, Chess};

use crate::outside::{board_contents, board_of, board_piece_at, position_board};
use crate::pieces::{Color, Piece, Role, piece_value, spec_piece_from_codes, spec_piece_value};
use crate::squares::{spec_file, spec_rank, square_file, square_rank};

verus! {

/// King safety (row 0 = rank 8, row 7 = rank 1): negative entries are safe
/// squares for the king.
pub const KING_SAFE: [[i32; 8]; 8] = [
    [-20, -30, -30, -40, -40, -30, -30, -20],
    [-10, -20, -20, -25, -25, -20, -20, -10],
    [-5, -10, -10, -15, -15, -10, -10, -5],
    [0, -5, -5, -10, -10, -5, -5, 0],
    [0, -5, -5, -10, -10, -5, -5, 0],
    [-5, -5, -5, -5, -5, -5, -5, -5],
    [-5, -10, -10, -5, -5, -10, -10, -5],
    [-20, -30, -30, -40, -40, -30, -30, -20],
];

/// Pawn table for White (row 0 = rank 8, row 7 = rank 1).
pub const PAWN_WHITE: [[i32; 8]; 8] = [
    [0, 0, 0, 0, 0, 0, 0, 0],
    [50, 50, 50, 50, 50, 50, 50, 50],
    [10, 10, 20, 30, 30, 20, 10, 10],
    [5, 5, 10, 25, 25, 10, 5, 5],
    [0, 0, 0, 20, 20, 0, 0, 0],
    [5, -5, -10, 0, 0, -10, -5, 5],
    [5, 10, 10, -20, -20, 10, 10, 5],
    [0, 0, 0, 0, 0, 0, 0, 0],
];

/// Knight table (row 0 = rank 8).
pub const KNIGHT: [[i32; 8]; 8] = [
    [-50, -40, -30, -30, -30, -30, -40, -50],
    [-40, -20, 0, 0, 0, 0, -20, -40],
    [-30, 0, 10, 15, 15, 10, 0, -30],
    [-30, 5, 15, 20, 20, 15, 5, -30],
    [-30, 0, 15, 20, 20, 15, 0, -30],
    [-30, 5, 10, 15, 15, 10, 5, -30],
    [-40, -20, 0, 5, 5, 0, -20, -40],
    [-50, -40, -30, -30, -30, -30, -40, -50],
];

/// Bishop table for White (row 0 = rank 8).
pub const BISHOP_WHITE: [[i32; 8]; 8] = [
    [-20, -10, -10, -10, -10, -10, -10, -20],
    [-10, 0, 0, 0, 0, 0, 0, -10],
    [-10, 0, 5, 10, 10, 5, 0, -10],
    [-10, 5, 5, 10, 10, 5, 5, -10],
    [-10, 0, 10, 10, 10, 10, 0, -10],
    [-10, 10, 10, 10, 10, 10, 10, -10],
    [-10, 5, 0, 0, 0, 0, 5, -10],
    [-20, -10, -10, -10, -10, -10, -10, -20],
];

/// Rook table for White (row 0 = rank 8).
pub const ROOK_WHITE: [[i32; 8]; 8] = [
    [0, 0, 0, 0, 0, 0, 0, 0],
    [5, 10, 10, 10, 10, 10, 10, 5],
    [-5, 0, 0, 0, 0, 0, 0, -5],
    [-5, 0, 0, 0, 0, 0, 0, -5],
    [-5, 0, 0, 0, 0, 0, 0, -5],
    [-5, 0, 0, 0, 0, 0, 0, -5],
    [-5, 0, 0, 0, 0, 0, 0, -5],
    [0, 0, 0, 5, 5, 0, 0, 0],
];

/// Queen table (row 0 = rank 8).
pub const QUEEN: [[i32; 8]; 8] = [
    [-20, -10, -10, -5, -5, -10, -10, -20],
    [-10, 0, 0, 0, 0, 0, 0, -10],
    [-10, 0, 5, 5, 5, 5, 0, -10],
    [-5, 0, 5, 5, 5, 5, 0, -5],
    [0, 0, 5, 5, 5, 5, 0, -5],
    [-10, 5, 5, 5, 5, 5, 0, -10],
    [-10, 0, 5, 0, 0, 0, 0, -10],
    [-20, -10, -10, -5, -5, -10, -10, -20],
];

/// King table for White (row 0 = rank 8).
pub const KING_WHITE: [[i32; 8]; 8] = [
    [-30, -40, -40, -50, -50, -40, -40, -30],
    [-30, -40, -40, -50, -50, -40, -40, -30],
    [-30, -40, -40, -50, -50, -40, -40, -30],
    [-30, -40, -40, -50, -50, -40, -40, -30],
    [-20, -30, -30, -40, -40, -30, -30, -20],
    [-10, -20, -20, -20, -20, -20, -20, -10],
    [20, 20, 0, 0, 0, 0, 20, 20],
    [20, 30, 10, 0, 0, 10, 30, 20],
];

/// Positional bonus of a piece on a square. White reads row `7 - rank`,
/// Black the mirrored row `rank`; the king adds its safety table.
pub open spec fn spec_positional_value(role: Role, color: Color, sq: int) -> int {
    let file = spec_file(sq);
    let row_w = 7 - spec_rank(sq);
    let row_b = spec_rank(sq);
    let row = if color == Color::White { row_w } else { row_b };
    match role {
        Role::Pawn => PAWN_WHITE[row][file] as int,
        Role::Knight => KNIGHT[row][file] as int,
        Role::Bishop => BISHOP_WHITE[row][file] as int,
        Role::Rook => ROOK_WHITE[row][file] as int,
        Role::Queen => QUEEN[row][file] as int,
        Role::King => KING_WHITE[row][file] + KING_SAFE[row][file],
    }
}

proof fn lemma_tables_bounded(r: int, f: int)
    requires
        0 <= r < 8,
        0 <= f < 8,
    ensures
        -50 <= PAWN_WHITE[r][f] <= 50,
        -50 <= KNIGHT[r][f] <= 50,
        -50 <= BISHOP_WHITE[r][f] <= 50,
        -50 <= ROOK_WHITE[r][f] <= 50,
        -50 <= QUEEN[r][f] <= 50,
        -50 <= KING_WHITE[r][f] <= 50,
        -50 <= KING_SAFE[r][f] <= 50,
{
}


/// Positional bonus of a piece on a square.
pub fn positional_value(role: Role, color: Color, sq: u8) -> (v: i32)
    requires
        sq < 64,
    ensures
        v == spec_positional_value(role, color, sq as int),
        -100 <= v <= 100,
{
    let rank = square_rank(sq) as usize;
    let file = square_file(sq) as usize;
    let row_w = 7 - rank;
    let row_b = rank;
    proof {
        lemma_tables_bounded(row_w as int, file as int);
        lemma_tables_bounded(row_b as int, file as int);
    }
    match (role, color) {
        (Role::Pawn, Color::White) => PAWN_WHITE[row_w][file],
        (Role::Pawn, Color::Black) => PAWN_WHITE[row_b][file],
        (Role::Knight, Color::White) => KNIGHT[row_w][file],
        (Role::Knight, Color::Black) => KNIGHT[row_b][file],
        (Role::Bishop, Color::White) => BISHOP_WHITE[row_w][file],
        (Role::Bishop, Color::Black) => BISHOP_WHITE[row_b][file],
        (Role::Rook, Color::White) => ROOK_WHITE[row_w][file],
        (Role::Rook, Color::Black) => ROOK_WHITE[row_b][file],
        (Role::Queen, Color::White) => QUEEN[row_w][file],
        (Role::Queen, Color::Black) => QUEEN[row_b][file],
        (Role::King, Color::White) => {
            let base = KING_WHITE[row_w][file];
            let safety = KING_SAFE[row_w][file];
            base + safety
        },
        (Role::King, Color::Black) => {
            let base = KING_WHITE[row_b][file];
            let safety = KING_SAFE[row_b][file];
            base + safety
        },
    }
}

/// The square at the same file on the mirrored rank (a1 <-> a8).
pub open spec fn mirror_square(sq: int) -> int {
    (7 - spec_rank(sq)) * 8 + spec_file(sq)
}

/// Black on a mirrored square gets the positional value White gets on the
/// square itself: every table is read on the mirrored row for Black.
pub proof fn lemma_positional_mirror(role: Role, sq: int)
    requires
        0 <= sq < 64,
    ensures
        spec_positional_value(role, Color::Black, mirror_square(sq)) == spec_positional_value(role, Color::White, sq),
{
    let r = spec_rank(sq);
    let f = spec_file(sq);
    let m = mirror_square(sq);
    assert(spec_rank(m) == 7 - r && spec_file(m) == f) by (nonlinear_arith)
        requires
            m == (7 - r) * 8 + f,
            0 <= r < 8,
            0 <= f < 8,
    ;
}

/// A piece and its colour-swapped twin on the mirrored square count the same
/// for opposite sides.
pub proof fn lemma_piece_score_mirror(role: Role, sq: int)
    requires
        0 <= sq < 64,
    ensures
        spec_piece_score(Piece { role, color: Color::Black }, mirror_square(sq)) == -spec_piece_score(
            Piece { role, color: Color::White },
            sq,
        ),
{
    lemma_positional_mirror(role, sq);
}

/// What a piece on a square adds to the evaluation: its material and
/// positional value, counted for White and against Black.
pub open spec fn spec_piece_score(p: Piece, sq: int) -> int {
    let val = spec_piece_value(p.role) + spec_positional_value(p.role, p.color, sq);
    if p.color == Color::White {
        val
    } else {
        -val
    }
}

/// The contribution of square `sq` of a board's contents.
pub open spec fn square_score(contents: Map<u8, (u8, u8)>, sq: int) -> int {
    if contents.contains_key(sq as u8) {
        match spec_piece_from_codes(contents[sq as u8]) {
            Some(p) => spec_piece_score(p, sq),
            None => 0,
        }
    } else {
        0
    }
}

/// The sum of the contributions of squares `0..n`.
pub open spec fn score_upto(contents: Map<u8, (u8, u8)>, n: nat) -> int
    decreases n,
{
    if n == 0 {
        0
    } else {
        score_upto(contents, (n - 1) as nat) + square_score(contents, n - 1)
    }
}

/// The evaluation of a board (positive favours White): the sum over all 64
/// squares, plus one for White's first-move advantage.
pub open spec fn board_score(contents: Map<u8, (u8, u8)>) -> int {
    score_upto(contents, 64) + 1
}

proof fn lemma_score_upto_insert(contents: Map<u8, (u8, u8)>, sq: u8, codes: (u8, u8), n: nat)
    requires
        !contents.contains_key(sq),
        sq < 64,
        n <= 64,
    ensures
        score_upto(contents.insert(sq, codes), n) == score_upto(contents, n) + (if (sq as int) < n {
            square_score(contents.insert(sq, codes), sq as int)
        } else {
            0
        }),
    decreases n,
{
    if n > 0 {
        lemma_score_upto_insert(contents, sq, codes, (n - 1) as nat);
        let k = n - 1;
        if k != sq as int {
            assert((k as u8) != sq);
            assert(contents.insert(sq, codes).contains_key(k as u8) == contents.contains_key(k as u8));
        }
    }
}

/// A piece scores for its own side: positive for White, negative for Black.
pub proof fn lemma_piece_score_sign(p: Piece, sq: int)
    requires
        0 <= sq < 64,
    ensures
        p.color == Color::White ==> spec_piece_score(p, sq) > 0,
        p.color == Color::Black ==> spec_piece_score(p, sq) < 0,
{
    lemma_tables_bounded(spec_rank(sq), spec_file(sq));
    lemma_tables_bounded(7 - spec_rank(sq), spec_file(sq));
}

/// Putting a piece on an empty square changes the evaluation by exactly that
/// piece's score on that square: it rises for a White piece and falls for a
/// Black one.
pub proof fn lemma_added_piece(contents: Map<u8, (u8, u8)>, sq: u8, codes: (u8, u8))
    requires
        sq < 64,
        !contents.contains_key(sq),
        spec_piece_from_codes(codes) is Some,
    ensures
        board_score(contents.insert(sq, codes)) == board_score(contents) + spec_piece_score(
            spec_piece_from_codes(codes)->0,
            sq as int,
        ),
        spec_piece_from_codes(codes)->0.color == Color::White ==> board_score(contents.insert(sq, codes))
            > board_score(contents),
        spec_piece_from_codes(codes)->0.color == Color::Black ==> board_score(contents.insert(sq, codes))
            < board_score(contents),
{
    lemma_score_upto_insert(contents, sq, codes, 64);
    lemma_piece_score_sign(spec_piece_from_codes(codes)->0, sq as int);
    assert(contents.insert(sq, codes).contains_key(sq));
}

/// The colour code of the other side (white 1, black 0); other codes stay.
pub open spec fn other_color_code(c: u8) -> u8 {
    if c == 1 {
        0
    } else if c == 0 {
        1
    } else {
        c
    }
}

/// `q` is `p` mirrored top to bottom with the colours swapped: the piece on
/// each square of `p` stands on the mirrored square of `q` with the other
/// colour, and `q` holds nothing else.
pub open spec fn is_colour_mirror(p: Map<u8, (u8, u8)>, q: Map<u8, (u8, u8)>) -> bool {
    forall|sq: int|
        0 <= sq < 64 ==> {
            &&& (q.contains_key(mirror_square(sq) as u8) <==> #[trigger] p.contains_key(sq as u8))
            &&& p.contains_key(sq as u8) ==> q[mirror_square(sq) as u8] == (
                p[sq as u8].0,
                other_color_code(p[sq as u8].1),
            )
        }
}

proof fn lemma_mirror_involution(sq: int)
    requires
        0 <= sq < 64,
    ensures
        0 <= mirror_square(sq) < 64,
        mirror_square(mirror_square(sq)) == sq,
{
    let r = spec_rank(sq);
    let f = spec_file(sq);
    assert(0 <= r < 8 && 0 <= f < 8 && sq == 8 * r + f);
    let m = mirror_square(sq);
    assert(spec_rank(m) == 7 - r && spec_file(m) == f) by (nonlinear_arith)
        requires
            m == (7 - r) * 8 + f,
            0 <= r < 8,
            0 <= f < 8,
    ;
}

proof fn lemma_square_score_mirror(p: Map<u8, (u8, u8)>, q: Map<u8, (u8, u8)>, sq: int)
    requires
        is_colour_mirror(p, q),
        0 <= sq < 64,
    ensures
        square_score(q, mirror_square(sq)) == -square_score(p, sq),
{
    lemma_mirror_involution(sq);
    let m = mirror_square(sq);
    if p.contains_key(sq as u8) {
        let codes = p[sq as u8];
        match spec_piece_from_codes(codes) {
            Some(piece) => {
                if piece.color == Color::White {
                    lemma_piece_score_mirror(piece.role, sq);
                } else {
                    lemma_piece_score_mirror(piece.role, m);
                }
            },
            None => {},
        }
    }
}

/// The contributions of the squares of rank `r`.
#[verifier::opaque]
pub open spec fn rank_score(c: Map<u8, (u8, u8)>, r: int) -> int {
    square_score(c, 8 * r) + square_score(c, 8 * r + 1) + square_score(c, 8 * r + 2) + square_score(c, 8 * r + 3)
        + square_score(c, 8 * r + 4) + square_score(c, 8 * r + 5) + square_score(c, 8 * r + 6)
        + square_score(c, 8 * r + 7)
}

proof fn lemma_rank_sum(c: Map<u8, (u8, u8)>, r: int)
    requires
        0 <= r < 8,
    ensures
        score_upto(c, (8 * r + 8) as nat) == score_upto(c, (8 * r) as nat) + rank_score(c, r),
{
    reveal(rank_score);
    reveal_with_fuel(score_upto, 9);
}

proof fn lemma_square_mirror_at(p: Map<u8, (u8, u8)>, q: Map<u8, (u8, u8)>, r: int, f: int)
    requires
        is_colour_mirror(p, q),
        0 <= r < 8,
        0 <= f < 8,
    ensures
        square_score(q, 8 * (7 - r) + f) == -square_score(p, 8 * r + f),
{
    let sq = 8 * r + f;
    assert(mirror_square(sq) == 8 * (7 - r) + f) by (nonlinear_arith)
        requires
            sq == 8 * r + f,
            0 <= r < 8,
            0 <= f < 8,
    ;
    lemma_square_score_mirror(p, q, sq);
}

proof fn lemma_rank_mirror(p: Map<u8, (u8, u8)>, q: Map<u8, (u8, u8)>, r: int)
    requires
        is_colour_mirror(p, q),
        0 <= r < 8,
    ensures
        rank_score(q, 7 - r) == -rank_score(p, r),
        score_upto(p, (8 * r + 8) as nat) == score_upto(p, (8 * r) as nat) + rank_score(p, r),
        score_upto(q, (8 * r + 8) as nat) == score_upto(q, (8 * r) as nat) + rank_score(q, r),
{
    reveal(rank_score);
    lemma_square_mirror_at(p, q, r, 0);
    lemma_square_mirror_at(p, q, r, 1);
    lemma_square_mirror_at(p, q, r, 2);
    lemma_square_mirror_at(p, q, r, 3);
    lemma_square_mirror_at(p, q, r, 4);
    lemma_square_mirror_at(p, q, r, 5);
    lemma_square_mirror_at(p, q, r, 6);
    lemma_square_mirror_at(p, q, r, 7);
    lemma_rank_sum(p, r);
    lemma_rank_sum(q, r);
}

/// Mirroring a placement top to bottom and swapping the colours negates its
/// evaluation, apart from the point for White's first move.
pub proof fn lemma_board_mirror(p: Map<u8, (u8, u8)>, q: Map<u8, (u8, u8)>)
    requires
        is_colour_mirror(p, q),
    ensures
        board_score(q) - 1 == -(board_score(p) - 1),
{
    lemma_rank_mirror(p, q, 0);
    lemma_rank_mirror(p, q, 1);
    lemma_rank_mirror(p, q, 2);
    lemma_rank_mirror(p, q, 3);
    lemma_rank_mirror(p, q, 4);
    lemma_rank_mirror(p, q, 5);
    lemma_rank_mirror(p, q, 6);
    lemma_rank_mirror(p, q, 7);
    assert(score_upto(p, 0) == 0 && score_upto(q, 0) == 0);
}

/// Evaluates a piece placement; positive favours White.
pub fn evaluate_board(board: &Board) -> (v: i32)
    ensures
        v == board_score(board_contents(*board)),
{
    let ghost contents = board_contents(*board);
    let mut total: i32 = 0;
    let mut sq: u8 = 0;
    while sq < 64
        invariant
            contents == board_contents(*board),
            sq <= 64,
            total == score_upto(contents, sq as nat),
            -20100 * sq <= total <= 20100 * sq,
        decreases 64 - sq,
    {
        match board_piece_at(board, sq) {
            Some(codes) => {
                match Piece::from_codes(codes) {
                    Some(piece) => {
                        let val = piece_value(piece.role) + positional_value(piece.role, piece.color, sq);
                        if piece.color == Color::White {
                            total = total + val;
                        } else {
                            total = total - val;
                        }
                    },
                    None => {},
                }
            },
            None => {},
        }
        sq = sq + 1;
    }
    total + 1
}


/// The static evaluation of a position: that of its piece placement.
pub open spec fn eval_of(pos: Chess) -> int {
    board_score(board_contents(board_of(pos)))
}

/// Evaluates a position from its piece placement; positive favours White.
pub fn evaluate(pos: &Chess) -> (v: i32)
    ensures
        v == eval_of(*pos),
{
    let board = position_board(pos);
    evaluate_board(&board)
}

} // verus!
