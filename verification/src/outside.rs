//! The trusted boundary with `shakmaty`. Each function below makes one
//! outside call; Verus believes its contract and does not read its body.
//!
//! Positions, moves and notations are opaque values here. What each call
//! returns is a function of its arguments alone, so it is given a name (an
//! uninterpreted spec function) that the library's contracts speak of; beside
//! a name stand only facts the crate's source or documentation gives.

use vstd::prelude::*;
use shakmaty::{Board, CastlingMode, CastlingSide, Chess, Color, EnPassantMode, Move, Position, Square};
use shakmaty::{PlayError, PositionError};
use shakmaty::fen::{Fen, ParseFenError};
use shakmaty::san::{ParseSanError, San, SanError, SanPlus};
use shakmaty::zobrist::{Zobrist64, ZobristHash};

use crate::moves::RawMove;

verus! {

#[verifier::external_type_specification]
#[verifier::external_body]
pub struct ExChess(Chess);

#[verifier::external_type_specification]
#[verifier::external_body]
pub struct ExMove(Move);

#[verifier::external_type_specification]
#[verifier::external_body]
pub struct ExBoard(Board);

#[verifier::external_type_specification]
#[verifier::external_body]
pub struct ExFen(Fen);

#[verifier::external_type_specification]
#[verifier::external_body]
pub struct ExParseFenError(ParseFenError);

#[verifier::external_type_specification]
#[verifier::external_body]
#[verifier::reject_recursive_types(P)]
pub struct ExPositionError<P>(PositionError<P>);

#[verifier::external_type_specification]
#[verifier::external_body]
#[verifier::reject_recursive_types(P)]
pub struct ExPlayError<P>(PlayError<P>);

#[verifier::external_type_specification]
#[verifier::external_body]
pub struct ExSan(San);

#[verifier::external_type_specification]
#[verifier::external_body]
pub struct ExParseSanError(ParseSanError);

#[verifier::external_type_specification]
#[verifier::external_body]
pub struct ExSanError(SanError);

/// What a `shakmaty::Board` holds: for each occupied square index (a1 = 0,
/// h8 = 63), the piece on it as (role code 1..=6 from pawn to king, colour
/// code 0 for black and 1 for white).
pub uninterp spec fn board_contents(board: Board) -> Map<u8, (u8, u8)>;

/// `Board::piece_at`: the piece on square `sq`, as codes. Claimed: the result
/// is what `board_contents` records for `sq`, and its codes are those of
/// `shakmaty::Role` (1..=6) and `shakmaty::Color` (0 or 1).
#[verifier::external_body]
pub fn board_piece_at(board: &Board, sq: u8) -> (res: Option<(u8, u8)>)
    requires
        sq < 64,
    ensures
        res == (if board_contents(*board).contains_key(sq) {
            Some(board_contents(*board)[sq])
        } else {
            None
        }),
        res matches Some((r, c)) ==> 1 <= r <= 6 && c <= 1,
{
    board.piece_at(Square::new(sq as u32)).map(|p| (p.role as u8, p.color as u8))
}

/// The piece placement of a position.
pub uninterp spec fn board_of(pos: Chess) -> Board;

/// `Position::board` (cloned): the piece placement of a position, named
/// `board_of`.
#[verifier::external_body]
pub fn position_board(pos: &Chess) -> (res: Board)
    ensures
        res == board_of(*pos),
{
    pos.board().clone()
}

/// The FEN text of the standard starting position.
pub open spec fn starting_fen() -> Seq<char> {
    "rnbqkbnr/pppppppp/8/8/8/8/PPPPPPPP/RNBQKBNR w KQkq - 0 1"@
}

/// `Chess::default`: the standard starting position. Claimed: its FEN text
/// (as `position_fen` writes it) is that of the starting position.
#[verifier::external_body]
pub fn starting_position() -> (res: Chess)
    ensures
        fen_text_of(res) == starting_fen(),
{
    Chess::default()
}

/// The fields of a move as plain values.
pub uninterp spec fn move_fields(m: Move) -> RawMove;

/// `Move` as plain values, one field for each field of the move, named
/// `move_fields`. Claimed besides: squares are indices below 64 and roles are
/// the codes 1..=6 of `shakmaty::Role` (the types' ranges).
#[verifier::external_body]
pub fn move_record(m: &Move) -> (res: RawMove)
    ensures
        res == move_fields(*m),
        res.well_formed(),
{
    match m {
        Move::Normal { role, from, capture, to, promotion } => RawMove::Normal { role: *role as u8, from: *from as u8, capture: capture.map(|r| r as u8), to: *to as u8, promotion: promotion.map(|r| r as u8) },
        Move::EnPassant { from, to } => RawMove::EnPassant { from: *from as u8, to: *to as u8 },
        Move::Castle { king, rook } => RawMove::Castle { king: *king as u8, rook: *rook as u8 },
        Move::Put { role, to } => RawMove::Put { role: *role as u8, to: *to as u8 },
    }
}


/// Whether the rules library reads `text` as a FEN record (`Fen::from_ascii`
/// on its bytes succeeds).
pub uninterp spec fn fen_is_well_formed(text: Seq<char>) -> bool;

/// The FEN record the rules library reads from a well-formed text.
pub uninterp spec fn fen_of_text(text: Seq<char>) -> Fen;

/// `str::parse::<Fen>` (that is, `Fen::from_ascii` on the bytes). Claimed:
/// it succeeds exactly when `fen_is_well_formed` holds of the text, and then
/// gives the record named `fen_of_text`.
#[verifier::external_body]
pub fn parse_fen(text: &str) -> (res: Result<Fen, ParseFenError>)
    ensures
        res is Ok <==> fen_is_well_formed(text@),
        res matches Ok(f) ==> f == fen_of_text(text@),
{
    text.parse::<Fen>()
}

/// The legal position a FEN record sets up with standard castling, if any.
pub uninterp spec fn setup_of(fen: Fen) -> Option<Chess>;

/// `Fen::into_position` with standard castling: the position named
/// `setup_of`, or a refusal exactly when there is none.
#[verifier::external_body]
pub fn fen_into_position(fen: Fen) -> (res: Result<Chess, PositionError<Chess>>)
    ensures
        res is Ok <==> setup_of(fen) is Some,
        res matches Ok(p) ==> setup_of(fen) == Some(p),
{
    fen.into_position(CastlingMode::Standard)
}

/// The FEN text of a position (legal en passant squares only).
pub uninterp spec fn fen_text_of(pos: Chess) -> Seq<char>;

/// `Fen::from_position` with legal en passant squares, written out as text;
/// named `fen_text_of`.
#[verifier::external_body]
pub fn position_fen(pos: &Chess) -> (res: String)
    ensures
        res@ == fen_text_of(*pos),
{
    Fen::from_position(pos.clone(), EnPassantMode::Legal).to_string()
}

/// The side to move, as the code of `shakmaty::Color` (0 black, 1 white).
pub uninterp spec fn turn_of(pos: Chess) -> u8;

/// `Position::turn`, as the code of `shakmaty::Color`; named `turn_of`.
/// Claimed besides: the code is 0 or 1.
#[verifier::external_body]
pub fn side_to_move(pos: &Chess) -> (res: u8)
    ensures
        res == turn_of(*pos),
        res <= 1,
{
    pos.turn() as u8
}

/// The legal moves of a position, in the order the library generates them.
pub uninterp spec fn legal_move_list(pos: Chess) -> Seq<Move>;

/// `Position::legal_moves`, named `legal_move_list`.
#[verifier::external_body]
pub fn legal_moves(pos: &Chess) -> (res: Vec<Move>)
    ensures
        res@ == legal_move_list(*pos),
{
    pos.legal_moves().into_iter().collect()
}

/// Whether the side to move is in check.
pub uninterp spec fn check_of(pos: Chess) -> bool;

/// `Position::is_check`, named `check_of`.
#[verifier::external_body]
pub fn is_check(pos: &Chess) -> (res: bool)
    ensures
        res == check_of(*pos),
{
    pos.is_check()
}

/// Whether neither side has the material to mate.
pub uninterp spec fn insufficient_of(pos: Chess) -> bool;

/// `Position::is_insufficient_material`, named `insufficient_of`.
#[verifier::external_body]
pub fn is_insufficient_material(pos: &Chess) -> (res: bool)
    ensures
        res == insufficient_of(*pos),
{
    pos.is_insufficient_material()
}

/// The half-move clock of a position.
pub uninterp spec fn halfmoves_of(pos: Chess) -> u32;

/// `Position::halfmoves`, named `halfmoves_of`.
#[verifier::external_body]
pub fn halfmoves(pos: &Chess) -> (res: u32)
    ensures
        res == halfmoves_of(*pos),
{
    pos.halfmoves()
}

/// The position after a move, or `None` when the move is not legal there.
pub uninterp spec fn play_of(pos: Chess, m: Move) -> Option<Chess>;

/// `Position::play` on a copy of the position, named `play_of`. Claimed
/// besides, as its documentation gives: a move it generated as legal is
/// played (a refusal comes only for a move that is not legal).
#[verifier::external_body]
pub fn play(pos: &Chess, m: &Move) -> (res: Result<Chess, PlayError<Chess>>)
    ensures
        res is Ok <==> play_of(*pos, *m) is Some,
        res matches Ok(p) ==> play_of(*pos, *m) == Some(p),
        legal_move_list(*pos).contains(*m) ==> res is Ok,
{
    pos.clone().play(m)
}

/// A move in standard algebraic notation with its check or mate suffix.
pub uninterp spec fn san_plus_of(pos: Chess, m: Move) -> Seq<char>;

/// `SanPlus::from_move`, written out as text; named `san_plus_of`. Claimed
/// besides: the text is not empty (every form the notation writes has a
/// square, a castling sign or a drop sign).
#[verifier::external_body]
pub fn san_plus_text(pos: &Chess, m: &Move) -> (res: String)
    ensures
        res@ == san_plus_of(*pos, *m),
        res@.len() > 0,
{
    SanPlus::from_move(pos.clone(), m).to_string()
}

/// Whether the rules library reads `text` as standard algebraic notation
/// (`San::from_ascii` on its bytes succeeds).
pub uninterp spec fn san_is_well_formed(text: Seq<char>) -> bool;

/// The notation the rules library reads from a well-formed text.
pub uninterp spec fn san_of_text(text: Seq<char>) -> San;

/// `str::parse::<San>` (that is, `San::from_ascii` on the bytes). Claimed: it
/// succeeds exactly when `san_is_well_formed` holds of the text, and then
/// gives the notation named `san_of_text`.
#[verifier::external_body]
pub fn parse_san(text: &str) -> (res: Result<San, ParseSanError>)
    ensures
        res is Ok <==> san_is_well_formed(text@),
        res matches Ok(s) ==> s == san_of_text(text@),
{
    text.parse::<San>()
}

/// The one legal move a notation names in a position, if there is exactly one.
pub uninterp spec fn san_move_of(san: San, pos: Chess) -> Option<Move>;

/// `San::to_move`, named `san_move_of`. Claimed besides, as its
/// documentation gives: the move is a legal move of the position.
#[verifier::external_body]
pub fn san_to_move(san: &San, pos: &Chess) -> (res: Result<Move, SanError>)
    ensures
        res is Ok <==> san_move_of(*san, *pos) is Some,
        res matches Ok(m) ==> san_move_of(*san, *pos) == Some(m) && legal_move_list(*pos).contains(m),
{
    san.to_move(pos)
}

/// The 64-bit Zobrist key of a position (legal en passant squares only).
pub uninterp spec fn zobrist_of(pos: Chess) -> u64;

/// `ZobristHash::zobrist_hash` with 64-bit keys and legal en passant squares,
/// named `zobrist_of`.
#[verifier::external_body]
pub fn zobrist_key(pos: &Chess) -> (res: u64)
    ensures
        res == zobrist_of(*pos),
{
    pos.zobrist_hash::<Zobrist64>(EnPassantMode::Legal).0
}

/// Whether a side may still castle on a wing.
pub uninterp spec fn castling_right_of(pos: Chess, white: bool, king_side: bool) -> bool;

/// `Castles::has` on the position's castling rights, named
/// `castling_right_of`.
#[verifier::external_body]
pub fn has_castling_right(pos: &Chess, white: bool, king_side: bool) -> (res: bool)
    ensures
        res == castling_right_of(*pos, white, king_side),
{
    pos.castles().has(Color::from_white(white), CastlingSide::from_king_side(king_side))
}

/// The en passant target square of a position, if any.
pub uninterp spec fn ep_square_of(pos: Chess) -> Option<u8>;

/// `Position::maybe_ep_square`, named `ep_square_of`. Claimed besides: a
/// square index comes back below 64.
#[verifier::external_body]
pub fn en_passant_square(pos: &Chess) -> (res: Option<u8>)
    ensures
        res == ep_square_of(*pos),
        res matches Some(sq) ==> sq < 64,
{
    pos.maybe_ep_square().map(|sq| sq as u8)
}

} // verus!
