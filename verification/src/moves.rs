//! Moves as plain values.

use vstd::prelude::*;

use crate::pieces::{Role, spec_role_from_code};
use crate::squares::{spec_file, spec_rank, square_file, square_rank, square_at};

verus! {

/// A move as it comes from the rules library: squares as indices (a1 = 0,
/// h8 = 63) and piece kinds as codes 1..=6 (pawn to king).
#[derive(Clone, Copy, Debug, PartialEq, Eq, Structural)]
pub enum RawMove {
    Normal { role: u8, from: u8, capture: Option<u8>, to: u8, promotion: Option<u8> },
    EnPassant { from: u8, to: u8 },
    Castle { king: u8, rook: u8 },
    Put { role: u8, to: u8 },
}

pub open spec fn role_code_ok(c: u8) -> bool {
    1 <= c <= 6
}

pub open spec fn opt_role_code_ok(c: Option<u8>) -> bool {
    match c {
        Some(c) => role_code_ok(c),
        None => true,
    }
}

impl RawMove {
    pub open spec fn well_formed(self) -> bool {
        match self {
            RawMove::Normal { role, from, capture, to, promotion } =>
                role_code_ok(role) && from < 64 && to < 64 && opt_role_code_ok(capture) && opt_role_code_ok(promotion),
            RawMove::EnPassant { from, to } => from < 64 && to < 64,
            RawMove::Castle { king, rook } => king < 64 && rook < 64,
            RawMove::Put { role, to } => role_code_ok(role) && to < 64,
        }
    }
}


/// A move of the game: squares as indices (a1 = 0, h8 = 63).
#[derive(Clone, Copy, Debug, PartialEq, Eq, Structural)]
pub enum ChessMove {
    /// A piece moves from one square to another, perhaps capturing and
    /// perhaps promoting.
    Normal { role: Role, from: u8, capture: Option<Role>, to: u8, promotion: Option<Role> },
    /// A pawn captures en passant.
    EnPassant { from: u8, to: u8 },
    /// The king castles with the rook on square `rook`.
    Castle { king: u8, rook: u8 },
    /// A piece is dropped on a square (not part of standard chess).
    Put { role: Role, to: u8 },
}

pub open spec fn opt_role_from_code(c: Option<u8>) -> Option<Role> {
    match c {
        Some(c) => spec_role_from_code(c),
        None => None,
    }
}

/// The move that a well-formed record describes.
pub open spec fn spec_from_raw(raw: RawMove) -> ChessMove {
    match raw {
        RawMove::Normal { role, from, capture, to, promotion } => ChessMove::Normal {
            role: spec_role_from_code(role).unwrap(),
            from,
            capture: opt_role_from_code(capture),
            to,
            promotion: opt_role_from_code(promotion),
        },
        RawMove::EnPassant { from, to } => ChessMove::EnPassant { from, to },
        RawMove::Castle { king, rook } => ChessMove::Castle { king, rook },
        RawMove::Put { role, to } => ChessMove::Put { role: spec_role_from_code(role).unwrap(), to },
    }
}

fn opt_role(c: Option<u8>) -> (res: Option<Role>)
    ensures
        res == opt_role_from_code(c),
{
    match c {
        Some(c) => Role::from_code(c),
        None => None,
    }
}

impl ChessMove {
    /// Every square the move names is on the board.
    pub open spec fn well_formed(self) -> bool {
        match self {
            ChessMove::Normal { from, to, .. } => from < 64 && to < 64,
            ChessMove::EnPassant { from, to } => from < 64 && to < 64,
            ChessMove::Castle { king, rook } => king < 64 && rook < 64,
            ChessMove::Put { to, .. } => to < 64,
        }
    }

    /// Decodes a record from the rules library.
    pub fn from_raw(raw: RawMove) -> (m: ChessMove)
        requires
            raw.well_formed(),
        ensures
            m == spec_from_raw(raw),
            m.well_formed(),
    {
        match raw {
            RawMove::Normal { role, from, capture, to, promotion } => {
                let role = Role::from_code(role).unwrap();
                ChessMove::Normal { role, from, capture: opt_role(capture), to, promotion: opt_role(promotion) }
            },
            RawMove::EnPassant { from, to } => ChessMove::EnPassant { from, to },
            RawMove::Castle { king, rook } => ChessMove::Castle { king, rook },
            RawMove::Put { role, to } => ChessMove::Put { role: Role::from_code(role).unwrap(), to },
        }
    }

    /// The origin square (the king's square for castling; none for drops).
    pub open spec fn spec_origin(self) -> Option<u8> {
        match self {
            ChessMove::Normal { from, .. } => Some(from),
            ChessMove::EnPassant { from, .. } => Some(from),
            ChessMove::Castle { king, .. } => Some(king),
            ChessMove::Put { .. } => None,
        }
    }

    /// The captured piece kind (a pawn for en passant).
    pub open spec fn spec_capture(self) -> Option<Role> {
        match self {
            ChessMove::Normal { capture, .. } => capture,
            ChessMove::EnPassant { .. } => Some(Role::Pawn),
            _ => None,
        }
    }

    /// The piece kind promoted to.
    pub open spec fn spec_promotion(self) -> Option<Role> {
        match self {
            ChessMove::Normal { promotion, .. } => promotion,
            _ => None,
        }
    }

    /// The origin square (the king's square for castling; none for drops).
    pub fn origin(&self) -> (res: Option<u8>)
        ensures
            res == self.spec_origin(),
    {
        match self {
            ChessMove::Normal { from, .. } => Some(*from),
            ChessMove::EnPassant { from, .. } => Some(*from),
            ChessMove::Castle { king, .. } => Some(*king),
            ChessMove::Put { .. } => None,
        }
    }

    /// The captured piece kind (a pawn for en passant).
    pub fn capture(&self) -> (res: Option<Role>)
        ensures
            res == self.spec_capture(),
    {
        match self {
            ChessMove::Normal { capture, .. } => *capture,
            ChessMove::EnPassant { .. } => Some(Role::Pawn),
            _ => None,
        }
    }

    /// The piece kind promoted to.
    pub fn promotion(&self) -> (res: Option<Role>)
        ensures
            res == self.spec_promotion(),
    {
        match self {
            ChessMove::Normal { promotion, .. } => *promotion,
            _ => None,
        }
    }

    /// Whether the move captures (en passant included).
    pub fn is_capture(&self) -> (res: bool)
        ensures
            res == (self.spec_capture() is Some),
    {
        match self {
            ChessMove::Normal { capture, .. } => capture.is_some(),
            ChessMove::EnPassant { .. } => true,
            _ => false,
        }
    }

    /// Whether the move is an en passant capture.
    pub fn is_en_passant(&self) -> (res: bool)
        ensures
            res == (self is EnPassant),
    {
        match self {
            ChessMove::EnPassant { .. } => true,
            _ => false,
        }
    }

    /// Whether the move promotes.
    pub fn is_promotion(&self) -> (res: bool)
        ensures
            res == (self.spec_promotion() is Some),
    {
        match self {
            ChessMove::Normal { promotion, .. } => promotion.is_some(),
            _ => false,
        }
    }
}

/// The square a move lands on, as the user interface shows it: for castling,
/// the king's destination (g-file when the rook stands on a later file than
/// the king, else c-file) on the king's rank.
pub open spec fn spec_move_to(m: ChessMove) -> int {
    match m {
        ChessMove::Castle { king, rook } => {
            let rank = spec_rank(king as int);
            if spec_file(rook as int) > spec_file(king as int) {
                rank * 8 + 6
            } else {
                rank * 8 + 2
            }
        },
        ChessMove::Normal { to, .. } => to as int,
        ChessMove::EnPassant { to, .. } => to as int,
        ChessMove::Put { to, .. } => to as int,
    }
}

/// The square a move lands on, as the user interface shows it.
pub fn move_to(m: &ChessMove) -> (res: u8)
    requires
        m.well_formed(),
    ensures
        res == spec_move_to(*m),
        res < 64,
{
    match m {
        ChessMove::Castle { king, rook } => {
            let rank = square_rank(*king);
            if square_file(*rook) > square_file(*king) {
                square_at(6, rank)
            } else {
                square_at(2, rank)
            }
        },
        ChessMove::Normal { to, .. } => *to,
        ChessMove::EnPassant { to, .. } => *to,
        ChessMove::Put { to, .. } => *to,
    }
}

/// The square a move is shown to start from: its origin, except that for
/// castling it is the king's destination (g- or c-file), the square the user
/// interface highlights; none for drops.
pub open spec fn spec_move_from(m: ChessMove) -> Option<u8> {
    match m {
        ChessMove::Castle { .. } => Some(spec_move_to(m) as u8),
        _ => m.spec_origin(),
    }
}

/// The square a move is shown to start from (see `spec_move_from`).
pub fn move_from(m: &ChessMove) -> (res: Option<u8>)
    requires
        m.well_formed(),
    ensures
        res == spec_move_from(*m),
        res matches Some(s) ==> s < 64,
{
    match m {
        ChessMove::Castle { .. } => Some(move_to(m)),
        ChessMove::Normal { from, .. } => Some(*from),
        ChessMove::EnPassant { from, .. } => Some(*from),
        ChessMove::Put { .. } => None,
    }
}

/// The chess.js-style flag of a move: "k"/"q" castling king/queen side,
/// "e" en passant, "cp" capture with promotion, "p" promotion, "c" capture,
/// "n" anything else.
pub open spec fn spec_move_flags(m: ChessMove) -> Seq<char> {
    match m {
        ChessMove::Castle { king, rook } => if spec_file(rook as int) > spec_file(king as int) {
            seq!['k']
        } else {
            seq!['q']
        },
        ChessMove::EnPassant { .. } => seq!['e'],
        ChessMove::Normal { capture, promotion, .. } => if capture is Some && promotion is Some {
            seq!['c', 'p']
        } else if promotion is Some {
            seq!['p']
        } else if capture is Some {
            seq!['c']
        } else {
            seq!['n']
        },
        _ => seq!['n'],
    }
}

/// The chess.js-style flag of a move.
pub fn move_flags(m: &ChessMove) -> (res: &'static str)
    requires
        m.well_formed(),
    ensures
        res@ == spec_move_flags(*m),
{
    proof {
        reveal_strlit("k");
        reveal_strlit("q");
        reveal_strlit("e");
        reveal_strlit("cp");
        reveal_strlit("p");
        reveal_strlit("c");
        reveal_strlit("n");
    }
    match m {
        ChessMove::Castle { king, rook } => {
            if square_file(*rook) > square_file(*king) {
                "k"
            } else {
                "q"
            }
        },
        ChessMove::EnPassant { .. } => "e",
        ChessMove::Normal { capture, promotion, .. } => {
            if capture.is_some() && promotion.is_some() {
                "cp"
            } else if promotion.is_some() {
                "p"
            } else if capture.is_some() {
                "c"
            } else {
                "n"
            }
        },
        _ => "n",
    }
}


/// Whether `m` is the move asked for by its shown origin and landing squares
/// (see `spec_move_from`, `spec_move_to`) and promotion: a move that does not
/// promote matches whatever piece is named; a promotion matches the named
/// piece, or a queen when none is named.
pub open spec fn matches_request(m: ChessMove, from: u8, to: u8, promo: Option<Role>) -> bool {
    &&& spec_move_from(m) == Some(from)
    &&& spec_move_to(m) == to as int
    &&& (m.spec_promotion() is None || m.spec_promotion() == Some(
        match promo {
            Some(r) => r,
            None => Role::Queen,
        },
    ))
}

/// `i` is the first move of the list that matches the request.
pub open spec fn is_first_match(moves: Seq<ChessMove>, i: int, from: u8, to: u8, promo: Option<Role>) -> bool {
    &&& 0 <= i < moves.len()
    &&& matches_request(moves[i], from, to, promo)
    &&& forall|j: int| 0 <= j < i ==> !matches_request(#[trigger] moves[j], from, to, promo)
}

/// The move picked for a request starts on the requested square, lands on
/// the requested square, and is no promotion to another piece than the one
/// asked for (a queen when none is); no earlier move of the list does all
/// three.
pub proof fn lemma_first_match_squares(moves: Seq<ChessMove>, i: int, from: u8, to: u8, promo: Option<Role>)
    requires
        is_first_match(moves, i, from, to, promo),
    ensures
        0 <= i < moves.len(),
        spec_move_from(moves[i]) == Some(from),
        spec_move_to(moves[i]) == to as int,
        moves[i].spec_promotion() matches Some(r) ==> r == (match promo {
            Some(p) => p,
            None => Role::Queen,
        }),
        forall|j: int|
            0 <= j < i && spec_move_from(#[trigger] moves[j]) == Some(from) && spec_move_to(moves[j]) == to as int
                ==> moves[j].spec_promotion() is Some && moves[j].spec_promotion() != Some(
                match promo {
                    Some(p) => p,
                    None => Role::Queen,
                },
            ),
{
}

/// No move of the list matches the request.
pub open spec fn no_match(moves: Seq<ChessMove>, from: u8, to: u8, promo: Option<Role>) -> bool {
    forall|j: int| 0 <= j < moves.len() ==> !matches_request(#[trigger] moves[j], from, to, promo)
}

/// Picks the legal move a user asks for: the first, in the given order, that
/// matches the request (see `matches_request`).
pub fn select_move(moves: &Vec<ChessMove>, from: u8, to: u8, promo: Option<Role>) -> (res: Option<usize>)
    requires
        forall|i: int| 0 <= i < moves.len() ==> (#[trigger] moves@[i]).well_formed(),
    ensures
        match res {
            Some(i) => is_first_match(moves@, i as int, from, to, promo),
            None => no_match(moves@, from, to, promo),
        },
{
    let wanted = match promo {
        Some(r) => r,
        None => Role::Queen,
    };
    let mut i: usize = 0;
    while i < moves.len()
        invariant
            i <= moves.len(),
            wanted == (match promo {
                Some(r) => r,
                None => Role::Queen,
            }),
            forall|k: int| 0 <= k < moves.len() ==> (#[trigger] moves@[k]).well_formed(),
            forall|j: int| 0 <= j < i ==> !matches_request(#[trigger] moves@[j], from, to, promo),
        decreases moves.len() - i,
    {
        let m = &moves[i];
        let p = m.promotion();
        if move_from(m) == Some(from) && move_to(m) == to && (p.is_none() || p == Some(wanted)) {
            return Some(i);
        }
        i = i + 1;
    }
    None
}

/// The piece kind named by the first character of a promotion request, if
/// any (in either case).
pub open spec fn spec_promotion_request(text: Seq<char>) -> Option<Role> {
    if text.len() > 0 {
        crate::pieces::spec_role_from_char(text[0])
    } else {
        None
    }
}

/// The piece kind named by the first character of a promotion request.
pub fn promotion_request(text: &str) -> (res: Option<Role>)
    ensures
        res == spec_promotion_request(text@),
{
    if text.unicode_len() > 0 {
        crate::pieces::role_from_char(text.get_char(0))
    } else {
        None
    }
}

} // verus!
