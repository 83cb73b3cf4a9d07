//! Piece kinds, colours, their letters, codes and material values.

use vstd::prelude::*;

verus! {

/// The kind of a chess piece.
#[derive(Clone, Copy, Debug, PartialEq, Eq, Structural)]
pub enum Role {
    Pawn,
    Knight,
    Bishop,
    Rook,
    Queen,
    King,
}

/// The side a piece belongs to.
#[derive(Clone, Copy, Debug, PartialEq, Eq, Structural)]
pub enum Color {
    White,
    Black,
}

/// A coloured piece.
#[derive(Clone, Copy, Debug, PartialEq, Eq, Structural)]
pub struct Piece {
    pub role: Role,
    pub color: Color,
}

/// The piece kind that the rules library numbers `code` (1 = pawn ... 6 = king).
pub open spec fn spec_role_from_code(code: u8) -> Option<Role> {
    if code == 1 {
        Some(Role::Pawn)
    } else if code == 2 {
        Some(Role::Knight)
    } else if code == 3 {
        Some(Role::Bishop)
    } else if code == 4 {
        Some(Role::Rook)
    } else if code == 5 {
        Some(Role::Queen)
    } else if code == 6 {
        Some(Role::King)
    } else {
        None
    }
}

/// The colour that the rules library numbers `code` (0 = black, 1 = white).
pub open spec fn spec_color_from_code(code: u8) -> Option<Color> {
    if code == 1 {
        Some(Color::White)
    } else if code == 0 {
        Some(Color::Black)
    } else {
        None
    }
}

/// A piece from its (role code, colour code) pair.
pub open spec fn spec_piece_from_codes(codes: (u8, u8)) -> Option<Piece> {
    match (spec_role_from_code(codes.0), spec_color_from_code(codes.1)) {
        (Some(role), Some(color)) => Some(Piece { role, color }),
        _ => None,
    }
}

impl Role {
    /// Decodes a piece kind from the rules library's numbering.
    pub fn from_code(code: u8) -> (res: Option<Role>)
        ensures
            res == spec_role_from_code(code),
    {
        match code {
            1 => Some(Role::Pawn),
            2 => Some(Role::Knight),
            3 => Some(Role::Bishop),
            4 => Some(Role::Rook),
            5 => Some(Role::Queen),
            6 => Some(Role::King),
            _ => None,
        }
    }
}

impl Color {
    /// Decodes a colour from the rules library's numbering.
    pub fn from_code(code: u8) -> (res: Option<Color>)
        ensures
            res == spec_color_from_code(code),
    {
        match code {
            1 => Some(Color::White),
            0 => Some(Color::Black),
            _ => None,
        }
    }
}

impl Piece {
    /// Decodes a piece from its (role code, colour code) pair.
    pub fn from_codes(codes: (u8, u8)) -> (res: Option<Piece>)
        ensures
            res == spec_piece_from_codes(codes),
    {
        match (Role::from_code(codes.0), Color::from_code(codes.1)) {
            (Some(role), Some(color)) => Some(Piece { role, color }),
            _ => None,
        }
    }
}

/// The lowercase English letter of a piece kind.
pub open spec fn spec_role_char(role: Role) -> char {
    match role {
        Role::Pawn => 'p',
        Role::Knight => 'n',
        Role::Bishop => 'b',
        Role::Rook => 'r',
        Role::Queen => 'q',
        Role::King => 'k',
    }
}

/// The piece kind named by a letter, in either case.
pub open spec fn spec_role_from_char(c: char) -> Option<Role> {
    if c == 'p' || c == 'P' {
        Some(Role::Pawn)
    } else if c == 'n' || c == 'N' {
        Some(Role::Knight)
    } else if c == 'b' || c == 'B' {
        Some(Role::Bishop)
    } else if c == 'r' || c == 'R' {
        Some(Role::Rook)
    } else if c == 'q' || c == 'Q' {
        Some(Role::Queen)
    } else if c == 'k' || c == 'K' {
        Some(Role::King)
    } else {
        None
    }
}

/// The lowercase English letter of a piece kind.
pub fn role_to_char(role: Role) -> (c: char)
    ensures
        c == spec_role_char(role),
{
    match role {
        Role::Pawn => 'p',
        Role::Knight => 'n',
        Role::Bishop => 'b',
        Role::Rook => 'r',
        Role::Queen => 'q',
        Role::King => 'k',
    }
}

/// The piece kind named by a letter, in either case; `None` for any other
/// character.
pub fn role_from_char(c: char) -> (res: Option<Role>)
    ensures
        res == spec_role_from_char(c),
{
    match c {
        'p' | 'P' => Some(Role::Pawn),
        'n' | 'N' => Some(Role::Knight),
        'b' | 'B' => Some(Role::Bishop),
        'r' | 'R' => Some(Role::Rook),
        'q' | 'Q' => Some(Role::Queen),
        'k' | 'K' => Some(Role::King),
        _ => None,
    }
}

/// Reading a piece kind's own letter gives the piece kind back.
pub proof fn lemma_role_char_round_trip(role: Role)
    ensures
        spec_role_from_char(spec_role_char(role)) == Some(role),
{
}

/// The one-letter text of a piece kind.
pub fn role_str(role: Role) -> (s: &'static str)
    ensures
        s@ == seq![spec_role_char(role)],
{
    match role {
        Role::Pawn => {
            proof {
                reveal_strlit("p");
            }
            "p"
        },
        Role::Knight => {
            proof {
                reveal_strlit("n");
            }
            "n"
        },
        Role::Bishop => {
            proof {
                reveal_strlit("b");
            }
            "b"
        },
        Role::Rook => {
            proof {
                reveal_strlit("r");
            }
            "r"
        },
        Role::Queen => {
            proof {
                reveal_strlit("q");
            }
            "q"
        },
        Role::King => {
            proof {
                reveal_strlit("k");
            }
            "k"
        },
    }
}

/// Material value of a piece kind, in centipawns.
pub open spec fn spec_piece_value(role: Role) -> int {
    match role {
        Role::Pawn => 100,
        Role::Knight => 320,
        Role::Bishop => 330,
        Role::Rook => 500,
        Role::Queen => 900,
        Role::King => 20_000,
    }
}

/// Material value of a piece kind, in centipawns.
pub fn piece_value(role: Role) -> (v: i32)
    ensures
        v == spec_piece_value(role),
{
    match role {
        Role::Pawn => 100,
        Role::Knight => 320,
        Role::Bishop => 330,
        Role::Rook => 500,
        Role::Queen => 900,
        Role::King => 20_000,
    }
}

} // verus!
