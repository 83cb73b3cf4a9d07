//! Squares as indices 0..64 (a1 = 0, b1 = 1, ..., h8 = 63) and their names.

use vstd::prelude::*;

verus! {

/// File letters, a to h.
pub open spec fn file_chars() -> Seq<char> {
    seq!['a', 'b', 'c', 'd', 'e', 'f', 'g', 'h']
}

/// Rank digits, 1 to 8.
pub open spec fn rank_chars() -> Seq<char> {
    seq!['1', '2', '3', '4', '5', '6', '7', '8']
}

/// The file (0 = a ... 7 = h) of a square index.
pub open spec fn spec_file(sq: int) -> int {
    sq % 8
}

/// The rank (0 = first ... 7 = eighth) of a square index.
pub open spec fn spec_rank(sq: int) -> int {
    sq / 8
}

/// The name of a square, such as "e4".
pub open spec fn square_text(sq: int) -> Seq<char> {
    seq![file_chars()[spec_file(sq)], rank_chars()[spec_rank(sq)]]
}

/// The index of `c` in `chars`, if it occurs there.
pub open spec fn char_index(chars: Seq<char>, c: char) -> Option<int> {
    if chars.contains(c) {
        Some(chars.index_of(c))
    } else {
        None
    }
}

/// The square named by `s`: exactly a file letter a-h followed by a rank
/// digit 1-8; `None` for any other text.
pub open spec fn spec_parse_square(s: Seq<char>) -> Option<u8> {
    if s.len() == 2 {
        match (char_index(file_chars(), s[0]), char_index(rank_chars(), s[1])) {
            (Some(f), Some(r)) => Some((r * 8 + f) as u8),
            _ => None,
        }
    } else {
        None
    }
}

/// The file of a square.
pub fn square_file(sq: u8) -> (f: u8)
    requires
        sq < 64,
    ensures
        f == spec_file(sq as int),
        f < 8,
{
    sq % 8
}

/// The rank of a square.
pub fn square_rank(sq: u8) -> (r: u8)
    requires
        sq < 64,
    ensures
        r == spec_rank(sq as int),
        r < 8,
{
    sq / 8
}

/// The square on `file` and `rank`.
pub fn square_at(file: u8, rank: u8) -> (sq: u8)
    requires
        file < 8,
        rank < 8,
    ensures
        sq == rank * 8 + file,
        spec_file(sq as int) == file,
        spec_rank(sq as int) == rank,
        sq < 64,
{
    rank * 8 + file
}

fn file_index(c: char) -> (res: Option<u8>)
    ensures
        match char_index(file_chars(), c) {
            Some(i) => res == Some(i as u8),
            None => res is None,
        },
{
    let ghost fc = file_chars();
    assert(fc[0] == 'a' && fc[1] == 'b' && fc[2] == 'c' && fc[3] == 'd');
    assert(fc[4] == 'e' && fc[5] == 'f' && fc[6] == 'g' && fc[7] == 'h');
    let res = match c {
        'a' => Some(0u8),
        'b' => Some(1u8),
        'c' => Some(2u8),
        'd' => Some(3u8),
        'e' => Some(4u8),
        'f' => Some(5u8),
        'g' => Some(6u8),
        'h' => Some(7u8),
        _ => None,
    };
    proof {
        match res {
            Some(i) => {
                assert(fc.contains(c));
                assert(fc.index_of(c) == i) by {
                    fc.index_of_first_ensures(c);
                }
            },
            None => {
                assert(!fc.contains(c));
            },
        }
    }
    res
}

fn rank_index(c: char) -> (res: Option<u8>)
    ensures
        match char_index(rank_chars(), c) {
            Some(i) => res == Some(i as u8),
            None => res is None,
        },
{
    let ghost rc = rank_chars();
    assert(rc[0] == '1' && rc[1] == '2' && rc[2] == '3' && rc[3] == '4');
    assert(rc[4] == '5' && rc[5] == '6' && rc[6] == '7' && rc[7] == '8');
    let res = match c {
        '1' => Some(0u8),
        '2' => Some(1u8),
        '3' => Some(2u8),
        '4' => Some(3u8),
        '5' => Some(4u8),
        '6' => Some(5u8),
        '7' => Some(6u8),
        '8' => Some(7u8),
        _ => None,
    };
    proof {
        match res {
            Some(i) => {
                assert(rc.contains(c));
                assert(rc.index_of(c) == i) by {
                    rc.index_of_first_ensures(c);
                }
            },
            None => {
                assert(!rc.contains(c));
            },
        }
    }
    res
}

/// Parses a square name such as "e4" (lowercase file, then rank).
pub fn parse_square(s: &str) -> (res: Option<u8>)
    ensures
        res == spec_parse_square(s@),
        res matches Some(sq) ==> sq < 64,
{
    let n = s.unicode_len();
    if n != 2 {
        return None;
    }
    let f = file_index(s.get_char(0));
    let r = rank_index(s.get_char(1));
    match (f, r) {
        (Some(f), Some(r)) => Some(square_at(f, r)),
        _ => None,
    }
}

/// The letter of a file, as text.
fn file_str(f: u8) -> (s: &'static str)
    requires
        f < 8,
    ensures
        s@ == seq![file_chars()[f as int]],
{
    if f == 0 {
        proof { reveal_strlit("a"); }
        "a"
    } else if f == 1 {
        proof { reveal_strlit("b"); }
        "b"
    } else if f == 2 {
        proof { reveal_strlit("c"); }
        "c"
    } else if f == 3 {
        proof { reveal_strlit("d"); }
        "d"
    } else if f == 4 {
        proof { reveal_strlit("e"); }
        "e"
    } else if f == 5 {
        proof { reveal_strlit("f"); }
        "f"
    } else if f == 6 {
        proof { reveal_strlit("g"); }
        "g"
    } else {
        proof { reveal_strlit("h"); }
        "h"
    }
}

/// The digit of a rank, as text.
fn rank_str(r: u8) -> (s: &'static str)
    requires
        r < 8,
    ensures
        s@ == seq![rank_chars()[r as int]],
{
    if r == 0 {
        proof { reveal_strlit("1"); }
        "1"
    } else if r == 1 {
        proof { reveal_strlit("2"); }
        "2"
    } else if r == 2 {
        proof { reveal_strlit("3"); }
        "3"
    } else if r == 3 {
        proof { reveal_strlit("4"); }
        "4"
    } else if r == 4 {
        proof { reveal_strlit("5"); }
        "5"
    } else if r == 5 {
        proof { reveal_strlit("6"); }
        "6"
    } else if r == 6 {
        proof { reveal_strlit("7"); }
        "7"
    } else {
        proof { reveal_strlit("8"); }
        "8"
    }
}

/// Appends the name of a square to `out`.
pub fn push_square_name(out: &mut String, sq: u8)
    requires
        sq < 64,
    ensures
        final(out)@ == old(out)@ + square_text(sq as int),
{
    out.append(file_str(square_file(sq)));
    out.append(rank_str(square_rank(sq)));
}

/// The name of a square, such as "e4".
pub fn square_name(sq: u8) -> (s: String)
    requires
        sq < 64,
    ensures
        s@ == square_text(sq as int),
{
    let mut s = String::new();
    push_square_name(&mut s, sq);
    s
}

/// Reading a square's name gives the square back.
pub proof fn lemma_square_name_round_trip(sq: u8)
    requires
        sq < 64,
    ensures
        spec_parse_square(square_text(sq as int)) == Some(sq),
{
    let t = square_text(sq as int);
    let f = spec_file(sq as int);
    let r = spec_rank(sq as int);
    let fc = file_chars();
    let rc = rank_chars();
    assert(fc.no_duplicates());
    assert(rc.no_duplicates());
    assert(fc.contains(t[0]));
    assert(rc.contains(t[1]));
    fc.index_of_first_ensures(t[0]);
    rc.index_of_first_ensures(t[1]);
}

} // verus!
