//! Move ordering: most valuable victim, least valuable aggressor, searched
//! first; moves of equal promise keep the order they were generated in.

use vstd::prelude::*;
use shakmaty::Board;

use crate::moves::ChessMove;
use crate::outside::{board_contents, board_piece_at};
use crate::pieces::{Piece, Role, piece_value, spec_piece_from_codes, spec_piece_value};

verus! {

/// The promise of a move: a capture scores 1000 plus the victim's value less
/// a tenth of the capturing piece's value (a pawn when the origin square is
/// empty), and a promotion adds 900.
pub open spec fn spec_order_score(m: ChessMove, attacker: Option<Piece>) -> int {
    let capture_part = match m.spec_capture() {
        Some(victim) => {
            let a = match attacker {
                Some(p) => p.role,
                None => Role::Pawn,
            };
            1000 + (spec_piece_value(victim) - spec_piece_value(a) / 10)
        },
        None => 0,
    };
    capture_part + if m.spec_promotion() is Some {
        900int
    } else {
        0int
    }
}

/// The promise of a move, given the piece on its origin square.
pub fn order_score(m: &ChessMove, attacker: Option<Piece>) -> (s: i32)
    ensures
        s == spec_order_score(*m, attacker),
        -1000 <= s <= 22_000,
{
    let mut score: i32 = 0;
    match m.capture() {
        Some(victim) => {
            let attacker_role = match attacker {
                Some(p) => p.role,
                None => Role::Pawn,
            };
            let victim_val = piece_value(victim);
            let attacker_val = piece_value(attacker_role);
            score = score + 1000 + (victim_val - attacker_val / 10);
        },
        None => {},
    }
    if m.is_promotion() {
        score = score + 900;
    }
    score
}

/// The piece standing on the origin square of a move.
pub open spec fn attacker_on(contents: Map<u8, (u8, u8)>, m: ChessMove) -> Option<Piece> {
    match m.spec_origin() {
        Some(f) => if contents.contains_key(f) {
            spec_piece_from_codes(contents[f])
        } else {
            None
        },
        None => None,
    }
}

/// The promise of each move on a board with the given contents.
pub open spec fn order_keys(contents: Map<u8, (u8, u8)>, moves: Seq<ChessMove>) -> Seq<int> {
    moves.map_values(|m: ChessMove| spec_order_score(m, attacker_on(contents, m)))
}

/// Index `a` is searched before index `b`: a higher key, or an equal key and
/// an earlier place.
pub open spec fn goes_before(keys: Seq<int>, a: int, b: int) -> bool {
    keys[a] > keys[b] || (keys[a] == keys[b] && a < b)
}

/// `order` lists every index of `keys` exactly once, highest key first and,
/// among equal keys, in their given order.
pub open spec fn is_stable_descending_order(keys: Seq<int>, order: Seq<usize>) -> bool {
    &&& order.len() == keys.len()
    &&& forall|i: int| 0 <= i < order.len() ==> #[trigger] order[i] < keys.len()
    &&& forall|x: usize| x < keys.len() ==> #[trigger] order.contains(x)
    &&& forall|i: int, j: int|
        0 <= i < j < order.len() ==> goes_before(keys, #[trigger] order[i] as int, #[trigger] order[j] as int)
}

/// A stable descending order lists every index exactly once: it is a
/// permutation of the indices, so the search neither skips nor repeats a move.
pub proof fn lemma_stable_order_distinct(keys: Seq<int>, order: Seq<usize>)
    requires
        is_stable_descending_order(keys, order),
    ensures
        forall|i: int, j: int| 0 <= i < j < order.len() ==> order[i] != order[j],
{
    assert forall|i: int, j: int| 0 <= i < j < order.len() implies order[i] != order[j] by {
        assert(goes_before(keys, order[i] as int, order[j] as int));
    }
}

proof fn lemma_orders_agree_upto(keys: Seq<int>, o1: Seq<usize>, o2: Seq<usize>, i: int)
    requires
        is_stable_descending_order(keys, o1),
        is_stable_descending_order(keys, o2),
        0 <= i <= o1.len(),
    ensures
        forall|j: int| 0 <= j < i ==> o1[j] == o2[j],
    decreases i,
{
    if i > 0 {
        lemma_orders_agree_upto(keys, o1, o2, i - 1);
        lemma_stable_order_distinct(keys, o1);
        lemma_stable_order_distinct(keys, o2);
        let k = i - 1;
        let x = o1[k];
        let y = o2[k];
        if x != y {
            assert(o1[k] < keys.len());
            assert(o2[k] < keys.len());
            assert(o2.contains(x));
            assert(o1.contains(y));
            let p = choose|p: int| 0 <= p < o2.len() && o2[p] == x;
            let q = choose|q: int| 0 <= q < o1.len() && o1[q] == y;
            if p < k {
                assert(o1[p] == o2[p]);
            }
            if q < k {
                assert(o1[q] == o2[q]);
            }
            assert(p > k && q > k);
            assert(goes_before(keys, o1[k] as int, o1[q] as int));
            assert(goes_before(keys, o2[k] as int, o2[p] as int));
        }
    }
}

/// There is only one stable descending order of a list of keys.
pub proof fn lemma_stable_order_unique(keys: Seq<int>, o1: Seq<usize>, o2: Seq<usize>)
    requires
        is_stable_descending_order(keys, o1),
        is_stable_descending_order(keys, o2),
    ensures
        o1 == o2,
{
    lemma_orders_agree_upto(keys, o1, o2, o1.len() as int);
    assert(o1 =~= o2);
}

/// The stable descending order of a list of keys (see
/// `is_stable_descending_order`; there is exactly one).
pub open spec fn spec_stable_order(keys: Seq<int>) -> Seq<usize> {
    choose|o: Seq<usize>| is_stable_descending_order(keys, o)
}

/// The stable descending order of `keys`: the indices, highest key first,
/// equal keys in their given order.
pub fn stable_order(keys: &Vec<i32>) -> (order: Vec<usize>)
    ensures
        is_stable_descending_order(keys@.map_values(|k: i32| k as int), order@),
{
    let ghost ks = keys@.map_values(|k: i32| k as int);
    let n = keys.len();
    let mut order: Vec<usize> = Vec::new();
    let mut i: usize = 0;
    while i < n
        invariant
            n == keys.len(),
            ks == keys@.map_values(|k: i32| k as int),
            i <= n,
            order.len() == i,
            forall|a: int| 0 <= a < order.len() ==> #[trigger] order@[a] < i,
            forall|x: usize| x < i ==> #[trigger] order@.contains(x),
            forall|a: int, b: int|
                0 <= a < b < order.len() ==> goes_before(ks, #[trigger] order@[a] as int, #[trigger] order@[b] as int),
        decreases n - i,
    {
        let ki = keys[i];
        let mut p: usize = 0;
        while p < order.len() && !(ki > keys[order[p]])
            invariant
                n == keys.len(),
                ks == keys@.map_values(|k: i32| k as int),
                i < n,
                ki == keys@[i as int],
                order.len() == i,
                p <= order.len(),
                forall|a: int| 0 <= a < order.len() ==> #[trigger] order@[a] < i,
                forall|a: int| 0 <= a < p ==> ks[#[trigger] order@[a] as int] >= ks[i as int],
            decreases order.len() - p,
        {
            p = p + 1;
        }
        let ghost old_order = order@;
        order.insert(p, i);
        proof {
            assert(order@ == old_order.insert(p as int, i));
            assert forall|x: usize| x < i + 1 implies #[trigger] order@.contains(x) by {
                if x == i {
                    assert(order@[p as int] == i);
                } else {
                    assert(old_order.contains(x));
                    let a = choose|a: int| 0 <= a < old_order.len() && old_order[a] == x;
                    if a < p {
                        assert(order@[a] == x);
                    } else {
                        assert(order@[a + 1] == x);
                    }
                }
            }
            assert forall|a: int| 0 <= a < order.len() implies #[trigger] order@[a] < i + 1 by {
                if a < p {
                    assert(order@[a] == old_order[a]);
                } else if a > p {
                    assert(order@[a] == old_order[a - 1]);
                }
            }
            assert forall|a: int, b: int| 0 <= a < b < order.len() implies goes_before(
                ks,
                #[trigger] order@[a] as int,
                #[trigger] order@[b] as int,
            ) by {
                if b < p {
                    assert(order@[a] == old_order[a] && order@[b] == old_order[b]);
                } else if b == p {
                    assert(order@[a] == old_order[a]);
                    assert(ks[old_order[a] as int] >= ks[i as int]);
                } else if a == p {
                    assert(order@[b] == old_order[b - 1]);
                    assert(ks[i as int] > ks[old_order[p as int] as int]);
                    if b - 1 > p {
                        assert(goes_before(ks, old_order[p as int] as int, old_order[b - 1] as int));
                    }
                } else if a < p {
                    assert(order@[a] == old_order[a] && order@[b] == old_order[b - 1]);
                } else {
                    assert(order@[a] == old_order[a - 1] && order@[b] == old_order[b - 1]);
                }
            }
        }
        i = i + 1;
    }
    order
}

/// The order in which the search tries `moves` on a board: by descending
/// promise (`order_keys`), ties in generation order.
pub fn move_order(board: &Board, moves: &Vec<ChessMove>) -> (order: Vec<usize>)
    requires
        forall|i: int| 0 <= i < moves.len() ==> (#[trigger] moves@[i]).well_formed(),
    ensures
        is_stable_descending_order(order_keys(board_contents(*board), moves@), order@),
        order@ == spec_stable_order(order_keys(board_contents(*board), moves@)),
{
    let ghost contents = board_contents(*board);
    let mut keys: Vec<i32> = Vec::new();
    let n = moves.len();
    let mut i: usize = 0;
    while i < n
        invariant
            n == moves.len(),
            contents == board_contents(*board),
            forall|k: int| 0 <= k < moves.len() ==> (#[trigger] moves@[k]).well_formed(),
            i <= n,
            keys.len() == i,
            forall|k: int| 0 <= k < i ==> #[trigger] keys@[k] as int == spec_order_score(moves@[k], attacker_on(contents, moves@[k])),
        decreases n - i,
    {
        let m = &moves[i];
        let attacker = if m.is_capture() {
            match m.origin() {
                Some(from) => match board_piece_at(board, from) {
                    Some(codes) => Piece::from_codes(codes),
                    None => None,
                },
                None => None,
            }
        } else {
            None
        };
        proof {
            if m.spec_capture() is Some {
                assert(attacker == attacker_on(contents, *m));
            }
        }
        let s = order_score(m, attacker);
        assert(s == spec_order_score(*m, attacker_on(contents, *m)));
        let ghost before = keys@;
        keys.push(s);
        assert(forall|k: int| 0 <= k < i ==> keys@[k] == before[k]);
        i = i + 1;
    }
    assert(keys@.map_values(|k: i32| k as int) =~= order_keys(contents, moves@));
    let order = stable_order(&keys);
    proof {
        let ks = order_keys(contents, moves@);
        lemma_stable_order_unique(ks, order@, spec_stable_order(ks));
    }
    order
}

} // verus!
