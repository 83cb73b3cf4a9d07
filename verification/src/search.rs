//! Alpha-beta minimax with a transposition table, quiescence search over
//! captures, and mate-distance scoring.

use vstd::prelude::*;
use std::collections::HashMap;
use shakmaty::{Chess, Move};

use crate::eval::{eval_of, evaluate};
use crate::moves::{ChessMove, spec_from_raw};
use crate::ordering::{move_order, order_keys, spec_stable_order};
use crate::outside::{
    board_contents, board_of, is_check, is_insufficient_material, legal_moves, move_record, play,
    play_of, position_board, turn_of,
    check_of, insufficient_of, legal_move_list, move_fields, san_plus_of, san_plus_text,
    side_to_move, zobrist_key, zobrist_of,
};

verus! {

broadcast use vstd::std_specs::hash::group_hash_axioms;

/// The score of a mate, before the distance to it is taken off.
pub const CHECKMATE_VAL: i32 = 100_000;

/// The transposition table is emptied before a search once it holds more
/// entries than this.
pub const MAX_TT_ENTRIES: usize = 100_000;

/// How many plies of captures the quiescence search follows at most.
pub const QUIESCENCE_PLIES: u32 = 4;

/// The score of a checkmated node `ply` plies from the root: if the side to
/// maximise is mated the score is `-CHECKMATE_VAL + ply`, otherwise
/// `CHECKMATE_VAL - ply`, so nearer mates weigh more.
pub open spec fn spec_mate_score(maximizing: bool, ply: int) -> int {
    if maximizing {
        -CHECKMATE_VAL + ply
    } else {
        CHECKMATE_VAL - ply
    }
}

/// The score of a checkmated node `ply` plies from the root.
pub fn mate_score(maximizing: bool, ply: i32) -> (s: i32)
    requires
        ply >= 0,
    ensures
        s == spec_mate_score(maximizing, ply as int),
{
    if maximizing {
        -CHECKMATE_VAL + ply
    } else {
        CHECKMATE_VAL - ply
    }
}

/// Mate distance: the winning side scores a nearer mate strictly higher (for
/// the maximiser) or strictly lower (for the minimiser) than a farther one.
pub proof fn lemma_nearer_mate_preferred(near: int, far: int)
    requires
        0 <= near < far,
    ensures
        spec_mate_score(false, near) > spec_mate_score(false, far),
        spec_mate_score(true, near) < spec_mate_score(true, far),
{
}

/// The running state of a node's search: the best score so far and the
/// alpha-beta window.
#[derive(Clone, Copy, Debug, PartialEq, Eq, Structural)]
pub struct Window {
    pub best: i32,
    pub alpha: i32,
    pub beta: i32,
}

/// The larger of two integers.
pub open spec fn max_i(a: int, b: int) -> int {
    if a >= b { a } else { b }
}

/// The smaller of two integers.
pub open spec fn min_i(a: int, b: int) -> int {
    if a <= b { a } else { b }
}

/// Takes a child's score into account: the maximiser keeps the larger score
/// and raises alpha to it, the minimiser keeps the smaller and lowers beta.
pub open spec fn spec_fold_child(maximizing: bool, w: Window, val: i32) -> Window {
    if maximizing {
        let best = max_i(w.best as int, val as int) as i32;
        Window { best, alpha: max_i(w.alpha as int, best as int) as i32, beta: w.beta }
    } else {
        let best = min_i(w.best as int, val as int) as i32;
        Window { best, alpha: w.alpha, beta: min_i(w.beta as int, best as int) as i32 }
    }
}

/// Takes a child's score into account (see `spec_fold_child`).
pub fn fold_child(maximizing: bool, w: Window, val: i32) -> (r: Window)
    ensures
        r == spec_fold_child(maximizing, w, val),
{
    let mut r = w;
    if maximizing {
        if val > r.best {
            r.best = val;
        }
        if r.best > r.alpha {
            r.alpha = r.best;
        }
    } else {
        if val < r.best {
            r.best = val;
        }
        if r.best < r.beta {
            r.beta = r.best;
        }
    }
    r
}

/// The alpha-beta window only narrows as children are taken into account.
pub proof fn lemma_window_narrows(maximizing: bool, w: Window, val: i32)
    ensures
        spec_fold_child(maximizing, w, val).alpha >= w.alpha,
        spec_fold_child(maximizing, w, val).beta <= w.beta,
        maximizing ==> spec_fold_child(maximizing, w, val).best >= val,
        !maximizing ==> spec_fold_child(maximizing, w, val).best <= val,
{
}

/// What the static evaluation decides at a quiescence node before any
/// capture is tried.
#[derive(Clone, Copy, Debug, PartialEq, Eq, Structural)]
pub enum StandPat {
    /// Answer this score at once.
    Answer(i32),
    /// Search the captures with this (alpha, beta) window.
    Search(i32, i32),
}

/// The maximiser answers beta at once when standing pat already reaches it,
/// the minimiser answers alpha when standing pat already falls to it;
/// otherwise the window is narrowed to the standing score.
pub open spec fn spec_stand_pat(maximizing: bool, standby: i32, alpha: i32, beta: i32) -> StandPat {
    if maximizing {
        if standby >= beta {
            StandPat::Answer(beta)
        } else {
            StandPat::Search(max_i(alpha as int, standby as int) as i32, beta)
        }
    } else {
        if standby <= alpha {
            StandPat::Answer(alpha)
        } else {
            StandPat::Search(alpha, min_i(beta as int, standby as int) as i32)
        }
    }
}

/// What the static evaluation `standby` decides at a quiescence node (see
/// `spec_stand_pat`).
pub fn stand_pat(maximizing: bool, standby: i32, alpha: i32, beta: i32) -> (r: StandPat)
    ensures
        r == spec_stand_pat(maximizing, standby, alpha, beta),
{
    if maximizing {
        if standby >= beta {
            return StandPat::Answer(beta);
        }
        let alpha = if standby > alpha { standby } else { alpha };
        StandPat::Search(alpha, beta)
    } else {
        if standby <= alpha {
            return StandPat::Answer(alpha);
        }
        let beta = if standby < beta { standby } else { beta };
        StandPat::Search(alpha, beta)
    }
}

/// Where a game stands, from three facts about the position.
#[derive(Clone, Copy, Debug, PartialEq, Eq, Structural)]
pub struct GameStatus {
    /// No legal move is left, or neither side can mate.
    pub over: bool,
    /// In check with no legal move.
    pub checkmate: bool,
    /// Not in check, with no legal move.
    pub stalemate: bool,
}

/// Where a game of standard chess stands: it is over when the side to move has
/// no legal move or neither side has mating material; mate is check with no
/// legal move, stalemate no legal move without check.
pub fn game_status(no_legal_moves: bool, in_check: bool, insufficient_material: bool) -> (s: GameStatus)
    ensures
        s.over == (no_legal_moves || insufficient_material),
        s.checkmate == (in_check && no_legal_moves),
        s.stalemate == (!in_check && no_legal_moves),
{
    GameStatus {
        over: no_legal_moves || insufficient_material,
        checkmate: in_check && no_legal_moves,
        stalemate: !in_check && no_legal_moves,
    }
}

/// Whether a game of standard chess is drawn: neither side can mate, the
/// side to move is stalemated, or 100 half-moves have passed without a capture
/// or a pawn move.
pub fn is_draw(insufficient_material: bool, stalemate: bool, halfmove_clock: u32) -> (res: bool)
    ensures
        res == (insufficient_material || stalemate || halfmove_clock >= 100),
{
    insufficient_material || stalemate || halfmove_clock >= 100
}

/// The cached score of a position searched at least `depth` plies deep.
pub open spec fn spec_table_probe(table: Map<u64, (i32, u32)>, key: u64, depth: u32) -> Option<i32> {
    if table.contains_key(key) && table[key].1 >= depth {
        Some(table[key].0)
    } else {
        None
    }
}

/// Looks up a position in the transposition table: its score when it was
/// searched at least `depth` plies deep.
pub fn table_probe(table: &HashMap<u64, (i32, u32)>, key: u64, depth: u32) -> (res: Option<i32>)
    ensures
        res == spec_table_probe(table@, key, depth),
{
    match table.get(&key) {
        Some(entry) => {
            if entry.1 >= depth {
                Some(entry.0)
            } else {
                None
            }
        },
        None => None,
    }
}

/// Index `i` holds the first best value for the side to move: the highest
/// for White, the lowest for Black.
pub open spec fn is_first_best(white: bool, vals: Seq<i32>, i: int) -> bool {
    &&& 0 <= i < vals.len()
    &&& forall|j: int| 0 <= j < vals.len() ==> if white {
        vals[j] <= vals[i]
    } else {
        vals[j] >= vals[i]
    }
    &&& forall|j: int| 0 <= j < i ==> vals[j] != vals[i]
}

/// The first best of the scores of the moves tried at the root, or `None`
/// when no move was tried.
pub fn choose_best(white: bool, vals: &Vec<i32>) -> (res: Option<usize>)
    ensures
        match res {
            Some(i) => is_first_best(white, vals@, i as int),
            None => vals.len() == 0,
        },
{
    if vals.len() == 0 {
        return None;
    }
    let mut best: usize = 0;
    let mut k: usize = 1;
    while k < vals.len()
        invariant
            1 <= k <= vals.len(),
            best < k,
            forall|j: int| 0 <= j < k ==> if white {
                vals@[j] <= vals@[best as int]
            } else {
                vals@[j] >= vals@[best as int]
            },
            forall|j: int| 0 <= j < best ==> vals@[j] != vals@[best as int],
        decreases vals.len() - k,
    {
        if (white && vals[k] > vals[best]) || (!white && vals[k] < vals[best]) {
            best = k;
        }
        k = k + 1;
    }
    Some(best)
}

/// The moves that the quiescence search follows: captures (en passant
/// included), or every move when the side to move is in check.
pub open spec fn is_tactical(m: ChessMove, in_check: bool) -> bool {
    m.spec_capture() is Some || m is EnPassant || in_check
}

/// The indices of the tactical moves, in their given order.
pub open spec fn tactical_indices(moves: Seq<ChessMove>, in_check: bool, n: nat) -> Seq<usize>
    decreases n,
{
    if n == 0 {
        Seq::empty()
    } else {
        let prev = tactical_indices(moves, in_check, (n - 1) as nat);
        if is_tactical(moves[n - 1], in_check) {
            prev.push((n - 1) as usize)
        } else {
            prev
        }
    }
}

proof fn lemma_tactical_indices_bounded(moves: Seq<ChessMove>, in_check: bool, n: nat)
    ensures
        forall|i: int| 0 <= i < tactical_indices(moves, in_check, n).len()
            ==> #[trigger] tactical_indices(moves, in_check, n)[i] < n,
    decreases n,
{
    if n > 0 {
        lemma_tactical_indices_bounded(moves, in_check, (n - 1) as nat);
        let prev = tactical_indices(moves, in_check, (n - 1) as nat);
        let cur = tactical_indices(moves, in_check, n);
        assert forall|i: int| 0 <= i < cur.len() implies #[trigger] cur[i] < n by {
            if i < prev.len() {
                assert(cur[i] == prev[i]);
            }
        }
    }
}

/// The indices of the moves the quiescence search follows, in order.
pub fn tactical_moves(moves: &Vec<ChessMove>, in_check: bool) -> (res: Vec<usize>)
    ensures
        res@ == tactical_indices(moves@, in_check, moves.len() as nat),
        forall|i: int| 0 <= i < res.len() ==> #[trigger] res@[i] < moves.len(),
{
    let mut res: Vec<usize> = Vec::new();
    let mut i: usize = 0;
    while i < moves.len()
        invariant
            i <= moves.len(),
            res@ == tactical_indices(moves@, in_check, i as nat),
        decreases moves.len() - i,
    {
        let m = &moves[i];
        if m.is_capture() || m.is_en_passant() || in_check {
            res.push(i);
        }
        i = i + 1;
    }
    proof {
        lemma_tactical_indices_bounded(moves@, in_check, moves.len() as nat);
    }
    res
}

/// A move of the rules library as a plain move.
pub open spec fn move_of(m: Move) -> ChessMove {
    spec_from_raw(move_fields(m))
}

/// The legal moves of a position as plain moves, in generation order.
pub open spec fn legal_infos(pos: Chess) -> Seq<ChessMove> {
    legal_move_list(pos).map_values(|m: Move| move_of(m))
}

/// Where a position stands (see `game_status`).
pub open spec fn status_of(pos: Chess) -> GameStatus {
    let no_moves = legal_move_list(pos).len() == 0;
    GameStatus {
        over: no_moves || insufficient_of(pos),
        checkmate: check_of(pos) && no_moves,
        stalemate: !check_of(pos) && no_moves,
    }
}

/// The plain description of each move of a list.
pub fn move_records(moves: &Vec<Move>) -> (infos: Vec<ChessMove>)
    ensures
        infos@ == moves@.map_values(|m: Move| move_of(m)),
        forall|i: int| 0 <= i < infos.len() ==> (#[trigger] infos@[i]).well_formed(),
{
    let mut infos: Vec<ChessMove> = Vec::new();
    let mut i: usize = 0;
    while i < moves.len()
        invariant
            i <= moves.len(),
            infos.len() == i,
            forall|k: int| 0 <= k < infos.len() ==> (#[trigger] infos@[k]).well_formed(),
            forall|k: int| 0 <= k < infos.len() ==> #[trigger] infos@[k] == move_of(moves@[k]),
        decreases moves.len() - i,
    {
        infos.push(ChessMove::from_raw(move_record(&moves[i])));
        i = i + 1;
    }
    assert(infos@ =~= moves@.map_values(|m: Move| move_of(m)));
    infos
}

/// The transposition table as `limit_table` leaves it.
pub open spec fn limited_table(table: Map<u64, (i32, u32)>) -> Map<u64, (i32, u32)> {
    if table.len() > MAX_TT_ENTRIES {
        Map::empty()
    } else {
        table
    }
}

/// Empties the transposition table when it holds more than
/// `MAX_TT_ENTRIES` entries; leaves it as it is otherwise.
pub fn limit_table(table: &mut HashMap<u64, (i32, u32)>)
    ensures
        old(table)@.len() > MAX_TT_ENTRIES ==> final(table)@ == Map::<u64, (i32, u32)>::empty(),
        old(table)@.len() <= MAX_TT_ENTRIES ==> final(table)@ == old(table)@,
{
    if table.len() > MAX_TT_ENTRIES {
        table.clear();
    }
}

/// Every key of the old table is still a key of the new one.
pub open spec fn keeps_keys(old_table: Map<u64, (i32, u32)>, new_table: Map<u64, (i32, u32)>) -> bool {
    forall|k: u64| old_table.contains_key(k) ==> new_table.contains_key(k)
}

/// The stand-pat bound of a quiescence score `res` on a position whose static
/// evaluation is `standby`: when standing pat already reaches beta (for the
/// maximiser) or falls to alpha (for the minimiser) the score is that bound;
/// otherwise the side to move scores no worse than standing pat.
pub open spec fn stands_pat(res: i32, maximizing: bool, standby: int, alpha: i32, beta: i32) -> bool {
    if maximizing {
        (standby >= beta && res == beta) || (standby < beta && res >= standby)
    } else {
        (standby <= alpha && res == alpha) || (standby > alpha && res <= standby)
    }
}

/// What `minimax` does with a position: a table entry for the position's key
/// searched at least `depth` plies deep is answered at once; a mated position
/// answers the mate score; a drawn or otherwise finished position answers its
/// evaluation; at the horizon the quiescence search answers (`q_value`).
/// In those cases the table is left as it is. Otherwise the
/// position is searched and its score recorded under its key with `depth`.
pub open spec fn minimax_result(
    pos: Chess,
    depth: u32,
    alpha: i32,
    beta: i32,
    maximizing: bool,
    ply: i32,
    old_table: Map<u64, (i32, u32)>,
    res: i32,
    new_table: Map<u64, (i32, u32)>,
) -> bool
    decreases depth, 1int,
{
    let key = zobrist_of(pos);
    let no_moves = legal_move_list(pos).len() == 0;
    if spec_table_probe(old_table, key, depth) is Some {
        res == spec_table_probe(old_table, key, depth)->0 && new_table == old_table
    } else if no_moves && check_of(pos) {
        res == spec_mate_score(maximizing, ply as int) && new_table == old_table
    } else if no_moves || insufficient_of(pos) {
        res == eval_of(pos) && new_table == old_table
    } else if depth == 0 {
        &&& new_table == old_table
        &&& res == q_value(pos, alpha, beta, maximizing, 0)
        &&& stands_pat(res, maximizing, eval_of(pos), alpha, beta)
        &&& spec_stand_pat(maximizing, eval_of(pos) as i32, alpha, beta) matches StandPat::Answer(v) ==> res == v
    } else {
        exists|vals: Seq<i32>, tables: Seq<Map<u64, (i32, u32)>>|
            #![trigger search_window(maximizing, alpha, beta, vals), tables.last()]
            node_scores(pos, depth, alpha, beta, maximizing, ply, old_table, vals, tables)
                && res == search_window(maximizing, alpha, beta, vals).best
                && new_table == tables.last().insert(key, (res, depth))
    }
}

/// The transposition table caches what the search finds: after `minimax`
/// searches a position (no table entry deep enough, the game not over, some
/// depth left), the table holds the score it answered with that depth under
/// the position's key; a later search of that position to at most that
/// depth is answered from it with that same score, leaving the table as it is.
pub proof fn lemma_search_is_cached(
    pos: Chess,
    depth: u32,
    alpha: i32,
    beta: i32,
    maximizing: bool,
    ply: i32,
    old_table: Map<u64, (i32, u32)>,
    res: i32,
    new_table: Map<u64, (i32, u32)>,
    later_depth: u32,
    later_alpha: i32,
    later_beta: i32,
    later_maximizing: bool,
    later_ply: i32,
    later_res: i32,
    later_table: Map<u64, (i32, u32)>,
)
    requires
        minimax_result(pos, depth, alpha, beta, maximizing, ply, old_table, res, new_table),
        spec_table_probe(old_table, zobrist_of(pos), depth) is None,
        legal_move_list(pos).len() > 0,
        !insufficient_of(pos),
        depth > 0,
        later_depth <= depth,
        minimax_result(pos, later_depth, later_alpha, later_beta, later_maximizing, later_ply, new_table, later_res, later_table),
    ensures
        new_table.contains_key(zobrist_of(pos)),
        new_table[zobrist_of(pos)] == (res, depth),
        later_res == res,
        later_table == new_table,
{
    let (vals, tables) = choose|vals: Seq<i32>, tables: Seq<Map<u64, (i32, u32)>>|
        node_scores(pos, depth, alpha, beta, maximizing, ply, old_table, vals, tables)
            && res == search_window(maximizing, alpha, beta, vals).best
            && new_table == tables.last().insert(zobrist_of(pos), (res, depth));
    assert(new_table[zobrist_of(pos)] == (res, depth));
    assert(spec_table_probe(new_table, zobrist_of(pos), later_depth) == Some(res));
}

/// `vals` are the scores `minimax` gave the first children of a node searched
/// `depth` plies deep with (`alpha`, `beta`), one for each legal move in
/// search order, each searched one ply shallower with the window left by the
/// scores before it; `tables` holds the transposition table before the first
/// child and after each one. The search goes on while beta stays above alpha:
/// it stops early only right after the window closes.
pub open spec fn node_scores(
    pos: Chess,
    depth: u32,
    alpha: i32,
    beta: i32,
    maximizing: bool,
    ply: i32,
    old_table: Map<u64, (i32, u32)>,
    vals: Seq<i32>,
    tables: Seq<Map<u64, (i32, u32)>>,
) -> bool
    decreases depth, 0int,
{
    let n = vals.len();
    let last = search_window(maximizing, alpha, beta, vals);
    &&& depth >= 1
    &&& n <= legal_move_list(pos).len()
    &&& tables.len() == n + 1
    &&& tables[0] == old_table
    &&& forall|k: int|
        0 <= k < n ==> minimax_result(
            play_of(pos, searched_move(pos, k))->0,
            (depth - 1) as u32,
            search_window(maximizing, alpha, beta, vals.take(k)).alpha,
            search_window(maximizing, alpha, beta, vals.take(k)).beta,
            !maximizing,
            (ply + 1) as i32,
            tables[k],
            #[trigger] vals[k],
            tables[k + 1],
        )
    &&& forall|k: int|
        1 <= k < n ==> #[trigger] search_window(maximizing, alpha, beta, vals.take(k)).beta
            > search_window(maximizing, alpha, beta, vals.take(k)).alpha
    &&& n < legal_move_list(pos).len() ==> n > 0 && last.beta <= last.alpha
}

/// The indices of the moves the quiescence search follows in a position:
/// its tactical legal moves, in generation order.
pub open spec fn q_picks(pos: Chess) -> Seq<usize> {
    tactical_indices(legal_infos(pos), check_of(pos), legal_move_list(pos).len())
}

/// The moves the quiescence search follows in a position, as plain moves.
pub open spec fn q_picked(pos: Chess) -> Seq<ChessMove> {
    Seq::new(q_picks(pos).len(), |k: int| legal_infos(pos)[q_picks(pos)[k] as int])
}

/// The order in which the quiescence search tries those moves (see
/// `move_order`), as indices into `q_picked`.
pub open spec fn q_order(pos: Chess) -> Seq<usize> {
    spec_stable_order(order_keys(board_contents(board_of(pos)), q_picked(pos)))
}

/// The `k`-th move the quiescence search tries in a position.
pub open spec fn q_move(pos: Chess, k: int) -> Move {
    legal_move_list(pos)[q_picks(pos)[q_order(pos)[k] as int] as int]
}

/// The score of the quiescence search of a position with the window
/// (`alpha`, `beta`), `q_depth` plies into the quiescence search: the
/// stand-pat bound when it decides (`spec_stand_pat`); the static evaluation
/// at the ply limit or when no move is worth following; otherwise the result
/// of trying the followed moves in `q_order` (`q_fold`).
pub open spec fn q_value(pos: Chess, alpha: i32, beta: i32, maximizing: bool, q_depth: u32) -> i32
    decreases QUIESCENCE_PLIES - q_depth, 1int, 0int,
{
    let standby = eval_of(pos) as i32;
    match spec_stand_pat(maximizing, standby, alpha, beta) {
        StandPat::Answer(v) => v,
        StandPat::Search(a, b) => if q_depth >= QUIESCENCE_PLIES || q_picks(pos).len() == 0 {
            standby
        } else {
            q_fold(pos, maximizing, q_depth, Window { best: standby, alpha: a, beta: b }, 0)
        },
    }
}

/// The quiescence search over the followed moves of a position from the
/// `k`-th on, with the running window `w`: each move that plays is scored one
/// ply deeper with the current window and folded in (`spec_fold_child`); the
/// search stops with the best score so far once beta is no longer above
/// alpha, or when the moves run out.
pub open spec fn q_fold(pos: Chess, maximizing: bool, q_depth: u32, w: Window, k: int) -> i32
    decreases QUIESCENCE_PLIES - q_depth, 0int, q_order(pos).len() - k,
{
    if k < 0 || k >= q_order(pos).len() || q_depth >= QUIESCENCE_PLIES {
        w.best
    } else {
        match play_of(pos, q_move(pos, k)) {
            Some(child) => {
                let val = q_value(child, w.alpha, w.beta, !maximizing, (q_depth + 1) as u32);
                let next = spec_fold_child(maximizing, w, val);
                if next.beta <= next.alpha {
                    next.best
                } else {
                    q_fold(pos, maximizing, q_depth, next, k + 1)
                }
            },
            None => q_fold(pos, maximizing, q_depth, w, k + 1),
        }
    }
}

proof fn lemma_q_fold_keeps_best(pos: Chess, maximizing: bool, q_depth: u32, w: Window, k: int)
    ensures
        maximizing ==> q_fold(pos, maximizing, q_depth, w, k) >= w.best,
        !maximizing ==> q_fold(pos, maximizing, q_depth, w, k) <= w.best,
    decreases q_order(pos).len() - k,
{
    if !(k < 0 || k >= q_order(pos).len() || q_depth >= QUIESCENCE_PLIES) {
        match play_of(pos, q_move(pos, k)) {
            Some(child) => {
                let val = q_value(child, w.alpha, w.beta, !maximizing, (q_depth + 1) as u32);
                let next = spec_fold_child(maximizing, w, val);
                if !(next.beta <= next.alpha) {
                    lemma_q_fold_keeps_best(pos, maximizing, q_depth, next, k + 1);
                }
            },
            None => {
                lemma_q_fold_keeps_best(pos, maximizing, q_depth, w, k + 1);
            },
        }
    }
}

/// The quiescence search follows captures: when standing pat does not settle
/// a node and there is a move to follow, the side to move scores at least
/// (White) or at most (Black) both the static evaluation and the score of the
/// position after the first move it tries, searched one ply deeper with the
/// window narrowed by standing pat. So a capture that loses to a recapture is
/// scored after the recapture.
pub proof fn lemma_quiescence_follows_captures(pos: Chess, alpha: i32, beta: i32, maximizing: bool, q_depth: u32)
    requires
        q_depth < QUIESCENCE_PLIES,
        q_picks(pos).len() > 0,
        q_order(pos).len() > 0,
        spec_stand_pat(maximizing, eval_of(pos) as i32, alpha, beta) is Search,
        play_of(pos, q_move(pos, 0)) is Some,
    ensures
        ({
            let res = q_value(pos, alpha, beta, maximizing, q_depth);
            let (a, b) = match spec_stand_pat(maximizing, eval_of(pos) as i32, alpha, beta) {
                StandPat::Search(a, b) => (a, b),
                StandPat::Answer(v) => (v, v),
            };
            let child = q_value(play_of(pos, q_move(pos, 0))->0, a, b, !maximizing, (q_depth + 1) as u32);
            &&& maximizing ==> res >= eval_of(pos) as i32 && res >= child
            &&& !maximizing ==> res <= eval_of(pos) as i32 && res <= child
        }),
{
    let standby = eval_of(pos) as i32;
    let (a, b) = match spec_stand_pat(maximizing, standby, alpha, beta) {
        StandPat::Search(a, b) => (a, b),
        StandPat::Answer(v) => (v, v),
    };
    let w = Window { best: standby, alpha: a, beta: b };
    let child = q_value(play_of(pos, q_move(pos, 0))->0, a, b, !maximizing, (q_depth + 1) as u32);
    let next = spec_fold_child(maximizing, w, child);
    assert(q_value(pos, alpha, beta, maximizing, q_depth) == q_fold(pos, maximizing, q_depth, w, 0));
    if !(next.beta <= next.alpha) {
        lemma_q_fold_keeps_best(pos, maximizing, q_depth, next, 1);
    }
}

/// At the search horizon a position whose game is not over, and that the
/// table does not answer, is scored by the quiescence search over the same
/// window: the score is `q_value`, it stands pat on the static evaluation,
/// and the table is left as it is.
pub proof fn lemma_horizon_is_quiescence(
    pos: Chess,
    alpha: i32,
    beta: i32,
    maximizing: bool,
    ply: i32,
    old_table: Map<u64, (i32, u32)>,
    res: i32,
    new_table: Map<u64, (i32, u32)>,
)
    requires
        minimax_result(pos, 0, alpha, beta, maximizing, ply, old_table, res, new_table),
        !old_table.contains_key(zobrist_of(pos)),
        legal_move_list(pos).len() > 0,
        !insufficient_of(pos),
    ensures
        res == q_value(pos, alpha, beta, maximizing, 0),
        stands_pat(res, maximizing, eval_of(pos), alpha, beta),
        new_table == old_table,
{
}

/// Quiescence search: stand pat on the static evaluation, then follow
/// captures (every move when in check) for at most `QUIESCENCE_PLIES` plies.
///
/// The answer is `q_value`. Besides, it stands pat on the position's own
/// evaluation (`stands_pat`); it is the stand-pat bound when that already
/// decides; and it is the evaluation itself when the ply limit is reached or
/// no move is worth following.
fn quiescence(pos: &Chess, alpha: i32, beta: i32, maximizing: bool, q_depth: u32) -> (res: i32)
    ensures
        res == q_value(*pos, alpha, beta, maximizing, q_depth),
        stands_pat(res, maximizing, eval_of(*pos), alpha, beta),
        spec_stand_pat(maximizing, eval_of(*pos) as i32, alpha, beta) matches StandPat::Answer(v) ==> res == v,
        spec_stand_pat(maximizing, eval_of(*pos) as i32, alpha, beta) is Search && (q_depth >= QUIESCENCE_PLIES
            || q_picks(*pos).len() == 0) ==> res == eval_of(*pos),
    decreases QUIESCENCE_PLIES - q_depth,
{
    let standby = evaluate(pos);
    let ghost a0 = alpha;
    let ghost b0 = beta;
    let (alpha, beta) = match stand_pat(maximizing, standby, alpha, beta) {
        StandPat::Answer(score) => {
            return score;
        },
        StandPat::Search(alpha, beta) => (alpha, beta),
    };
    assert(stands_pat(standby, maximizing, eval_of(*pos), a0, b0));
    if q_depth >= QUIESCENCE_PLIES {
        return standby;
    }
    let moves = legal_moves(pos);
    let infos = move_records(&moves);
    assert(infos@ =~= legal_infos(*pos));
    let check = if moves.len() > 0 {
        is_check(pos)
    } else {
        false
    };
    let picks = tactical_moves(&infos, check);
    assert(picks@ == q_picks(*pos));
    if picks.len() == 0 {
        return standby;
    }
    let mut picked: Vec<ChessMove> = Vec::new();
    let mut i: usize = 0;
    while i < picks.len()
        invariant
            i <= picks.len(),
            picked.len() == i,
            infos.len() == moves.len(),
            forall|k: int| 0 <= k < picks.len() ==> #[trigger] picks@[k] < infos.len(),
            forall|k: int| 0 <= k < infos.len() ==> (#[trigger] infos@[k]).well_formed(),
            forall|k: int| 0 <= k < picked.len() ==> (#[trigger] picked@[k]).well_formed(),
            forall|k: int| 0 <= k < picked.len() ==> #[trigger] picked@[k] == infos@[picks@[k] as int],
        decreases picks.len() - i,
    {
        picked.push(infos[picks[i]]);
        i = i + 1;
    }
    assert(picked@ =~= q_picked(*pos));
    let board = position_board(pos);
    let order = move_order(&board, &picked);
    let mut w = Window { best: standby, alpha, beta };
    let ghost target = q_fold(*pos, maximizing, q_depth, w, 0);
    assert(q_value(*pos, a0, b0, maximizing, q_depth) == target);
    let mut cut = false;
    let mut k: usize = 0;
    while k < order.len() && !cut
        invariant
            order.len() == picked.len(),
            picked.len() == picks.len(),
            infos.len() == moves.len(),
            moves@ == legal_move_list(*pos),
            picks@ == q_picks(*pos),
            order@ == q_order(*pos),
            q_depth < QUIESCENCE_PLIES,
            k <= order.len(),
            forall|j: int| 0 <= j < order.len() ==> #[trigger] order@[j] < picked.len(),
            forall|j: int| 0 <= j < picks.len() ==> #[trigger] picks@[j] < moves.len(),
            standby == eval_of(*pos),
            stands_pat(standby, maximizing, eval_of(*pos), a0, b0),
            maximizing ==> w.best >= standby,
            !maximizing ==> w.best <= standby,
            cut ==> w.best == target,
            !cut ==> q_fold(*pos, maximizing, q_depth, w, k as int) == target,
        decreases order.len() - k,
    {
        let m = &moves[picks[order[k]]];
        assert(*m == q_move(*pos, k as int));
        match play(pos, m) {
            Ok(child) => {
                let val = quiescence(&child, w.alpha, w.beta, !maximizing, q_depth + 1);
                w = fold_child(maximizing, w, val);
                if w.beta <= w.alpha {
                    cut = true;
                }
            },
            Err(_) => {},
        }
        k = k + 1;
    }
    assert(stands_pat(w.best, maximizing, eval_of(*pos), a0, b0));
    w.best
}

/// Alpha-beta minimax to `depth` plies, `ply` plies below the root, with
/// quiescence search at the horizon. A position already searched at least as
/// deep is answered from the table; each searched position is recorded there
/// with the best score of its children (`minimax_result`, `node_scores`).
#[verifier::rlimit(40)]
fn minimax(
    pos: &Chess,
    depth: u32,
    alpha: i32,
    beta: i32,
    maximizing: bool,
    ply: i32,
    table: &mut HashMap<u64, (i32, u32)>,
) -> (res: i32)
    requires
        0 <= ply,
        ply + depth <= i32::MAX,
    ensures
        keeps_keys(old(table)@, final(table)@),
        minimax_result(*pos, depth, alpha, beta, maximizing, ply, old(table)@, res, final(table)@),
    decreases depth,
{
    let key = zobrist_key(pos);
    match table_probe(table, key, depth) {
        Some(val) => {
            return val;
        },
        None => {},
    }
    let moves = legal_moves(pos);
    let no_moves = moves.len() == 0;
    if no_moves || is_insufficient_material(pos) {
        if no_moves && is_check(pos) {
            return mate_score(maximizing, ply);
        }
        return evaluate(pos);
    }
    if depth == 0 {
        return quiescence(pos, alpha, beta, maximizing, 0);
    }
    let infos = move_records(&moves);
    assert(infos@ =~= legal_infos(*pos));
    let board = position_board(pos);
    let order = move_order(&board, &infos);
    let mut w = Window {
        best: if maximizing {
            i32::MIN
        } else {
            i32::MAX
        },
        alpha,
        beta,
    };
    let mut vals: Vec<i32> = Vec::new();
    let ghost start = table@;
    let ghost mut tables: Seq<Map<u64, (i32, u32)>> = seq![table@];
    assert(search_window(maximizing, alpha, beta, vals@) == w);
    let mut cut = false;
    let mut k: usize = 0;
    while k < order.len() && !cut
        invariant
            order.len() == infos.len(),
            infos.len() == moves.len(),
            moves@ == legal_move_list(*pos),
            order@ == search_order(*pos),
            forall|j: int| 0 <= j < order.len() ==> #[trigger] order@[j] < moves.len(),
            k <= order.len(),
            vals.len() == k,
            tables.len() == k + 1,
            tables[0] == start,
            tables[k as int] == table@,
            w == search_window(maximizing, alpha, beta, vals@),
            cut == (k > 0 && w.beta <= w.alpha),
            forall|j: int|
                0 <= j < k ==> minimax_result(
                    play_of(*pos, searched_move(*pos, j))->0,
                    (depth - 1) as u32,
                    search_window(maximizing, alpha, beta, vals@.take(j)).alpha,
                    search_window(maximizing, alpha, beta, vals@.take(j)).beta,
                    !maximizing,
                    (ply + 1) as i32,
                    tables[j],
                    #[trigger] vals@[j],
                    tables[j + 1],
                ),
            forall|j: int|
                1 <= j < k ==> #[trigger] search_window(maximizing, alpha, beta, vals@.take(j)).beta
                    > search_window(maximizing, alpha, beta, vals@.take(j)).alpha,
            0 <= ply,
            1 <= depth,
            ply + depth <= i32::MAX,
            keeps_keys(start, table@),
        decreases order.len() - k,
    {
        let idx = order[k];
        assert(legal_move_list(*pos).contains(moves@[idx as int]));
        assert(moves@[idx as int] == searched_move(*pos, k as int));
        match play(pos, &moves[idx]) {
            Ok(child) => {
                let val = minimax(&child, depth - 1, w.alpha, w.beta, !maximizing, ply + 1, table);
                let ghost before = vals@;
                proof {
                    assert(before.take(k as int) =~= before);
                }
                vals.push(val);
                proof {
                    tables = tables.push(table@);
                    assert(vals@.drop_last() =~= before);
                    assert(vals@.take(k as int) =~= before);
                    assert forall|j: int| 0 <= j <= k implies #[trigger] vals@.take(j) == before.take(j) by {
                        assert(vals@.take(j) =~= before.take(j));
                    }
                }
                w = fold_child(maximizing, w, val);
                if w.beta <= w.alpha {
                    cut = true;
                }
            },
            Err(_) => {},
        }
        k = k + 1;
    }
    proof {
        assert(vals@.take(vals@.len() as int) =~= vals@);
        assert(node_scores(*pos, depth, alpha, beta, maximizing, ply, start, vals@, tables));
        assert(tables.last() == table@);
    }
    table.insert(key, (w.best, depth));
    assert(table@ == tables.last().insert(key, (w.best, depth)));
    assert(node_scores(*pos, depth, alpha, beta, maximizing, ply, old(table)@, vals@, tables)
        && w.best == search_window(maximizing, alpha, beta, vals@).best
        && table@ == tables.last().insert(key, (w.best, depth)));
    w.best
}

/// White is to move.
pub open spec fn white_to_move(pos: Chess) -> bool {
    turn_of(pos) == 1
}

/// The order in which the legal moves of a position are searched (see
/// `move_order`), as indices into its legal move list.
pub open spec fn search_order(pos: Chess) -> Seq<usize> {
    spec_stable_order(order_keys(board_contents(board_of(pos)), legal_infos(pos)))
}

/// The `k`-th legal move searched in a position.
pub open spec fn searched_move(pos: Chess, k: int) -> Move {
    legal_move_list(pos)[search_order(pos)[k] as int]
}

/// The window of a node searched with (`alpha`, `beta`) after the scores
/// `vals` of its first children were taken into account.
pub open spec fn search_window(maximizing: bool, alpha: i32, beta: i32, vals: Seq<i32>) -> Window
    decreases vals.len(),
{
    if vals.len() == 0 {
        Window { best: if maximizing { i32::MIN } else { i32::MAX }, alpha, beta }
    } else {
        spec_fold_child(maximizing, search_window(maximizing, alpha, beta, vals.drop_last()), vals.last())
    }
}

/// `vals` are the scores `minimax` gave the children of the root, one for
/// each legal move in search order, each searched one ply shallower with the
/// window left by the scores before it; `tables` holds the transposition
/// table before the first child and after each one.
pub open spec fn root_scores(
    pos: Chess,
    depth: u32,
    old_table: Map<u64, (i32, u32)>,
    new_table: Map<u64, (i32, u32)>,
    vals: Seq<i32>,
    tables: Seq<Map<u64, (i32, u32)>>,
) -> bool {
    let n = legal_move_list(pos).len();
    let white = white_to_move(pos);
    &&& vals.len() == n
    &&& tables.len() == n + 1
    &&& tables[0] == old_table
    &&& tables[n as int] == new_table
    &&& forall|k: int|
        0 <= k < n ==> minimax_result(
            play_of(pos, searched_move(pos, k))->0,
            (depth - 1) as u32,
            search_window(white, i32::MIN, i32::MAX, vals.take(k)).alpha,
            search_window(white, i32::MIN, i32::MAX, vals.take(k)).beta,
            !white,
            1,
            tables[k],
            #[trigger] vals[k],
            tables[k + 1],
        )
}

/// The best move at `depth` plies, in standard algebraic notation with its
/// check or mate suffix; empty exactly when the side to move has no legal
/// move. Otherwise the moves are searched in `search_order`, each scored by
/// `minimax` (`root_scores`), and the answer is the notation of the move with
/// the first best score (`is_first_best`: highest for White, lowest for
/// Black).
pub fn best_move_san(pos: &Chess, depth: u32, table: &mut HashMap<u64, (i32, u32)>) -> (res: String)
    requires
        1 <= depth <= i32::MAX,
    ensures
        keeps_keys(old(table)@, final(table)@),
        res@.len() == 0 <==> legal_move_list(*pos).len() == 0,
        legal_move_list(*pos).len() == 0 ==> final(table)@ == old(table)@,
        res@.len() > 0 ==> exists|i: int|
            0 <= i < legal_move_list(*pos).len() && res@ == #[trigger] san_plus_of(*pos, legal_move_list(*pos)[i]),
        legal_move_list(*pos).len() > 0 ==> exists|vals: Seq<i32>, tables: Seq<Map<u64, (i32, u32)>>, i: int|
            #![trigger root_scores(*pos, depth, old(table)@, final(table)@, vals, tables), is_first_best(white_to_move(*pos), vals, i)]
            root_scores(*pos, depth, old(table)@, final(table)@, vals, tables)
                && is_first_best(white_to_move(*pos), vals, i)
                && res@ == san_plus_of(*pos, searched_move(*pos, i)),
{
    let moves = legal_moves(pos);
    if moves.len() == 0 {
        return String::new();
    }
    let is_white = side_to_move(pos) == 1;
    let mut w = Window {
        best: if is_white {
            i32::MIN
        } else {
            i32::MAX
        },
        alpha: i32::MIN,
        beta: i32::MAX,
    };
    let infos = move_records(&moves);
    let board = position_board(pos);
    assert(infos@ =~= legal_infos(*pos));
    let order = move_order(&board, &infos);
    let mut vals: Vec<i32> = Vec::new();
    let ghost start = table@;
    let ghost mut tables: Seq<Map<u64, (i32, u32)>> = seq![table@];
    assert(search_window(is_white, i32::MIN, i32::MAX, vals@) == w);
    let mut k: usize = 0;
    while k < order.len()
        invariant
            order.len() == infos.len(),
            infos.len() == moves.len(),
            moves@ == legal_move_list(*pos),
            order@ == search_order(*pos),
            forall|j: int| 0 <= j < order.len() ==> #[trigger] order@[j] < moves.len(),
            k <= order.len(),
            vals.len() == k,
            tables.len() == k + 1,
            tables[0] == start,
            tables[k as int] == table@,
            is_white == white_to_move(*pos),
            w == search_window(is_white, i32::MIN, i32::MAX, vals@),
            forall|j: int|
                0 <= j < k ==> minimax_result(
                    play_of(*pos, searched_move(*pos, j))->0,
                    (depth - 1) as u32,
                    search_window(is_white, i32::MIN, i32::MAX, vals@.take(j)).alpha,
                    search_window(is_white, i32::MIN, i32::MAX, vals@.take(j)).beta,
                    !is_white,
                    1,
                    tables[j],
                    #[trigger] vals@[j],
                    tables[j + 1],
                ),
            1 <= depth <= i32::MAX,
            keeps_keys(start, table@),
        decreases order.len() - k,
    {
        let idx = order[k];
        assert(legal_move_list(*pos).contains(moves@[idx as int]));
        assert(moves@[idx as int] == searched_move(*pos, k as int));
        match play(pos, &moves[idx]) {
            Ok(child) => {
                let val = minimax(&child, depth - 1, w.alpha, w.beta, !is_white, 1, table);
                let ghost before = vals@;
                proof {
                    assert(before.take(k as int) =~= before);
                }
                vals.push(val);
                proof {
                    tables = tables.push(table@);
                    assert(vals@.drop_last() =~= before);
                    assert(vals@.take(k as int) =~= before);
                    assert forall|j: int| 0 <= j < k implies #[trigger] vals@.take(j) == before.take(j) by {
                        assert(vals@.take(j) =~= before.take(j));
                    }
                }
                w = fold_child(is_white, w, val);
            },
            Err(_) => {},
        }
        k = k + 1;
    }
    match choose_best(is_white, &vals) {
        Some(i) => {
            let res = san_plus_text(pos, &moves[order[i]]);
            assert(res@ == san_plus_of(*pos, legal_move_list(*pos)[order@[i as int] as int]));
            assert(root_scores(*pos, depth, start, table@, vals@, tables));
            assert(is_first_best(white_to_move(*pos), vals@, i as int));
            res
        },
        None => String::new(),
    }
}

} // verus!
