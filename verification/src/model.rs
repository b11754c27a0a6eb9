//! The mathematical model of the engine: the material value of a position
//! and the depth-bounded minimax value and move choice, defined over the
//! uninterpreted names of the rules-engine interface.

use vstd::prelude::*;
use crate::rules::{board_after, moves_of, occ_of};
use crate::{other, piece_value, Mv, Occupant, Side};

verus! {

/// What one square contributes to the material balance seen from
/// `engine`'s side: the weight of its piece, positive for `engine`'s own
/// pieces, negative for the opponent's, zero for an empty square.
pub open spec fn square_value(o: Option<Occupant>, engine: Side) -> int {
    match o {
        Option::None => 0,
        Option::Some(oc) => if oc.side == engine {
            piece_value(oc.kind)
        } else {
            -piece_value(oc.kind)
        },
    }
}

/// The material balance of the first `n` squares of `s`, seen from
/// `engine`'s side.
pub open spec fn material_upto(s: Seq<Option<Occupant>>, engine: Side, n: int) -> int
    decreases n,
{
    if n <= 0 {
        0
    } else {
        material_upto(s, engine, n - 1) + square_value(s[n - 1], engine)
    }
}

/// The material balance of the whole position `b`, seen from `engine`'s
/// side.
pub open spec fn material(b: chess::Board, engine: Side) -> int {
    material_upto(occ_of(b), engine, 64)
}

/// The score a search node starts from before any move has been examined,
/// and so the score it reports when its side has no legal moves: the worst
/// representable outcome for the side to move.
pub open spec fn worst_for(player: Side, engine: Side) -> int {
    if player == engine {
        i64::MIN as int
    } else {
        i64::MAX as int
    }
}

/// The exhaustive depth-bounded minimax search: the move chosen at the root
/// of `b`'s tree and the score best play from both sides achieves within
/// `depth`. A leaf scores its material; with no legal move the node keeps
/// its initial extremum and chooses no move; otherwise every legal move is
/// examined in generation order, and a move displaces the incumbent
/// whenever its score is at least as good, so among equal moves the last
/// one wins.
pub open spec fn search_result(b: chess::Board, depth: nat, player: Side, engine: Side) -> (
    Option<Mv>,
    int,
)
    decreases depth, moves_of(b).len() + 1,
{
    if depth == 0 {
        (Option::<Mv>::None, material(b, engine))
    } else {
        search_upto(b, depth, player, engine, moves_of(b).len() as int)
    }
}

/// The running (move, score) pair of the exhaustive search at `b` after the
/// first `n` legal moves have been examined.
pub open spec fn search_upto(b: chess::Board, depth: nat, player: Side, engine: Side, n: int) -> (
    Option<Mv>,
    int,
)
    decreases depth, n,
{
    if n <= 0 || depth == 0 {
        (Option::<Mv>::None, worst_for(player, engine))
    } else {
        let prev = search_upto(b, depth, player, engine, n - 1);
        let child = search_result(
            board_after(b, moves_of(b)[n - 1]),
            (depth - 1) as nat,
            other(player),
            engine,
        ).1;
        let better = if player == engine {
            child >= prev.1
        } else {
            child <= prev.1
        };
        if better {
            (Option::Some(moves_of(b)[n - 1]), child)
        } else {
            prev
        }
    }
}

/// The score half of [`search_result`].
pub open spec fn search_value(b: chess::Board, depth: nat, player: Side, engine: Side) -> int {
    search_result(b, depth, player, engine).1
}

/// The first `n` squares contribute at most nine points of material each.
pub proof fn lemma_material_upto_bounds(s: Seq<Option<Occupant>>, engine: Side, n: int)
    requires
        0 <= n,
    ensures
        -9 * n <= material_upto(s, engine, n) <= 9 * n,
    decreases n,
{
    if n > 0 {
        lemma_material_upto_bounds(s, engine, n - 1);
    }
}

/// A whole position holds at most 576 points of material either way.
pub proof fn lemma_material_bounds(b: chess::Board, engine: Side)
    ensures
        -576 <= material(b, engine) <= 576,
{
    lemma_material_upto_bounds(occ_of(b), engine, 64);
}

/// Every search value is representable as a 64-bit score: leaves are small
/// material counts and childless nodes score exactly one of the two
/// extremes.
pub proof fn lemma_search_value_in_range(b: chess::Board, depth: nat, player: Side, engine: Side)
    ensures
        i64::MIN <= search_value(b, depth, player, engine) <= i64::MAX,
    decreases depth, moves_of(b).len() + 1,
{
    if depth == 0 {
        lemma_material_bounds(b, engine);
    } else {
        lemma_search_upto_in_range(b, depth, player, engine, moves_of(b).len() as int);
    }
}

/// As [`lemma_search_value_in_range`], for the running score.
pub proof fn lemma_search_upto_in_range(
    b: chess::Board,
    depth: nat,
    player: Side,
    engine: Side,
    n: int,
)
    ensures
        i64::MIN <= search_upto(b, depth, player, engine, n).1 <= i64::MAX,
    decreases depth, n,
{
    if n > 0 && depth > 0 {
        lemma_search_upto_in_range(b, depth, player, engine, n - 1);
        lemma_search_value_in_range(
            board_after(b, moves_of(b)[n - 1]),
            (depth - 1) as nat,
            other(player),
            engine,
        );
    }
}

/// Examining more moves never makes the running score worse for the side
/// to move: it only rises at a maximizing node and only falls at a
/// minimizing one.
pub proof fn lemma_search_upto_monotone(
    b: chess::Board,
    depth: nat,
    player: Side,
    engine: Side,
    n1: int,
    n2: int,
)
    requires
        0 <= n1 <= n2,
    ensures
        player == engine ==> search_upto(b, depth, player, engine, n1).1 <= search_upto(
            b,
            depth,
            player,
            engine,
            n2,
        ).1,
        player != engine ==> search_upto(b, depth, player, engine, n2).1 <= search_upto(
            b,
            depth,
            player,
            engine,
            n1,
        ).1,
    decreases n2,
{
    if n2 > n1 {
        lemma_search_upto_monotone(b, depth, player, engine, n1, n2 - 1);
    }
}

/// The pruned search itself, as a mathematical function: exactly the
/// alpha-beta recursion the engine runs, so the executable search can be
/// pinned to it move and score, and two searches of equal arguments are
/// equal. A leaf scores its material; otherwise the node folds
/// [`ab_from`] over its legal moves from its initial extremum.
pub open spec fn ab_result(
    b: chess::Board,
    depth: nat,
    alpha: int,
    beta: int,
    player: Side,
    engine: Side,
) -> (Option<Mv>, int)
    decreases depth, moves_of(b).len() + 1,
{
    if depth == 0 {
        (Option::<Mv>::None, material(b, engine))
    } else {
        ab_from(
            b,
            depth,
            alpha,
            beta,
            player,
            engine,
            0,
            Option::<Mv>::None,
            worst_for(player, engine),
        )
    }
}

/// One step of the pruned search at `b`: the `(move, score)` the node
/// reports when its loop stands at move `i` with incumbent `mv`, running
/// score `best` and window `[lo, hi]`. The move examined is scored with the
/// current window; a score at least as good as the incumbent's takes the
/// move slot (so among equal moves the last examined wins); the maximizing
/// side raises `lo` to its running score, the minimizing side lowers `hi`;
/// and the loop stops early as soon as the window is empty.
pub open spec fn ab_from(
    b: chess::Board,
    depth: nat,
    lo: int,
    hi: int,
    player: Side,
    engine: Side,
    i: int,
    mv: Option<Mv>,
    best: int,
) -> (Option<Mv>, int)
    decreases depth, moves_of(b).len() - i,
{
    let ms = moves_of(b);
    if i < 0 || i >= ms.len() || depth == 0 {
        (mv, best)
    } else {
        let sc = ab_result(board_after(b, ms[i]), (depth - 1) as nat, lo, hi, other(player), engine).1;
        if player == engine {
            let mv2 = if sc >= best { Option::Some(ms[i]) } else { mv };
            let best2 = if sc > best { sc } else { best };
            let lo2 = if best2 > lo { best2 } else { lo };
            if hi <= lo2 {
                (mv2, best2)
            } else {
                ab_from(b, depth, lo2, hi, player, engine, i + 1, mv2, best2)
            }
        } else {
            let mv2 = if sc <= best { Option::Some(ms[i]) } else { mv };
            let best2 = if sc < best { sc } else { best };
            let hi2 = if best2 < hi { best2 } else { hi };
            if hi2 <= lo {
                (mv2, best2)
            } else {
                ab_from(b, depth, lo, hi2, player, engine, i + 1, mv2, best2)
            }
        }
    }
}

/// The running choice is one of the first `n` legal moves whenever `n` is
/// positive and the search has depth, and no move at all otherwise.
pub proof fn lemma_search_upto_move_membership(
    b: chess::Board,
    depth: nat,
    player: Side,
    engine: Side,
    n: int,
)
    requires
        0 <= n <= moves_of(b).len(),
    ensures
        n == 0 || depth == 0 ==> search_upto(b, depth, player, engine, n).0 is None,
        n > 0 && depth > 0 ==> (search_upto(b, depth, player, engine, n).0 matches Some(m)
            && moves_of(b).contains(m)),
    decreases n,
{
    if n > 0 && depth > 0 {
        lemma_search_upto_move_membership(b, depth, player, engine, n - 1);
        lemma_search_value_in_range(
            board_after(b, moves_of(b)[n - 1]),
            (depth - 1) as nat,
            other(player),
            engine,
        );
        assert(moves_of(b).contains(moves_of(b)[n - 1]));
    }
}

/// A search with depth chooses a legal move exactly when one exists.
pub proof fn lemma_search_result_move_membership(
    b: chess::Board,
    depth: nat,
    player: Side,
    engine: Side,
)
    requires
        depth >= 1,
    ensures
        moves_of(b).len() == 0 ==> search_result(b, depth, player, engine).0 is None,
        moves_of(b).len() > 0 ==> (search_result(b, depth, player, engine).0 matches Some(m)
            && moves_of(b).contains(m)),
{
    lemma_search_upto_move_membership(b, depth, player, engine, moves_of(b).len() as int);
}

/// With exactly one legal move and at least one ply of depth, the search
/// chooses that move, whatever the score comparisons say.
pub proof fn lemma_single_move_is_chosen(b: chess::Board, depth: nat, player: Side, engine: Side)
    requires
        depth >= 1,
        moves_of(b).len() == 1,
    ensures
        search_result(b, depth, player, engine).0 == Option::Some(moves_of(b)[0]),
{
    lemma_search_value_in_range(
        board_after(b, moves_of(b)[0]),
        (depth - 1) as nat,
        other(player),
        engine,
    );
    assert(search_upto(b, depth, player, engine, 0) == (
        Option::<Mv>::None,
        worst_for(player, engine),
    ));
    assert(search_result(b, depth, player, engine) == search_upto(b, depth, player, engine, 1));
}

/// With no legal move a search of any depth keeps its initial extremum and
/// chooses no move, whatever the window: checkmate and stalemate alike.
pub proof fn lemma_no_moves_keeps_extremum(
    b: chess::Board,
    depth: nat,
    alpha: int,
    beta: int,
    player: Side,
    engine: Side,
)
    requires
        depth >= 1,
        moves_of(b).len() == 0,
    ensures
        search_result(b, depth, player, engine) == (Option::<Mv>::None, worst_for(player, engine)),
        ab_result(b, depth, alpha, beta, player, engine) == (
            Option::<Mv>::None,
            worst_for(player, engine),
        ),
{
    assert(search_result(b, depth, player, engine) == search_upto(b, depth, player, engine, 0));
    assert(ab_result(b, depth, alpha, beta, player, engine) == ab_from(
        b,
        depth,
        alpha,
        beta,
        player,
        engine,
        0,
        Option::<Mv>::None,
        worst_for(player, engine),
    ));
}

/// The exhaustive search's running choice attains its running score: the
/// value of the position after the chosen move, one ply shallower, is the
/// score reported.
pub proof fn lemma_search_upto_attainment(
    b: chess::Board,
    depth: nat,
    player: Side,
    engine: Side,
    n: int,
)
    requires
        depth >= 1,
    ensures
        search_upto(b, depth, player, engine, n).0 matches Some(m) ==> search_value(
            board_after(b, m),
            (depth - 1) as nat,
            other(player),
            engine,
        ) == search_upto(b, depth, player, engine, n).1,
    decreases n,
{
    if n > 0 {
        lemma_search_upto_attainment(b, depth, player, engine, n - 1);
    }
}

/// The exhaustive search's chosen move attains its reported score.
pub proof fn lemma_search_result_attainment(b: chess::Board, depth: nat, player: Side, engine: Side)
    requires
        depth >= 1,
    ensures
        search_result(b, depth, player, engine).0 matches Some(m) ==> search_value(
            board_after(b, m),
            (depth - 1) as nat,
            other(player),
            engine,
        ) == search_value(b, depth, player, engine),
{
    lemma_search_upto_attainment(b, depth, player, engine, moves_of(b).len() as int);
}

/// No examined move beats the exhaustive search's running score: at a
/// maximizing node every child's value is at most the score reported, at a
/// minimizing node at least.
pub proof fn lemma_search_upto_optimal(
    b: chess::Board,
    depth: nat,
    player: Side,
    engine: Side,
    j: int,
    n: int,
)
    requires
        depth >= 1,
        0 <= j < n <= moves_of(b).len(),
    ensures
        player == engine ==> search_value(
            board_after(b, moves_of(b)[j]),
            (depth - 1) as nat,
            other(player),
            engine,
        ) <= search_upto(b, depth, player, engine, n).1,
        player != engine ==> search_value(
            board_after(b, moves_of(b)[j]),
            (depth - 1) as nat,
            other(player),
            engine,
        ) >= search_upto(b, depth, player, engine, n).1,
    decreases n,
{
    if j < n - 1 {
        lemma_search_upto_optimal(b, depth, player, engine, j, n - 1);
        lemma_search_upto_monotone(b, depth, player, engine, n - 1, n);
    }
}

/// No legal move beats the exhaustive search's reported score: the value
/// it reports is best play for the side to move within the depth budget.
pub proof fn lemma_search_result_optimal(
    b: chess::Board,
    depth: nat,
    player: Side,
    engine: Side,
    j: int,
)
    requires
        depth >= 1,
        0 <= j < moves_of(b).len(),
    ensures
        player == engine ==> search_value(
            board_after(b, moves_of(b)[j]),
            (depth - 1) as nat,
            other(player),
            engine,
        ) <= search_value(b, depth, player, engine),
        player != engine ==> search_value(
            board_after(b, moves_of(b)[j]),
            (depth - 1) as nat,
            other(player),
            engine,
        ) >= search_value(b, depth, player, engine),
{
    lemma_search_upto_optimal(b, depth, player, engine, j, moves_of(b).len() as int);
}

/// A one-ply reply search for the opponent reports a plain material score:
/// every leaf it examines is worth at most 576 points either way, so its
/// running score, once any move is examined, stays in that range.
proof fn lemma_ab_from_reply_bounds(
    b: chess::Board,
    lo: int,
    hi: int,
    player: Side,
    engine: Side,
    i: int,
    mv: Option<Mv>,
    best: int,
)
    requires
        player != engine,
        0 <= i <= moves_of(b).len(),
        best == i64::MAX as int || -576 <= best <= 576,
    ensures
        i < moves_of(b).len() ==> -576 <= ab_from(b, 1, lo, hi, player, engine, i, mv, best).1
            <= 576,
        i == moves_of(b).len() ==> ab_from(b, 1, lo, hi, player, engine, i, mv, best).1 == best,
    decreases moves_of(b).len() - i,
{
    let ms = moves_of(b);
    if i < ms.len() {
        let c = board_after(b, ms[i]);
        lemma_material_bounds(c, engine);
        let sc = ab_result(c, 0, lo, hi, other(player), engine).1;
        assert(sc == material(c, engine));
        let mv2 = if sc <= best { Option::Some(ms[i]) } else { mv };
        let best2 = if sc < best { sc } else { best };
        let hi2 = if best2 < hi { best2 } else { hi };
        if hi2 > lo {
            lemma_ab_from_reply_bounds(b, lo, hi2, player, engine, i + 1, mv2, best2);
        }
    }
}

/// Step of [`lemma_mate_in_one_is_chosen`]: walking the root's moves toward
/// the first mating one, every reply search reports a bounded material
/// score, so the running score stays below the maximum and no cutoff fires;
/// reaching the mating move ends the search with it at once.
proof fn lemma_ab_mate_step(
    b: chess::Board,
    player: Side,
    engine: Side,
    k: int,
    lo: int,
    i: int,
    mv: Option<Mv>,
    best: int,
)
    requires
        player == engine,
        0 <= i <= k < moves_of(b).len(),
        moves_of(board_after(b, moves_of(b)[k])).len() == 0,
        forall|j: int| i <= j < k ==> moves_of(board_after(b, #[trigger] moves_of(b)[j])).len()
            > 0,
        best == i64::MIN as int || -576 <= best <= 576,
        lo < i64::MAX as int,
    ensures
        ab_from(b, 2, lo, i64::MAX as int, player, engine, i, mv, best) == (
            Option::Some(moves_of(b)[k]),
            i64::MAX as int,
        ),
    decreases k - i,
{
    let ms = moves_of(b);
    let c = board_after(b, ms[i]);
    let hi = i64::MAX as int;
    let sc = ab_result(c, 1, lo, hi, other(player), engine).1;
    assert(ab_result(c, 1, lo, hi, other(player), engine) == ab_from(
        c,
        1,
        lo,
        hi,
        other(player),
        engine,
        0,
        Option::<Mv>::None,
        worst_for(other(player), engine),
    ));
    if i == k {
        assert(sc == i64::MAX as int);
        assert(ab_from(b, 2, lo, hi, player, engine, i, mv, best) == (
            Option::Some(ms[i]),
            i64::MAX as int,
        ));
    } else {
        lemma_ab_from_reply_bounds(
            c,
            lo,
            hi,
            other(player),
            engine,
            0,
            Option::<Mv>::None,
            worst_for(other(player), engine),
        );
        assert(-576 <= sc <= 576);
        let mv2 = if sc >= best { Option::Some(ms[i]) } else { mv };
        let best2 = if sc > best { sc } else { best };
        let lo2 = if best2 > lo { best2 } else { lo };
        lemma_ab_mate_step(b, player, engine, k, lo2, i + 1, mv2, best2);
        assert(ab_from(b, 2, lo, hi, player, engine, i, mv, best) == ab_from(
            b,
            2,
            lo2,
            hi,
            player,
            engine,
            i + 1,
            mv2,
            best2,
        ));
    }
}

/// A mate in one is played: at a two-ply search from the full window, the
/// first move in generation order after which the opponent has no reply -
/// checkmate or stalemate, which the engine conflates - is the move chosen,
/// and it scores the maximum representable value (the cutoff ends the
/// search the moment it is found).
pub proof fn lemma_mate_in_one_is_chosen(b: chess::Board, player: Side, engine: Side, k: int)
    requires
        player == engine,
        0 <= k < moves_of(b).len(),
        moves_of(board_after(b, moves_of(b)[k])).len() == 0,
        forall|j: int| 0 <= j < k ==> moves_of(board_after(b, #[trigger] moves_of(b)[j])).len()
            > 0,
    ensures
        ab_result(b, 2, i64::MIN as int, i64::MAX as int, player, engine) == (
            Option::Some(moves_of(b)[k]),
            i64::MAX as int,
        ),
{
    lemma_ab_mate_step(
        b,
        player,
        engine,
        k,
        i64::MIN as int,
        0,
        Option::<Mv>::None,
        worst_for(player, engine),
    );
    assert(ab_result(b, 2, i64::MIN as int, i64::MAX as int, player, engine) == ab_from(
        b,
        2,
        i64::MIN as int,
        i64::MAX as int,
        player,
        engine,
        0,
        Option::<Mv>::None,
        worst_for(player, engine),
    ));
}

/// `o` with its occupant's side swapped.
pub open spec fn swap_occ(o: Option<Occupant>) -> Option<Occupant> {
    match o {
        Option::None => Option::None,
        Option::Some(oc) => Option::Some(Occupant { side: other(oc.side), kind: oc.kind }),
    }
}

/// Material-count symmetry: an occupancy whose every square holds the
/// other one's piece with its side swapped has the negated material
/// balance.
pub proof fn lemma_material_swap_sides(
    s: Seq<Option<Occupant>>,
    t: Seq<Option<Occupant>>,
    engine: Side,
    n: int,
)
    requires
        forall|j: int| 0 <= j < n ==> #[trigger] t[j] == swap_occ(s[j]),
    ensures
        material_upto(t, engine, n) == -material_upto(s, engine, n),
    decreases n,
{
    if n > 0 {
        lemma_material_swap_sides(s, t, engine, n - 1);
        assert(square_value(swap_occ(s[n - 1]), engine) == -square_value(s[n - 1], engine));
    }
}

/// Material-count symmetry at board level: a position whose every square
/// holds the other one's piece with its side swapped has the negated
/// material balance.
pub proof fn lemma_material_swap_boards(b1: chess::Board, b2: chess::Board, engine: Side)
    requires
        forall|j: int| 0 <= j < 64 ==> #[trigger] occ_of(b2)[j] == swap_occ(occ_of(b1)[j]),
    ensures
        material(b2, engine) == -material(b1, engine),
{
    lemma_material_swap_sides(occ_of(b1), occ_of(b2), engine, 64);
}

/// Perspective antisymmetry: the material balance seen from one side is the
/// negation of the balance seen from the other.
pub proof fn lemma_material_other_side(s: Seq<Option<Occupant>>, engine: Side, n: int)
    ensures
        material_upto(s, other(engine), n) == -material_upto(s, engine, n),
    decreases n,
{
    if n > 0 {
        lemma_material_other_side(s, engine, n - 1);
        assert(square_value(s[n - 1], other(engine)) == -square_value(s[n - 1], engine));
    }
}

} // verus!
