//! The executable engine: the material evaluator and the alpha-beta search.

use vstd::prelude::*;
use crate::model::{
    ab_from, ab_result, lemma_material_bounds, lemma_search_upto_monotone,
    lemma_search_value_in_range, material, material_upto, search_result, search_upto, search_value,
    worst_for,
};
use crate::rules::{
    apply_move, board_after, legal_moves, moves_of, occ_of, occupant_on, within_piece_limit,
};
use crate::{opposite, other, piece_count_upto, piece_weight, Mv, Side};

verus! {

/// Material balance of `board` seen from `engine`'s side: the sum, over all
/// 64 squares, of the occupying piece's weight, positive for `engine`'s own
/// pieces and negative for the opponent's.
pub fn evaluate(board: &chess::Board, engine: Side) -> (score: i64)
    ensures
        score == material(*board, engine),
        -576 <= score <= 576,
{
    let mut total: i64 = 0;
    let mut i: u8 = 0;
    while i < 64
        invariant
            i <= 64,
            -9 * i <= total <= 9 * i,
            total == material_upto(occ_of(*board), engine, i as int),
        decreases 64 - i,
    {
        match occupant_on(board, i) {
            Some(oc) => {
                let w = piece_weight(oc.kind);
                if oc.side == engine {
                    total = total + w;
                } else {
                    total = total - w;
                }
            },
            None => {},
        }
        i = i + 1;
    }
    total
}


/// Whether `board` is within the piece limit the move generator supports:
/// at most sixteen pieces of either side. Every position reachable from the
/// standard starting placement is; a hand-built position should be checked
/// with this before it is searched.
pub fn check_piece_limit(board: &chess::Board) -> (r: bool)
    ensures
        r == within_piece_limit(*board),
{
    let mut white: u8 = 0;
    let mut black: u8 = 0;
    let mut i: u8 = 0;
    while i < 64
        invariant
            i <= 64,
            white <= i,
            black <= i,
            white == piece_count_upto(occ_of(*board), Side::White, i as int),
            black == piece_count_upto(occ_of(*board), Side::Black, i as int),
        decreases 64 - i,
    {
        match occupant_on(board, i) {
            Some(oc) => {
                if oc.side == Side::White {
                    white = white + 1;
                } else {
                    black = black + 1;
                }
            },
            None => {},
        }
        i = i + 1;
    }
    white <= 16 && black <= 16
}

/// The unpruned reference search: examines every legal move at every node
/// and returns exactly the exhaustive minimax move and score, last equal
/// move winning.
pub fn mini_max_exhaustive(board: &chess::Board, depth: usize, player: Side, engine: Side) -> (r:
    (Option<Mv>, i64))
    requires
        within_piece_limit(*board),
    ensures
        r.0 == search_result(*board, depth as nat, player, engine).0,
        r.1 == search_result(*board, depth as nat, player, engine).1,
    decreases depth,
{
    if depth == 0 {
        let score = evaluate(board, engine);
        return (None, score);
    }
    let mvs = legal_moves(board);
    let ghost ms = moves_of(*board);
    let ghost d = depth as nat;
    let mut best_mv: Option<Mv> = None;
    let mut best: i64 = if player == engine {
        i64::MIN
    } else {
        i64::MAX
    };
    let mut i: usize = 0;
    while i < mvs.len()
        invariant
            mvs@ == ms,
            ms == moves_of(*board),
            forall|j: int| 0 <= j < ms.len() ==> (#[trigger] ms[j]).from < 64 && ms[j].to < 64,
            i <= mvs.len(),
            depth >= 1,
            d == depth as nat,
            within_piece_limit(*board),
            best_mv == search_upto(*board, d, player, engine, i as int).0,
            best == search_upto(*board, d, player, engine, i as int).1,
        decreases mvs.len() - i,
    {
        let m = mvs[i];
        proof {
            assert(ms[i as int] == m);
            assert(ms.contains(m));
        }
        let child = apply_move(board, &m);
        let rec = mini_max_exhaustive(&child, depth - 1, opposite(player), engine);
        let sc = rec.1;
        let ghost prev = search_upto(*board, d, player, engine, i as int);
        let ghost next = search_upto(*board, d, player, engine, i as int + 1);
        proof {
            assert(sc == search_result(board_after(*board, m), (d - 1) as nat, other(player), engine).1);
        }
        if player == engine {
            if sc >= best {
                best_mv = Some(m);
            }
            if sc > best {
                best = sc;
            }
        } else {
            if sc <= best {
                best_mv = Some(m);
            }
            if sc < best {
                best = sc;
            }
        }
        i = i + 1;
        proof {
            assert(next == search_upto(*board, d, player, engine, i as int));
        }
    }
    (best_mv, best)
}


/// Depth-bounded minimax over `board` with alpha-beta pruning of the window
/// `[alpha, beta]`: `alpha` is the score the maximizing side can already
/// guarantee elsewhere, `beta` the score the minimizing side can. The chosen
/// move is one of the position's legal moves (`None` exactly at depth zero
/// or when no legal move exists), and the score is fail-soft sound for the
/// exhaustive minimax value: exact when it falls strictly inside the window,
/// a sound bound on the value when it falls on or outside it, hence exact
/// whenever the full window is searched. Pruning never changes the score
/// reached from a full window, only the work done; at a depth-one search
/// from the full window the chosen move, too, is exactly the exhaustive
/// one. Move and score together equal [`ab_result`], the pruned search
/// written as a mathematical function of the arguments alone, which pins
/// the move chosen at every depth and window and makes the search
/// deterministic.
pub fn mini_max(
    board: &chess::Board,
    depth: usize,
    alpha: i64,
    beta: i64,
    player: Side,
    engine: Side,
) -> (r: (Option<Mv>, i64))
    requires
        alpha <= beta,
        within_piece_limit(*board),
    ensures
        depth == 0 ==> r.0 is None && r.1 == material(*board, engine),
        depth > 0 && moves_of(*board).len() == 0 ==> r.0 is None && r.1 == worst_for(
            player,
            engine,
        ),
        depth > 0 && moves_of(*board).len() > 0 ==> (r.0 matches Some(m) && moves_of(
            *board,
        ).contains(m)),
        alpha < beta ==> (r.1 <= alpha ==> search_value(*board, depth as nat, player, engine)
            <= r.1),
        alpha < beta ==> (r.1 >= beta ==> r.1 <= search_value(*board, depth as nat, player, engine)),
        alpha < beta && alpha < r.1 < beta ==> r.1 == search_value(
            *board,
            depth as nat,
            player,
            engine,
        ),
        alpha == i64::MIN && beta == i64::MAX ==> r.1 == search_value(
            *board,
            depth as nat,
            player,
            engine,
        ),
        depth == 1 && alpha == i64::MIN && beta == i64::MAX ==> r.0 == search_result(
            *board,
            depth as nat,
            player,
            engine,
        ).0,
        r.0 == ab_result(*board, depth as nat, alpha as int, beta as int, player, engine).0,
        r.1 == ab_result(*board, depth as nat, alpha as int, beta as int, player, engine).1,
    decreases depth,
{
    if depth == 0 {
        let score = evaluate(board, engine);
        return (None, score);
    }
    let mvs = legal_moves(board);
    let ghost ms = moves_of(*board);
    let ghost d = depth as nat;
    proof {
        assert(search_result(*board, d, player, engine) == search_upto(
            *board,
            d,
            player,
            engine,
            ms.len() as int,
        ));
        assert(ab_result(*board, d, alpha as int, beta as int, player, engine) == ab_from(
            *board,
            d,
            alpha as int,
            beta as int,
            player,
            engine,
            0,
            Option::<Mv>::None,
            worst_for(player, engine),
        ));
    }
    if player == engine {
        let mut best_mv: Option<Mv> = None;
        let mut best: i64 = i64::MIN;
        let mut a: i64 = alpha;
        let mut i: usize = 0;
        loop
            invariant_except_break
                alpha < beta ==> a < beta,
                alpha < beta ==> best < beta,
                alpha == beta ==> i == 0,
                alpha < beta ==> (best <= alpha ==> search_upto(
                    *board,
                    d,
                    player,
                    engine,
                    i as int,
                ).1 <= best),
                alpha < beta && alpha < best ==> best == search_upto(
                    *board,
                    d,
                    player,
                    engine,
                    i as int,
                ).1,
                depth == 1 && alpha == i64::MIN && beta == i64::MAX ==> (best_mv == search_upto(
                    *board,
                    d,
                    player,
                    engine,
                    i as int,
                ).0 && best == search_upto(*board, d, player, engine, i as int).1 && (i == 0 || -576
                    <= best <= 576)),
                ab_from(*board, d, a as int, beta as int, player, engine, i as int, best_mv, best as int)
                    == ab_result(*board, d, alpha as int, beta as int, player, engine),
            invariant
                mvs@ == ms,
                ms == moves_of(*board),
                forall|j: int| 0 <= j < ms.len() ==> (#[trigger] ms[j]).from < 64 && ms[j].to < 64,
                i <= mvs.len(),
                alpha <= beta,
                within_piece_limit(*board),
                depth >= 1,
                d == depth as nat,
                player == engine,
                best > alpha ==> a == best,
                best <= alpha ==> a == alpha,
                i == 0 ==> best_mv is None && best == i64::MIN && a == alpha,
                i > 0 ==> (best_mv matches Some(m) && exists|j: int|
                    0 <= j < i as int && ms[j] == m),
            ensures
                mvs@ == ms,
                i <= mvs.len(),
                ms.len() > 0 ==> i > 0,
                i == 0 ==> best_mv is None && best == i64::MIN,
                i > 0 ==> (best_mv matches Some(m) && exists|j: int|
                    0 <= j < i as int && ms[j] == m),
                i as int == ms.len() ==> {
                    let fin = search_upto(*board, d, player, engine, ms.len() as int).1;
                    &&& (alpha < beta ==> (best <= alpha ==> fin <= best))
                    &&& (alpha < beta ==> (best >= beta ==> fin >= best))
                    &&& (alpha < beta && alpha < best < beta ==> best == fin)
                },
                (i as int) < ms.len() ==> (alpha < beta ==> best >= beta && search_upto(
                    *board,
                    d,
                    player,
                    engine,
                    i as int,
                ).1 >= best),
                depth == 1 && alpha == i64::MIN && beta == i64::MAX ==> (i as int == ms.len()
                    && best_mv == search_upto(*board, d, player, engine, ms.len() as int).0 && best
                    == search_upto(*board, d, player, engine, ms.len() as int).1),
                best_mv == ab_result(*board, d, alpha as int, beta as int, player, engine).0,
                best as int == ab_result(*board, d, alpha as int, beta as int, player, engine).1,
            decreases mvs.len() - i,
        {
            if i >= mvs.len() {
                break;
            }
            let m = mvs[i];
            proof {
                assert(ms[i as int] == m);
                assert(ms.contains(m));
            }
            let ghost a0 = a;
            let ghost best0 = best;
            let ghost mv0 = best_mv;
            let ghost i0 = i as int;
            let child = apply_move(board, &m);
            let rec = mini_max(&child, depth - 1, a, beta, opposite(player), engine);
            let sc = rec.1;
            let ghost cv = search_value(board_after(*board, m), (d - 1) as nat, other(player), engine);
            let ghost prev = search_upto(*board, d, player, engine, i as int);
            let ghost next = search_upto(*board, d, player, engine, i as int + 1);
            proof {
                assert(child == board_after(*board, m));
                assert(next.1 == if cv >= prev.1 { cv } else { prev.1 });
            }
            if sc >= best {
                best_mv = Some(m);
            }
            if sc > best {
                best = sc;
            }
            if best > a {
                a = best;
            }
            i = i + 1;
            proof {
                if alpha < beta {
                    assert(a0 < beta);
                    if sc <= a0 {
                        assert(cv <= sc);
                    } else if sc < beta {
                        assert(cv == sc);
                    } else {
                        assert(sc <= cv);
                    }
                    assert(next == search_upto(*board, d, player, engine, i as int));
                }
                if depth == 1 && alpha == i64::MIN && beta == i64::MAX {
                    lemma_material_bounds(board_after(*board, m), engine);
                    assert(cv == material(board_after(*board, m), engine));
                    assert(sc == cv);
                }
                assert(sc as int == ab_result(
                    board_after(*board, m),
                    (d - 1) as nat,
                    a0 as int,
                    beta as int,
                    other(player),
                    engine,
                ).1);
                if beta <= a {
                    assert(ab_from(*board, d, a0 as int, beta as int, player, engine, i0, mv0, best0 as int)
                        == (best_mv, best as int));
                } else {
                    assert(ab_from(*board, d, a0 as int, beta as int, player, engine, i0, mv0, best0 as int)
                        == ab_from(*board, d, a as int, beta as int, player, engine, i as int, best_mv, best as int));
                }
            }
            if beta <= a {
                break;
            }
        }
        proof {
            if alpha < beta && (i as int) < ms.len() {
                lemma_search_upto_monotone(*board, d, player, engine, i as int, ms.len() as int);
            }
            if alpha == i64::MIN && beta == i64::MAX {
                lemma_search_value_in_range(*board, d, player, engine);
            }
        }
        (best_mv, best)
    } else {
        let mut best_mv: Option<Mv> = None;
        let mut best: i64 = i64::MAX;
        let mut bt: i64 = beta;
        let mut i: usize = 0;
        loop
            invariant_except_break
                alpha < beta ==> alpha < bt,
                alpha < beta ==> best > alpha,
                alpha == beta ==> i == 0,
                alpha < beta ==> (best >= beta ==> search_upto(
                    *board,
                    d,
                    player,
                    engine,
                    i as int,
                ).1 >= best),
                alpha < beta && best < beta ==> best == search_upto(
                    *board,
                    d,
                    player,
                    engine,
                    i as int,
                ).1,
                depth == 1 && alpha == i64::MIN && beta == i64::MAX ==> (best_mv == search_upto(
                    *board,
                    d,
                    player,
                    engine,
                    i as int,
                ).0 && best == search_upto(*board, d, player, engine, i as int).1 && (i == 0 || -576
                    <= best <= 576)),
                ab_from(*board, d, alpha as int, bt as int, player, engine, i as int, best_mv, best as int)
                    == ab_result(*board, d, alpha as int, beta as int, player, engine),
            invariant
                mvs@ == ms,
                ms == moves_of(*board),
                forall|j: int| 0 <= j < ms.len() ==> (#[trigger] ms[j]).from < 64 && ms[j].to < 64,
                i <= mvs.len(),
                alpha <= beta,
                within_piece_limit(*board),
                depth >= 1,
                d == depth as nat,
                player != engine,
                best < beta ==> bt == best,
                best >= beta ==> bt == beta,
                i == 0 ==> best_mv is None && best == i64::MAX && bt == beta,
                i > 0 ==> (best_mv matches Some(m) && exists|j: int|
                    0 <= j < i as int && ms[j] == m),
            ensures
                mvs@ == ms,
                i <= mvs.len(),
                ms.len() > 0 ==> i > 0,
                i == 0 ==> best_mv is None && best == i64::MAX,
                i > 0 ==> (best_mv matches Some(m) && exists|j: int|
                    0 <= j < i as int && ms[j] == m),
                i as int == ms.len() ==> {
                    let fin = search_upto(*board, d, player, engine, ms.len() as int).1;
                    &&& (alpha < beta ==> (best <= alpha ==> fin <= best))
                    &&& (alpha < beta ==> (best >= beta ==> fin >= best))
                    &&& (alpha < beta && alpha < best < beta ==> best == fin)
                },
                (i as int) < ms.len() ==> (alpha < beta ==> best <= alpha && search_upto(
                    *board,
                    d,
                    player,
                    engine,
                    i as int,
                ).1 <= best),
                depth == 1 && alpha == i64::MIN && beta == i64::MAX ==> (i as int == ms.len()
                    && best_mv == search_upto(*board, d, player, engine, ms.len() as int).0 && best
                    == search_upto(*board, d, player, engine, ms.len() as int).1),
                best_mv == ab_result(*board, d, alpha as int, beta as int, player, engine).0,
                best as int == ab_result(*board, d, alpha as int, beta as int, player, engine).1,
            decreases mvs.len() - i,
        {
            if i >= mvs.len() {
                break;
            }
            let m = mvs[i];
            proof {
                assert(ms[i as int] == m);
                assert(ms.contains(m));
            }
            let ghost bt0 = bt;
            let ghost best0 = best;
            let ghost mv0 = best_mv;
            let ghost i0 = i as int;
            let child = apply_move(board, &m);
            let rec = mini_max(&child, depth - 1, alpha, bt, opposite(player), engine);
            let sc = rec.1;
            let ghost cv = search_value(board_after(*board, m), (d - 1) as nat, other(player), engine);
            let ghost prev = search_upto(*board, d, player, engine, i as int);
            let ghost next = search_upto(*board, d, player, engine, i as int + 1);
            proof {
                assert(child == board_after(*board, m));
                assert(next.1 == if cv <= prev.1 { cv } else { prev.1 });
            }
            if sc <= best {
                best_mv = Some(m);
            }
            if sc < best {
                best = sc;
            }
            if best < bt {
                bt = best;
            }
            i = i + 1;
            proof {
                if alpha < beta {
                    assert(alpha < bt0);
                    if sc >= bt0 {
                        assert(cv >= sc);
                    } else if sc > alpha {
                        assert(cv == sc);
                    } else {
                        assert(sc >= cv);
                    }
                    assert(next == search_upto(*board, d, player, engine, i as int));
                }
                if depth == 1 && alpha == i64::MIN && beta == i64::MAX {
                    lemma_material_bounds(board_after(*board, m), engine);
                    assert(cv == material(board_after(*board, m), engine));
                    assert(sc == cv);
                }
                assert(sc as int == ab_result(
                    board_after(*board, m),
                    (d - 1) as nat,
                    alpha as int,
                    bt0 as int,
                    other(player),
                    engine,
                ).1);
                if bt <= alpha {
                    assert(ab_from(*board, d, alpha as int, bt0 as int, player, engine, i0, mv0, best0 as int)
                        == (best_mv, best as int));
                } else {
                    assert(ab_from(*board, d, alpha as int, bt0 as int, player, engine, i0, mv0, best0 as int)
                        == ab_from(*board, d, alpha as int, bt as int, player, engine, i as int, best_mv, best as int));
                }
            }
            if bt <= alpha {
                break;
            }
        }
        proof {
            if alpha < beta && (i as int) < ms.len() {
                lemma_search_upto_monotone(*board, d, player, engine, i as int, ms.len() as int);
            }
            if alpha == i64::MIN && beta == i64::MAX {
                lemma_search_value_in_range(*board, d, player, engine);
            }
        }
        (best_mv, best)
    }
}


/// The fixed depth budget of the root entry point.
pub const SEARCH_DEPTH: usize = 6;

/// The root entry point: searches `board` to the fixed depth over the full
/// score window and returns exactly the move that search chooses for
/// `engine`, whose turn it is; `None` means `engine` has no legal move, so
/// the game is over from its side's perspective.
pub fn next_move(board: &chess::Board, engine: Side) -> (r: Option<Mv>)
    requires
        within_piece_limit(*board),
    ensures
        r == ab_result(
            *board,
            SEARCH_DEPTH as nat,
            i64::MIN as int,
            i64::MAX as int,
            engine,
            engine,
        ).0,
        moves_of(*board).len() == 0 ==> r is None,
        moves_of(*board).len() > 0 ==> (r matches Some(m) && moves_of(*board).contains(m)),
{
    mini_max(board, SEARCH_DEPTH, i64::MIN, i64::MAX, engine, engine).0
}

} // verus!
