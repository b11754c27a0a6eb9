use std::str::FromStr;

use chess_engine::engine::{check_piece_limit, mini_max, mini_max_exhaustive, next_move};
use chess_engine::{Mv, PieceKind, Side};

fn board(fen: &str) -> chess::Board {
    chess::Board::from_str(fen).unwrap()
}

fn to_chess_move(m: &Mv) -> chess::ChessMove {
    let promotion = m.promotion.map(|k| match k {
        PieceKind::Pawn => chess::Piece::Pawn,
        PieceKind::Knight => chess::Piece::Knight,
        PieceKind::Bishop => chess::Piece::Bishop,
        PieceKind::Rook => chess::Piece::Rook,
        PieceKind::Queen => chess::Piece::Queen,
        PieceKind::King => chess::Piece::King,
    });
    chess::ChessMove::new(
        chess::ALL_SQUARES[m.from as usize],
        chess::ALL_SQUARES[m.to as usize],
        promotion,
    )
}

#[test]
fn depth_zero_returns_no_move_and_material() {
    let b = chess::Board::default();
    assert_eq!(
        mini_max(&b, 0, i64::MIN, i64::MAX, Side::White, Side::White),
        (None, 0)
    );
    assert_eq!(
        mini_max(&b, 0, i64::MIN, i64::MAX, Side::Black, Side::White),
        (None, 0)
    );
}

#[test]
fn stalemate_returns_no_move_and_initial_extremum() {
    // Black to move, not in check, with no legal move.
    let b = board("k7/8/1QK5/8/8/8/8/8 b - - 0 1");
    assert_eq!(
        mini_max(&b, 3, i64::MIN, i64::MAX, Side::Black, Side::Black),
        (None, i64::MIN)
    );
    assert_eq!(
        mini_max(&b, 3, i64::MIN, i64::MAX, Side::Black, Side::White),
        (None, i64::MAX)
    );
    assert_eq!(next_move(&b, Side::Black), None);
}

#[test]
fn checkmate_returns_no_move_and_initial_extremum() {
    // Black to move, mated on the back rank.
    let b = board("R5k1/5ppp/8/8/8/8/8/6K1 b - - 0 1");
    assert_eq!(
        mini_max(&b, 2, i64::MIN, i64::MAX, Side::Black, Side::Black),
        (None, i64::MIN)
    );
    assert_eq!(
        mini_max(&b, 2, i64::MIN, i64::MAX, Side::Black, Side::White),
        (None, i64::MAX)
    );
}

#[test]
fn single_legal_move_is_chosen() {
    // Black's only legal move is the pawn step h6 to h5.
    let b = board("k7/8/1QK4p/8/8/8/8/8 b - - 0 1");
    let expected = Mv { from: 47, to: 39, promotion: None };
    let (m, _) = mini_max(&b, 1, i64::MIN, i64::MAX, Side::Black, Side::Black);
    assert_eq!(m, Some(expected));
}

#[test]
fn single_legal_move_is_chosen_at_full_depth() {
    let b = board("k7/8/1QK4p/8/8/8/8/8 b - - 0 1");
    let expected = Mv { from: 47, to: 39, promotion: None };
    assert_eq!(next_move(&b, Side::Black), Some(expected));
}

#[test]
fn equal_scores_keep_the_last_move_seen() {
    // Two bare kings: every black king move scores zero, so the move
    // generated last (h8 to g8) must win the tie.
    let b = board("7k/8/8/8/8/8/8/K7 b - - 0 1");
    let expected = Mv { from: 63, to: 62, promotion: None };
    assert_eq!(
        mini_max(&b, 1, i64::MIN, i64::MAX, Side::Black, Side::Black),
        (Some(expected), 0)
    );
    assert_eq!(
        mini_max_exhaustive(&b, 1, Side::Black, Side::Black),
        (Some(expected), 0)
    );
    // Two plies deep the zero scores tie through narrowed windows as well.
    assert_eq!(
        mini_max(&b, 2, i64::MIN, i64::MAX, Side::Black, Side::Black),
        (Some(expected), 0)
    );
}

#[test]
fn mate_in_one_is_found() {
    // White mates with the rook lift e1 to e8.
    let b = board("6k1/5ppp/8/8/8/8/8/4R2K w - - 0 1");
    let expected = Mv { from: 4, to: 60, promotion: None };
    let (m, score) = mini_max(&b, 2, i64::MIN, i64::MAX, Side::White, Side::White);
    assert_eq!(m, Some(expected));
    assert_eq!(score, i64::MAX);
}

#[test]
fn promotion_to_queen_maximizes_material() {
    let b = board("k7/7P/8/8/8/8/8/K6R w - - 0 1");
    let expected = Mv { from: 55, to: 63, promotion: Some(PieceKind::Queen) };
    let (m, score) = mini_max(&b, 1, i64::MIN, i64::MAX, Side::White, Side::White);
    assert_eq!(m, Some(expected));
    assert_eq!(score, 14);
}

#[test]
fn pruned_and_exhaustive_scores_agree() {
    let positions = [
        "rnbqkbnr/pppppppp/8/8/8/8/PPPPPPPP/RNBQKBNR w KQkq - 0 1",
        "r1bqkbnr/pppp1ppp/2n5/4p3/2B1P3/5N2/PPPP1PPP/RNBQK2R w KQkq - 0 4",
        "6k1/5ppp/8/8/8/8/8/4R2K w - - 0 1",
        "k7/8/1QK4p/8/8/8/8/8 b - - 0 1",
    ];
    for fen in positions {
        let b = board(fen);
        for depth in 0..=2 {
            for engine in [Side::White, Side::Black] {
                let player = match b.side_to_move() {
                    chess::Color::White => Side::White,
                    chess::Color::Black => Side::Black,
                };
                let pruned = mini_max(&b, depth, i64::MIN, i64::MAX, player, engine);
                let full = mini_max_exhaustive(&b, depth, player, engine);
                assert_eq!(pruned.1, full.1);
            }
        }
    }
}

#[test]
fn pruned_and_exhaustive_scores_agree_at_depth_three() {
    let b = chess::Board::default();
    let pruned = mini_max(&b, 3, i64::MIN, i64::MAX, Side::White, Side::White);
    let full = mini_max_exhaustive(&b, 3, Side::White, Side::White);
    assert_eq!(pruned.1, full.1);
}

#[test]
fn deeper_search_still_returns_a_legal_move() {
    let b = chess::Board::default();
    for depth in 1..=4 {
        let (m, _) = mini_max(&b, depth, i64::MIN, i64::MAX, Side::White, Side::White);
        let m = m.expect("a move must be chosen while legal moves exist");
        assert!(b.legal(to_chess_move(&m)));
    }
}

#[test]
fn chosen_move_is_always_legal() {
    let positions = [
        "r1bqkbnr/pppp1ppp/2n5/4p3/2B1P3/5N2/PPPP1PPP/RNBQK2R w KQkq - 0 4",
        "k7/7P/8/8/8/8/8/K6R w - - 0 1",
        "6k1/5ppp/8/8/8/8/8/4R2K w - - 0 1",
    ];
    for fen in positions {
        let b = board(fen);
        for engine in [Side::White, Side::Black] {
            let (m, _) = mini_max(&b, 2, i64::MIN, i64::MAX, Side::White, engine);
            let m = m.expect("a move must be chosen while legal moves exist");
            assert!(b.legal(to_chess_move(&m)));
        }
    }
}

#[test]
fn search_is_deterministic() {
    let b = board("r1bqkbnr/pppp1ppp/2n5/4p3/2B1P3/5N2/PPPP1PPP/RNBQK2R w KQkq - 0 4");
    let r1 = mini_max(&b, 2, i64::MIN, i64::MAX, Side::White, Side::White);
    let r2 = mini_max(&b, 2, i64::MIN, i64::MAX, Side::White, Side::White);
    assert_eq!(r1, r2);
    let n1 = mini_max(&b, 2, -10, 10, Side::White, Side::Black);
    let n2 = mini_max(&b, 2, -10, 10, Side::White, Side::Black);
    assert_eq!(n1, n2);
}

#[test]
fn piece_limit_guard_detects_overfull_positions() {
    assert!(check_piece_limit(&chess::Board::default()));
    assert!(check_piece_limit(&board("k7/8/1QK4p/8/8/8/8/8 b - - 0 1")));
    // Seventeen white queens: accepted by the parser, but beyond what the
    // move generator's fixed buffers support, so the search must not see it.
    let b = board("6k1/5ppp/8/8/7K/QQQ5/QQQQQQQ1/QQQQQQQ1 w - - 0 1");
    assert!(!check_piece_limit(&b));
}
