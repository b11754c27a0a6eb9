use std::str::FromStr;

use chess_engine::engine::evaluate;
use chess_engine::{piece_weight, PieceKind, Side};

fn board(fen: &str) -> chess::Board {
    chess::Board::from_str(fen).unwrap()
}

#[test]
fn piece_weights_are_fixed() {
    assert_eq!(piece_weight(PieceKind::Pawn), 1);
    assert_eq!(piece_weight(PieceKind::Knight), 3);
    assert_eq!(piece_weight(PieceKind::Bishop), 3);
    assert_eq!(piece_weight(PieceKind::Rook), 5);
    assert_eq!(piece_weight(PieceKind::Queen), 9);
    assert_eq!(piece_weight(PieceKind::King), 0);
}

#[test]
fn starting_position_is_balanced() {
    let b = chess::Board::default();
    assert_eq!(evaluate(&b, Side::White), 0);
    assert_eq!(evaluate(&b, Side::Black), 0);
}

#[test]
fn material_count_is_exact() {
    // White: rook a1, king e1, pawns a2 and b2; Black: bare king.
    let b = board("4k3/8/8/8/8/8/PP6/R3K3 w - - 0 1");
    assert_eq!(evaluate(&b, Side::White), 7);
    assert_eq!(evaluate(&b, Side::Black), -7);
}

#[test]
fn evaluate_negates_under_side_swap() {
    // The same placement with every piece's side swapped.
    let a = board("4k3/8/8/8/8/8/8/Q3K3 w - - 0 1");
    let b = board("4K3/8/8/8/8/8/8/q3k3 w - - 0 1");
    assert_eq!(evaluate(&a, Side::White), 9);
    assert_eq!(evaluate(&a, Side::White), -evaluate(&b, Side::White));
    assert_eq!(evaluate(&a, Side::Black), -evaluate(&b, Side::Black));
}

#[test]
fn evaluate_negates_under_perspective_swap() {
    let b = board("4k3/8/8/8/8/8/PP6/R3K3 w - - 0 1");
    assert_eq!(evaluate(&b, Side::White), -evaluate(&b, Side::Black));
    let start = chess::Board::default();
    assert_eq!(evaluate(&start, Side::White), -evaluate(&start, Side::Black));
}
