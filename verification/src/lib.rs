//! A chess engine core: a material evaluator and a depth-bounded minimax
//! search with alpha-beta pruning, built on top of an external rules engine
//! that enumerates legal moves and applies them.

use vstd::prelude::*;

pub mod engine;
pub mod model;
pub mod rules;

verus! {

/// One of the two players.
#[derive(Clone, Copy, PartialEq, Eq, Structural, Debug)]
pub enum Side {
    White,
    Black,
}

/// The kind of a chess piece.
#[derive(Clone, Copy, PartialEq, Eq, Structural, Debug)]
pub enum PieceKind {
    Pawn,
    Knight,
    Bishop,
    Rook,
    Queen,
    King,
}

/// The piece standing on one square: its owner and its kind.
#[derive(Clone, Copy, PartialEq, Eq, Structural, Debug)]
pub struct Occupant {
    pub side: Side,
    pub kind: PieceKind,
}

/// A move, named by its source and destination square indices
/// (0 = a1, 7 = h1, 56 = a8, 63 = h8) and, for a promoting pawn move,
/// the piece promoted to.
#[derive(Clone, Copy, PartialEq, Eq, Debug)]
pub struct Mv {
    pub from: u8,
    pub to: u8,
    pub promotion: Option<PieceKind>,
}

/// The side opposing `s`.
pub open spec fn other(s: Side) -> Side {
    match s {
        Side::White => Side::Black,
        Side::Black => Side::White,
    }
}

/// Runtime counterpart of [`other`].
pub fn opposite(s: Side) -> (t: Side)
    ensures
        t == other(s),
{
    match s {
        Side::White => Side::Black,
        Side::Black => Side::White,
    }
}

/// Fixed material weight of a piece kind: pawn 1, knight 3, bishop 3,
/// rook 5, queen 9; the king carries no material weight.
pub open spec fn piece_value(k: PieceKind) -> int {
    match k {
        PieceKind::Pawn => 1,
        PieceKind::Knight => 3,
        PieceKind::Bishop => 3,
        PieceKind::Rook => 5,
        PieceKind::Queen => 9,
        PieceKind::King => 0,
    }
}

/// The number of pieces of side `side` among the first `n` squares of `s`.
pub open spec fn piece_count_upto(s: Seq<Option<Occupant>>, side: Side, n: int) -> int
    decreases n,
{
    if n <= 0 {
        0
    } else {
        piece_count_upto(s, side, n - 1) + match s[n - 1] {
            Option::Some(oc) => if oc.side == side {
                1int
            } else {
                0int
            },
            Option::None => 0int,
        }
    }
}

/// Runtime counterpart of [`piece_value`].
pub fn piece_weight(k: PieceKind) -> (w: i64)
    ensures
        w == piece_value(k),
        0 <= w <= 9,
{
    match k {
        PieceKind::Pawn => 1,
        PieceKind::Knight => 3,
        PieceKind::Bishop => 3,
        PieceKind::Rook => 5,
        PieceKind::Queen => 9,
        PieceKind::King => 0,
    }
}

} // verus!
