//! The interface to the external rules engine (the `chess` crate).
//!
//! A `chess::Board` is kept opaque: the engine reads it only through the
//! trusted functions below, whose contracts speak of three uninterpreted
//! names for what the rules engine computes from a position: the occupants
//! of its 64 squares, its legal moves in generation order, and the successor
//! position a legal move leads to. All three are pure functions of their
//! arguments: the `chess` crate computes them from the board value alone.

use vstd::prelude::*;
use crate::{piece_count_upto, Mv, Occupant, PieceKind, Side};

verus! {

#[verifier::external_type_specification]
#[verifier::external_body]
pub struct ExBoard(chess::Board);

#[verifier::external_type_specification]
#[verifier::external_body]
pub struct ExPiece(chess::Piece);

/// The occupants of the 64 squares of `b`, indexed as in [`Mv`].
pub uninterp spec fn occ_of(b: chess::Board) -> Seq<Option<Occupant>>;

/// The legal moves of `b` for its side to move, in the order the rules
/// engine generates them.
pub uninterp spec fn moves_of(b: chess::Board) -> Seq<Mv>;

/// The position reached from `b` by the legal move `m`.
pub uninterp spec fn board_after(b: chess::Board, m: Mv) -> chess::Board;

/// A position the move generator's fixed buffers can handle: at most
/// sixteen pieces of either side, as in every position reachable from the
/// standard starting placement. The generator stores one move-list entry
/// per piece of the side to move, plus at most two extra for en-passant
/// captures, in room for eighteen, and does not check the bound itself.
pub open spec fn within_piece_limit(b: chess::Board) -> bool {
    piece_count_upto(occ_of(b), Side::White, 64) <= 16 && piece_count_upto(
        occ_of(b),
        Side::Black,
        64,
    ) <= 16
}

/// Relies on `chess::Board::piece_on` and `chess::Board::color_on`: together
/// they report the piece standing on a square and its owner, reading the
/// board value alone; a square holds a piece of some colour or is empty.
#[verifier::external_body]
pub fn occupant_on(b: &chess::Board, i: u8) -> (r: Option<Occupant>)
    requires
        i < 64,
    ensures
        r == occ_of(*b)[i as int],
{
    let sq = chess::ALL_SQUARES[i as usize];
    match (b.color_on(sq), b.piece_on(sq)) {
        (Some(c), Some(p)) => Some(Occupant {
            side: if c == chess::Color::White { Side::White } else { Side::Black },
            kind: kind_of_piece(p),
        }),
        _ => None,
    }
}

/// Relies on `chess::MoveGen::new_legal`: it enumerates exactly the legal
/// moves of the position, in a fixed order computed from the board alone,
/// each naming two of the 64 squares. The generator writes one fixed-size
/// buffer entry per piece of the side to move (plus at most two for
/// en-passant captures) without checking its room for eighteen, so it is
/// called only within the piece limit.
#[verifier::external_body]
pub fn legal_moves(b: &chess::Board) -> (r: Vec<Mv>)
    requires
        within_piece_limit(*b),
    ensures
        r@ == moves_of(*b),
        forall|j: int| 0 <= j < r@.len() ==> (#[trigger] r@[j]).from < 64 && r@[j].to < 64,
{
    let mut v = Vec::new();
    for m in chess::MoveGen::new_legal(b) {
        v.push(Mv {
            from: m.get_source().to_index() as u8,
            to: m.get_dest().to_index() as u8,
            promotion: m.get_promotion().map(kind_of_piece),
        });
    }
    v
}

/// Relies on `chess::Board::make_move_new`: applying a legal move yields the
/// successor position, a pure function of the board and the move; it panics
/// only if a king were captured, which no legal move does. A move relocates
/// one piece of the mover (a promotion replaces it) and at most removes a
/// captured piece, so neither side's piece count ever grows.
#[verifier::external_body]
pub fn apply_move(b: &chess::Board, m: &Mv) -> (r: chess::Board)
    requires
        moves_of(*b).contains(*m),
        m.from < 64,
        m.to < 64,
    ensures
        r == board_after(*b, *m),
        piece_count_upto(occ_of(r), Side::White, 64) <= piece_count_upto(
            occ_of(*b),
            Side::White,
            64,
        ),
        piece_count_upto(occ_of(r), Side::Black, 64) <= piece_count_upto(
            occ_of(*b),
            Side::Black,
            64,
        ),
{
    let source = chess::ALL_SQUARES[m.from as usize];
    let dest = chess::ALL_SQUARES[m.to as usize];
    let promotion = m.promotion.map(piece_of_kind);
    b.make_move_new(chess::ChessMove::new(source, dest, promotion))
}

/// Tells the variants of `chess::Piece` apart, one arm each; called only
/// from the trusted bodies above.
#[verifier::external_body]
fn kind_of_piece(p: chess::Piece) -> PieceKind {
    match p {
        chess::Piece::Pawn => PieceKind::Pawn,
        chess::Piece::Knight => PieceKind::Knight,
        chess::Piece::Bishop => PieceKind::Bishop,
        chess::Piece::Rook => PieceKind::Rook,
        chess::Piece::Queen => PieceKind::Queen,
        chess::Piece::King => PieceKind::King,
    }
}

/// The inverse of [`kind_of_piece`]; called only from the trusted bodies
/// above.
#[verifier::external_body]
fn piece_of_kind(k: PieceKind) -> chess::Piece {
    match k {
        PieceKind::Pawn => chess::Piece::Pawn,
        PieceKind::Knight => chess::Piece::Knight,
        PieceKind::Bishop => chess::Piece::Bishop,
        PieceKind::Rook => chess::Piece::Rook,
        PieceKind::Queen => chess::Piece::Queen,
        PieceKind::King => chess::Piece::King,
    }
}

} // verus!
