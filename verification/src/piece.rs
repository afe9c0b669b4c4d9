//! The falling piece: a position, a rotation state and a piece type. A piece
//! is plain value data; it is mutated only by the game loop, after the
//! playfield has validated the move.

use vstd::prelude::*;

use crate::coord::Coord;
use crate::piece_types::{cell_offsets, lemma_offsets_distinct, lemma_offsets_small,
    lemma_origin_offset, PieceType};
use crate::rotation::Rotation;

verus! {

/// Positions this far from the origin are accepted everywhere; the bound
/// keeps every occupied coordinate, and every wall-kick offset, well inside
/// the `i32` range.
pub const COORD_BOUND: i32 = 1_000_000_000;

/// The fixed spawn coordinate of a fresh piece.
pub const SPAWN_X: i32 = 5;

/// The fixed spawn coordinate of a fresh piece.
pub const SPAWN_Y: i32 = 22;

/// The live falling piece.
#[derive(Debug, Clone, Copy, PartialEq, Eq, Structural)]
pub struct Piece {
    pub position: Coord,
    pub rotation: Rotation,
    pub piece_type: PieceType,
}

/// A fresh piece of type `t` at the canonical spawn coordinate, unrotated.
pub open spec fn spawned_piece(t: PieceType) -> Piece {
    Piece {
        position: Coord { x: SPAWN_X, y: SPAWN_Y },
        rotation: Rotation::R0,
        piece_type: t,
    }
}

impl Piece {
    pub fn new(piece_type: PieceType) -> (p: Piece)
        ensures
            p == spawned_piece(piece_type),
    {
        Piece { position: Coord::new(SPAWN_X, SPAWN_Y), rotation: Rotation::R0, piece_type }
    }

    /// The four absolute grid coordinates this piece occupies: the rotated
    /// table offsets, shifted by the piece position.
    pub open spec fn cells(self) -> Seq<(int, int)> {
        cell_offsets(self.piece_type, self.rotation).map(
            |_i: int, o: (int, int)| (self.position.x + o.0, self.position.y + o.1),
        )
    }

    /// The position is far from the `i32` boundary, so occupied coordinates
    /// can be computed without overflow.
    pub open spec fn pos_in_range(self) -> bool {
        &&& -COORD_BOUND <= self.position.x <= COORD_BOUND
        &&& -COORD_BOUND <= self.position.y <= COORD_BOUND
    }

    /// A piece occupies exactly four pairwise distinct coordinates.
    pub proof fn lemma_cells_distinct(self)
        ensures
            self.cells().len() == 4,
            forall|i: int, j: int|
                0 <= i < j < 4 ==> #[trigger] self.cells()[i] != #[trigger] self.cells()[j],
    {
        lemma_offsets_distinct(self.piece_type, self.rotation);
    }

    /// The piece's own position is its first occupied coordinate.
    pub proof fn lemma_cells_origin(self)
        ensures
            self.cells().len() == 4,
            self.cells()[0] == (self.position.x as int, self.position.y as int),
    {
        lemma_origin_offset(self.piece_type, self.rotation);
    }

    /// Every occupied coordinate lies within two cells of the position.
    pub proof fn lemma_cells_near(self)
        ensures
            self.cells().len() == 4,
            forall|i: int|
                0 <= i < 4 ==> self.position.x - 2 <= (#[trigger] self.cells()[i]).0
                    <= self.position.x + 2 && self.position.y - 2 <= self.cells()[i].1
                    <= self.position.y + 2,
    {
        lemma_offsets_small(self.piece_type, self.rotation);
    }
}

} // verus!
