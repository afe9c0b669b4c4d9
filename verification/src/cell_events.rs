//! Render-facing notifications: one event per cell newly filled by the most
//! recent lock. The game loop records them and the presentation layer takes
//! them once; they are not re-delivered.

use vstd::prelude::*;

use crate::coord::Coord;
use crate::piece_types::PieceType;

verus! {

/// A cell was filled at `position` by a piece of type `piece_type`.
#[derive(Debug, Clone, Copy, PartialEq, Eq, Structural)]
pub enum CellEvent {
    Added { position: Coord, piece_type: PieceType },
}

} // verus!
