//! Piece shapes: the seven piece types, their fixed offset tables, and the
//! rotated cell geometry. These functions are the single source of truth for
//! "which cells does a piece occupy"; every other component consumes them.

use vstd::prelude::*;

use crate::coord::Coord;
use crate::piece::Piece;
use crate::rotation::Rotation;

verus! {

/// The seven piece types. The type fixes the geometry; a filled cell also
/// remembers it so the presentation layer can pick a colour.
#[derive(Debug, Clone, Copy, PartialEq, Eq, Structural)]
pub enum PieceType {
    O,
    J,
    L,
    S,
    T,
    Z,
    I,
}

/// The four occupied offsets of a piece type relative to its origin cell,
/// before rotation. The first entry is always the origin `(0,0)` itself.
pub open spec fn base_offsets(t: PieceType) -> Seq<(int, int)> {
    match t {
        PieceType::O => seq![(0, 0), (1, 0), (0, 1), (1, 1)],
        PieceType::J => seq![(0, 0), (1, 0), (-1, 0), (-1, 1)],
        PieceType::L => seq![(0, 0), (1, 0), (-1, 0), (1, 1)],
        PieceType::S => seq![(0, 0), (0, 1), (1, 1), (-1, 0)],
        PieceType::T => seq![(0, 0), (0, 1), (1, 0), (-1, 0)],
        PieceType::Z => seq![(0, 0), (0, 1), (1, 0), (-1, 1)],
        PieceType::I => seq![(0, 0), (1, 0), (-1, 0), (-2, 0)],
    }
}

/// The four occupied offsets of a piece type under a rotation state, each
/// rotated once about the origin cell (not composed from repeated steps).
pub open spec fn cell_offsets(t: PieceType, r: Rotation) -> Seq<(int, int)> {
    base_offsets(t).map(|_i: int, o: (int, int)| r.spec_rotate(o))
}

/// Every offset in the tables lies within two cells of the origin.
pub proof fn lemma_offsets_small(t: PieceType, r: Rotation)
    ensures
        cell_offsets(t, r).len() == 4,
        forall|i: int|
            0 <= i < 4 ==> -2 <= (#[trigger] cell_offsets(t, r)[i]).0 <= 2
                && -2 <= cell_offsets(t, r)[i].1 <= 2,
{
    assert forall|i: int|
        0 <= i < 4 implies -2 <= (#[trigger] cell_offsets(t, r)[i]).0 <= 2 && -2 <= cell_offsets(
        t,
        r,
    )[i].1 <= 2 by {
        let o = base_offsets(t)[i];
        assert(-2 <= o.0 <= 2 && -2 <= o.1 <= 2);
    }
}

/// The first offset of every piece type is the origin cell itself, in every
/// rotation state.
pub proof fn lemma_origin_offset(t: PieceType, r: Rotation)
    ensures
        cell_offsets(t, r).len() == 4,
        cell_offsets(t, r)[0] == (0int, 0int),
{
}

/// For every piece type and every rotation state the four occupied offsets
/// are pairwise distinct: no piece degenerates to fewer than four cells.
pub proof fn lemma_offsets_distinct(t: PieceType, r: Rotation)
    ensures
        cell_offsets(t, r).len() == 4,
        forall|i: int, j: int|
            0 <= i < j < 4 ==> #[trigger] cell_offsets(t, r)[i] != #[trigger] cell_offsets(t, r)[j],
{
    assert forall|i: int, j: int|
        0 <= i < j < 4 implies #[trigger] cell_offsets(t, r)[i] != #[trigger] cell_offsets(t, r)[j] by {
        let a = base_offsets(t)[i];
        let b = base_offsets(t)[j];
        assert(a != b);
        r.lemma_rotate_injective(a, b);
    }
}

/// Rotates one table offset by a rotation state; the executable twin of
/// `Rotation::spec_rotate` on the small offsets the tables hold.
fn rotate_offset(r: Rotation, c: Coord) -> (d: Coord)
    requires
        -2 <= c.x <= 2,
        -2 <= c.y <= 2,
    ensures
        d.pair() == r.spec_rotate(c.pair()),
{
    match r {
        Rotation::R0 => c,
        Rotation::R90 => Coord::new(-c.y, c.x),
        Rotation::R180 => Coord::new(-c.x, -c.y),
        Rotation::R270 => Coord::new(c.y, -c.x),
    }
}

/// The four occupied offsets of `piece_type` under `rotation`, as concrete
/// coordinates, in table order.
pub fn iter_cells(piece_type: PieceType, rotation: Rotation) -> (v: Vec<Coord>)
    ensures
        v@.len() == 4,
        forall|i: int|
            0 <= i < 4 ==> (#[trigger] v@[i]).pair() == cell_offsets(piece_type, rotation)[i],
{
    let (c0, c1, c2, c3) = match piece_type {
        PieceType::O => (Coord::new(0, 0), Coord::new(1, 0), Coord::new(0, 1), Coord::new(1, 1)),
        PieceType::J => (Coord::new(0, 0), Coord::new(1, 0), Coord::new(-1, 0), Coord::new(-1, 1)),
        PieceType::L => (Coord::new(0, 0), Coord::new(1, 0), Coord::new(-1, 0), Coord::new(1, 1)),
        PieceType::S => (Coord::new(0, 0), Coord::new(0, 1), Coord::new(1, 1), Coord::new(-1, 0)),
        PieceType::T => (Coord::new(0, 0), Coord::new(0, 1), Coord::new(1, 0), Coord::new(-1, 0)),
        PieceType::Z => (Coord::new(0, 0), Coord::new(0, 1), Coord::new(1, 0), Coord::new(-1, 1)),
        PieceType::I => (Coord::new(0, 0), Coord::new(1, 0), Coord::new(-1, 0), Coord::new(-2, 0)),
    };
    let mut v: Vec<Coord> = Vec::new();
    v.push(rotate_offset(rotation, c0));
    v.push(rotate_offset(rotation, c1));
    v.push(rotate_offset(rotation, c2));
    v.push(rotate_offset(rotation, c3));
    v
}

/// The piece type a 32-bit draw selects: draws map to types by remainder
/// modulo seven, in the order O, J, L, S, T, Z, I.
pub open spec fn spec_piece_type_from_draw(n: u32) -> PieceType {
    let m = n % 7;
    if m == 0 {
        PieceType::O
    } else if m == 1 {
        PieceType::J
    } else if m == 2 {
        PieceType::L
    } else if m == 3 {
        PieceType::S
    } else if m == 4 {
        PieceType::T
    } else if m == 5 {
        PieceType::Z
    } else {
        PieceType::I
    }
}

/// The piece type a given draw selects.
pub fn piece_type_from_draw(n: u32) -> (t: PieceType)
    ensures
        t == spec_piece_type_from_draw(n),
{
    let m = n % 7;
    if m == 0 {
        PieceType::O
    } else if m == 1 {
        PieceType::J
    } else if m == 2 {
        PieceType::L
    } else if m == 3 {
        PieceType::S
    } else if m == 4 {
        PieceType::T
    } else if m == 5 {
        PieceType::Z
    } else {
        PieceType::I
    }
}

/// A piece type selected by the generator's next draw. Which type comes
/// out depends on the draw alone, as `spec_piece_type_from_draw` says of
/// `piece_type_from_draw`; nothing is assumed about the draw itself.
pub fn get_random_piece_type(rng: &mut rand_chacha::ChaCha8Rng) -> PieceType {
    let n = crate::rng::next_u32(rng);
    piece_type_from_draw(n)
}

/// The four absolute grid coordinates `piece` occupies, in table order:
/// the rotated offsets shifted by the piece position.
pub fn iter_piece_cells(piece: &Piece) -> (v: Vec<Coord>)
    requires
        piece.pos_in_range(),
    ensures
        v@.len() == 4,
        forall|i: int| 0 <= i < 4 ==> (#[trigger] v@[i]).pair() == piece.cells()[i],
{
    proof {
        lemma_offsets_small(piece.piece_type, piece.rotation);
    }
    let offs = iter_cells(piece.piece_type, piece.rotation);
    let mut v: Vec<Coord> = Vec::new();
    let mut k: usize = 0;
    while k < 4
        invariant
            k <= 4,
            v@.len() == k,
            piece.pos_in_range(),
            offs@.len() == 4,
            forall|i: int|
                0 <= i < 4 ==> (#[trigger] offs@[i]).pair() == cell_offsets(
                    piece.piece_type,
                    piece.rotation,
                )[i],
            forall|i: int|
                0 <= i < 4 ==> -2 <= (#[trigger] cell_offsets(piece.piece_type, piece.rotation)[i]).0
                    <= 2 && -2 <= cell_offsets(piece.piece_type, piece.rotation)[i].1 <= 2,
            forall|i: int| 0 <= i < k ==> (#[trigger] v@[i]).pair() == piece.cells()[i],
        decreases 4 - k,
    {
        let o = offs[k];
        v.push(Coord::new(piece.position.x + o.x, piece.position.y + o.y));
        k = k + 1;
    }
    v
}

} // verus!
