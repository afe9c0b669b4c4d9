use tetris_core::coord::Coord;
use tetris_core::piece::Piece;
use tetris_core::piece_types::{iter_cells, iter_piece_cells, piece_type_from_draw, PieceType};
use tetris_core::rotation::Rotation;

const ALL_TYPES: [PieceType; 7] = [
    PieceType::O,
    PieceType::J,
    PieceType::L,
    PieceType::S,
    PieceType::T,
    PieceType::Z,
    PieceType::I,
];

const ALL_ROTATIONS: [Rotation; 4] = [Rotation::R0, Rotation::R90, Rotation::R180, Rotation::R270];

#[test]
fn all_pieces_have_four_distinct_cells() {
    for &t in ALL_TYPES.iter() {
        for &r in ALL_ROTATIONS.iter() {
            let cells = iter_cells(t, r);
            assert_eq!(cells.len(), 4);
            for i in 0..4 {
                for j in (i + 1)..4 {
                    assert_ne!(cells[i], cells[j], "{:?} {:?}", t, r);
                }
            }
        }
    }
}

#[test]
fn offset_tables_are_exact() {
    let expect = [
        (PieceType::O, [(0, 0), (1, 0), (0, 1), (1, 1)]),
        (PieceType::J, [(0, 0), (1, 0), (-1, 0), (-1, 1)]),
        (PieceType::L, [(0, 0), (1, 0), (-1, 0), (1, 1)]),
        (PieceType::S, [(0, 0), (0, 1), (1, 1), (-1, 0)]),
        (PieceType::T, [(0, 0), (0, 1), (1, 0), (-1, 0)]),
        (PieceType::Z, [(0, 0), (0, 1), (1, 0), (-1, 1)]),
        (PieceType::I, [(0, 0), (1, 0), (-1, 0), (-2, 0)]),
    ];
    for (t, offs) in expect.iter() {
        let cells = iter_cells(*t, Rotation::R0);
        for i in 0..4 {
            assert_eq!((cells[i].x, cells[i].y), offs[i]);
        }
    }
}

#[test]
fn rotation_transform_is_exact() {
    // R90 maps (x, y) to (-y, x); J's table is (0,0) (1,0) (-1,0) (-1,1)
    let cells = iter_cells(PieceType::J, Rotation::R90);
    let expect = [(0, 0), (0, 1), (0, -1), (-1, -1)];
    for i in 0..4 {
        assert_eq!((cells[i].x, cells[i].y), expect[i]);
    }
    // R180 maps (x, y) to (-x, -y)
    let cells = iter_cells(PieceType::I, Rotation::R180);
    let expect = [(0, 0), (-1, 0), (1, 0), (2, 0)];
    for i in 0..4 {
        assert_eq!((cells[i].x, cells[i].y), expect[i]);
    }
    // R270 maps (x, y) to (y, -x)
    let cells = iter_cells(PieceType::S, Rotation::R270);
    let expect = [(0, 0), (1, 0), (1, -1), (0, 1)];
    for i in 0..4 {
        assert_eq!((cells[i].x, cells[i].y), expect[i]);
    }
}

#[test]
fn piece_cells_are_offsets_plus_position() {
    let piece = Piece {
        position: Coord::new(5, 22),
        rotation: Rotation::R0,
        piece_type: PieceType::T,
    };
    let cells = iter_piece_cells(&piece);
    let expect = [(5, 22), (5, 23), (6, 22), (4, 22)];
    for i in 0..4 {
        assert_eq!((cells[i].x, cells[i].y), expect[i]);
    }
}

#[test]
fn rotation_steps_cycle() {
    assert_eq!(Rotation::R0.next_cw(), Rotation::R90);
    assert_eq!(Rotation::R90.next_cw(), Rotation::R180);
    assert_eq!(Rotation::R180.next_cw(), Rotation::R270);
    assert_eq!(Rotation::R270.next_cw(), Rotation::R0);
}

#[test]
fn draws_map_to_types_by_remainder() {
    let order = [
        PieceType::O,
        PieceType::J,
        PieceType::L,
        PieceType::S,
        PieceType::T,
        PieceType::Z,
        PieceType::I,
    ];
    for n in 0u32..14 {
        assert_eq!(piece_type_from_draw(n), order[(n % 7) as usize]);
    }
}
