use tetris_core::coord::Coord;
use tetris_core::piece::Piece;
use tetris_core::playfield::{Cell, CheckRotationResult, Playfield, PlayfieldSize};
use tetris_core::piece_types::PieceType;
use tetris_core::rotation::Rotation;

fn canonical() -> Playfield {
    Playfield::new(PlayfieldSize { width: 10, height: 24 })
}

fn piece_at(t: PieceType, r: Rotation, x: i32, y: i32) -> Piece {
    Piece { position: Coord::new(x, y), rotation: r, piece_type: t }
}

fn filled_cells(pf: &Playfield) -> usize {
    let size = pf.size();
    let mut n = 0;
    for y in 0..size.height as i32 {
        for x in 0..size.width as i32 {
            if let Some(Cell::Filled(_)) = pf.get(Coord::new(x, y)) {
                n += 1;
            }
        }
    }
    n
}

#[test]
fn get_is_bounds_checked() {
    let pf = canonical();
    assert!(pf.get(Coord::new(-1, 0)).is_none());
    assert!(pf.get(Coord::new(0, -1)).is_none());
    assert!(pf.get(Coord::new(10, 0)).is_none());
    assert!(pf.get(Coord::new(0, 24)).is_none());
    assert!(matches!(pf.get(Coord::new(0, 0)), Some(Cell::Empty)));
    assert!(matches!(pf.get(Coord::new(9, 23)), Some(Cell::Empty)));
}

#[test]
fn get_mut_writes_one_cell() {
    let mut pf = canonical();
    if let Some(cell) = pf.get_mut(Coord::new(3, 7)) {
        *cell = Cell::Filled(PieceType::T);
    } else {
        panic!("in-bounds cell expected");
    }
    assert!(pf.get_mut(Coord::new(10, 0)).is_none());
    assert!(matches!(pf.get(Coord::new(3, 7)), Some(Cell::Filled(PieceType::T))));
    assert!(matches!(pf.get(Coord::new(3, 8)), Some(Cell::Empty)));
}

#[test]
fn check_move_true_only_in_empty_bounds() {
    let pf = canonical();
    // well inside an empty field
    assert!(pf.check_move(&piece_at(PieceType::T, Rotation::R0, 5, 10)));
    // one occupied coordinate out of bounds fails the whole check
    assert!(!pf.check_move(&piece_at(PieceType::I, Rotation::R0, 1, 10))); // x reaches -1
    assert!(!pf.check_move(&piece_at(PieceType::O, Rotation::R0, 9, 10))); // x reaches 10
    assert!(!pf.check_move(&piece_at(PieceType::T, Rotation::R0, 5, -1))); // y reaches -1
    assert!(!pf.check_move(&piece_at(PieceType::O, Rotation::R0, 5, 23))); // y reaches 24
}

#[test]
fn check_move_false_on_filled_cell() {
    let mut pf = canonical();
    pf.set_cells(&piece_at(PieceType::O, Rotation::R0, 4, 9)); // fills (4,9) (5,9) (4,10) (5,10)
    assert!(!pf.check_move(&piece_at(PieceType::T, Rotation::R0, 5, 10)));
    assert!(pf.check_move(&piece_at(PieceType::T, Rotation::R0, 7, 10)));
}

#[test]
fn set_cells_fills_exactly_four() {
    let mut pf = canonical();
    assert_eq!(filled_cells(&pf), 0);
    pf.set_cells(&piece_at(PieceType::S, Rotation::R90, 5, 10));
    assert_eq!(filled_cells(&pf), 4);
}

#[test]
fn rotation_kick_pushes_off_left_wall() {
    let pf = canonical();
    // a horizontal I against the left wall: min x is -1, pushed right by 1
    let pose = piece_at(PieceType::I, Rotation::R180, 0, 10);
    match pf.check_rotation(&pose) {
        CheckRotationResult::ValidWithOffset(o) => assert_eq!((o.x, o.y), (1, 0)),
        CheckRotationResult::Invalid => panic!("kick expected"),
    }
    // in its R0 pose the I reaches two cells left of its origin
    let pose = piece_at(PieceType::I, Rotation::R0, 0, 10);
    match pf.check_rotation(&pose) {
        CheckRotationResult::ValidWithOffset(o) => assert_eq!((o.x, o.y), (2, 0)),
        CheckRotationResult::Invalid => panic!("kick expected"),
    }
}

#[test]
fn rotation_kick_pushes_off_right_wall() {
    let pf = canonical();
    // a horizontal I against the right wall: max x is 10, pushed left by 1
    let pose = piece_at(PieceType::I, Rotation::R0, 9, 10);
    match pf.check_rotation(&pose) {
        CheckRotationResult::ValidWithOffset(o) => assert_eq!((o.x, o.y), (-1, 0)),
        CheckRotationResult::Invalid => panic!("kick expected"),
    }
}

#[test]
fn rotation_without_conflict_keeps_position() {
    let pf = canonical();
    let pose = piece_at(PieceType::O, Rotation::R90, 5, 10);
    match pf.check_rotation(&pose) {
        CheckRotationResult::ValidWithOffset(o) => assert_eq!((o.x, o.y), (0, 0)),
        CheckRotationResult::Invalid => panic!("no kick needed"),
    }
}

#[test]
fn rotation_invalid_when_no_shift_fits() {
    let mut pf = canonical();
    // wall off the cells the kicked pose would need
    pf.set_cells(&piece_at(PieceType::I, Rotation::R90, 1, 10)); // fills (1,8)..(1,11)
    pf.set_cells(&piece_at(PieceType::I, Rotation::R90, 2, 10)); // fills (2,8)..(2,11)
    let pose = piece_at(PieceType::I, Rotation::R180, 0, 10);
    assert!(matches!(pf.check_rotation(&pose), CheckRotationResult::Invalid));
}

#[test]
fn clear_rows_removes_one_full_row_and_shifts() {
    let mut pf = canonical();
    // a partially filled row below: (4,1) (5,1) (4,2) (5,2)
    pf.set_cells(&piece_at(PieceType::O, Rotation::R0, 4, 1));
    // row 3 filled completely, row 4 partially at (8,4) (9,4)
    pf.set_cells(&piece_at(PieceType::I, Rotation::R0, 2, 3)); // (0..3, 3)
    pf.set_cells(&piece_at(PieceType::I, Rotation::R0, 6, 3)); // (4..7, 3)
    pf.set_cells(&piece_at(PieceType::O, Rotation::R0, 8, 3)); // (8,3) (9,3) (8,4) (9,4)
    // something higher up to watch the shift: (0,5) (1,5) (0,6) (1,6)
    pf.set_cells(&piece_at(PieceType::O, Rotation::R0, 0, 5));

    let before = filled_cells(&pf);
    assert_eq!(before, 4 + 4 + 4 + 4 + 4);
    let cleared = pf.clear_rows();
    assert_eq!(cleared, 1);
    assert_eq!(filled_cells(&pf), before - 10);

    // rows below the cleared one are untouched
    assert!(matches!(pf.get(Coord::new(4, 1)), Some(Cell::Filled(_))));
    assert!(matches!(pf.get(Coord::new(5, 2)), Some(Cell::Filled(_))));
    // former row 3 is gone; former row 4 is now row 3
    assert!(matches!(pf.get(Coord::new(0, 3)), Some(Cell::Empty)));
    assert!(matches!(pf.get(Coord::new(8, 3)), Some(Cell::Filled(_))));
    assert!(matches!(pf.get(Coord::new(9, 3)), Some(Cell::Filled(_))));
    // former rows 5 and 6 moved down to 4 and 5
    assert!(matches!(pf.get(Coord::new(0, 4)), Some(Cell::Filled(_))));
    assert!(matches!(pf.get(Coord::new(1, 5)), Some(Cell::Filled(_))));
    assert!(matches!(pf.get(Coord::new(0, 6)), Some(Cell::Empty)));
    // a fresh empty row appeared at the top
    for x in 0..10 {
        assert!(matches!(pf.get(Coord::new(x, 23)), Some(Cell::Empty)));
    }
}

#[test]
fn clear_rows_returns_zero_without_full_rows() {
    let mut pf = canonical();
    pf.set_cells(&piece_at(PieceType::O, Rotation::R0, 0, 0));
    assert_eq!(pf.clear_rows(), 0);
    assert_eq!(filled_cells(&pf), 4);
}

#[test]
fn clear_rows_clears_several_at_once() {
    let mut pf = canonical();
    // fill rows 0 and 1 completely with five O pieces
    for k in 0..5 {
        pf.set_cells(&piece_at(PieceType::O, Rotation::R0, 2 * k, 0));
    }
    assert_eq!(pf.clear_rows(), 2);
    assert_eq!(filled_cells(&pf), 0);
}
