use tetris_core::cell_events::CellEvent;
use tetris_core::coord::Coord;
use tetris_core::game::{Game, Intent};
use tetris_core::playfield::{Cell, PlayfieldSize};
use tetris_core::rotation::Rotation;

fn canonical_game(seed: u64) -> Game {
    Game::new(PlayfieldSize { width: 10, height: 24 }, seed)
}

fn filled_cells(game: &Game) -> usize {
    let pf = game.playfield();
    let size = pf.size();
    let mut n = 0;
    for y in 0..size.height as i32 {
        for x in 0..size.width as i32 {
            if let Some(Cell::Filled(_)) = pf.get(Coord::new(x, y)) {
                n += 1;
            }
        }
    }
    n
}

#[test]
fn spawn_move_down_and_lock_end_to_end() {
    let mut game = canonical_game(3);
    assert!(game.current_piece().is_none());
    game.spawn_piece();

    // spawning on an empty canonical field always succeeds, at (5, 22), R0
    let piece = game.current_piece().expect("spawn on an empty field");
    assert!(!game.is_game_over());
    assert_eq!((piece.position.x, piece.position.y), (5, 22));
    assert_eq!(piece.rotation, Rotation::R0);

    // soft-drop until a further step down is rejected
    let mut steps = 0;
    while game.apply_intent(Intent::MoveDown) {
        steps += 1;
        assert!(steps <= 24, "the piece must reach the floor");
    }
    let landed = game.current_piece().expect("still live until locked");
    assert!(landed.position.y < 22);

    // the next gravity tick locks it: exactly four more filled cells,
    // the score never decreases
    let before = filled_cells(&game);
    let score_before = game.score().score;
    game.gravity_step();
    assert!(game.current_piece().is_none());
    assert_eq!(filled_cells(&game), before + 4);
    assert!(game.score().score >= score_before);

    // the lock reported exactly its four cells, delivered once
    let events = game.take_cell_events();
    assert_eq!(events.len(), 4);
    for ev in events.iter() {
        let CellEvent::Added { position, piece_type } = ev;
        assert_eq!(*piece_type, landed.piece_type);
        assert!(matches!(game.playfield().get(*position), Some(Cell::Filled(_))));
    }
    assert_eq!(game.take_cell_events().len(), 0);
}

#[test]
fn sideways_intents_move_by_one_and_respect_walls() {
    let mut game = canonical_game(11);
    game.spawn_piece();
    let x0 = game.current_piece().unwrap().position.x;
    assert!(game.apply_intent(Intent::MoveLeft));
    assert_eq!(game.current_piece().unwrap().position.x, x0 - 1);
    assert!(game.apply_intent(Intent::MoveRight));
    assert_eq!(game.current_piece().unwrap().position.x, x0);

    // walk into the left wall: the piece stops and further moves are ignored
    let mut walked = 0;
    while game.apply_intent(Intent::MoveLeft) {
        walked += 1;
        assert!(walked <= 10);
    }
    let stopped = game.current_piece().unwrap().position.x;
    assert!(!game.apply_intent(Intent::MoveLeft));
    assert_eq!(game.current_piece().unwrap().position.x, stopped);
}

#[test]
fn hard_drop_locks_in_the_same_tick() {
    let mut game = canonical_game(5);
    game.spawn_piece();
    assert_eq!(filled_cells(&game), 0);
    assert!(game.apply_intent(Intent::HardDrop));
    assert!(game.current_piece().is_none());
    assert_eq!(filled_cells(&game), 4);
    assert!(!game.is_game_over());
}

#[test]
fn stacking_to_the_spawn_row_ends_the_session() {
    let mut game = canonical_game(1);
    // rotate each piece upright and drop it down the middle; the stack
    // grows by four rows per piece until a spawn no longer fits
    let mut drops = 0;
    while !game.is_game_over() {
        game.spawn_piece();
        if game.is_game_over() {
            break;
        }
        game.apply_intent(Intent::RotateCW);
        game.apply_intent(Intent::HardDrop);
        drops += 1;
        assert!(drops <= 60, "the stack must eventually reach the spawn row");
    }
    assert!(game.current_piece().is_none());
    assert!(game.is_game_over());
}

#[test]
fn restart_resets_the_session() {
    let mut game = canonical_game(2);
    game.spawn_piece();
    game.apply_intent(Intent::HardDrop);
    assert!(filled_cells(&game) > 0);
    game.restart(99);
    assert_eq!(filled_cells(&game), 0);
    assert!(game.current_piece().is_none());
    assert!(!game.is_game_over());
    assert_eq!(game.score().score, 0);
    assert_eq!(game.take_cell_events().len(), 0);
}

#[test]
fn every_lock_accounts_for_its_cells_and_score() {
    let mut game = canonical_game(8);
    // pack pieces left, right and centre; each lock must add exactly four
    // cells minus ten per cleared row, and score one point per cleared row
    let mut locked: u32 = 0;
    while locked < 120 && !game.is_game_over() {
        game.spawn_piece();
        if game.is_game_over() {
            break;
        }
        let shift = match locked % 3 {
            0 => Some((Intent::MoveLeft, 5)),
            1 => Some((Intent::MoveRight, 4)),
            _ => None,
        };
        if let Some((intent, times)) = shift {
            for _ in 0..times {
                game.apply_intent(intent);
            }
        }
        let before = filled_cells(&game) as i64;
        let score_before = game.score().score;
        game.apply_intent(Intent::HardDrop);
        let cleared = (game.score().score - score_before) as i64;
        assert!(cleared >= 0);
        assert_eq!(filled_cells(&game) as i64, before + 4 - 10 * cleared);
        locked += 1;
    }
}
