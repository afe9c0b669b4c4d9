//! The game loop state: one playfield, at most one live falling piece, the
//! piece bag, the score, and the pending cell notifications. The host calls
//! `spawn_piece` when no piece is live, `apply_intent` for player input,
//! and `gravity_step` on its timer; everything the operations decide is
//! stated in their contracts.

use vstd::prelude::*;

use crate::cell_events::CellEvent;
use crate::coord::Coord;
use crate::piece::{spawned_piece, Piece};
use crate::piece_order::PieceOrder;
use crate::piece_types::PieceType;
use crate::playfield::{empty_row, full_rows, grid_with_piece, kept_rows, Cell, Playfield,
    PlayfieldSize, MAX_DIM};
use crate::rng::rng_from_seed;
use crate::rotation::Rotation;
use crate::score::Score;

verus! {

/// One player command, at most one per axis per tick: a horizontal or
/// downward step, a clockwise rotation, or a hard drop.
#[derive(Debug, Clone, Copy, PartialEq, Eq, Structural)]
pub enum Intent {
    MoveLeft,
    MoveRight,
    MoveDown,
    RotateCW,
    HardDrop,
}

/// The piece moved by `(dx, dy)`, everything else unchanged.
pub open spec fn translated(p: Piece, dx: int, dy: int) -> Piece {
    Piece {
        position: Coord { x: (p.position.x + dx) as i32, y: (p.position.y + dy) as i32 },
        rotation: p.rotation,
        piece_type: p.piece_type,
    }
}

/// What a lock leaves behind: the landed piece committed to the playfield,
/// full rows cleared, the score grown by the cleared count, the pending
/// notifications replaced by the landed piece's four cells, and no live
/// piece until the next spawn.
pub open spec fn lock_outcome(pre: Game, post: Game, landing: Piece) -> bool {
    let committed = grid_with_piece(pre.spec_playfield()@, landing);
    let cleared = full_rows(committed);
    &&& post.spec_playfield().spec_width() == pre.spec_playfield().spec_width()
    &&& post.spec_playfield().spec_height() == pre.spec_playfield().spec_height()
    &&& post.spec_playfield()@ == kept_rows(committed) + Seq::new(
        cleared,
        |_i: int| empty_row(pre.spec_playfield().spec_width() as nat),
    )
    &&& post.spec_score() == pre.spec_score() + cleared
    &&& post.spec_piece() is None
    &&& post.spec_game_over() == pre.spec_game_over()
    &&& post.spec_bag() == pre.spec_bag()
    &&& post.spec_events() == Seq::new(
        4,
        |i: int|
            CellEvent::Added {
                position: Coord {
                    x: landing.cells()[i].0 as i32,
                    y: landing.cells()[i].1 as i32,
                },
                piece_type: landing.piece_type,
            },
    )
}

/// What one sideways or downward step leaves behind: the piece moved when
/// it fits at the target, everything else untouched; an invalid move is
/// ignored, not an error.
pub open spec fn shift_outcome(pre: Game, post: Game, p: Piece, dx: int, dy: int, applied: bool) -> bool {
    let target = translated(p, dx, dy);
    &&& post.spec_playfield() == pre.spec_playfield()
    &&& post.spec_score() == pre.spec_score()
    &&& post.spec_events() == pre.spec_events()
    &&& post.spec_bag() == pre.spec_bag()
    &&& post.spec_game_over() == pre.spec_game_over()
    &&& if pre.spec_playfield().move_fits(target) {
        applied && post.spec_piece() == Some(target)
    } else {
        !applied && post.spec_piece() == pre.spec_piece()
    }
}

/// What one clockwise rotation attempt leaves behind: the turned piece at
/// its wall-kicked position when that fits, everything else untouched; a
/// rejected rotation leaves the piece unchanged.
pub open spec fn rotate_outcome(pre: Game, post: Game, p: Piece, applied: bool) -> bool {
    let turned = Piece {
        position: p.position,
        rotation: p.rotation.spec_next_cw(),
        piece_type: p.piece_type,
    };
    let kick = pre.spec_playfield().spec_kick(turned);
    let target = crate::playfield::shifted_x(turned, kick);
    &&& post.spec_playfield() == pre.spec_playfield()
    &&& post.spec_score() == pre.spec_score()
    &&& post.spec_events() == pre.spec_events()
    &&& post.spec_bag() == pre.spec_bag()
    &&& post.spec_game_over() == pre.spec_game_over()
    &&& if pre.spec_playfield().move_fits(target) {
        applied && post.spec_piece() == Some(target)
    } else {
        !applied && post.spec_piece() == pre.spec_piece()
    }
}

/// What a hard drop leaves behind: the piece fell straight down, one valid
/// step at a time, to the first position where a further step is invalid,
/// and locked there in the same tick.
pub open spec fn drop_outcome(pre: Game, post: Game, p: Piece) -> bool {
    exists|landing: Piece|
        {
            &&& #[trigger] lock_outcome(pre, post, landing)
            &&& landing.piece_type == p.piece_type
            &&& landing.rotation == p.rotation
            &&& landing.position.x == p.position.x
            &&& landing.position.y <= p.position.y
            &&& forall|dy: int|
                0 <= dy <= p.position.y - landing.position.y
                    ==> pre.spec_playfield().move_fits(#[trigger] translated(p, 0, -dy))
            &&& !pre.spec_playfield().move_fits(translated(landing, 0, -1))
        }
}

/// Law: on an empty playfield of the canonical ten-by-twenty-four size, a
/// freshly spawned piece fits, whatever its type — the first spawn of a
/// session always succeeds.
pub proof fn lemma_spawn_fits_on_empty(pf: Playfield, t: PieceType)
    requires
        pf.spec_width() == 10,
        pf.spec_height() == 24,
        pf@.len() == 24,
        forall|y: int| 0 <= y < 24 ==> #[trigger] pf@[y] == empty_row(10),
    ensures
        pf.move_fits(spawned_piece(t)),
{
    let p = spawned_piece(t);
    assert forall|i: int|
        0 <= i < p.cells().len() implies pf.spec_in_bounds(#[trigger] p.cells()[i]) && pf.cell_at(
        p.cells()[i],
    ) == Cell::Empty by {
        let o = crate::piece_types::cell_offsets(t, Rotation::R0)[i];
        let b = crate::piece_types::base_offsets(t)[i];
        assert(o == (b.0, b.1));
        assert(-2 <= b.0 <= 1 && 0 <= b.1 <= 1);
        assert(p.cells()[i] == (5 + o.0, 22 + o.1));
        assert(pf@[22 + o.1] == empty_row(10));
    }
}

/// One game session.
pub struct Game {
    playfield: Playfield,
    piece: Option<Piece>,
    piece_order: PieceOrder,
    score: Score,
    game_over: bool,
    cell_events: Vec<CellEvent>,
    rng: rand_chacha::ChaCha8Rng,
}

impl Game {
    pub closed spec fn spec_playfield(self) -> Playfield {
        self.playfield
    }

    pub closed spec fn spec_piece(self) -> Option<Piece> {
        self.piece
    }

    pub closed spec fn spec_bag(self) -> PieceOrder {
        self.piece_order
    }

    pub closed spec fn spec_score(self) -> int {
        self.score.score as int
    }

    pub closed spec fn spec_game_over(self) -> bool {
        self.game_over
    }

    pub closed spec fn spec_events(self) -> Seq<CellEvent> {
        self.cell_events@
    }

    /// The session invariant: the playfield and the bag are well formed,
    /// the bag cursor never runs past one full pass, and a live piece
    /// always stands on the playfield — every cell in bounds and empty —
    /// and only while the session is not over.
    pub open spec fn wf(self) -> bool {
        &&& self.spec_playfield().wf()
        &&& self.spec_bag().wf()
        &&& 0 <= self.spec_bag().spec_index() <= 7
        &&& (self.spec_piece() matches Some(p) ==> self.spec_playfield().move_fits(p)
            && p.pos_in_range() && !self.spec_game_over())
    }

    /// A fresh session: an empty playfield of the requested size, a
    /// shuffled bag from the seed, score zero, no live piece.
    pub fn new(size: PlayfieldSize, seed: u64) -> (g: Game)
        requires
            size.width <= MAX_DIM,
            size.height <= MAX_DIM,
        ensures
            g.wf(),
            g.spec_playfield().spec_width() == size.width,
            g.spec_playfield().spec_height() == size.height,
            forall|y: int|
                0 <= y < size.height ==> #[trigger] g.spec_playfield()@[y] == empty_row(
                    size.width as nat,
                ),
            g.spec_piece() is None,
            !g.spec_game_over(),
            g.spec_score() == 0,
            g.spec_events().len() == 0,
    {
        let playfield = Playfield::new(size);
        let mut rng = rng_from_seed(seed);
        let piece_order = PieceOrder::new(&mut rng);
        Game {
            playfield,
            piece: None,
            piece_order,
            score: Score::new(),
            game_over: false,
            cell_events: Vec::new(),
            rng,
        }
    }

    /// Draws the next type — refilling the bag first if it is exhausted —
    /// and spawns a piece of that type at the canonical spawn coordinate,
    /// unrotated. If the spawned piece does not fit, the session ends
    /// instead: the sole game-over trigger.
    pub fn spawn_piece(&mut self)
        requires
            old(self).wf(),
            old(self).spec_piece() is None,
            !old(self).spec_game_over(),
        ensures
            final(self).wf(),
            final(self).spec_playfield() == old(self).spec_playfield(),
            final(self).spec_score() == old(self).spec_score(),
            final(self).spec_events() == old(self).spec_events(),
            match final(self).spec_piece() {
                Some(p) => !final(self).spec_game_over() && p == spawned_piece(p.piece_type)
                    && old(self).spec_playfield().move_fits(p),
                None => final(self).spec_game_over() && exists|t: PieceType|
                    !old(self).spec_playfield().move_fits(spawned_piece(t)),
            },
            // while the bag still held pieces, it only advances by one; the
            // type dispensed is the one under its cursor
            old(self).spec_bag().spec_index() < 7 ==> final(self).spec_bag().spec_pieces() == old(
                self,
            ).spec_bag().spec_pieces() && final(self).spec_bag().spec_index() == old(
                self,
            ).spec_bag().spec_index() + 1,
            old(self).spec_bag().spec_index() < 7 ==> ({
                let t = old(self).spec_bag().spec_pieces()[old(self).spec_bag().spec_index()];
                match final(self).spec_piece() {
                    Some(p) => p.piece_type == t,
                    None => !old(self).spec_playfield().move_fits(spawned_piece(t)),
                }
            }),
    {
        if self.piece_order.is_finished() {
            self.piece_order = PieceOrder::new(&mut self.rng);
        }
        let t = match self.piece_order.next_piece() {
            Some(t) => t,
            None => {
                proof {
                    assert(false);
                }
                PieceType::O
            },
        };
        let new_piece = Piece::new(t);
        if self.playfield.check_move(&new_piece) {
            self.piece = Some(new_piece);
        } else {
            self.game_over = true;
        }
    }

    /// One sideways or downward step, validated against the playfield and
    /// ignored when invalid.
    fn try_shift(&mut self, dx: i32, dy: i32) -> (applied: bool)
        requires
            old(self).wf(),
            old(self).spec_piece() is Some,
            -1 <= dx <= 1,
            -1 <= dy <= 1,
        ensures
            final(self).wf(),
            old(self).spec_piece() matches Some(p) ==> shift_outcome(
                *old(self),
                *final(self),
                p,
                dx as int,
                dy as int,
                applied,
            ),
    {
        let p = self.piece.unwrap();
        proof {
            p.lemma_cells_origin();
            assert(old(self).spec_playfield().spec_in_bounds(p.cells()[0]));
        }
        let np = Piece {
            position: Coord::new(p.position.x + dx, p.position.y + dy),
            rotation: p.rotation,
            piece_type: p.piece_type,
        };
        if self.playfield.check_move(&np) {
            self.piece = Some(np);
            true
        } else {
            false
        }
    }

    /// One clockwise rotation attempt: checked with the one-axis wall kick,
    /// applied together with the proposed offset when it fits, ignored
    /// otherwise.
    fn rotate_cw(&mut self) -> (applied: bool)
        requires
            old(self).wf(),
            old(self).spec_piece() is Some,
        ensures
            final(self).wf(),
            old(self).spec_piece() matches Some(p) ==> rotate_outcome(
                *old(self),
                *final(self),
                p,
                applied,
            ),
    {
        let p = self.piece.unwrap();
        let turned = Piece {
            position: p.position,
            rotation: p.rotation.next_cw(),
            piece_type: p.piece_type,
        };
        match self.playfield.check_rotation(&turned) {
            crate::playfield::CheckRotationResult::ValidWithOffset(offset) => {
                proof {
                    let kick = old(self).spec_playfield().spec_kick(turned);
                    let target = crate::playfield::shifted_x(turned, kick);
                    assert(-2_000_000_000 <= kick <= 2_000_000_000) by {
                        assert(target.position.x == p.position.x + kick);
                        assert(target.pos_in_range());
                    }
                    assert(offset.x as int == kick);
                    assert(offset.y == 0);
                }
                let np = Piece {
                    position: Coord::new(p.position.x + offset.x, p.position.y + offset.y),
                    rotation: turned.rotation,
                    piece_type: p.piece_type,
                };
                self.piece = Some(np);
                true
            },
            crate::playfield::CheckRotationResult::Invalid => false,
        }
    }

    /// Locks the live piece where it stands: commits its cells, clears full
    /// rows, scores one point per cleared row, records the four filled-cell
    /// notifications, and discards the live piece.
    fn lock_piece(&mut self)
        requires
            old(self).wf(),
            old(self).spec_piece() is Some,
            old(self).spec_score() + old(self).spec_playfield().spec_height() <= u32::MAX,
        ensures
            final(self).wf(),
            old(self).spec_piece() matches Some(p) ==> lock_outcome(*old(self), *final(self), p),
    {
        let p = self.piece.unwrap();
        let ghost committed = grid_with_piece(old(self).spec_playfield()@, p);
        self.piece = None;
        self.playfield.set_cells(&p);
        let cleared = self.playfield.clear_rows();
        proof {
            crate::playfield::lemma_kept_full_len(committed);
        }
        self.score.score = self.score.score + (cleared as u32);
        let cells = crate::piece_types::iter_piece_cells(&p);
        let mut evs: Vec<CellEvent> = Vec::new();
        evs.push(CellEvent::Added { position: cells[0], piece_type: p.piece_type });
        evs.push(CellEvent::Added { position: cells[1], piece_type: p.piece_type });
        evs.push(CellEvent::Added { position: cells[2], piece_type: p.piece_type });
        evs.push(CellEvent::Added { position: cells[3], piece_type: p.piece_type });
        self.cell_events = evs;
        proof {
            assert forall|i: int| 0 <= i < 4 implies self.spec_events()[i]
                == CellEvent::Added {
                position: Coord { x: p.cells()[i].0 as i32, y: p.cells()[i].1 as i32 },
                piece_type: p.piece_type,
            } by {
                assert((cells@[i]).pair() == p.cells()[i]);
            }
            assert(self.spec_events() =~= Seq::new(
                4,
                |i: int|
                    CellEvent::Added {
                        position: Coord { x: p.cells()[i].0 as i32, y: p.cells()[i].1 as i32 },
                        piece_type: p.piece_type,
                    },
            ));
        }
    }

    /// One gravity tick: the piece moves down one cell when that fits, and
    /// locks where it stands otherwise. The score never decreases.
    pub fn gravity_step(&mut self)
        requires
            old(self).wf(),
            old(self).spec_score() + old(self).spec_playfield().spec_height() <= u32::MAX,
        ensures
            final(self).wf(),
            final(self).spec_score() >= old(self).spec_score(),
            match old(self).spec_piece() {
                None => *final(self) == *old(self),
                Some(p) => if old(self).spec_playfield().move_fits(translated(p, 0, -1)) {
                    shift_outcome(*old(self), *final(self), p, 0, -1, true)
                } else {
                    lock_outcome(*old(self), *final(self), p)
                },
            },
    {
        if self.piece.is_none() {
            return ;
        }
        let moved = self.try_shift(0, -1);
        if !moved {
            self.lock_piece();
        }
    }

    /// A hard drop: the piece falls straight down until a further step is
    /// invalid, then locks immediately, in the same tick.
    pub fn hard_drop(&mut self)
        requires
            old(self).wf(),
            old(self).spec_piece() is Some,
            old(self).spec_score() + old(self).spec_playfield().spec_height() <= u32::MAX,
        ensures
            final(self).wf(),
            final(self).spec_score() >= old(self).spec_score(),
            old(self).spec_piece() matches Some(p) ==> drop_outcome(*old(self), *final(self), p),
    {
        let p = self.piece.unwrap();
        proof {
            p.lemma_cells_origin();
        }
        let mut cur = p;
        let mut below = Piece {
            position: Coord::new(cur.position.x, cur.position.y - 1),
            rotation: cur.rotation,
            piece_type: cur.piece_type,
        };
        let pf = &self.playfield;
        while pf.check_move(&below)
            invariant
                pf.wf(),
                *pf == old(self).spec_playfield(),
                cur.piece_type == p.piece_type,
                cur.rotation == p.rotation,
                cur.position.x == p.position.x,
                cur.position.y <= p.position.y,
                0 <= cur.position.y,
                cur.pos_in_range(),
                below.pos_in_range(),
                pf.move_fits(cur),
                forall|dy: int|
                    0 <= dy <= p.position.y - cur.position.y ==> pf.move_fits(
                        #[trigger] translated(p, 0, -dy),
                    ),
                below == translated(cur, 0, -1),
            decreases cur.position.y,
        {
            cur = below;
            proof {
                assert(cur == translated(p, 0, -(p.position.y - cur.position.y)));
            }
            proof {
                cur.lemma_cells_origin();
                assert(pf.spec_in_bounds(cur.cells()[0]));
            }
            below = Piece {
                position: Coord::new(cur.position.x, cur.position.y - 1),
                rotation: cur.rotation,
                piece_type: cur.piece_type,
            };
        }
        self.piece = Some(cur);
        self.lock_piece();
        proof {
            assert(lock_outcome(*old(self), *self, cur));
        }
    }

    /// Applies one player command: a sideways or downward step or a
    /// rotation, ignored when invalid, or a hard drop. With no live piece
    /// the command does nothing. Returns whether the game state changed.
    pub fn apply_intent(&mut self, intent: Intent) -> (applied: bool)
        requires
            old(self).wf(),
            intent is HardDrop ==> old(self).spec_score() + old(
                self,
            ).spec_playfield().spec_height() <= u32::MAX,
        ensures
            final(self).wf(),
            final(self).spec_score() >= old(self).spec_score(),
            old(self).spec_piece() is None ==> !applied && *final(self) == *old(self),
            old(self).spec_piece() matches Some(p) ==> match intent {
                Intent::MoveLeft => shift_outcome(*old(self), *final(self), p, -1, 0, applied),
                Intent::MoveRight => shift_outcome(*old(self), *final(self), p, 1, 0, applied),
                Intent::MoveDown => shift_outcome(*old(self), *final(self), p, 0, -1, applied),
                Intent::RotateCW => rotate_outcome(*old(self), *final(self), p, applied),
                Intent::HardDrop => applied && drop_outcome(*old(self), *final(self), p),
            },
    {
        if self.piece.is_none() {
            return false;
        }
        match intent {
            Intent::MoveLeft => self.try_shift(-1, 0),
            Intent::MoveRight => self.try_shift(1, 0),
            Intent::MoveDown => self.try_shift(0, -1),
            Intent::RotateCW => self.rotate_cw(),
            Intent::HardDrop => {
                self.hard_drop();
                true
            },
        }
    }

    /// Restarts the session: a fresh empty playfield of the same size, a
    /// fresh bag from the seed, score zero.
    pub fn restart(&mut self, seed: u64)
        requires
            old(self).wf(),
        ensures
            final(self).wf(),
            final(self).spec_playfield().spec_width() == old(self).spec_playfield().spec_width(),
            final(self).spec_playfield().spec_height() == old(self).spec_playfield().spec_height(),
            forall|y: int|
                0 <= y < final(self).spec_playfield().spec_height()
                    ==> #[trigger] final(self).spec_playfield()@[y] == empty_row(
                    old(self).spec_playfield().spec_width() as nat,
                ),
            final(self).spec_piece() is None,
            !final(self).spec_game_over(),
            final(self).spec_score() == 0,
            final(self).spec_events().len() == 0,
    {
        let size = self.playfield.size();
        *self = Game::new(size, seed);
    }

    /// The live falling piece, if one exists right now.
    pub fn current_piece(&self) -> (p: Option<Piece>)
        ensures
            p == self.spec_piece(),
    {
        self.piece
    }

    /// The playfield, for rendering and queries.
    pub fn playfield(&self) -> (pf: &Playfield)
        ensures
            *pf == self.spec_playfield(),
    {
        &self.playfield
    }

    /// The running score.
    pub fn score(&self) -> (s: Score)
        ensures
            s.score == self.spec_score(),
    {
        self.score
    }

    /// Whether the session has ended.
    pub fn is_game_over(&self) -> (over: bool)
        ensures
            over == self.spec_game_over(),
    {
        self.game_over
    }

    /// Hands over the cells filled by the most recent lock and clears the
    /// pending list: each notification is delivered once.
    pub fn take_cell_events(&mut self) -> (evs: Vec<CellEvent>)
        ensures
            evs@ == old(self).spec_events(),
            final(self).spec_events().len() == 0,
            final(self).spec_playfield() == old(self).spec_playfield(),
            final(self).spec_piece() == old(self).spec_piece(),
            final(self).spec_bag() == old(self).spec_bag(),
            final(self).spec_score() == old(self).spec_score(),
            final(self).spec_game_over() == old(self).spec_game_over(),
            old(self).wf() ==> final(self).wf(),
    {
        let mut evs: Vec<CellEvent> = Vec::new();
        core::mem::swap(&mut self.cell_events, &mut evs);
        evs
    }
}

} // verus!
