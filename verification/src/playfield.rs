//! The playfield: a fixed-size grid of cells with bounds-checked access,
//! all-or-nothing collision checks, a one-axis wall-kick check for
//! rotations, the lock operation that commits a piece, and row clearing.

use vstd::math::{max, min};
use vstd::pervasive::VecAdditionalExecFns;
use vstd::prelude::*;

use crate::coord::Coord;
use crate::piece::Piece;
use crate::piece_types::PieceType;

verus! {

/// The largest accepted playfield dimension. It stays well below
/// `COORD_BOUND`, so coordinate arithmetic and wall-kick offsets never
/// leave the `i32` range.
pub const MAX_DIM: u32 = 999_999_000;

/// The requested playfield dimensions, in cells (canonical: 10 x 24).
#[derive(Debug, Clone, Copy, PartialEq, Eq, Structural)]
pub struct PlayfieldSize {
    pub width: u32,
    pub height: u32,
}

/// One grid cell: empty, or filled by a locked piece. The piece type is
/// retained only so the presentation layer can colour the cell; gameplay
/// logic looks at emptiness alone.
#[derive(Debug, Clone, Copy, PartialEq, Eq, Structural)]
pub enum Cell {
    Empty,
    Filled(PieceType),
}

impl Default for Cell {
    fn default() -> (c: Self)
        ensures
            c == Cell::Empty,
    {
        Cell::Empty
    }
}

/// The outcome of a rotation check: the horizontal wall-kick offset to
/// apply together with the rotation, or a rejection.
#[derive(Debug, Clone, Copy, PartialEq, Eq, Structural)]
pub enum CheckRotationResult {
    ValidWithOffset(Coord),
    Invalid,
}

/// One grid row, with a running count of its filled cells. The count is
/// kept in step with the cells so that "is this row full" is one compare.
struct Row {
    cells: Vec<Cell>,
    filled: usize,
}

/// How many cells of a row are filled.
pub open spec fn filled_in_row(row: Seq<Cell>) -> nat
    decreases row.len(),
{
    if row.len() == 0 {
        0
    } else {
        filled_in_row(row.drop_last()) + (if row.last() is Filled {
            1nat
        } else {
            0nat
        })
    }
}

/// A row is full exactly when every one of its cells is filled.
pub open spec fn row_full(row: Seq<Cell>) -> bool {
    forall|x: int| 0 <= x < row.len() ==> row[x] is Filled
}

/// A row of `width` empty cells.
pub open spec fn empty_row(width: nat) -> Seq<Cell> {
    Seq::new(width, |_x: int| Cell::Empty)
}

/// How many cells of a whole grid are filled.
pub open spec fn filled_count(g: Seq<Seq<Cell>>) -> nat
    decreases g.len(),
{
    if g.len() == 0 {
        0
    } else {
        filled_count(g.drop_last()) + filled_in_row(g.last())
    }
}

/// The rows of a grid that are not full, in their original order.
pub open spec fn kept_rows(g: Seq<Seq<Cell>>) -> Seq<Seq<Cell>>
    decreases g.len(),
{
    if g.len() == 0 {
        Seq::empty()
    } else {
        kept_rows(g.drop_last()) + (if row_full(g.last()) {
            Seq::<Seq<Cell>>::empty()
        } else {
            seq![g.last()]
        })
    }
}

/// How many rows of a grid are full.
pub open spec fn full_rows(g: Seq<Seq<Cell>>) -> nat
    decreases g.len(),
{
    if g.len() == 0 {
        0
    } else {
        full_rows(g.drop_last()) + (if row_full(g.last()) {
            1nat
        } else {
            0nat
        })
    }
}

/// Every row is either kept or counted full: the two parts cover the grid.
pub proof fn lemma_kept_full_len(g: Seq<Seq<Cell>>)
    ensures
        kept_rows(g).len() + full_rows(g) == g.len(),
        full_rows(g) <= g.len(),
    decreases g.len(),
{
    if g.len() > 0 {
        lemma_kept_full_len(g.drop_last());
    }
}

/// Extending the processed prefix by one row extends its kept rows and its
/// full-row count accordingly.
proof fn lemma_rows_split_step(g: Seq<Seq<Cell>>, k: int)
    requires
        0 <= k < g.len(),
    ensures
        kept_rows(g.take(k + 1)) == kept_rows(g.take(k)) + (if row_full(g[k]) {
            Seq::<Seq<Cell>>::empty()
        } else {
            seq![g[k]]
        }),
        full_rows(g.take(k + 1)) == full_rows(g.take(k)) + (if row_full(g[k]) {
            1nat
        } else {
            0nat
        }),
{
    assert(g.take(k + 1).drop_last() =~= g.take(k));
    assert(g.take(k + 1).last() == g[k]);
}

pub proof fn lemma_filled_le_len(row: Seq<Cell>)
    ensures
        filled_in_row(row) <= row.len(),
    decreases row.len(),
{
    if row.len() > 0 {
        lemma_filled_le_len(row.drop_last());
    }
}

/// With the length fixed, a full count and a full row coincide.
proof fn lemma_filled_full(row: Seq<Cell>)
    ensures
        (filled_in_row(row) == row.len()) <==> row_full(row),
    decreases row.len(),
{
    if row.len() > 0 {
        lemma_filled_full(row.drop_last());
        lemma_filled_le_len(row.drop_last());
        if filled_in_row(row) == row.len() {
            assert forall|x: int| 0 <= x < row.len() implies row[x] is Filled by {
                if x < row.len() - 1 {
                    assert(row.drop_last()[x] == row[x]);
                }
            }
        } else {
            if row_full(row) {
                assert(row_full(row.drop_last())) by {
                    assert forall|x: int| 0 <= x < row.len() - 1 implies row.drop_last()[x] is Filled by {
                        assert(row[x] is Filled);
                    }
                }
            }
        }
    }
}

/// An empty row has no filled cells.
proof fn lemma_filled_empty_row(width: nat)
    ensures
        filled_in_row(empty_row(width)) == 0,
    decreases width,
{
    if width > 0 {
        assert(empty_row(width).drop_last() =~= empty_row((width - 1) as nat));
        lemma_filled_empty_row((width - 1) as nat);
    }
}

/// Filling one empty cell raises the row's filled count by one.
proof fn lemma_filled_update(row: Seq<Cell>, x: int, t: PieceType)
    requires
        0 <= x < row.len(),
        !(row[x] is Filled),
    ensures
        filled_in_row(row.update(x, Cell::Filled(t))) == filled_in_row(row) + 1,
    decreases row.len(),
{
    let row2 = row.update(x, Cell::Filled(t));
    if x == row.len() - 1 {
        assert(row2.drop_last() =~= row.drop_last());
    } else {
        assert(row2.drop_last() =~= row.drop_last().update(x, Cell::Filled(t)));
        lemma_filled_update(row.drop_last(), x, t);
        assert(row2.last() == row.last());
    }
}

/// Replacing one row changes the grid's filled count by the difference the
/// two rows make.
proof fn lemma_filled_count_update(g: Seq<Seq<Cell>>, y: int, row: Seq<Cell>)
    requires
        0 <= y < g.len(),
    ensures
        filled_count(g.update(y, row)) == filled_count(g) - filled_in_row(g[y]) + filled_in_row(
            row,
        ),
    decreases g.len(),
{
    let g2 = g.update(y, row);
    if y == g.len() - 1 {
        assert(g2.drop_last() =~= g.drop_last());
        assert(g2.last() == row);
    } else {
        assert(g2.drop_last() =~= g.drop_last().update(y, row));
        lemma_filled_count_update(g.drop_last(), y, row);
        assert(g2.last() == g.last());
    }
}

/// Membership in a one-longer prefix is membership in the prefix or
/// equality with the newly included element.
proof fn lemma_take_contains<A>(s: Seq<A>, k: int, c: A)
    requires
        0 <= k < s.len(),
    ensures
        s.take(k + 1).contains(c) <==> (s.take(k).contains(c) || c == s[k]),
{
    if s.take(k + 1).contains(c) {
        let i = choose|i: int| 0 <= i < s.take(k + 1).len() && #[trigger] s.take(k + 1)[i] == c;
        if i < k {
            assert(s.take(k)[i] == c);
        }
    }
    if s.take(k).contains(c) {
        let i = choose|i: int| 0 <= i < s.take(k).len() && #[trigger] s.take(k)[i] == c;
        assert(s.take(k + 1)[i] == c);
    }
    if c == s[k] {
        assert(s.take(k + 1)[k] == c);
    }
}

/// The grid a sequence of rows stands for.
spec fn rows_view(rows: Seq<Row>) -> Seq<Seq<Cell>> {
    rows.map(|_i: int, r: Row| r.cells@)
}

/// A row is consistent: the stated width, and an accurate filled count.
spec fn row_wf(r: Row, width: int) -> bool {
    &&& r.cells@.len() == width
    &&& r.filled == filled_in_row(r.cells@)
}

impl Row {
    fn new(width: usize) -> (r: Row)
        ensures
            row_wf(r, width as int),
            r.cells@ == empty_row(width as nat),
    {
        let mut cells: Vec<Cell> = Vec::new();
        let mut k: usize = 0;
        while k < width
            invariant
                k <= width,
                cells@.len() == k,
                filled_in_row(cells@) == 0,
                forall|x: int| 0 <= x < k ==> cells@[x] == Cell::Empty,
            decreases width - k,
        {
            proof {
                assert(cells@.push(Cell::Empty).drop_last() =~= cells@);
            }
            cells.push(Cell::Empty);
            k = k + 1;
        }
        proof {
            assert(cells@ =~= empty_row(width as nat));
        }
        Row { cells, filled: 0 }
    }
}

/// `lo` and `hi` enclose every element of `xs`.
spec fn encloses_all(xs: Seq<i32>, lo: i32, hi: i32) -> bool {
    forall|i: int| 0 <= i < xs.len() ==> lo <= #[trigger] xs[i] <= hi
}

/// Relies on itertools' `Itertools::minmax`: on a non-empty iterator it
/// returns the least and the greatest element (as one value when there is
/// exactly one element).
#[verifier::external_body]
fn minmax_i32(xs: &Vec<i32>) -> (r: (i32, i32))
    requires
        xs@.len() >= 1,
    ensures
        xs@.contains(r.0),
        xs@.contains(r.1),
        encloses_all(xs@, r.0, r.1),
{
    match itertools::Itertools::minmax(xs.iter().copied()) {
        itertools::MinMaxResult::NoElements => (0, 0),
        itertools::MinMaxResult::OneElement(x) => (x, x),
        itertools::MinMaxResult::MinMax(a, b) => (a, b),
    }
}

/// The grid with the given coordinates written as filled cells of type `t`;
/// coordinates outside the grid are ignored.
pub open spec fn grid_with_cells(g: Seq<Seq<Cell>>, cs: Seq<(int, int)>, t: PieceType) -> Seq<
    Seq<Cell>,
> {
    Seq::new(
        g.len(),
        |y: int|
            Seq::new(
                g[y].len(),
                |x: int|
                    if cs.contains((x, y)) {
                        Cell::Filled(t)
                    } else {
                        g[y][x]
                    },
            ),
    )
}

/// The grid after a piece has been committed: its four cells written as
/// filled cells of the piece's type.
pub open spec fn grid_with_piece(g: Seq<Seq<Cell>>, p: Piece) -> Seq<Seq<Cell>> {
    grid_with_cells(g, p.cells(), p.piece_type)
}

/// The least x-coordinate among the four cells a piece occupies.
pub open spec fn spec_min_x(p: Piece) -> int {
    let c = p.cells();
    min(min(c[0].0, c[1].0), min(c[2].0, c[3].0))
}

/// The greatest x-coordinate among the four cells a piece occupies.
pub open spec fn spec_max_x(p: Piece) -> int {
    let c = p.cells();
    max(max(c[0].0, c[1].0), max(c[2].0, c[3].0))
}

/// The piece moved sideways by `dx`, everything else unchanged.
pub open spec fn shifted_x(p: Piece, dx: int) -> Piece {
    Piece {
        position: Coord { x: (p.position.x + dx) as i32, y: p.position.y },
        rotation: p.rotation,
        piece_type: p.piece_type,
    }
}

/// The playfield grid. Created once per game session and mutated in place
/// by the lock and clear operations.
pub struct Playfield {
    size: PlayfieldSize,
    cells: Vec<Row>,
}

impl View for Playfield {
    type V = Seq<Seq<Cell>>;

    /// The grid as a sequence of rows, bottom row first, each row a
    /// sequence of cells, leftmost first.
    closed spec fn view(&self) -> Seq<Seq<Cell>> {
        rows_view(self.cells@)
    }
}

impl Playfield {
    pub closed spec fn spec_width(self) -> int {
        self.size.width as int
    }

    pub closed spec fn spec_height(self) -> int {
        self.size.height as int
    }

    /// The grid has the stated dimensions, and they are small enough for
    /// coordinate arithmetic.
    pub open spec fn grid_wf(self) -> bool {
        &&& self@.len() == self.spec_height()
        &&& forall|y: int| 0 <= y < self@.len() ==> (#[trigger] self@[y]).len() == self.spec_width()
        &&& self.spec_width() <= MAX_DIM
        &&& self.spec_height() <= MAX_DIM
    }

    /// Every row's filled counter matches its cells.
    pub closed spec fn counters_wf(self) -> bool {
        forall|y: int| 0 <= y < self.cells@.len() ==> row_wf(#[trigger] self.cells@[y], self.spec_width())
    }

    pub open spec fn wf(self) -> bool {
        &&& self.grid_wf()
        &&& self.counters_wf()
    }

    /// A coordinate lies inside `[0, width) x [0, height)`.
    pub open spec fn spec_in_bounds(self, c: (int, int)) -> bool {
        &&& 0 <= c.0 < self.spec_width()
        &&& 0 <= c.1 < self.spec_height()
    }

    /// The cell at an in-bounds coordinate.
    pub open spec fn cell_at(self, c: (int, int)) -> Cell {
        self@[c.1][c.0]
    }

    /// Every coordinate the piece occupies is in bounds and empty: the
    /// all-or-nothing condition under which a piece may stand or move.
    pub open spec fn move_fits(self, p: Piece) -> bool {
        forall|i: int|
            0 <= i < p.cells().len() ==> self.spec_in_bounds(#[trigger] p.cells()[i])
                && self.cell_at(p.cells()[i]) == Cell::Empty
    }

    /// A fresh playfield of the given size, all cells empty.
    pub fn new(size: PlayfieldSize) -> (pf: Playfield)
        requires
            size.width <= MAX_DIM,
            size.height <= MAX_DIM,
        ensures
            pf.wf(),
            pf.spec_width() == size.width,
            pf.spec_height() == size.height,
            pf@.len() == size.height,
            forall|y: int| 0 <= y < size.height ==> #[trigger] pf@[y] == empty_row(size.width as nat),
    {
        let width_us = size.width as usize;
        let mut rows: Vec<Row> = Vec::new();
        let mut y: u32 = 0;
        while y < size.height
            invariant
                y <= size.height,
                rows@.len() == y,
                forall|i: int| 0 <= i < y ==> row_wf(#[trigger] rows@[i], size.width as int),
                forall|i: int| 0 <= i < y ==> (#[trigger] rows@[i]).cells@ == empty_row(size.width as nat),
                width_us == size.width,
            decreases size.height - y,
        {
            rows.push(Row::new(width_us));
            y = y + 1;
        }
        let pf = Playfield { size, cells: rows };
        proof {
            assert(forall|i: int|
                0 <= i < pf.cells@.len() ==> #[trigger] pf@[i] == pf.cells@[i].cells@);
            lemma_filled_empty_row(size.width as nat);
        }
        pf
    }

    /// The dimensions this playfield was created with.
    pub fn size(&self) -> (s: PlayfieldSize)
        ensures
            s.width == self.spec_width(),
            s.height == self.spec_height(),
    {
        self.size
    }

    fn valid_coordinate(&self, coordinate: Coord) -> (r: bool)
        requires
            self.wf(),
        ensures
            r == self.spec_in_bounds(coordinate.pair()),
    {
        coordinate.x >= 0 && coordinate.y >= 0 && coordinate.x < self.size.width as i32
            && coordinate.y < self.size.height as i32
    }

    /// The cell at a coordinate, or nothing when the coordinate is outside
    /// the grid: out-of-bounds access is a query failure, never a fault.
    pub fn get(&self, coordinate: Coord) -> (r: Option<&Cell>)
        requires
            self.wf(),
        ensures
            match r {
                Some(c) => self.spec_in_bounds(coordinate.pair()) && *c == self.cell_at(
                    coordinate.pair(),
                ),
                None => !self.spec_in_bounds(coordinate.pair()),
            },
    {
        if !self.valid_coordinate(coordinate) {
            return None;
        }
        let y = coordinate.y as usize;
        let x = coordinate.x as usize;
        Some(&self.cells[y].cells[x])
    }

    /// Mutable access to the cell at a coordinate, under the same bounds
    /// rule as `get`; meant for the internal commit path. Writing through
    /// the returned cell leaves the row's filled counter stale, so the
    /// playfield may stop being well-formed.
    pub fn get_mut(&mut self, coordinate: Coord) -> (r: Option<&mut Cell>)
        requires
            old(self).wf(),
        ensures
            match r {
                Some(c) => old(self).spec_in_bounds(coordinate.pair()) && *c == old(self).cell_at(
                    coordinate.pair(),
                ) && final(self)@ == old(self)@.update(
                    coordinate.y as int,
                    old(self)@[coordinate.y as int].update(coordinate.x as int, *final(c)),
                ),
                None => !old(self).spec_in_bounds(coordinate.pair()) && *final(self) == *old(
                    self,
                ),
            },
    {
        if !self.valid_coordinate(coordinate) {
            return None;
        }
        let y = coordinate.y as usize;
        let x = coordinate.x as usize;
        Some(&mut self.cells[y].cells[x])
    }

    /// True exactly when every coordinate the piece occupies is in bounds
    /// and empty; any out-of-bounds or filled coordinate fails the whole
    /// check.
    pub fn check_move(&self, piece: &Piece) -> (r: bool)
        requires
            self.wf(),
            piece.pos_in_range(),
        ensures
            r == self.move_fits(*piece),
    {
        let cells = crate::piece_types::iter_piece_cells(piece);
        let mut k: usize = 0;
        while k < 4
            invariant
                k <= 4,
                self.wf(),
                cells@.len() == 4,
                piece.cells().len() == 4,
                forall|i: int| 0 <= i < 4 ==> (#[trigger] cells@[i]).pair() == piece.cells()[i],
                forall|i: int|
                    0 <= i < k ==> self.spec_in_bounds(#[trigger] piece.cells()[i]) && self.cell_at(
                        piece.cells()[i],
                    ) == Cell::Empty,
            decreases 4 - k,
        {
            let c = cells[k];
            match self.get(c) {
                Some(cell) => {
                    match cell {
                        Cell::Empty => {},
                        Cell::Filled(_) => {
                            return false;
                        },
                    }
                },
                None => {
                    return false;
                },
            }
            k = k + 1;
        }
        true
    }

    /// The horizontal wall-kick offset proposed for a piece in its
    /// post-rotation pose: push right past the left wall, push left past the
    /// right wall, otherwise no shift. The piece is then re-validated at the
    /// shifted position; there is no vertical kick and no second attempt.
    pub open spec fn spec_kick(self, p: Piece) -> int {
        if spec_min_x(p) < 0 {
            -spec_min_x(p)
        } else if spec_max_x(p) >= self.spec_width() {
            -(spec_max_x(p) + 1 - self.spec_width())
        } else {
            0
        }
    }

    /// Checks a piece in its intended post-rotation pose: proposes the
    /// one-axis wall-kick offset, and accepts exactly when the piece fits at
    /// the shifted position. The caller applies the returned offset; on
    /// `Invalid` the piece is left unchanged.
    pub fn check_rotation(&self, piece: &Piece) -> (r: CheckRotationResult)
        requires
            self.wf(),
            piece.pos_in_range(),
        ensures
            ({
                let kick = self.spec_kick(*piece);
                let moved = shifted_x(*piece, kick);
                &&& moved.position.x == piece.position.x + kick
                &&& moved.pos_in_range()
                &&& r == (if self.move_fits(moved) {
                    CheckRotationResult::ValidWithOffset((Coord { x: kick as i32, y: 0 }))
                } else {
                    CheckRotationResult::Invalid
                })
            }),
    {
        proof {
            piece.lemma_cells_near();
            piece.lemma_cells_origin();
        }
        let cells = crate::piece_types::iter_piece_cells(piece);
        let mut xs: Vec<i32> = Vec::new();
        xs.push(cells[0].x);
        xs.push(cells[1].x);
        xs.push(cells[2].x);
        xs.push(cells[3].x);
        let (mn, mx) = minmax_i32(&xs);
        proof {
            assert(forall|i: int| 0 <= i < 4 ==> xs@[i] as int == (#[trigger] piece.cells()[i]).0);
            assert(mn as int == spec_min_x(*piece));
            assert(mx as int == spec_max_x(*piece));
        }
        let width_i = self.size.width as i32;
        let offset_x: i32 = if mn < 0 {
            -mn
        } else if mx >= width_i {
            -(mx + 1 - width_i)
        } else {
            0
        };
        let moved = Piece {
            position: Coord::new(piece.position.x + offset_x, piece.position.y),
            rotation: piece.rotation,
            piece_type: piece.piece_type,
        };
        if self.check_move(&moved) {
            CheckRotationResult::ValidWithOffset(Coord::new(offset_x, 0))
        } else {
            CheckRotationResult::Invalid
        }
    }

    /// Commits a piece: writes `Filled(piece_type)` into each of its four
    /// cells. The caller contract is the lock rule — call this only for a
    /// piece that stands on the playfield (every cell in bounds and empty),
    /// typically right after a downward move was rejected.
    pub fn set_cells(&mut self, piece: &Piece)
        requires
            old(self).wf(),
            old(self).move_fits(*piece),
        ensures
            final(self).wf(),
            final(self).spec_width() == old(self).spec_width(),
            final(self).spec_height() == old(self).spec_height(),
            final(self)@ == grid_with_piece(old(self)@, *piece),
            filled_count(final(self)@) == filled_count(old(self)@) + 4,
    {
        proof {
            piece.lemma_cells_origin();
            piece.lemma_cells_distinct();
            assert(old(self).spec_in_bounds(piece.cells()[0]));
        }
        let ghost cs = piece.cells();
        let ghost t_spec = piece.piece_type;
        let cells = crate::piece_types::iter_piece_cells(piece);
        let t = piece.piece_type;
        proof {
            assert(grid_with_cells(old(self)@, cs.take(0), t_spec) =~~= old(self)@);
        }
        let mut k: usize = 0;
        while k < 4
            invariant
                k <= 4,
                self.wf(),
                old(self).wf(),
                self.spec_width() == old(self).spec_width(),
                self.spec_height() == old(self).spec_height(),
                old(self).move_fits(*piece),
                cells@.len() == 4,
                forall|i: int| 0 <= i < 4 ==> (#[trigger] cells@[i]).pair() == piece.cells()[i],
                cs == piece.cells(),
                cs.len() == 4,
                t_spec == piece.piece_type,
                t == piece.piece_type,
                forall|i: int, j: int| 0 <= i < j < 4 ==> cs[i] != cs[j],
                self@ == grid_with_cells(old(self)@, cs.take(k as int), t_spec),
                filled_count(self@) == filled_count(old(self)@) + k,
            decreases 4 - k,
        {
            let c = cells[k];
            proof {
                assert(old(self).spec_in_bounds(cs[k as int]));
            }
            let y = c.y as usize;
            let x = c.x as usize;
            let ghost g_pre = self@;
            proof {
                // the target cell has not been written yet, so it still
                // holds what the untouched grid held there: an empty cell
                assert(!cs.take(k as int).contains(cs[k as int])) by {
                    if cs.take(k as int).contains(cs[k as int]) {
                        let i = choose|i: int|
                            0 <= i < k && #[trigger] cs.take(k as int)[i] == cs[k as int];
                        assert(cs[i] == cs[k as int]);
                    }
                }
                assert(g_pre[y as int][x as int] == old(self)@[y as int][x as int]);
                assert(old(self).cell_at(cs[k as int]) == Cell::Empty);
            }
            let mut tmp = Row { cells: Vec::new(), filled: 0 };
            self.cells.set_and_swap(y, &mut tmp);
            tmp.cells.set(x, Cell::Filled(t));
            proof {
                lemma_filled_update(g_pre[y as int], x as int, t_spec);
                lemma_filled_le_len(g_pre[y as int]);
            }
            tmp.filled = tmp.filled + 1;
            self.cells.set_and_swap(y, &mut tmp);
            proof {
                let gk = grid_with_cells(old(self)@, cs.take(k as int), t_spec);
                let gk1 = grid_with_cells(old(self)@, cs.take(k as int + 1), t_spec);
                let row2 = g_pre[y as int].update(x as int, Cell::Filled(t_spec));
                assert(self@ =~= g_pre.update(y as int, row2));
                lemma_filled_count_update(g_pre, y as int, row2);
                assert(gk1 =~~= g_pre.update(y as int, row2)) by {
                    assert forall|yy: int| 0 <= yy < gk1.len() implies gk1[yy] =~= g_pre.update(
                        y as int,
                        row2,
                    )[yy] by {
                        assert forall|xx: int|
                            0 <= xx < gk1[yy].len() implies gk1[yy][xx] == g_pre.update(
                            y as int,
                            row2,
                        )[yy][xx] by {
                            lemma_take_contains(cs, k as int, (xx, yy));
                        }
                    }
                }
            }
            k = k + 1;
        }
        proof {
            assert(cs.take(4) =~= cs);
        }
    }

    /// Removes every full row in one pass — rows above a removed row shift
    /// down, the order of surviving rows is preserved — and appends an equal
    /// number of fresh empty rows at the top. Returns how many rows were
    /// removed; simultaneous full rows clear atomically in this one call.
    pub fn clear_rows(&mut self) -> (count: usize)
        requires
            old(self).wf(),
        ensures
            final(self).wf(),
            final(self).spec_width() == old(self).spec_width(),
            final(self).spec_height() == old(self).spec_height(),
            count == full_rows(old(self)@),
            final(self)@ == kept_rows(old(self)@) + Seq::new(
                full_rows(old(self)@),
                |_i: int| empty_row(old(self).spec_width() as nat),
            ),
    {
        let ghost g0 = old(self)@;
        let width_us = self.size.width as usize;
        let mut y: usize = 0;
        let mut removed: usize = 0;
        proof {
            assert(g0.take(0) =~= Seq::<Seq<Cell>>::empty());
            assert(g0.skip(0) =~= g0);
        }
        while y < self.cells.len()
            invariant
                old(self).wf(),
                self.size == old(self).size,
                g0 == old(self)@,
                g0.len() == old(self).spec_height(),
                width_us == old(self).spec_width(),
                y + removed <= g0.len(),
                forall|i: int|
                    0 <= i < self.cells@.len() ==> row_wf(
                        #[trigger] self.cells@[i],
                        old(self).spec_width(),
                    ),
                y == kept_rows(g0.take((y + removed) as int)).len(),
                removed == full_rows(g0.take((y + removed) as int)),
                rows_view(self.cells@) == kept_rows(g0.take((y + removed) as int)) + g0.skip(
                    (y + removed) as int,
                ),
                self.cells@.len() + removed == g0.len(),
            decreases g0.len() - y - removed,
        {
            let ghost processed = (y + removed) as int;
            proof {
                assert(rows_view(self.cells@)[y as int] == self.cells@[y as int].cells@);
                assert(g0.skip(processed)[0] == g0[processed]);
                assert(self.cells@[y as int].cells@ == g0[processed]);
                lemma_filled_full(self.cells@[y as int].cells@);
                lemma_rows_split_step(g0, processed);
            }
            let is_full = self.cells[y].filled == width_us;
            if is_full {
                let ghost pre = self.cells@;
                let _row = self.cells.remove(y);
                proof {
                    assert(rows_view(self.cells@) =~= rows_view(pre).remove(y as int));
                    assert((kept_rows(g0.take(processed)) + g0.skip(processed)).remove(y as int)
                        =~= kept_rows(g0.take(processed)) + g0.skip(processed + 1));
                    assert(kept_rows(g0.take(processed + 1)) =~= kept_rows(g0.take(processed)));
                }
                removed = removed + 1;
            } else {
                proof {
                    assert(kept_rows(g0.take(processed + 1)) =~= kept_rows(g0.take(processed))
                        + seq![g0[processed]]);
                    assert(rows_view(self.cells@) =~= kept_rows(g0.take(processed + 1)) + g0.skip(
                        processed + 1,
                    ));
                }
                y = y + 1;
            }
        }
        proof {
            assert(y + removed == g0.len());
            assert(g0.take((y + removed) as int) =~= g0);
            assert(g0.skip((y + removed) as int) =~= Seq::<Seq<Cell>>::empty());
            assert(rows_view(self.cells@) =~= kept_rows(g0));
        }
        let to_add = removed;
        let mut k: usize = 0;
        while k < to_add
            invariant
                old(self).wf(),
                self.size == old(self).size,
                g0 == old(self)@,
                g0.len() == old(self).spec_height(),
                to_add == full_rows(g0),
                k <= to_add,
                width_us == old(self).spec_width(),
                forall|i: int|
                    0 <= i < self.cells@.len() ==> row_wf(
                        #[trigger] self.cells@[i],
                        old(self).spec_width(),
                    ),
                rows_view(self.cells@) == kept_rows(g0) + Seq::new(
                    k as nat,
                    |_i: int| empty_row(old(self).spec_width() as nat),
                ),
                self.cells@.len() == kept_rows(g0).len() + k,
            decreases to_add - k,
        {
            let ghost pre = self.cells@;
            let r = Row::new(width_us);
            self.cells.push(r);
            proof {
                assert(rows_view(self.cells@) =~= rows_view(pre).push(empty_row(
                    old(self).spec_width() as nat,
                )));
                assert(Seq::new(
                    (k + 1) as nat,
                    |_i: int| empty_row(old(self).spec_width() as nat),
                ) =~= Seq::new(k as nat, |_i: int| empty_row(old(self).spec_width() as nat)).push(
                    empty_row(old(self).spec_width() as nat),
                ));
                assert(rows_view(self.cells@) =~= kept_rows(g0) + Seq::new(
                    (k + 1) as nat,
                    |_i: int| empty_row(old(self).spec_width() as nat),
                ));
            }
            k = k + 1;
        }
        proof {
            lemma_kept_full_len(g0);
        }
        removed
    }
}

} // verus!
