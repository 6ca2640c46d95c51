//! The playing field: a square of `GRID_SIZE` by `GRID_SIZE` cells.

use vstd::prelude::*;

verus! {

/// Number of cells along each side of the playing field.
pub const GRID_SIZE: i16 = 20;

/// One of the two lines along which things move on the field: `Horizontal`
/// changes `x`, `Vertical` changes `y`.
pub enum Axis {
    Horizontal,
    Vertical,
}

/// A cell of the unbounded integer plane. The playing field is the part of
/// the plane whose coordinates both lie in `[0, GRID_SIZE)`.
pub struct Cell {
    pub x: int,
    pub y: int,
}

impl Cell {
    /// Whether the cell belongs to the playing field.
    pub open spec fn in_grid(self) -> bool {
        0 <= self.x < GRID_SIZE && 0 <= self.y < GRID_SIZE
    }

    /// The cell that lies `by` cells further along `axis`.
    pub open spec fn shifted(self, axis: Axis, by: int) -> Cell {
        match axis {
            Axis::Horizontal => cell(self.x + by, self.y),
            Axis::Vertical => cell(self.x, self.y + by),
        }
    }

    /// Whether the cell lies next to `other`: one cell away along one axis,
    /// and level with it on the other.
    pub open spec fn touches(self, other: Cell) -> bool {
        ||| self.y == other.y && (self.x - other.x == 1 || other.x - self.x == 1)
        ||| self.x == other.x && (self.y - other.y == 1 || other.y - self.y == 1)
    }

    /// Whether the cell lies in column `x` or in row `y`.
    pub open spec fn on_line_of(self, x: int, y: int) -> bool {
        self.x == x || self.y == y
    }
}

/// The cell with the given coordinates.
pub open spec fn cell(x: int, y: int) -> Cell {
    Cell { x, y }
}

/// Every cell of the playing field exactly once, ordered by `x` and, within
/// one `x`, by `y`.
pub open spec fn grid_cells() -> Seq<Cell> {
    Seq::new(
        (GRID_SIZE * GRID_SIZE) as nat,
        |k: int| cell(k / (GRID_SIZE as int), k % (GRID_SIZE as int)),
    )
}

/// Grid coordinates as the game stores them.
#[derive(Clone, Copy, Debug, PartialEq, Eq, Structural)]
pub struct Position {
    pub x: i16,
    pub y: i16,
}

impl View for Position {
    type V = Cell;

    open spec fn view(&self) -> Cell {
        cell(self.x as int, self.y as int)
    }
}

/// The cells that a list of positions names, in the same order.
pub open spec fn cells(positions: Seq<Position>) -> Seq<Cell> {
    positions.map_values(|p: Position| p@)
}

/// The index of the first of `positions` that is `(x, y)`, if there is one.
pub fn first_at(positions: &Vec<Position>, x: i16, y: i16) -> (found: Option<usize>)
    ensures
        found is Some <==> cells(positions@).contains(cell(x as int, y as int)),
        found matches Some(i) ==> {
            &&& i < positions.len()
            &&& positions[i as int]@ == cell(x as int, y as int)
            &&& forall|j: int| 0 <= j < i ==> positions[j]@ != cell(x as int, y as int)
        },
{
    let mut i: usize = 0;
    while i < positions.len()
        invariant
            i <= positions.len(),
            forall|j: int| 0 <= j < i ==> positions[j]@ != cell(x as int, y as int),
        decreases positions.len() - i,
    {
        if positions[i].x == x && positions[i].y == y {
            assert(cells(positions@)[i as int] == cell(x as int, y as int));
            return Some(i);
        }
        i += 1;
    }
    assert forall|j: int| 0 <= j < cells(positions@).len() implies cells(positions@)[j] != cell(
        x as int,
        y as int,
    ) by {
        assert(cells(positions@)[j] == positions[j]@);
    }
    None
}

/// Whether `(x, y)` lies outside the playing field.
pub fn is_out_of_bounds(x: i16, y: i16) -> (out: bool)
    ensures
        out == !cell(x as int, y as int).in_grid(),
{
    x < 0 || x >= GRID_SIZE || y < 0 || y >= GRID_SIZE
}

/// A cell is listed by `grid_cells` if and only if it lies in the playing
/// field, and then at index `x * GRID_SIZE + y` and nowhere else.
pub proof fn lemma_grid_cells(c: Cell)
    ensures
        grid_cells().contains(c) <==> c.in_grid(),
        c.in_grid() ==> grid_cells()[c.x * GRID_SIZE + c.y] == c,
        forall|k: int| 0 <= k < grid_cells().len() && grid_cells()[k] == c
            ==> k == c.x * GRID_SIZE + c.y,
{
    if c.in_grid() {
        let k = c.x * 20 + c.y;
        assert(grid_cells()[k] == c);
    }
}

} // verus!
