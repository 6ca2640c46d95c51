//! Where the cells of the playing field lie on the screen, in pixels.

use vstd::prelude::*;

use crate::grid::{Position, GRID_SIZE};

verus! {

/// Length of a cell's side on the screen, in pixels.
pub const CELL_PIXELS: i32 = 30;

/// A square of pixels, by its upper left corner and the length of its side.
#[derive(Clone, Copy, Debug, PartialEq, Eq, Structural)]
pub struct Square {
    pub left: i32,
    pub top: i32,
    pub side: i32,
}

/// Length of the window's side, in pixels: the whole playing field.
pub fn window_side() -> (side: u32)
    ensures
        side == GRID_SIZE * CELL_PIXELS,
{
    let cells: u32 = GRID_SIZE as u32;
    let pixels: u32 = CELL_PIXELS as u32;
    cells * pixels
}

/// The square that shows the cell at `position`. It starts at the cell's
/// corner and is one pixel short of the cell's side, so that neighbouring
/// cells stay apart.
pub fn square_of(position: Position) -> (square: Square)
    ensures
        square.left == position.x * CELL_PIXELS,
        square.top == position.y * CELL_PIXELS,
        square.side == CELL_PIXELS - 1,
{
    let x: i32 = position.x as i32;
    let y: i32 = position.y as i32;
    Square { left: x * CELL_PIXELS, top: y * CELL_PIXELS, side: CELL_PIXELS - 1 }
}

} // verus!
