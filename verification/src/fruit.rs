//! Fruit: where it lies, and where new fruit is put.

use rand::Rng;
use vstd::prelude::*;

use crate::grid::{
    cell, cells, first_at, grid_cells, lemma_grid_cells, Cell, Position, GRID_SIZE,
};
use crate::snake::Snake;

verus! {

/// A fruit, which lies on one cell.
pub type Fruit = Position;

/// Whether `c` is vacant: neither a cell of `body` nor one of `fruits`.
pub open spec fn is_vacant(c: Cell, body: Seq<Cell>, fruits: Seq<Cell>) -> bool {
    !body.contains(c) && !fruits.contains(c)
}

/// `is_vacant` as a predicate on cells, for given `body` and `fruits`.
pub open spec fn vacancy(body: Seq<Cell>, fruits: Seq<Cell>) -> spec_fn(Cell) -> bool {
    |c: Cell| is_vacant(c, body, fruits)
}

/// The vacant cells of the playing field, in the order of `grid_cells`.
pub open spec fn vacant_cells(body: Seq<Cell>, fruits: Seq<Cell>) -> Seq<Cell> {
    grid_cells().filter(vacancy(body, fruits))
}

/// Whether `after` is what a spawn may leave of the fruits `before`, with the
/// snake's body on `body`. Where a cell of the playing field is vacant, one
/// fruit has been added at the end, on a vacant cell. With no vacant cell
/// left, the fruits are unchanged.
pub open spec fn is_spawn(before: Seq<Cell>, after: Seq<Cell>, body: Seq<Cell>) -> bool {
    let vacant = vacant_cells(body, before);
    if vacant.len() == 0 {
        after == before
    } else {
        &&& after.len() == before.len() + 1
        &&& after.drop_last() == before
        &&& vacant.contains(after.last())
    }
}

/// Draws a number from the thread's random number generator, by
/// `rand::Rng::gen_range(0, bound)` on `rand::thread_rng()`. That call
/// samples the half-open range `[0, bound)` and panics on an empty range,
/// which `requires` excludes. Which number of the range comes is left open.
#[verifier::external_body]
fn random_below(bound: usize) -> (drawn: usize)
    requires
        bound > 0,
    ensures
        drawn < bound,
{
    rand::thread_rng().gen_range(0, bound)
}

/// `number` fruits, each on a cell of the playing field drawn at random, both
/// coordinates independently. Two of them may share a cell.
pub fn randomize_fruits(number: u8) -> (fruits: Vec<Fruit>)
    ensures
        fruits.len() == number,
        forall|i: int| 0 <= i < fruits.len() ==> fruits[i]@.in_grid(),
{
    let mut fruits: Vec<Fruit> = Vec::new();
    for n in 0..number
        invariant
            fruits.len() == n,
            forall|i: int| 0 <= i < fruits.len() ==> fruits[i]@.in_grid(),
    {
        let x: usize = random_below(GRID_SIZE as usize);
        let y: usize = random_below(GRID_SIZE as usize);
        fruits.push(Fruit { x: x as i16, y: y as i16 });
    }
    fruits
}

/// The positions on which a new fruit can be put: every cell of the playing
/// field that holds no part of `snake` and none of `fruits`.
pub fn free_positions(fruits: &Vec<Fruit>, snake: &Snake) -> (free: Vec<Position>)
    ensures
        cells(free@) == vacant_cells(snake@.body, cells(fruits@)),
{
    let ghost vacant = vacancy(snake@.body, cells(fruits@));
    let mut free: Vec<Position> = Vec::new();
    assert(grid_cells().take(0).filter(vacant) =~= cells(free@)) by {
        assert(grid_cells().take(0) =~= Seq::<Cell>::empty());
        Seq::<Cell>::empty().lemma_filter_len(vacant);
    }
    for x in 0..GRID_SIZE
        invariant
            vacant == vacancy(snake@.body, cells(fruits@)),
            cells(free@) == grid_cells().take(x * GRID_SIZE).filter(vacant),
    {
        for y in 0..GRID_SIZE
            invariant
                0 <= x < GRID_SIZE,
                vacant == vacancy(snake@.body, cells(fruits@)),
                cells(free@) == grid_cells().take(x * GRID_SIZE + y).filter(vacant),
        {
            let ghost k = x * GRID_SIZE + y;
            let ghost seen = grid_cells().take(k);
            let ghost listed = cells(free@);
            proof {
                assert(grid_cells()[k] == cell(x as int, y as int));
                assert(grid_cells().take(k + 1) =~= seen.push(cell(x as int, y as int)));
                seen.lemma_filter_push(cell(x as int, y as int), vacant);
            }
            if first_at(&snake.parts, x, y).is_none() && first_at(fruits, x, y).is_none() {
                free.push(Position { x, y });
                assert(cells(free@) =~= listed.push(cell(x as int, y as int)));
            }
        }
    }
    assert(grid_cells().take(GRID_SIZE * GRID_SIZE) =~= grid_cells());
    free
}

/// Adds a fruit on the free position numbered `spot`.
pub fn put_fruit(fruits: &mut Vec<Fruit>, free: &Vec<Position>, spot: usize)
    requires
        spot < free.len(),
    ensures
        final(fruits)@ == old(fruits)@.push(free[spot as int]),
{
    fruits.push(free[spot]);
}

/// Adds one fruit on a vacant cell of the playing field, drawn at random
/// among all of them. With the field full, no fruit is added.
pub fn new_random_fruit(fruits: &mut Vec<Fruit>, snake: &Snake)
    ensures
        is_spawn(cells(old(fruits)@), cells(final(fruits)@), snake@.body),
{
    let free = free_positions(fruits, snake);
    if free.len() > 0 {
        let spot = random_below(free.len());
        put_fruit(fruits, &free, spot);
        assert(cells(fruits@).drop_last() =~= cells(old(fruits)@));
        assert(cells(free@)[spot as int] == cells(fruits@).last());
    }
}

/// A cell is listed as vacant if and only if it lies in the playing field
/// and neither the body nor a fruit lies on it. So a spawn puts its fruit on
/// the field, and never on the snake or on another fruit.
pub proof fn lemma_vacant_cells(body: Seq<Cell>, fruits: Seq<Cell>, c: Cell)
    ensures
        vacant_cells(body, fruits).contains(c) <==> c.in_grid() && is_vacant(c, body, fruits),
{
    let vacant = vacancy(body, fruits);
    let listed = vacant_cells(body, fruits);
    lemma_grid_cells(c);
    if listed.contains(c) {
        grid_cells().lemma_filter_contains_rev(vacant, c);
        let i = choose|i: int| 0 <= i < listed.len() && listed[i] == c;
        grid_cells().lemma_filter_pred(vacant, i);
    }
    if c.in_grid() && is_vacant(c, body, fruits) {
        grid_cells().lemma_filter_contains(vacant, c.x * GRID_SIZE + c.y);
    }
}

} // verus!
