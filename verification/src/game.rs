//! The game: a snake, the fruits on the field, and what one tick does to
//! both.

use vstd::prelude::*;

use crate::fruit::{is_spawn, new_random_fruit, randomize_fruits, Fruit};
use crate::grid::{cell, cells, first_at, Axis, Cell};
use crate::snake::{lemma_can_go, Collision, Snake, SnakeState};

verus! {

/// Ticks per second.
pub const UPDATES_PER_SECOND: u64 = 8;

/// `list` without the first of its cells that is `c`; `list` itself where
/// none is.
pub open spec fn without_first(list: Seq<Cell>, c: Cell) -> Seq<Cell> {
    match list.index_of_first(c) {
        Some(i) => list.remove(i),
        None => list,
    }
}

/// The game as a mathematical value.
pub struct GameState {
    pub snake: SnakeState,
    /// The cells on which the fruits lie, in the order in which they are kept.
    pub fruits: Seq<Cell>,
}

impl GameState {
    /// What stops the game at the next tick, if anything does: the collision
    /// in which the snake is after its move.
    pub open spec fn collision(self) -> Option<Collision> {
        self.snake.advance(self.fruits).collision()
    }

    /// The game after the part of a tick that chance has no say in. The snake
    /// moves. Unless that move is a collision, the first fruit that lies
    /// under the new head is taken from the field.
    pub open spec fn advance(self) -> GameState {
        let snake = self.snake.advance(self.fruits);
        GameState {
            snake,
            fruits: if self.collision() is Some {
                self.fruits
            } else {
                without_first(self.fruits, snake.head)
            },
        }
    }

    /// Whether the next tick puts a new fruit on the field: the snake's move
    /// is no collision and it eats.
    pub open spec fn owes_fruit(self) -> bool {
        self.collision() is None && self.snake.will_eat(self.fruits)
    }
}

/// The whole state of a game.
#[derive(Debug)]
pub struct Game {
    pub snake: Snake,
    pub fruits: Vec<Fruit>,
}

impl View for Game {
    type V = GameState;

    open spec fn view(&self) -> GameState {
        GameState { snake: self.snake@, fruits: cells(self.fruits@) }
    }
}

impl Game {
    /// A game at its start: a snake of one cell at `(1, 1)` that moves
    /// towards larger `x`, and one fruit somewhere on the field.
    pub fn new() -> (game: Game)
        ensures
            game@.snake == (SnakeState {
                body: seq![cell(1, 1)],
                axis: Axis::Horizontal,
                step: 1,
                head: cell(1, 1),
            }),
            game@.fruits.len() == 1,
            game@.fruits[0].in_grid(),
            game.snake.can_go(),
    {
        let game = Game { snake: Snake::new(1, 1), fruits: randomize_fruits(1) };
        assert(game@.fruits[0] == game.fruits[0]@);
        game
    }

    /// The part of a tick that chance has no say in. The snake moves. A
    /// collision is reported and leaves the fruits alone. Otherwise the
    /// result says whether the snake ate, and the fruit it ate is gone.
    pub fn advance(&mut self) -> (outcome: Result<bool, Collision>)
        requires
            old(self).snake.can_go(),
        ensures
            final(self)@ == old(self)@.advance(),
            outcome == (match old(self)@.collision() {
                Some(collision) => Err::<bool, Collision>(collision),
                None => Ok(old(self)@.owes_fruit()),
            }),
            old(self)@.snake.well_formed() ==> final(self)@.snake.well_formed(),
            outcome is Ok && final(self)@.snake.well_formed() ==> final(self).snake.can_go(),
    {
        let ate = self.snake.go(&self.fruits);
        if let Some(collision) = self.snake.collision() {
            return Err(collision);
        }
        let ghost fruits = old(self)@.fruits;
        let ghost head = self@.snake.head;
        proof {
            fruits.index_of_first_ensures(head);
        }
        if let Some(i) = first_at(&self.fruits, self.snake.x, self.snake.y) {
            assert(fruits.index_of_first(head) == Some(i as int)) by {
                let first = fruits.index_of_first(head)->0;
                assert(fruits[i as int] == head);
                assert(fruits[first] == self.fruits[first]@);
            }
            self.fruits.remove(i);
            assert(cells(self.fruits@) =~= fruits.remove(i as int));
        }
        proof {
            if self@.snake.well_formed() {
                lemma_can_go(&self.snake);
            }
        }
        Ok(ate)
    }

    /// One tick. The snake moves; a collision ends the game. A snake that
    /// ate has its fruit replaced by a new one on a vacant cell.
    pub fn update(&mut self) -> (outcome: Result<(), Collision>)
        requires
            old(self).snake.can_go(),
        ensures
            final(self)@.snake == old(self)@.advance().snake,
            outcome == (match old(self)@.collision() {
                Some(collision) => Err::<(), Collision>(collision),
                None => Ok(()),
            }),
            if old(self)@.owes_fruit() {
                is_spawn(
                    old(self)@.advance().fruits,
                    final(self)@.fruits,
                    old(self)@.advance().snake.body,
                )
            } else {
                final(self)@.fruits == old(self)@.advance().fruits
            },
            old(self)@.snake.well_formed() ==> final(self)@.snake.well_formed(),
            outcome is Ok && final(self)@.snake.well_formed() ==> final(self).snake.can_go(),
    {
        match self.advance() {
            Err(collision) => Err(collision),
            Ok(ate) => {
                if ate {
                    new_random_fruit(&mut self.fruits, &self.snake);
                }
                Ok(())
            },
        }
    }
}

} // verus!
