//! The snake: an ordered list of cells, head first, and its direction of
//! travel.

use vstd::prelude::*;

use crate::fruit::Fruit;
use crate::grid::{cell, cells, first_at, is_out_of_bounds, Axis, Cell, Position};

verus! {

/// One cell of the snake's body.
pub type SnakePart = Position;

/// A request to turn, as an arrow key gives it. `Up` is towards smaller `y`,
/// `Left` towards smaller `x`.
#[derive(Clone, Copy, Debug, PartialEq, Eq, Structural)]
pub enum Turn {
    Up,
    Down,
    Left,
    Right,
}

impl Turn {
    /// The line along which a snake moves after this turn.
    pub open spec fn axis(self) -> Axis {
        match self {
            Turn::Up | Turn::Down => Axis::Vertical,
            Turn::Left | Turn::Right => Axis::Horizontal,
        }
    }

    /// What a move adds to the head's coordinate after this turn.
    pub open spec fn step(self) -> int {
        match self {
            Turn::Up | Turn::Left => -1,
            Turn::Down | Turn::Right => 1,
        }
    }
}

/// Why a game ends.
#[derive(Clone, Copy, Debug, PartialEq, Eq, Structural)]
pub enum Collision {
    /// The head has left the playing field.
    Boundary,
    /// The head lies on another cell of the body.
    Body,
}

impl Collision {
    /// What to tell the player. Both collisions read the same.
    pub fn message(&self) -> (text: &'static str)
        ensures
            text@ == "Snake collided with something"@,
    {
        "Snake collided with something"
    }
}

/// The snake as a mathematical value.
pub struct SnakeState {
    /// The cells of the body, head first.
    pub body: Seq<Cell>,
    /// The line along which the snake moves.
    pub axis: Axis,
    /// What a move adds to the head's coordinate on `axis`.
    pub step: int,
    /// The recorded position of the head.
    pub head: Cell,
}

impl SnakeState {
    /// The body is not empty, its first cell is the recorded head, and the
    /// snake moves by one cell at a time.
    pub open spec fn well_formed(self) -> bool {
        &&& self.body.len() >= 1
        &&& self.head == self.body[0]
        &&& (self.step == 1 || self.step == -1)
    }

    /// The cell that the next move puts the head on.
    pub open spec fn next_head(self) -> Cell
        recommends
            self.body.len() >= 1,
    {
        self.body[0].shifted(self.axis, self.step)
    }

    /// Whether the next move puts the head on one of `fruits`.
    pub open spec fn will_eat(self, fruits: Seq<Cell>) -> bool
        recommends
            self.body.len() >= 1,
    {
        fruits.contains(self.next_head())
    }

    /// The snake after one move. The new head goes in front of the body; the
    /// last cell is given up unless the new head lies on one of `fruits`.
    pub open spec fn advance(self, fruits: Seq<Cell>) -> SnakeState
        recommends
            self.body.len() >= 1,
    {
        let head = self.next_head();
        let grown = self.body.insert(0, head);
        SnakeState {
            body: if self.will_eat(fruits) {
                grown
            } else {
                grown.drop_last()
            },
            axis: self.axis,
            step: self.step,
            head,
        }
    }

    /// Whether each cell of the body lies next to the one that follows it.
    pub open spec fn contiguous(self) -> bool {
        forall|i: int|
            0 <= i < self.body.len() - 1 ==> (#[trigger] self.body[i]).touches(self.body[i + 1])
    }

    /// The snake after a request to turn. A turn onto the other axis is
    /// taken; one along the axis on which the snake already moves is ignored.
    pub open spec fn turn(self, request: Turn) -> SnakeState {
        if request.axis() == self.axis {
            self
        } else {
            SnakeState {
                body: self.body,
                axis: request.axis(),
                step: request.step(),
                head: self.head,
            }
        }
    }

    /// Whether the head's cell occurs more than once in the body.
    pub open spec fn touches_self(self) -> bool {
        self.body.to_multiset().count(self.head) > 1
    }

    /// Whether some cell of the body lies in column `x` or in row `y`.
    pub open spec fn touched_by(self, x: int, y: int) -> bool {
        exists|i: int| 0 <= i < self.body.len() && #[trigger] self.body[i].on_line_of(x, y)
    }

    /// The collision in which the snake is, if it is in one. A snake that
    /// touches itself outside the playing field counts as `Body`.
    pub open spec fn collision(self) -> Option<Collision> {
        if self.touches_self() {
            Some(Collision::Body)
        } else if !self.head.in_grid() {
            Some(Collision::Boundary)
        } else {
            None
        }
    }
}

/// The snake: its body, head first, the direction in which it moves, and the
/// position of its head.
#[derive(Debug)]
pub struct Snake {
    pub parts: Vec<SnakePart>,
    pub going_horizontally: bool,
    pub speed: i16,
    pub x: i16,
    pub y: i16,
}

impl View for Snake {
    type V = SnakeState;

    open spec fn view(&self) -> SnakeState {
        SnakeState {
            body: cells(self.parts@),
            axis: if self.going_horizontally {
                Axis::Horizontal
            } else {
                Axis::Vertical
            },
            step: self.speed as int,
            head: cell(self.x as int, self.y as int),
        }
    }
}

impl Snake {
    /// Whether `go` can move the snake: it has a head, and the cell in front
    /// of the head has coordinates that an `i16` holds.
    pub open spec fn can_go(&self) -> bool {
        &&& self.parts.len() >= 1
        &&& i16::MIN <= self@.next_head().x <= i16::MAX
        &&& i16::MIN <= self@.next_head().y <= i16::MAX
    }

    /// Whether `go` can move the snake, for callers that cannot know.
    pub fn able_to_go(&self) -> (able: bool)
        ensures
            able == self.can_go(),
    {
        if self.parts.len() == 0 {
            return false;
        }
        let front = self.parts[0];
        let from: i32 = if self.going_horizontally {
            front.x as i32
        } else {
            front.y as i32
        };
        let to: i32 = from + self.speed as i32;
        -32768 <= to && to <= 32767
    }

    /// A snake of one cell at `(x, y)` that moves towards larger `x`.
    pub fn new(x: i16, y: i16) -> (snake: Snake)
        ensures
            snake@ == (SnakeState {
                body: seq![cell(x as int, y as int)],
                axis: Axis::Horizontal,
                step: 1,
                head: cell(x as int, y as int),
            }),
            snake@.well_formed(),
    {
        let mut parts: Vec<SnakePart> = Vec::new();
        parts.push(SnakePart { x, y });
        let snake = Snake { parts, going_horizontally: true, speed: 1, x, y };
        assert(snake@.body =~= seq![cell(x as int, y as int)]);
        snake
    }

    /// Moves the snake by one cell and says whether it ate: whether its new
    /// head lies on one of `fruits`. A snake that ate keeps its last cell and
    /// so grows by one; any other keeps its length.
    pub fn go(&mut self, fruits: &Vec<Fruit>) -> (ate: bool)
        requires
            old(self).can_go(),
        ensures
            final(self)@ == old(self)@.advance(cells(fruits@)),
            ate == old(self)@.will_eat(cells(fruits@)),
            final(self)@.body.len() >= 1,
            final(self)@.head == final(self)@.body[0],
            final(self)@.body.len() == old(self)@.body.len() + if ate { 1int } else { 0int },
            old(self)@.well_formed() ==> final(self)@.well_formed(),
    {
        let front = self.parts[0];
        let head = if self.going_horizontally {
            SnakePart { x: front.x + self.speed, y: front.y }
        } else {
            SnakePart { x: front.x, y: front.y + self.speed }
        };
        self.parts.insert(0, head);
        self.x = head.x;
        self.y = head.y;
        assert(cells(self.parts@) =~= old(self)@.body.insert(0, head@));
        let ate = self.is_eating(fruits);
        if !ate {
            self.parts.pop();
            assert(cells(self.parts@) =~= old(self)@.body.insert(0, head@).drop_last());
        }
        ate
    }

    /// Takes a request to turn: onto the other axis, or else not at all.
    pub fn turn(&mut self, request: Turn)
        ensures
            final(self)@ == old(self)@.turn(request),
            final(self).parts == old(self).parts,
            old(self)@.well_formed() ==> final(self)@.well_formed(),
    {
        match request {
            Turn::Up => {
                if self.going_horizontally {
                    self.speed = -1;
                    self.going_horizontally = false;
                }
            },
            Turn::Down => {
                if self.going_horizontally {
                    self.speed = 1;
                    self.going_horizontally = false;
                }
            },
            Turn::Left => {
                if !self.going_horizontally {
                    self.speed = -1;
                    self.going_horizontally = true;
                }
            },
            Turn::Right => {
                if !self.going_horizontally {
                    self.speed = 1;
                    self.going_horizontally = true;
                }
            },
        }
    }

    /// Whether the head lies on another cell of the body: whether more than
    /// one cell of the body is the head's.
    pub fn touches_self(&self) -> (touching: bool)
        ensures
            touching == self@.touches_self(),
    {
        let ghost body = cells(self.parts@);
        let mut count: usize = 0;
        proof {
            broadcast use vstd::multiset::group_multiset_axioms;

            assert(body.take(0) =~= Seq::<Cell>::empty());
            vstd::seq_lib::to_multiset_len(body.take(0));
        }
        for i in 0..self.parts.len()
            invariant
                body == cells(self.parts@),
                count <= i,
                count == body.take(i as int).to_multiset().count(self@.head),
        {
            proof {
                broadcast use vstd::multiset::group_multiset_axioms;

                assert(body.take(i + 1) =~= body.take(i as int).push(body[i as int]));
                vstd::seq_lib::to_multiset_build(body.take(i as int), body[i as int]);
            }
            if self.x == self.parts[i].x && self.y == self.parts[i].y {
                count += 1;
            }
        }
        assert(body.take(body.len() as int) =~= body);
        count > 1
    }

    /// Whether some part of the snake lies in column `x` or in row `y`. This
    /// is no test for the cell `(x, y)`: one shared coordinate is enough.
    pub fn touched_by(&self, x: i16, y: i16) -> (touched: bool)
        ensures
            touched == self@.touched_by(x as int, y as int),
    {
        for i in 0..self.parts.len()
            invariant
                forall|j: int| 0 <= j < i ==> !#[trigger] self@.body[j].on_line_of(x as int, y as int),
        {
            if self.parts[i].x == x || self.parts[i].y == y {
                assert(self@.body[i as int].on_line_of(x as int, y as int));
                return true;
            }
        }
        false
    }

    /// The collision that ends the game, if the snake is in one.
    pub fn collision(&self) -> (found: Option<Collision>)
        ensures
            found == self@.collision(),
    {
        if self.touches_self() {
            Some(Collision::Body)
        } else if is_out_of_bounds(self.x, self.y) {
            Some(Collision::Boundary)
        } else {
            None
        }
    }

    /// Whether one of `fruits` lies under the snake's head.
    pub fn is_eating(&self, fruits: &Vec<Fruit>) -> (eating: bool)
        ensures
            eating == cells(fruits@).contains(self@.head),
    {
        first_at(fruits, self.x, self.y).is_some()
    }
}

/// A snake that moves horizontally takes a request to go up or down, and then
/// moves vertically, towards smaller `y` for `Up` and larger `y` for `Down`;
/// a request to go left or right leaves it as it is. A snake that moves
/// vertically takes `Left` and `Right` in the same way and ignores `Up` and
/// `Down`. No request changes the body or the head.
pub proof fn lemma_turn_acceptance(s: SnakeState)
    ensures
        s.axis == Axis::Horizontal ==> {
            &&& s.turn(Turn::Up).axis == Axis::Vertical && s.turn(Turn::Up).step == -1
            &&& s.turn(Turn::Down).axis == Axis::Vertical && s.turn(Turn::Down).step == 1
            &&& s.turn(Turn::Left) == s
            &&& s.turn(Turn::Right) == s
        },
        s.axis == Axis::Vertical ==> {
            &&& s.turn(Turn::Left).axis == Axis::Horizontal && s.turn(Turn::Left).step == -1
            &&& s.turn(Turn::Right).axis == Axis::Horizontal && s.turn(Turn::Right).step == 1
            &&& s.turn(Turn::Up) == s
            &&& s.turn(Turn::Down) == s
        },
        forall|request: Turn|
            (#[trigger] s.turn(request)).body == s.body && s.turn(request).head == s.head,
{
}

/// Of a snake whose recorded head is the first cell of its body,
/// `touches_self` holds if and only if a later cell of the body is the
/// head's. So it never holds of a snake of one cell.
pub proof fn lemma_touches_self(s: SnakeState)
    requires
        s.body.len() >= 1,
        s.head == s.body[0],
    ensures
        s.touches_self() <==> exists|i: int| 1 <= i < s.body.len() && s.body[i] == s.head,
        s.body.len() == 1 ==> !s.touches_self(),
{
    broadcast use vstd::multiset::group_multiset_axioms;

    let tail = s.body.skip(1);
    assert(s.body =~= tail.insert(0, s.head));
    vstd::seq_lib::to_multiset_insert(tail, 0, s.head);
    vstd::seq_lib::to_multiset_contains(tail, s.head);
    if tail.contains(s.head) {
        let k = choose|k: int| 0 <= k < tail.len() && tail[k] == s.head;
        assert(s.body[k + 1] == s.head);
    }
    if exists|i: int| 1 <= i < s.body.len() && s.body[i] == s.head {
        let i = choose|i: int| 1 <= i < s.body.len() && s.body[i] == s.head;
        assert(tail[i - 1] == s.head);
    }
}

/// A move keeps a snake in shape: its body stays non-empty, the recorded
/// head is the first cell of the body afterwards, and the body grows by one
/// cell if the snake eats and keeps its length if not.
pub proof fn lemma_advance_shape(s: SnakeState, fruits: Seq<Cell>)
    requires
        s.body.len() >= 1,
    ensures
        s.advance(fruits).body.len() >= 1,
        s.advance(fruits).head == s.advance(fruits).body[0],
        s.advance(fruits).body.len() == s.body.len() + if s.will_eat(fruits) { 1int } else { 0int },
        s.well_formed() ==> s.advance(fruits).well_formed(),
{
}

/// A move of one cell keeps a contiguous body contiguous.
pub proof fn lemma_advance_contiguous(s: SnakeState, fruits: Seq<Cell>)
    requires
        s.body.len() >= 1,
        s.step == 1 || s.step == -1,
        s.contiguous(),
    ensures
        s.advance(fruits).contiguous(),
{
    let grown = s.body.insert(0, s.next_head());
    let after = s.advance(fruits).body;
    assert forall|i: int| 0 <= i < after.len() - 1 implies (#[trigger] after[i]).touches(
        after[i + 1],
    ) by {
        assert(after[i] == grown[i] && after[i + 1] == grown[i + 1]);
        if i > 0 {
            assert(s.body[i - 1].touches(s.body[i]));
        }
    }
}

/// A well-formed snake whose head lies in the playing field can move.
pub proof fn lemma_can_go(snake: &Snake)
    requires
        snake@.well_formed(),
        snake@.head.in_grid(),
    ensures
        snake.can_go(),
{
    assert(snake@.body[0] == snake.parts[0]@);
}

} // verus!
