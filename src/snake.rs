use std::collections::VecDeque;
use vstd::prelude::*;

use crate::point::{
    board_ok, opposite, cell_of, in_bounds, index_of, lemma_cell_numbering, random_below, step_spec,
    Direction, GamePoint,
};

verus! {

/// A snake on a board of `size` by `size` cells: the head is the first segment.
pub open spec fn body_ok(body: Seq<GamePoint>, size: int) -> bool {
    &&& body.len() > 0
    &&& forall|i: int| 0 <= i < body.len() ==> in_bounds(#[trigger] body[i], size)
    &&& forall|i: int, j: int| 0 <= i < j < body.len() ==> #[trigger] body[i] != #[trigger] body[j]
}

/// One tick of a snake with segments `body` heading `d`, with food at `food`.
/// `None` where the head would leave the board or run into a segment of the
/// body as it was before the move; otherwise the new body and whether the
/// food was eaten (the snake then keeps its tail and grows by one).
pub open spec fn tick_outcome(body: Seq<GamePoint>, d: Direction, food: GamePoint, size: int) -> Option<
    (Seq<GamePoint>, bool),
> {
    match step_spec(body[0], d, size) {
        None => None,
        Some(h) => if body.contains(h) {
            None
        } else if h == food {
            Some((seq![h] + body, true))
        } else {
            Some((seq![h] + body.drop_last(), false))
        },
    }
}

/// Whether cell number `i` is taken by the body.
pub open spec fn occupied(body: Seq<GamePoint>, size: int, i: int) -> bool {
    body.contains(cell_of(i, size))
}

/// Whether every cell is taken by the body.
pub open spec fn board_full(body: Seq<GamePoint>, size: int) -> bool {
    forall|p: GamePoint| in_bounds(p, size) ==> #[trigger] body.contains(p)
}

/// Whether all the cells met before cell number `i` are taken, when the cells
/// are visited row by row from number `start` on, wrapping round to 0 after the last.
pub open spec fn passed_over(body: Seq<GamePoint>, size: int, start: int, i: int) -> bool {
    if start <= i {
        forall|j: int| start <= j < i ==> #[trigger] occupied(body, size, j)
    } else {
        &&& forall|j: int| start <= j < size * size ==> #[trigger] occupied(body, size, j)
        &&& forall|j: int| 0 <= j < i ==> #[trigger] occupied(body, size, j)
    }
}

/// Where food stands after it was eaten by a snake whose body is now `body`:
/// on a free cell of the board, or where it was if the body covers the board.
pub open spec fn relocated(body: Seq<GamePoint>, size: int, before: GamePoint, after: GamePoint) -> bool {
    ||| in_bounds(after, size) && !body.contains(after)
    ||| board_full(body, size) && after == before
}

/// The heading after asking for `d`: a request to turn straight back is ignored.
pub open spec fn steer_spec(current: Direction, d: Direction) -> Direction {
    if d == opposite(current) {
        current
    } else {
        d
    }
}

/// A tick that does not end the game leaves a well-formed snake.
pub proof fn lemma_tick_keeps_body_ok(body: Seq<GamePoint>, d: Direction, food: GamePoint, size: int)
    requires
        body_ok(body, size),
    ensures
        tick_outcome(body, d, food, size) matches Some((b, _)) ==> body_ok(b, size),
{
    if let Some(h) = step_spec(body[0], d, size) {
        if !body.contains(h) {
            let grown = seq![h] + body;
            assert(in_bounds(body[0], size));
            assert forall|i: int, j: int| 0 <= i < j < grown.len() implies #[trigger] grown[i]
                != #[trigger] grown[j] by {
                if i == 0 {
                    assert(body.contains(grown[j]));
                } else {
                    assert(grown[i] == body[i - 1]);
                    assert(grown[j] == body[j - 1]);
                }
            }
            assert forall|i: int| 0 <= i < grown.len() implies in_bounds(#[trigger] grown[i], size) by {
                if i > 0 {
                    assert(grown[i] == body[i - 1]);
                }
            }
            let moved = seq![h] + body.drop_last();
            assert(moved =~= grown.drop_last());
            assert forall|i: int, j: int| 0 <= i < j < moved.len() implies #[trigger] moved[i]
                != #[trigger] moved[j] by {
                assert(moved[i] == grown[i] && moved[j] == grown[j]);
            }
            assert forall|i: int| 0 <= i < moved.len() implies in_bounds(#[trigger] moved[i], size) by {
                assert(moved[i] == grown[i]);
            }
        }
    }
}

/// Whatever heading is asked for, turning (or not) and then ticking never
/// puts a segment outside the board.
pub proof fn lemma_steer_then_tick_on_board(
    body: Seq<GamePoint>,
    current: Direction,
    asked: Direction,
    food: GamePoint,
    size: int,
)
    requires
        body_ok(body, size),
    ensures
        tick_outcome(body, steer_spec(current, asked), food, size) matches Some((b, _)) ==> forall|
            i: int,
        |
            0 <= i < b.len() ==> in_bounds(#[trigger] b[i], size),
{
    lemma_tick_keeps_body_ok(body, steer_spec(current, asked), food, size);
}

/// A tick that ends neither on a wall nor on the body keeps the length of the
/// snake, or adds one where the food was eaten.
pub proof fn lemma_tick_length(body: Seq<GamePoint>, d: Direction, food: GamePoint, size: int)
    requires
        body_ok(body, size),
    ensures
        tick_outcome(body, d, food, size) matches Some((b, ate)) ==> b.len() == body.len() + (if ate {
            1int
        } else {
            0int
        }),
{
}

/// Where the head can move on the board, the tick ends the game exactly when
/// the new head cell is a segment of the body as it was before the move.
pub proof fn lemma_self_collision(body: Seq<GamePoint>, d: Direction, food: GamePoint, size: int)
    requires
        body_ok(body, size),
    ensures
        step_spec(body[0], d, size) matches Some(h) ==> (tick_outcome(body, d, food, size) is None
            <==> body.contains(h)),
{
}

/// The single piece of food on the board.
pub struct Food {
    pub position: GamePoint,
}

/// The snake: its segments, head first, and the direction of its head.
pub struct Snake {
    pub body: VecDeque<GamePoint>,
    pub direction: Direction,
}

impl Snake {
    pub open spec fn wf(&self, size: int) -> bool {
        body_ok(self.body@, size)
    }

    /// Whether a segment lies on `p`.
    pub fn occupies(&self, p: &GamePoint) -> (r: bool)
        ensures
            r == self.body@.contains(*p),
    {
        let n = self.body.len();
        let mut i: usize = 0;
        while i < n
            invariant
                n == self.body@.len(),
                i <= n,
                forall|j: int| 0 <= j < i ==> self.body@[j] != *p,
            decreases n - i,
        {
            if self.body[i].matches(p) {
                return true;
            }
            i = i + 1;
        }
        false
    }

    /// The first free cell met when visiting the cells row by row from cell
    /// number `start` on, wrapping round after the last; `None` where the body
    /// covers the board.
    pub fn free_cell_from(&self, size: usize, start: usize) -> (r: Option<GamePoint>)
        requires
            board_ok(size as int),
            start < size * size,
        ensures
            match r {
                Some(p) => exists|i: int|
                    0 <= i < size * size && p == cell_of(i, size as int) && !self.body@.contains(p)
                        && passed_over(self.body@, size as int, start as int, i),
                None => board_full(self.body@, size as int),
            },
            r matches Some(p) ==> in_bounds(p, size as int),
    {
        let n: usize = size * size;
        let mut i: usize = start;
        while i < n
            invariant
                n == size * size,
                board_ok(size as int),
                start <= i <= n,
                forall|j: int| start <= j < i ==> #[trigger] occupied(self.body@, size as int, j),
            decreases n - i,
        {
            let p = GamePoint { x: i % size, y: i / size };
            proof {
                lemma_cell_numbering(size as int);
            }
            assert(p == cell_of(i as int, size as int));
            assert(in_bounds(cell_of(i as int, size as int), size as int));
            if !self.occupies(&p) {
                return Some(p);
            }
            i = i + 1;
        }
        let mut i: usize = 0;
        while i < start
            invariant
                n == size * size,
                board_ok(size as int),
                start < n,
                i <= start,
                forall|j: int| start <= j < n ==> #[trigger] occupied(self.body@, size as int, j),
                forall|j: int| 0 <= j < i ==> #[trigger] occupied(self.body@, size as int, j),
            decreases start - i,
        {
            let p = GamePoint { x: i % size, y: i / size };
            proof {
                lemma_cell_numbering(size as int);
            }
            assert(p == cell_of(i as int, size as int));
            assert(in_bounds(cell_of(i as int, size as int), size as int));
            if !self.occupies(&p) {
                return Some(p);
            }
            i = i + 1;
        }
        proof {
            lemma_cell_numbering(size as int);
        }
        assert forall|p: GamePoint| in_bounds(p, size as int) implies #[trigger] self.body@.contains(
            p,
        ) by {
            assert(occupied(self.body@, size as int, index_of(p, size as int)));
        }
        None
    }
}

impl Food {
    /// Food on a cell drawn at random.
    pub fn new(size: usize) -> (r: Food)
        requires
            size > 0,
        ensures
            in_bounds(r.position, size as int),
    {
        Food { position: GamePoint::random(size) }
    }

    /// Moves the food to a free cell: the search for one starts at a cell
    /// drawn at random. The food never lands on the snake; it stays where it
    /// was only if the snake covers the whole board.
    pub fn mov(&mut self, snake: &Snake, size: usize)
        requires
            board_ok(size as int),
        ensures
            relocated(snake.body@, size as int, old(self).position, final(self).position),
    {
        assert(size * size > 0) by (nonlinear_arith)
            requires
                size > 0,
        ;
        let start = random_below(size * size);
        if let Some(p) = snake.free_cell_from(size, start) {
            self.position = p;
        }
    }
}

impl Snake {
    /// A snake of one segment on a cell drawn at random, heading up.
    pub fn new(size: usize) -> (r: Snake)
        requires
            size > 0,
        ensures
            r.wf(size as int),
            r.body@.len() == 1,
            r.direction == Direction::Up,
    {
        let mut body = VecDeque::new();
        body.push_back(GamePoint::random(size));
        Snake { body, direction: Direction::Up }
    }

    /// The first segment.
    pub fn get_head(&self) -> (r: &GamePoint)
        requires
            self.body@.len() > 0,
        ensures
            *r == self.body@[0],
    {
        &self.body[0]
    }

    /// The length of the snake, which is the player's score.
    pub fn score(&self) -> (r: usize)
        ensures
            r == self.body@.len(),
    {
        self.body.len()
    }

    /// Whether the head lies on the food.
    pub fn is_on_food(&self, food: &Food) -> (r: bool)
        requires
            self.body@.len() > 0,
        ensures
            r == (self.body@[0] == food.position),
    {
        self.get_head().matches(&food.position)
    }

    /// Asks for heading `d`; a request to turn straight back is ignored.
    /// Returns whether the heading is now `d`.
    pub fn steer(&mut self, d: Direction) -> (r: bool)
        ensures
            final(self).direction == steer_spec(old(self).direction, d),
            final(self).body@ == old(self).body@,
            r == (d != opposite(old(self).direction)),
    {
        if d == self.direction.opposite() {
            false
        } else {
            self.direction = d;
            true
        }
    }

    /// Moves the snake one cell in its heading. Returns `None` when the head
    /// would leave the board or run into the body, and the snake and the food
    /// are left as they were; otherwise whether the food was eaten. Eating
    /// keeps the tail, so the snake grows by one, and moves the food to a free
    /// cell; otherwise the tail is dropped and the food stays.
    pub fn mov(&mut self, food: &mut Food, size: usize) -> (r: Option<bool>)
        requires
            old(self).wf(size as int),
            board_ok(size as int),
        ensures
            final(self).wf(size as int),
            final(self).direction == old(self).direction,
            match tick_outcome(old(self).body@, old(self).direction, old(food).position, size as int) {
                None => {
                    &&& r is None
                    &&& final(self).body@ == old(self).body@
                    &&& final(food).position == old(food).position
                },
                Some((body, ate)) => {
                    &&& r == Some(ate)
                    &&& final(self).body@ == body
                    &&& ate ==> relocated(body, size as int, old(food).position, final(food).position)
                    &&& !ate ==> final(food).position == old(food).position
                },
            },
    {
        let ghost before = self.body@;
        proof {
            lemma_tick_keeps_body_ok(before, self.direction, food.position, size as int);
        }
        let head = *self.get_head();
        let h = match head.step(self.direction, size) {
            None => {
                return None;
            },
            Some(h) => h,
        };
        if self.occupies(&h) {
            return None;
        }
        self.body.push_front(h);
        assert(self.body@ == seq![h] + before);
        let eaten = self.is_on_food(food);
        if eaten {
            food.mov(self, size);
        } else {
            self.body.pop_back();
            assert(self.body@ =~= seq![h] + before.drop_last());
        }
        Some(eaten)
    }
}

} // verus!
