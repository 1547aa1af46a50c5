use vstd::prelude::*;

use crate::point::{board_ok, in_bounds, opposite, Direction, INITIAL_PERIOD_NS};
use crate::snake::{relocated, steer_spec, tick_outcome, Food, Snake};

verus! {

/// The direction keys held during one frame.
#[derive(Clone, Copy, Debug, PartialEq, Eq, Structural)]
pub struct Keys {
    pub down: bool,
    pub up: bool,
    pub left: bool,
    pub right: bool,
}

/// The heading after one frame of input: the first held key, in the order
/// down, up, left, right, that does not point straight back wins.
pub open spec fn heading_from_keys(current: Direction, keys: Keys) -> Direction {
    if keys.down && current != opposite(Direction::Down) {
        Direction::Down
    } else if keys.up && current != opposite(Direction::Up) {
        Direction::Up
    } else if keys.left && current != opposite(Direction::Left) {
        Direction::Left
    } else if keys.right && current != opposite(Direction::Right) {
        Direction::Right
    } else {
        current
    }
}

/// The tick period after food was eaten: 95% of `p`, rounded up to whole nanoseconds.
pub open spec fn shrunk(p: int) -> int {
    p - p / 20
}

/// A request to turn straight back leaves the heading as it is, and no
/// frame of input ever turns the snake straight back.
pub proof fn lemma_no_reversal(current: Direction, keys: Keys)
    ensures
        steer_spec(current, opposite(current)) == current,
        heading_from_keys(current, keys) != opposite(current),
{
}

impl Snake {
    /// Applies one frame of input. Returns whether one of the held keys was
    /// followed.
    pub fn steer_by_keys(&mut self, keys: &Keys) -> (r: bool)
        ensures
            !r ==> final(self).direction == old(self).direction,
            final(self).direction == heading_from_keys(old(self).direction, *keys),
            final(self).body@ == old(self).body@,
    {
        (keys.down && self.steer(Direction::Down)) || (keys.up && self.steer(Direction::Up)) || (
        keys.left && self.steer(Direction::Left)) || (keys.right && self.steer(Direction::Right))
    }
}

/// Everything the game loop keeps between frames, but the clock.
pub struct GameState {
    pub snake: Snake,
    pub food: Food,
    /// Time between two ticks, in nanoseconds.
    pub period_ns: u64,
    /// Set for good once the snake has hit a wall or itself.
    pub finished: bool,
}

impl GameState {
    pub open spec fn wf(&self, size: int) -> bool {
        &&& self.snake.wf(size)
        &&& in_bounds(self.food.position, size)
    }

    /// A new game: a snake of one segment heading up, food, the initial period.
    pub fn new(size: usize) -> (r: GameState)
        requires
            board_ok(size as int),
        ensures
            r.wf(size as int),
            r.snake.body@.len() == 1,
            r.snake.direction == Direction::Up,
            r.period_ns == INITIAL_PERIOD_NS,
            !r.finished,
    {
        GameState {
            snake: Snake::new(size),
            food: Food::new(size),
            period_ns: INITIAL_PERIOD_NS,
            finished: false,
        }
    }

    /// The player's score: the length of the snake.
    pub fn score(&self) -> (r: usize)
        ensures
            r == self.snake.body@.len(),
    {
        self.snake.score()
    }

    /// One tick: moves the snake against the food. A collision ends the game
    /// and changes nothing else; eating shrinks the period; a plain move keeps
    /// the period and the food.
    pub fn tick(&mut self, size: usize) -> (r: Option<bool>)
        requires
            old(self).wf(size as int),
            board_ok(size as int),
        ensures
            final(self).wf(size as int),
            final(self).snake.direction == old(self).snake.direction,
            match tick_outcome(
                old(self).snake.body@,
                old(self).snake.direction,
                old(self).food.position,
                size as int,
            ) {
                None => {
                    &&& r is None
                    &&& final(self).finished
                    &&& final(self).snake.body@ == old(self).snake.body@
                    &&& final(self).food.position == old(self).food.position
                    &&& final(self).period_ns == old(self).period_ns
                },
                Some((body, ate)) => {
                    &&& r == Some(ate)
                    &&& final(self).finished == old(self).finished
                    &&& final(self).snake.body@ == body
                    &&& ate ==> relocated(
                        body,
                        size as int,
                        old(self).food.position,
                        final(self).food.position,
                    )
                    &&& ate ==> final(self).period_ns == shrunk(old(self).period_ns as int)
                    &&& !ate ==> final(self).food.position == old(self).food.position
                    &&& !ate ==> final(self).period_ns == old(self).period_ns
                },
            },
    {
        let r = self.snake.mov(&mut self.food, size);
        match r {
            None => {
                self.finished = true;
            },
            Some(eaten) => {
                if eaten {
                    self.period_ns = self.period_ns - self.period_ns / 20;
                }
            },
        }
        r
    }

    /// One frame of a game: nothing happens once it is finished. Otherwise,
    /// where a tick is due, the snake moves first; a collision ends the game
    /// and the frame's input is not read. Then the keys held steer the snake.
    pub fn frame(&mut self, tick_due: bool, keys: &Keys, size: usize)
        requires
            old(self).wf(size as int),
            board_ok(size as int),
        ensures
            final(self).wf(size as int),
            old(self).finished ==> {
                &&& final(self).finished
                &&& final(self).snake.body@ == old(self).snake.body@
                &&& final(self).snake.direction == old(self).snake.direction
                &&& final(self).food.position == old(self).food.position
                &&& final(self).period_ns == old(self).period_ns
            },
            !old(self).finished && !tick_due ==> {
                &&& !final(self).finished
                &&& final(self).snake.body@ == old(self).snake.body@
                &&& final(self).snake.direction == heading_from_keys(
                    old(self).snake.direction,
                    *keys,
                )
                &&& final(self).food.position == old(self).food.position
                &&& final(self).period_ns == old(self).period_ns
            },
            !old(self).finished && tick_due ==> match tick_outcome(
                old(self).snake.body@,
                old(self).snake.direction,
                old(self).food.position,
                size as int,
            ) {
                None => {
                    &&& final(self).finished
                    &&& final(self).snake.body@ == old(self).snake.body@
                    &&& final(self).snake.direction == old(self).snake.direction
                    &&& final(self).food.position == old(self).food.position
                    &&& final(self).period_ns == old(self).period_ns
                },
                Some((body, ate)) => {
                    &&& !final(self).finished
                    &&& final(self).snake.body@ == body
                    &&& final(self).snake.direction == heading_from_keys(
                        old(self).snake.direction,
                        *keys,
                    )
                    &&& ate ==> relocated(
                        body,
                        size as int,
                        old(self).food.position,
                        final(self).food.position,
                    )
                    &&& ate ==> final(self).period_ns == shrunk(old(self).period_ns as int)
                    &&& !ate ==> final(self).food.position == old(self).food.position
                    &&& !ate ==> final(self).period_ns == old(self).period_ns
                },
            },
    {
        if self.finished {
            return;
        }
        if tick_due {
            if self.tick(size).is_none() {
                return;
            }
        }
        self.snake.steer_by_keys(keys);
    }
}

} // verus!
