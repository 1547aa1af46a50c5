use rand::Rng;
use vstd::prelude::*;

verus! {

/// Edge length of one cell, in pixels.
pub const SQUARE_SIZE: usize = 20;

/// Number of cells along each side of the board.
pub const GAME_SIZE: usize = 20;

/// Height of on-screen text, in pixels.
pub const FONT_SIZE: i32 = 20;

/// Time between two ticks at the start of a game, in nanoseconds (300 ms).
pub const INITIAL_PERIOD_NS: u64 = 300_000_000;

/// A cell of the board: `x` is the column, `y` the row (row 0 is at the top).
#[derive(Clone, Copy, Debug, PartialEq, Eq, Structural)]
pub struct GamePoint {
    pub x: usize,
    pub y: usize,
}

/// The direction in which the snake's head moves.
#[derive(Clone, Copy, Debug, PartialEq, Eq, Structural)]
pub enum Direction {
    Up,
    Down,
    Left,
    Right,
}

/// A board of `size` by `size` cells whose cells can all be numbered by a `usize`.
pub open spec fn board_ok(size: int) -> bool {
    0 < size && size * size <= usize::MAX
}

pub open spec fn in_bounds(p: GamePoint, size: int) -> bool {
    p.x < size && p.y < size
}

pub open spec fn opposite(d: Direction) -> Direction {
    match d {
        Direction::Up => Direction::Down,
        Direction::Down => Direction::Up,
        Direction::Left => Direction::Right,
        Direction::Right => Direction::Left,
    }
}

/// The neighbour of `p` in direction `d`, or `None` where that would leave the board.
pub open spec fn step_spec(p: GamePoint, d: Direction, size: int) -> Option<GamePoint> {
    match d {
        Direction::Up => if p.y == 0 {
            None
        } else {
            Some(GamePoint { x: p.x, y: (p.y - 1) as usize })
        },
        Direction::Down => if p.y + 1 >= size {
            None
        } else {
            Some(GamePoint { x: p.x, y: (p.y + 1) as usize })
        },
        Direction::Left => if p.x == 0 {
            None
        } else {
            Some(GamePoint { x: (p.x - 1) as usize, y: p.y })
        },
        Direction::Right => if p.x + 1 >= size {
            None
        } else {
            Some(GamePoint { x: (p.x + 1) as usize, y: p.y })
        },
    }
}

/// The cell with number `i` when cells are numbered row by row.
pub open spec fn cell_of(i: int, size: int) -> GamePoint {
    GamePoint { x: (i % size) as usize, y: (i / size) as usize }
}

/// The number of cell `p`, row by row.
pub open spec fn index_of(p: GamePoint, size: int) -> int {
    p.y * size + p.x
}

/// Numbering the cells row by row is a bijection between `[0, size * size)`
/// and the cells of the board.
pub proof fn lemma_cell_numbering(size: int)
    requires
        board_ok(size),
    ensures
        forall|i: int|
            0 <= i < size * size ==> #[trigger] in_bounds(cell_of(i, size), size) && index_of(
                cell_of(i, size),
                size,
            ) == i,
        forall|p: GamePoint|
            #[trigger] in_bounds(p, size) ==> 0 <= index_of(p, size) < size * size && cell_of(
                index_of(p, size),
                size,
            ) == p,
{
    assert forall|i: int| 0 <= i < size * size implies #[trigger] in_bounds(cell_of(i, size), size)
        && index_of(cell_of(i, size), size) == i by {
        assert(size <= size * size) by (nonlinear_arith)
            requires
                0 < size,
        ;
        vstd::arithmetic::div_mod::lemma_mod_pos_bound(i, size);
        vstd::arithmetic::div_mod::lemma_multiply_divide_lt(i, size, size);
        vstd::arithmetic::div_mod::lemma_div_pos_is_pos(i, size);
        vstd::arithmetic::div_mod::lemma_fundamental_div_mod(i, size);
        assert(size * (i / size) == (i / size) * size) by (nonlinear_arith);
    }
    assert forall|p: GamePoint| #[trigger] in_bounds(p, size) implies 0 <= index_of(p, size) < size
        * size && cell_of(index_of(p, size), size) == p by {
        let i = index_of(p, size);
        assert(size <= size * size) by (nonlinear_arith)
            requires
                0 < size,
        ;
        assert(0 <= p.y * size) by (nonlinear_arith)
            requires
                0 <= p.y,
                0 < size,
        ;
        assert(p.y * size + p.x < size * size) by (nonlinear_arith)
            requires
                p.y < size,
                p.x < size,
                0 <= p.x,
        ;
        vstd::arithmetic::div_mod::lemma_fundamental_div_mod_converse(i, size, p.y as int, p.x as int);
    }
}

/// Relies on rand's `thread_rng().gen_range(0..n)`: a number in `[0, n)`.
/// The range must not be empty, where `gen_range` panics.
#[verifier::external_body]
pub(crate) fn random_below(n: usize) -> (r: usize)
    requires
        n > 0,
    ensures
        r < n,
{
    rand::thread_rng().gen_range(0..n)
}

impl Direction {
    /// The direction that points the other way.
    pub fn opposite(&self) -> (r: Direction)
        ensures
            r == opposite(*self),
    {
        match self {
            Direction::Up => Direction::Down,
            Direction::Down => Direction::Up,
            Direction::Left => Direction::Right,
            Direction::Right => Direction::Left,
        }
    }
}

impl GamePoint {
    /// A cell drawn at random, each coordinate independently in `[0, size)`.
    pub fn random(size: usize) -> (r: GamePoint)
        requires
            size > 0,
        ensures
            in_bounds(r, size as int),
    {
        let x = random_below(size);
        let y = random_below(size);
        GamePoint { x, y }
    }

    /// The top-left corner of the cell on the drawing surface, in pixels.
    pub fn to_pixel(&self) -> (r: (i32, i32))
        requires
            self.x * SQUARE_SIZE <= i32::MAX,
            self.y * SQUARE_SIZE <= i32::MAX,
        ensures
            r.0 == self.x * SQUARE_SIZE,
            r.1 == self.y * SQUARE_SIZE,
    {
        ((self.x * SQUARE_SIZE) as i32, (self.y * SQUARE_SIZE) as i32)
    }

    /// Whether both coordinates agree.
    pub fn matches(&self, other: &GamePoint) -> (r: bool)
        ensures
            r == (*self == *other),
    {
        self.x == other.x && self.y == other.y
    }

    /// The neighbouring cell in direction `d`, or `None` where it would lie
    /// outside a board of `size` by `size` cells.
    pub fn step(&self, d: Direction, size: usize) -> (r: Option<GamePoint>)
        ensures
            r == step_spec(*self, d, size as int),
    {
        match d {
            Direction::Up => if self.y == 0 {
                None
            } else {
                Some(GamePoint { x: self.x, y: self.y - 1 })
            },
            Direction::Down => if size == 0 || self.y >= size - 1 {
                None
            } else {
                Some(GamePoint { x: self.x, y: self.y + 1 })
            },
            Direction::Left => if self.x == 0 {
                None
            } else {
                Some(GamePoint { x: self.x - 1, y: self.y })
            },
            Direction::Right => if size == 0 || self.x >= size - 1 {
                None
            } else {
                Some(GamePoint { x: self.x + 1, y: self.y })
            },
        }
    }
}

} // verus!
