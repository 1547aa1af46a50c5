use std::collections::VecDeque;

use snake::{Direction, Food, GamePoint, GameState, Keys, Snake, GAME_SIZE, INITIAL_PERIOD_NS};

fn pt(x: usize, y: usize) -> GamePoint {
    GamePoint { x, y }
}

fn snake_of(cells: &[(usize, usize)], direction: Direction) -> Snake {
    Snake {
        body: cells.iter().map(|&(x, y)| pt(x, y)).collect::<VecDeque<GamePoint>>(),
        direction,
    }
}

fn state_of(snake: Snake, food: GamePoint) -> GameState {
    GameState { snake, food: Food { position: food }, period_ns: INITIAL_PERIOD_NS, finished: false }
}

fn no_keys() -> Keys {
    Keys { down: false, up: false, left: false, right: false }
}

#[test]
fn single_segment_runs_up_into_the_wall() {
    let mut game = state_of(snake_of(&[(10, 10)], Direction::Up), pt(19, 19));
    for _ in 0..9 {
        assert_eq!(game.tick(GAME_SIZE), Some(false));
    }
    assert_eq!(*game.snake.get_head(), pt(10, 1));
    assert_eq!(game.score(), 1);
    assert_eq!(game.tick(GAME_SIZE), Some(false));
    assert_eq!(*game.snake.get_head(), pt(10, 0));
    assert!(!game.finished);
    assert_eq!(game.tick(GAME_SIZE), None);
    assert!(game.finished);
    assert_eq!(*game.snake.get_head(), pt(10, 0));
    assert_eq!(game.score(), 1);
}

#[test]
fn reversal_is_ignored_and_tail_follows() {
    let mut s = snake_of(&[(5, 5), (5, 6), (5, 7), (5, 8), (5, 9)], Direction::Up);
    let mut food = Food { position: pt(0, 0) };
    assert!(!s.steer(Direction::Down));
    assert_eq!(s.direction, Direction::Up);
    assert_eq!(s.mov(&mut food, GAME_SIZE), Some(false));
    let cells: Vec<GamePoint> = s.body.iter().copied().collect();
    assert_eq!(cells, vec![pt(5, 4), pt(5, 5), pt(5, 6), pt(5, 7), pt(5, 8)]);
    assert_eq!(food.position, pt(0, 0));
}

#[test]
fn eating_grows_relocates_and_speeds_up() {
    let mut game = state_of(snake_of(&[(10, 10)], Direction::Up), pt(10, 9));
    assert_eq!(game.tick(GAME_SIZE), Some(true));
    assert_eq!(game.score(), 2);
    assert_ne!(game.food.position, pt(10, 9));
    assert!(game.food.position.x < GAME_SIZE && game.food.position.y < GAME_SIZE);
    assert!(!game.snake.body.contains(&game.food.position));
    assert_eq!(game.period_ns, 285_000_000);
    assert_eq!(game.period_ns as f64, INITIAL_PERIOD_NS as f64 * 0.95);
}

#[test]
fn plain_move_keeps_period_and_food() {
    let mut game = state_of(snake_of(&[(3, 3), (3, 4)], Direction::Right), pt(7, 7));
    assert_eq!(game.tick(GAME_SIZE), Some(false));
    assert_eq!(game.period_ns, INITIAL_PERIOD_NS);
    assert_eq!(game.food.position, pt(7, 7));
    assert_eq!(game.score(), 2);
    assert_eq!(*game.snake.get_head(), pt(4, 3));
}

#[test]
fn period_shrinks_each_time_food_is_eaten() {
    let mut game = state_of(snake_of(&[(10, 10)], Direction::Up), pt(10, 9));
    assert_eq!(game.tick(GAME_SIZE), Some(true));
    game.food.position = pt(10, 8);
    assert_eq!(game.tick(GAME_SIZE), Some(true));
    assert_eq!(game.period_ns, 270_750_000);
    assert_eq!(game.score(), 3);
}

#[test]
fn walls_on_every_side() {
    let size = 4;
    let mut food = Food { position: pt(2, 2) };
    let mut s = snake_of(&[(0, 1)], Direction::Left);
    assert_eq!(s.mov(&mut food, size), None);
    let mut s = snake_of(&[(3, 1)], Direction::Right);
    assert_eq!(s.mov(&mut food, size), None);
    let mut s = snake_of(&[(1, 3)], Direction::Down);
    assert_eq!(s.mov(&mut food, size), None);
    let mut s = snake_of(&[(1, 0)], Direction::Up);
    assert_eq!(s.mov(&mut food, size), None);
    assert_eq!(s.body.len(), 1);
    assert_eq!(food.position, pt(2, 2));
}

#[test]
fn steering_then_ticking_stays_on_board() {
    let size = 3;
    for &(x, y) in &[(0, 0), (2, 2), (0, 2), (2, 0), (1, 1)] {
        for asked in [Direction::Up, Direction::Down, Direction::Left, Direction::Right] {
            let mut s = snake_of(&[(x, y)], Direction::Up);
            let mut food = Food { position: pt(1, 1) };
            s.steer(asked);
            if s.mov(&mut food, size).is_some() {
                for p in s.body.iter() {
                    assert!(p.x < size && p.y < size);
                }
            }
        }
    }
}

#[test]
fn running_into_the_body_ends_the_game() {
    let mut s = snake_of(&[(5, 5), (6, 5), (6, 6), (5, 6), (4, 6)], Direction::Down);
    let mut food = Food { position: pt(0, 0) };
    assert_eq!(s.mov(&mut food, GAME_SIZE), None);
    assert_eq!(s.body.len(), 5);
}

#[test]
fn the_tail_cell_counts_as_body() {
    let mut s = snake_of(&[(5, 5), (6, 5), (6, 6), (5, 6)], Direction::Down);
    let mut food = Food { position: pt(0, 0) };
    assert_eq!(s.mov(&mut food, GAME_SIZE), None);
    let cells: Vec<GamePoint> = s.body.iter().copied().collect();
    assert_eq!(cells, vec![pt(5, 5), pt(6, 5), pt(6, 6), pt(5, 6)]);
}

#[test]
fn moving_beside_the_body_is_fine() {
    let mut s = snake_of(&[(5, 5), (6, 5), (6, 6), (5, 6)], Direction::Left);
    let mut food = Food { position: pt(0, 0) };
    assert_eq!(s.mov(&mut food, GAME_SIZE), Some(false));
    assert_eq!(*s.get_head(), pt(4, 5));
    assert_eq!(s.score(), 4);
}

#[test]
fn keys_follow_precedence_and_skip_reversal() {
    let all = Keys { down: true, up: true, left: true, right: true };
    let mut s = snake_of(&[(5, 5)], Direction::Up);
    assert!(s.steer_by_keys(&all));
    assert_eq!(s.direction, Direction::Up);
    let mut s = snake_of(&[(5, 5)], Direction::Right);
    assert!(s.steer_by_keys(&all));
    assert_eq!(s.direction, Direction::Down);
    let mut s = snake_of(&[(5, 5)], Direction::Up);
    assert!(s.steer_by_keys(&Keys { down: true, up: false, left: true, right: true }));
    assert_eq!(s.direction, Direction::Left);
    let mut s = snake_of(&[(5, 5)], Direction::Left);
    assert!(!s.steer_by_keys(&Keys { down: false, up: false, left: false, right: true }));
    assert_eq!(s.direction, Direction::Left);
    assert!(!s.steer_by_keys(&no_keys()));
    assert_eq!(s.direction, Direction::Left);
}

#[test]
fn opposite_heading_is_a_no_op() {
    for d in [Direction::Up, Direction::Down, Direction::Left, Direction::Right] {
        let mut s = snake_of(&[(5, 5)], d);
        assert!(!s.steer(d.opposite()));
        assert_eq!(s.direction, d);
    }
    assert_eq!(Direction::Left.opposite(), Direction::Right);
    assert_eq!(Direction::Down.opposite(), Direction::Up);
}

#[test]
fn frame_ticks_then_reads_keys() {
    let mut game = state_of(snake_of(&[(10, 10)], Direction::Up), pt(0, 0));
    let left = Keys { down: false, up: false, left: true, right: false };
    game.frame(true, &left, GAME_SIZE);
    assert_eq!(*game.snake.get_head(), pt(10, 9));
    assert_eq!(game.snake.direction, Direction::Left);
    game.frame(false, &no_keys(), GAME_SIZE);
    assert_eq!(*game.snake.get_head(), pt(10, 9));
    game.frame(true, &no_keys(), GAME_SIZE);
    assert_eq!(*game.snake.get_head(), pt(9, 9));
}

#[test]
fn collision_frame_skips_input_and_freezes_game() {
    let mut game = state_of(snake_of(&[(10, 0)], Direction::Up), pt(0, 5));
    let left = Keys { down: false, up: false, left: true, right: false };
    game.frame(true, &left, GAME_SIZE);
    assert!(game.finished);
    assert_eq!(game.snake.direction, Direction::Up);
    game.frame(true, &left, GAME_SIZE);
    assert!(game.finished);
    assert_eq!(*game.snake.get_head(), pt(10, 0));
    assert_eq!(game.snake.direction, Direction::Up);
    assert_eq!(game.score(), 1);
}

#[test]
fn free_cell_search_starts_at_given_cell_and_wraps() {
    let s = snake_of(&[(0, 0)], Direction::Up);
    assert_eq!(s.free_cell_from(2, 0), Some(pt(1, 0)));
    assert_eq!(s.free_cell_from(2, 3), Some(pt(1, 1)));
    let s = snake_of(&[(1, 1), (0, 1)], Direction::Up);
    assert_eq!(s.free_cell_from(2, 2), Some(pt(0, 0)));
    assert_eq!(s.free_cell_from(2, 3), Some(pt(0, 0)));
    let full = snake_of(&[(0, 0), (1, 0), (1, 1), (0, 1)], Direction::Up);
    assert_eq!(full.free_cell_from(2, 1), None);
}

#[test]
fn relocated_food_avoids_the_snake() {
    let s = snake_of(&[(0, 0), (1, 0), (1, 1)], Direction::Up);
    for _ in 0..20 {
        let mut food = Food { position: pt(0, 0) };
        food.mov(&s, 2);
        assert_eq!(food.position, pt(0, 1));
    }
    let full = snake_of(&[(0, 0), (1, 0), (1, 1), (0, 1)], Direction::Up);
    let mut food = Food { position: pt(1, 1) };
    food.mov(&full, 2);
    assert_eq!(food.position, pt(1, 1));
}

#[test]
fn random_cells_are_on_the_board() {
    for _ in 0..200 {
        let p = GamePoint::random(3);
        assert!(p.x < 3 && p.y < 3);
    }
    let game = GameState::new(GAME_SIZE);
    assert_eq!(game.score(), 1);
    assert_eq!(game.snake.direction, Direction::Up);
    assert_eq!(game.period_ns, INITIAL_PERIOD_NS);
    assert!(!game.finished);
    let head = *game.snake.get_head();
    assert!(head.x < GAME_SIZE && head.y < GAME_SIZE);
    assert!(game.food.position.x < GAME_SIZE && game.food.position.y < GAME_SIZE);
}

#[test]
fn random_draws_vary() {
    let first = GamePoint::random(1000);
    let mut differs = false;
    for _ in 0..50 {
        if GamePoint::random(1000) != first {
            differs = true;
        }
    }
    assert!(differs);
}

#[test]
fn pixels_and_points() {
    assert_eq!(pt(3, 4).to_pixel(), (60, 80));
    assert_eq!(pt(0, 0).to_pixel(), (0, 0));
    assert!(pt(2, 3).matches(&pt(2, 3)));
    assert!(!pt(2, 3).matches(&pt(3, 2)));
    assert_eq!(pt(0, 0).step(Direction::Up, 5), None);
    assert_eq!(pt(0, 0).step(Direction::Down, 5), Some(pt(0, 1)));
    assert_eq!(pt(4, 4).step(Direction::Right, 5), None);
    assert_eq!(pt(4, 4).step(Direction::Left, 5), Some(pt(3, 4)));
}

#[test]
fn head_on_food() {
    let s = snake_of(&[(2, 2), (2, 3)], Direction::Up);
    assert!(s.is_on_food(&Food { position: pt(2, 2) }));
    assert!(!s.is_on_food(&Food { position: pt(2, 3) }));
    let s = Snake::new(5);
    assert_eq!(s.body.len(), 1);
    assert_eq!(s.direction, Direction::Up);
}
