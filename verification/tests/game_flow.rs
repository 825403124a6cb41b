use snake_game::game::Game;
use snake_game::snake::Block;
use snake_game::snake::Direction;
use snake_game::snake::Snake;

fn b(x: i32, y: i32) -> Block {
    Block { x, y }
}

fn assert_fresh(g: &Game, width: i32, height: i32) {
    assert_eq!(g.snake.body, vec![b(4, 2), b(3, 2), b(2, 2)]);
    assert_eq!(g.snake.head_direction(), Direction::Right);
    assert!(g.food_exists);
    assert_eq!((g.food_x, g.food_y), (3, 4));
    assert_eq!((g.width, g.height), (width, height));
    assert!(!g.game_over);
    assert_eq!(g.waiting_time, 0);
}

#[test]
fn new_game_is_fresh() {
    let g = Game::new(10, 10);
    assert_fresh(&g, 10, 10);
}

#[test]
fn one_timed_step_slides_the_body() {
    let mut g = Game::new(10, 10);
    g.update(101);
    assert_eq!(g.snake.body, vec![b(5, 2), b(4, 2), b(3, 2)]);
    assert!(!g.game_over);
    assert_eq!(g.waiting_time, 0);
    assert!(g.food_exists);
    assert_eq!((g.food_x, g.food_y), (3, 4));
}

#[test]
fn small_deltas_accumulate_until_the_period_passes() {
    let mut g = Game::new(10, 10);
    g.update(50);
    assert_eq!(g.waiting_time, 50);
    assert_eq!(g.snake.body, vec![b(4, 2), b(3, 2), b(2, 2)]);
    g.update(49);
    assert_eq!(g.waiting_time, 99);
    assert_eq!(g.snake.body, vec![b(4, 2), b(3, 2), b(2, 2)]);
    g.update(2);
    assert_eq!(g.waiting_time, 0);
    assert_eq!(g.snake.body, vec![b(5, 2), b(4, 2), b(3, 2)]);
}

#[test]
fn reversal_key_never_changes_the_heading() {
    let mut g = Game::new(10, 10);
    g.key_pressed(Some(Direction::Left));
    assert_eq!(g.snake.head_direction(), Direction::Right);
    assert_eq!(g.snake.body, vec![b(4, 2), b(3, 2), b(2, 2)]);
    assert_eq!(g.waiting_time, 0);
}

#[test]
fn unrecognized_key_is_a_no_op() {
    let mut g = Game::new(10, 10);
    g.key_pressed(None);
    assert_fresh(&g, 10, 10);
}

#[test]
fn keys_are_ignored_after_game_over() {
    let mut g = Game::new(10, 10);
    g.game_over = true;
    g.key_pressed(Some(Direction::Down));
    assert_eq!(g.snake.body, vec![b(4, 2), b(3, 2), b(2, 2)]);
    assert_eq!(g.snake.head_direction(), Direction::Right);
    assert!(g.game_over);
}

#[test]
fn accepted_key_steps_immediately() {
    let mut g = Game::new(10, 10);
    g.key_pressed(Some(Direction::Down));
    assert_eq!(g.snake.head_direction(), Direction::Down);
    assert_eq!(g.snake.body, vec![b(4, 3), b(4, 2), b(3, 2)]);
    assert_eq!(g.waiting_time, 0);
}

#[test]
fn key_in_the_current_direction_steps_too() {
    let mut g = Game::new(10, 10);
    g.key_pressed(Some(Direction::Right));
    assert_eq!(g.snake.head_direction(), Direction::Right);
    assert_eq!(g.snake.body, vec![b(5, 2), b(4, 2), b(3, 2)]);
}

#[test]
fn stepping_into_the_wall_ends_the_game() {
    let mut g = Game::new(10, 10);
    g.key_pressed(Some(Direction::Up));
    assert_eq!(g.snake.body, vec![b(4, 1), b(4, 2), b(3, 2)]);
    assert!(!g.game_over);
    // the next cell up is (4, 0), on the border wall
    g.key_pressed(Some(Direction::Up));
    assert!(g.game_over);
    assert_eq!(g.snake.body, vec![b(4, 1), b(4, 2), b(3, 2)]);
}

#[test]
fn stepping_into_the_body_ends_the_game() {
    // a hook-shaped snake whose head is about to bite a non-tail segment
    let mut g = Game {
        snake: Snake {
            direction: Direction::Right,
            body: vec![b(2, 2), b(2, 3), b(3, 3), b(3, 2), b(4, 2)],
            tail: None,
        },
        food_exists: true,
        food_x: 8,
        food_y: 8,
        width: 10,
        height: 10,
        game_over: false,
        waiting_time: 0,
    };
    g.update(101);
    assert!(g.game_over);
    assert_eq!(g.snake.body, vec![b(2, 2), b(2, 3), b(3, 3), b(3, 2), b(4, 2)]);
}

#[test]
fn stepping_into_the_vacating_tail_cell_is_allowed() {
    let mut g = Game {
        snake: Snake {
            direction: Direction::Down,
            body: vec![b(2, 2), b(3, 2), b(3, 3), b(2, 3)],
            tail: None,
        },
        food_exists: true,
        food_x: 8,
        food_y: 8,
        width: 10,
        height: 10,
        game_over: false,
        waiting_time: 0,
    };
    // next head (2, 3) is exactly the tail cell, which vacates this step
    g.update(101);
    assert!(!g.game_over);
    assert_eq!(g.snake.body, vec![b(2, 3), b(2, 2), b(3, 2), b(3, 3)]);
}

#[test]
fn eating_grows_by_one_and_empties_the_food_slot() {
    let mut g = Game::new(10, 10);
    g.key_pressed(Some(Direction::Down)); // head (4, 3)
    g.key_pressed(Some(Direction::Down)); // head (4, 4)
    assert_eq!(g.snake.body.len(), 3);
    g.key_pressed(Some(Direction::Left)); // head (3, 4): the food cell
    assert_eq!(g.snake.body.len(), 4);
    assert!(!g.food_exists);
    assert_eq!(g.snake.body, vec![b(3, 4), b(4, 4), b(4, 3), b(4, 2)]);
}

#[test]
fn food_is_replaced_on_the_next_update_after_eating() {
    let mut g = Game::new(10, 10);
    g.key_pressed(Some(Direction::Down));
    g.key_pressed(Some(Direction::Down));
    g.key_pressed(Some(Direction::Left));
    assert!(!g.food_exists);
    g.update(0);
    assert!(g.food_exists);
    assert!(g.food_x >= 1 && g.food_x <= 8);
    assert!(g.food_y >= 1 && g.food_y <= 8);
}

#[test]
fn food_never_lands_on_the_body_except_the_tail() {
    for _ in 0..1000 {
        let mut g = Game::new(10, 10);
        g.food_exists = false;
        g.update(0);
        assert!(g.food_exists);
        let food = b(g.food_x, g.food_y);
        assert!(g.food_x >= 1 && g.food_x <= 8);
        assert!(g.food_y >= 1 && g.food_y <= 8);
        // every body cell but the vacating tail is rejected
        let n = g.snake.body.len();
        assert!(!g.snake.body[..n - 1].contains(&food));
    }
}

#[test]
fn food_stays_empty_when_no_interior_cell_is_free() {
    // 3 x 3 grid: the single interior cell (1, 1) is under the head
    let mut g = Game {
        snake: Snake {
            direction: Direction::Right,
            body: vec![b(1, 1), b(2, 1), b(3, 1)],
            tail: None,
        },
        food_exists: false,
        food_x: 1,
        food_y: 1,
        width: 3,
        height: 3,
        game_over: false,
        waiting_time: 0,
    };
    g.update(0);
    assert!(!g.food_exists);
}

#[test]
fn restart_after_the_delay_resets_everything_but_the_bounds() {
    let mut g = Game::new(10, 10);
    g.game_over = true;
    g.waiting_time = 0;
    g.update(600);
    assert_fresh(&g, 10, 10);
}

#[test]
fn short_waits_after_game_over_step_instead_of_restarting() {
    let mut g = Game::new(10, 10);
    g.game_over = true;
    g.waiting_time = 0;
    // 200 ms is past the movement period but short of the restart delay,
    // so the tick steps the (still alive) position while game over holds
    g.update(200);
    assert!(g.game_over);
    assert_eq!(g.snake.body, vec![b(5, 2), b(4, 2), b(3, 2)]);
    assert_eq!(g.waiting_time, 0);
}
