//! The game state machine: it owns the snake, the food slot, the grid
//! bounds, the game-over flag and a wait timer, and drives movement,
//! eating, death detection and the timed restart.
//!
//! Time is counted in whole milliseconds. The border of the grid is a
//! one-cell-thick wall, so the playable interior is
//! `(1 ..= width - 2) x (1 ..= height - 2)`.

use vstd::prelude::*;

use rand::Rng;

use crate::snake::Block;
use crate::snake::Direction;
use crate::snake::Snake;
use crate::snake::chosen_dir;
use crate::snake::moved_body;
use crate::snake::overlaps_except_tail;
use crate::snake::spec_opposite;

verus! {

/// Milliseconds between automatic forward steps.
pub const MOVE_PERIOD_MS: u64 = 100;

/// Milliseconds after game over before the automatic restart.
pub const RESTART_TIME_MS: u64 = 500;

/// The whole game state.
pub struct Game {
    pub snake: Snake,

    /// Whether the food slot is filled. The position below is meaningful
    /// only while this holds (the slot is empty between being eaten and
    /// being refilled).
    pub food_exists: bool,
    pub food_x: i32,
    pub food_y: i32,

    /// Grid bounds in cells, fixed at construction.
    pub width: i32,
    pub height: i32,

    pub game_over: bool,
    /// Milliseconds since the last movement step (or, after game over,
    /// since the step that ended the game), driving both the movement
    /// cadence and the restart delay.
    pub waiting_time: u64,
}

/// Cells the game can ever store in the body: coordinates that leave room
/// for a one-step look-ahead in every direction.
pub open spec fn cell_in_play_range(c: Block) -> bool {
    &&& 1 <= c.x <= i32::MAX - 1
    &&& 1 <= c.y <= i32::MAX - 1
}

/// The initial three-cell body: head at (4, 2), tail at (2, 2).
pub open spec fn initial_body() -> Seq<Block> {
    seq![Block { x: 4, y: 2 }, Block { x: 3, y: 2 }, Block { x: 2, y: 2 }]
}

/// A freshly constructed (or just restarted) game on a `width x height`
/// grid: the initial snake heading right, food filled at (3, 4), not game
/// over, timer at zero.
pub open spec fn is_fresh(g: Game, width: i32, height: i32) -> bool {
    &&& g.snake.direction == Direction::Right
    &&& g.snake.body@ == initial_body()
    &&& g.snake.tail is None
    &&& g.food_exists
    &&& g.food_x == 3
    &&& g.food_y == 4
    &&& g.width == width
    &&& g.height == height
    &&& !g.game_over
    &&& g.waiting_time == 0
}

impl Game {
    /// The structural invariant of the board: the body never shrinks below
    /// its initial three cells, every stored cell leaves room for a
    /// one-step look-ahead, and the bounds admit `width - 1` arithmetic.
    pub open spec fn wf_board(self) -> bool {
        &&& self.snake.body@.len() >= 3
        &&& (forall|i: int|
            0 <= i < self.snake.body@.len() ==> cell_in_play_range(
                #[trigger] self.snake.body@[i],
            ))
        &&& i32::MIN < self.width
        &&& i32::MIN < self.height
    }

    /// The full invariant between calls: a well-formed board whose timer
    /// never rests above the movement period (every step resets it).
    pub open spec fn wf(self) -> bool {
        &&& self.wf_board()
        &&& self.waiting_time <= MOVE_PERIOD_MS
    }
}

/// True when `c` lies strictly inside the border walls of a
/// `width x height` grid.
pub open spec fn in_interior(width: i32, height: i32, c: Block) -> bool {
    &&& 0 < c.x < width - 1
    &&& 0 < c.y < height - 1
}

/// A cell where food may be placed: inside the walls and not covering the
/// body (tail excluded, as the overlap check has it).
pub open spec fn cell_free(width: i32, height: i32, body: Seq<Block>, c: Block) -> bool {
    &&& in_interior(width, height, c)
    &&& !overlaps_except_tail(body, c)
}

/// Whether any cell at all is available for food placement.
pub open spec fn free_cell_exists(width: i32, height: i32, body: Seq<Block>) -> bool {
    exists|c: Block| #[trigger] cell_free(width, height, body, c)
}

/// The snake survives a step exactly when the prospective head cell
/// neither overlaps the body (tail excluded) nor lies on or beyond the
/// border walls.
pub open spec fn alive_spec(g: Game, dir: Option<Direction>) -> bool {
    let nh = g.snake.spec_next_head(dir);
    &&& !overlaps_except_tail(g.snake.body@, nh)
    &&& in_interior(g.width, g.height, nh)
}

/// Whether a step to `nh` eats the food of `pre`.
pub open spec fn eats_at(pre: Game, nh: Block) -> bool {
    &&& pre.food_exists
    &&& nh.x == pre.food_x
    &&& nh.y == pre.food_y
}

/// Whether the snake's head currently rests on filled food.
pub open spec fn head_on_food(g: Game) -> bool {
    &&& g.food_exists
    &&& g.snake.body@[0].x == g.food_x
    &&& g.snake.body@[0].y == g.food_y
}

/// One movement step from `pre` to `post` (the transition of
/// `update_snake`): if the prospective head is safe the snake moves, grows
/// when it eats, and the food slot empties on eating; otherwise the game
/// ends with everything else untouched. The timer always resets.
pub open spec fn step_rel(pre: Game, dir: Option<Direction>, post: Game) -> bool {
    let nh = pre.snake.spec_next_head(dir);
    &&& post.width == pre.width
    &&& post.height == pre.height
    &&& post.waiting_time == 0
    &&& post.food_x == pre.food_x
    &&& post.food_y == pre.food_y
    &&& if alive_spec(pre, dir) {
        &&& post.game_over == pre.game_over
        &&& post.snake.direction == chosen_dir(pre.snake.direction, dir)
        &&& post.snake.tail == Some(pre.snake.body@.last())
        &&& if eats_at(pre, nh) {
            &&& post.snake.body@ == seq![nh] + pre.snake.body@
            &&& !post.food_exists
        } else {
            &&& post.snake.body@ == moved_body(pre.snake.body@, nh)
            &&& post.food_exists == pre.food_exists
        }
    } else {
        &&& post.snake == pre.snake
        &&& post.game_over
        &&& post.food_exists == pre.food_exists
    }
}

/// The whole tick transition of `update`, `delta_ms` after `pre`. With
/// `w1` the accumulated wait: a game-over state past the restart delay is
/// reset wholesale; otherwise an empty food slot is refilled with some
/// free cell if one exists, and then the snake steps once if `w1` exceeds
/// the movement period. `fed` names the state after the food phase; its
/// food position is pinned to `post`'s, which the step phase never moves.
pub open spec fn update_rel(pre: Game, delta_ms: u64, post: Game) -> bool {
    let w1 = pre.waiting_time + delta_ms;
    if pre.game_over && w1 > RESTART_TIME_MS {
        is_fresh(post, pre.width, pre.height)
    } else {
        let fed = Game {
            food_exists: pre.food_exists || free_cell_exists(pre.width, pre.height, pre.snake.body@),
            food_x: post.food_x,
            food_y: post.food_y,
            waiting_time: (pre.waiting_time + delta_ms) as u64,
            ..pre
        };
        &&& (pre.food_exists ==> post.food_x == pre.food_x && post.food_y == pre.food_y)
        &&& (!pre.food_exists && free_cell_exists(pre.width, pre.height, pre.snake.body@)
            ==> cell_free(
            pre.width,
            pre.height,
            pre.snake.body@,
            Block { x: post.food_x, y: post.food_y },
        ))
        &&& (!pre.food_exists && !free_cell_exists(pre.width, pre.height, pre.snake.body@)
            ==> post.food_x == pre.food_x && post.food_y == pre.food_y)
        &&& if w1 > MOVE_PERIOD_MS {
            step_rel(fed, None, post)
        } else {
            &&& post.snake == pre.snake
            &&& post.game_over == pre.game_over
            &&& post.food_exists == fed.food_exists
            &&& post.waiting_time == w1
            &&& post.width == pre.width
            &&& post.height == pre.height
        }
    }
}

/// Relies on `rand::Rng::random_range` over `0..n`: it panics on an empty
/// range and otherwise returns a value drawn from the range.
#[verifier::external_body]
fn random_index(n: usize) -> (r: usize)
    requires
        n > 0,
    ensures
        r < n,
{
    rand::rng().random_range(0..n)
}

impl Game {
    /// A new game on a `width x height` grid, in the fresh state.
    pub fn new(width: i32, height: i32) -> (g: Game)
        requires
            i32::MIN < width,
            i32::MIN < height,
        ensures
            is_fresh(g, width, height),
            g.wf(),
    {
        let g = Game {
            snake: Snake::new(2, 2),
            food_exists: true,
            food_x: 3,
            food_y: 4,
            width,
            height,
            game_over: false,
            waiting_time: 0,
        };
        proof {
            assert(g.snake.body@ =~= initial_body());
            assert forall|i: int| 0 <= i < g.snake.body@.len() implies cell_in_play_range(
                #[trigger] g.snake.body@[i],
            ) by {
                assert(g.snake.body@[i] == initial_body()[i]);
            }
        }
        g
    }

    /// Every interior cell not covered by the body (tail excluded), in
    /// scan order. The result is complete: it is empty only when no such
    /// cell exists.
    fn free_cells(&self) -> (cells: Vec<Block>)
        requires
            self.wf_board(),
        ensures
            forall|k: int|
                0 <= k < cells@.len() ==> cell_free(
                    self.width,
                    self.height,
                    self.snake.body@,
                    #[trigger] cells@[k],
                ),
            forall|c: Block|
                #[trigger] cell_free(self.width, self.height, self.snake.body@, c)
                    ==> cells@.contains(c),
    {
        let w: i32 = self.width;
        let h: i32 = self.height;
        let mut cells: Vec<Block> = Vec::new();
        if w < 3 || h < 3 {
            proof {
                assert forall|c: Block| cell_free(w, h, self.snake.body@, c)
                    implies cells@.contains(c) by {
                    assert(0 < c.x < w - 1 && 0 < c.y < h - 1);
                }
            }
            return cells;
        }
        let mut x: i32 = 1;
        while x < w - 1
            invariant
                self.wf_board(),
                w == self.width,
                h == self.height,
                3 <= w,
                3 <= h,
                1 <= x <= w - 1,
                forall|k: int|
                    0 <= k < cells@.len() ==> cell_free(
                        w,
                        h,
                        self.snake.body@,
                        #[trigger] cells@[k],
                    ),
                forall|c: Block|
                    #[trigger] cell_free(w, h, self.snake.body@, c) && c.x < x
                        ==> cells@.contains(c),
            decreases w - 1 - x,
        {
            let mut y: i32 = 1;
            while y < h - 1
                invariant
                    self.wf_board(),
                    w == self.width,
                    h == self.height,
                    3 <= w,
                    3 <= h,
                    1 <= x < w - 1,
                    1 <= y <= h - 1,
                    forall|k: int|
                        0 <= k < cells@.len() ==> cell_free(
                            w,
                            h,
                            self.snake.body@,
                            #[trigger] cells@[k],
                        ),
                    forall|c: Block|
                        #[trigger] cell_free(w, h, self.snake.body@, c) && (c.x < x || (c.x == x
                            && c.y < y)) ==> cells@.contains(c),
                decreases h - 1 - y,
            {
                let ghost pre = cells@;
                if !self.snake.overlap_tail(x, y) {
                    cells.push(Block { x, y });
                    proof {
                        assert(cells@ == pre.push(Block { x, y }));
                        assert forall|c: Block| pre.contains(c) implies cells@.contains(c) by {
                            let i = choose|i: int| 0 <= i < pre.len() && pre[i] == c;
                            assert(cells@[i] == c);
                        }
                        assert(cells@[pre.len() as int] == (Block { x, y }));
                        assert(cells@.contains(Block { x, y }));
                    }
                }
                proof {
                    assert forall|c: Block|
                        cell_free(w, h, self.snake.body@, c) && (c.x < x || (c.x == x && c.y < y
                            + 1)) implies cells@.contains(c) by {
                        if c.x == x && c.y == y {
                            assert(c == (Block { x, y }));
                        }
                    }
                }
                y = y + 1;
            }
            proof {
                assert forall|c: Block| cell_free(w, h, self.snake.body@, c) && c.x < x + 1
                    implies cells@.contains(c) by {
                    if c.x == x {
                        assert(0 < c.y < h - 1);
                    }
                }
            }
            x = x + 1;
        }
        proof {
            assert forall|c: Block| cell_free(w, h, self.snake.body@, c) implies cells@.contains(
                c,
            ) by {
                assert(0 < c.x < w - 1);
            }
        }
        cells
    }

    /// Fills the food slot with a cell drawn uniformly from the free
    /// interior cells. If every interior cell is covered by the body (tail
    /// excluded), nothing is placed and the slot stays empty, so placement
    /// is retried on the next update.
    fn add_food(&mut self)
        requires
            old(self).wf_board(),
        ensures
            final(self).snake == old(self).snake,
            final(self).game_over == old(self).game_over,
            final(self).waiting_time == old(self).waiting_time,
            final(self).width == old(self).width,
            final(self).height == old(self).height,
            free_cell_exists(old(self).width, old(self).height, old(self).snake.body@) ==> {
                &&& final(self).food_exists
                &&& cell_free(
                    old(self).width,
                    old(self).height,
                    old(self).snake.body@,
                    Block { x: final(self).food_x, y: final(self).food_y },
                )
            },
            !free_cell_exists(old(self).width, old(self).height, old(self).snake.body@) ==> {
                &&& final(self).food_exists == old(self).food_exists
                &&& final(self).food_x == old(self).food_x
                &&& final(self).food_y == old(self).food_y
            },
    {
        let cells: Vec<Block> = self.free_cells();
        if cells.len() > 0 {
            let idx: usize = random_index(cells.len());
            let c: Block = cells[idx];
            self.food_x = c.x;
            self.food_y = c.y;
            self.food_exists = true;
            proof {
                assert(cell_free(old(self).width, old(self).height, old(self).snake.body@, c));
                assert((Block { x: self.food_x, y: self.food_y }) == c);
            }
        } else {
            proof {
                if free_cell_exists(old(self).width, old(self).height, old(self).snake.body@) {
                    let c = choose|c: Block|
                        cell_free(old(self).width, old(self).height, old(self).snake.body@, c);
                    assert(cells@.contains(c));
                }
            }
        }
    }

    /// Whether the snake would survive one step: the prospective head must
    /// not overlap the body (tail excluded) and must stay strictly inside
    /// the border walls.
    fn check_if_snake_alive(&self, dir: Option<Direction>) -> (r: bool)
        requires
            self.wf_board(),
        ensures
            r == alive_spec(*self, dir),
    {
        proof {
            assert(cell_in_play_range(self.snake.body@[0]));
        }
        let next: (i32, i32) = self.snake.next_head(dir);
        let next_x: i32 = next.0;
        let next_y: i32 = next.1;

        if self.snake.overlap_tail(next_x, next_y) {
            return false;
        }

        next_x > 0 && next_y > 0 && next_x < self.width - 1 && next_y < self.height - 1
    }

    /// If the head has landed on filled food, empties the slot and
    /// restores the just-popped tail, so the body nets one extra cell.
    fn check_eating(&mut self)
        requires
            old(self).snake.body@.len() >= 1,
            old(self).snake.tail is Some,
        ensures
            final(self).width == old(self).width,
            final(self).height == old(self).height,
            final(self).game_over == old(self).game_over,
            final(self).waiting_time == old(self).waiting_time,
            final(self).food_x == old(self).food_x,
            final(self).food_y == old(self).food_y,
            head_on_food(*old(self)) ==> {
                &&& !final(self).food_exists
                &&& final(self).snake.body@ == old(self).snake.body@.push(old(self).snake.tail->0)
                &&& final(self).snake.direction == old(self).snake.direction
                &&& final(self).snake.tail == old(self).snake.tail
            },
            !head_on_food(*old(self)) ==> *final(self) == *old(self),
    {
        let pos: (i32, i32) = self.snake.get_head_pos();
        if self.food_exists && pos.0 == self.food_x && pos.1 == self.food_y {
            self.food_exists = false;
            self.snake.restore_tail();
        }
    }

    /// One movement step: look ahead, die on overlap or wall, otherwise
    /// commit the move and check eating; the timer resets either way.
    fn update_snake(&mut self, dir: Option<Direction>)
        requires
            old(self).wf_board(),
        ensures
            final(self).wf_board(),
            final(self).waiting_time == 0,
            step_rel(*old(self), dir, *final(self)),
    {
        proof {
            assert(cell_in_play_range(old(self).snake.body@[0]));
        }
        let ghost nh = old(self).snake.spec_next_head(dir);
        if self.check_if_snake_alive(dir) {
            self.snake.move_forward(dir);
            self.check_eating();
            proof {
                if eats_at(*old(self), nh) {
                    assert(self.snake.body@ =~= seq![nh] + old(self).snake.body@);
                }
                assert forall|i: int| 0 <= i < self.snake.body@.len() implies cell_in_play_range(
                    #[trigger] self.snake.body@[i],
                ) by {
                    if i == 0 {
                        assert(in_interior(old(self).width, old(self).height, nh));
                        assert(self.snake.body@[0] == nh);
                    } else {
                        assert(self.snake.body@[i] == old(self).snake.body@[i - 1]);
                        assert(cell_in_play_range(old(self).snake.body@[i - 1]));
                    }
                }
            }
        } else {
            self.game_over = true;
        }
        self.waiting_time = 0;
    }

    /// Resets everything but the bounds to the fresh state.
    fn restart(&mut self)
        ensures
            is_fresh(*final(self), old(self).width, old(self).height),
    {
        self.snake = Snake::new(2, 2);
        self.food_exists = true;
        self.food_x = 3;
        self.food_y = 4;
        self.game_over = false;
        self.waiting_time = 0;
        proof {
            assert(self.snake.body@ =~= initial_body());
        }
    }

    /// Reacts to a classified key press: ignored entirely after game over,
    /// on an unrecognized key, and on the exact reversal of the current
    /// heading (the sole turn-validity rule); any other direction causes
    /// an immediate extra movement step in that direction.
    pub fn key_pressed(&mut self, key: Option<Direction>)
        requires
            old(self).wf(),
        ensures
            final(self).wf(),
            old(self).game_over ==> *final(self) == *old(self),
            key is None ==> *final(self) == *old(self),
            (key matches Some(d) && d == spec_opposite(old(self).snake.direction))
                ==> *final(self) == *old(self),
            (!old(self).game_over && (key matches Some(d) && d != spec_opposite(
                old(self).snake.direction,
            ))) ==> step_rel(*old(self), key, *final(self)),
    {
        if self.game_over {
            return;
        }

        match key {
            None => {},
            Some(d) => {
                if d == self.snake.head_direction().opposite() {
                    return;
                }
                self.update_snake(Some(d));
            },
        }
    }

    /// One tick: accumulate `delta_ms` on the timer; after game over and
    /// past the restart delay, reset the whole game (the reset also zeroes
    /// the timer, so the movement check below it sees the fresh timer and
    /// no step follows on the same tick); refill an empty food slot; and
    /// step the snake once whenever the timer has passed the movement
    /// period — also while game over, in which case a dead position merely
    /// re-enters game over and keeps the timer low.
    pub fn update(&mut self, delta_ms: u64)
        requires
            old(self).wf(),
            delta_ms <= u64::MAX - MOVE_PERIOD_MS,
        ensures
            final(self).wf(),
            final(self).width == old(self).width,
            final(self).height == old(self).height,
            update_rel(*old(self), delta_ms, *final(self)),
    {
        let ghost w1 = old(self).waiting_time + delta_ms;
        self.waiting_time = self.waiting_time + delta_ms;
        if self.game_over {
            if self.waiting_time > RESTART_TIME_MS {
                self.restart();
            }
        }

        if !self.food_exists {
            self.add_food();
        }

        let ghost mid = *self;
        if self.waiting_time > MOVE_PERIOD_MS {
            self.update_snake(None);
        }

        proof {
            if old(self).game_over && w1 > RESTART_TIME_MS {
                assert forall|i: int| 0 <= i < self.snake.body@.len() implies cell_in_play_range(
                    #[trigger] self.snake.body@[i],
                ) by {
                    assert(self.snake.body@[i] == initial_body()[i]);
                }
            } else {
                let fed = Game {
                    food_exists: old(self).food_exists || free_cell_exists(
                        old(self).width,
                        old(self).height,
                        old(self).snake.body@,
                    ),
                    food_x: self.food_x,
                    food_y: self.food_y,
                    waiting_time: (old(self).waiting_time + delta_ms) as u64,
                    ..*old(self)
                };
                assert(mid == fed);
            }
        }
    }
}

} // verus!
