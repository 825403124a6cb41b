//! The snake body model: a heading plus an ordered sequence of grid cells,
//! front cell first. Movement pushes a freshly computed head cell to the
//! front and pops the back cell, remembering it so that eating can restore
//! it (net growth by one).

use vstd::prelude::*;

verus! {

/// One of the four headings the snake can move in.
#[derive(Copy, Clone, PartialEq, Eq, Structural, Debug)]
pub enum Direction {
    Up,
    Down,
    Left,
    Right,
}

/// The heading that would reverse `d` in place.
pub open spec fn spec_opposite(d: Direction) -> Direction {
    match d {
        Direction::Up => Direction::Down,
        Direction::Down => Direction::Up,
        Direction::Left => Direction::Right,
        Direction::Right => Direction::Left,
    }
}

impl Direction {
    /// The reversed heading: up and down swap, left and right swap.
    pub fn opposite(&self) -> (r: Direction)
        ensures
            r == spec_opposite(*self),
    {
        match *self {
            Direction::Up => Direction::Down,
            Direction::Left => Direction::Right,
            Direction::Down => Direction::Up,
            Direction::Right => Direction::Left,
        }
    }
}

/// Reversing a heading twice gives the heading back.
pub proof fn lemma_opposite_involution(d: Direction)
    ensures
        spec_opposite(spec_opposite(d)) == d,
{
}

/// One grid cell, in grid coordinates (not pixels).
#[derive(Copy, Clone, PartialEq, Eq, Structural, Debug)]
pub struct Block {
    pub x: i32,
    pub y: i32,
}

/// The direction a step actually takes: an override if one is given,
/// otherwise the current heading.
pub open spec fn chosen_dir(cur: Direction, dir: Option<Direction>) -> Direction {
    match dir {
        Some(d) => d,
        None => cur,
    }
}

/// The cell one step away from `c` in direction `d`.
pub open spec fn dir_step(c: Block, d: Direction) -> Block {
    match d {
        Direction::Up => Block { x: c.x, y: (c.y - 1) as i32 },
        Direction::Down => Block { x: c.x, y: (c.y + 1) as i32 },
        Direction::Left => Block { x: (c.x - 1) as i32, y: c.y },
        Direction::Right => Block { x: (c.x + 1) as i32, y: c.y },
    }
}

/// The body after one movement step: the new head in front, the old
/// back cell dropped.
pub open spec fn moved_body(body: Seq<Block>, nh: Block) -> Seq<Block> {
    seq![nh] + body.drop_last()
}

/// True when `c` coincides with a body segment other than the last one
/// (the current tail, which vacates on the next step).
pub open spec fn overlaps_except_tail(body: Seq<Block>, c: Block) -> bool {
    exists|i: int| 0 <= i < body.len() - 1 && body[i] == c
}

/// The player-controlled snake.
pub struct Snake {
    /// Current heading; changed only by an accepted override.
    pub direction: Direction,
    /// Body cells, front (head) first. Never empty after construction.
    pub body: Vec<Block>,
    /// The most recently popped back cell, kept so growth can restore it.
    pub tail: Option<Block>,
}

impl Snake {
    /// The cell the head would occupy after one step in the override
    /// direction if one is given, else in the current heading.
    pub open spec fn spec_next_head(self, dir: Option<Direction>) -> Block {
        dir_step(self.body@[0], chosen_dir(self.direction, dir))
    }

    /// A fresh three-cell horizontal snake heading right, with its head at
    /// `(x + 2, y)` and its tail at `(x, y)`.
    pub fn new(x: i32, y: i32) -> (s: Snake)
        requires
            x + 2 <= i32::MAX,
        ensures
            s.direction == Direction::Right,
            s.body@ == seq![
                Block { x: (x + 2) as i32, y },
                Block { x: (x + 1) as i32, y },
                Block { x, y },
            ],
            s.tail is None,
    {
        let mut body: Vec<Block> = Vec::new();
        body.push(Block { x: x + 2, y });
        body.push(Block { x: x + 1, y });
        body.push(Block { x, y });
        proof {
            assert(body@ =~= seq![
                Block { x: (x + 2) as i32, y },
                Block { x: (x + 1) as i32, y },
                Block { x, y },
            ]);
        }
        Snake { direction: Direction::Right, body, tail: None }
    }

    /// The coordinates of the front cell.
    pub fn get_head_pos(&self) -> (r: (i32, i32))
        requires
            self.body@.len() >= 1,
        ensures
            r.0 == self.body@[0].x,
            r.1 == self.body@[0].y,
    {
        let head_block = &self.body[0];
        (head_block.x, head_block.y)
    }

    /// The current heading.
    pub fn head_direction(&self) -> (r: Direction)
        ensures
            r == self.direction,
    {
        self.direction
    }

    /// Look-ahead: the coordinates the head would move to, without
    /// mutating anything.
    pub fn next_head(&self, dir: Option<Direction>) -> (r: (i32, i32))
        requires
            self.body@.len() >= 1,
            i32::MIN < self.body@[0].x < i32::MAX,
            i32::MIN < self.body@[0].y < i32::MAX,
        ensures
            r.0 == self.spec_next_head(dir).x,
            r.1 == self.spec_next_head(dir).y,
    {
        let pos: (i32, i32) = self.get_head_pos();
        let x: i32 = pos.0;
        let y: i32 = pos.1;
        let mut moving_dir: Direction = self.direction;
        match dir {
            Some(d) => moving_dir = d,
            None => (),
        }
        match moving_dir {
            Direction::Up => (x, y - 1),
            Direction::Down => (x, y + 1),
            Direction::Left => (x - 1, y),
            Direction::Right => (x + 1, y),
        }
    }

    /// Commits one movement step. A supplied direction replaces the stored
    /// heading first; the new head cell is computed from the (possibly
    /// updated) heading, pushed to the front, and the back cell is popped
    /// and remembered so `restore_tail` can grow the body.
    pub fn move_forward(&mut self, dir: Option<Direction>)
        requires
            old(self).body@.len() >= 1,
            i32::MIN < old(self).body@[0].x < i32::MAX,
            i32::MIN < old(self).body@[0].y < i32::MAX,
        ensures
            final(self).direction == chosen_dir(old(self).direction, dir),
            final(self).body@ == moved_body(old(self).body@, old(self).spec_next_head(dir)),
            final(self).body@.len() == old(self).body@.len(),
            final(self).tail == Some(old(self).body@.last()),
    {
        match dir {
            Some(d) => self.direction = d,
            None => (),
        }

        let pos: (i32, i32) = self.get_head_pos();
        let x: i32 = pos.0;
        let y: i32 = pos.1;

        let new_block = match self.direction {
            Direction::Down => Block { x, y: y + 1 },
            Direction::Up => Block { x, y: y - 1 },
            Direction::Left => Block { x: x - 1, y },
            Direction::Right => Block { x: x + 1, y },
        };

        self.body.insert(0, new_block);
        let last_block: Option<Block> = self.body.pop();
        self.tail = last_block;
        proof {
            assert(self.body@ =~= moved_body(
                old(self).body@,
                old(self).spec_next_head(dir),
            ));
        }
    }

    /// Re-appends the remembered tail cell, growing the body by one.
    /// Meaningful only after a movement step has remembered a cell.
    pub fn restore_tail(&mut self)
        requires
            old(self).tail is Some,
        ensures
            final(self).body@ == old(self).body@.push(old(self).tail->0),
            final(self).body@.len() == old(self).body@.len() + 1,
            final(self).direction == old(self).direction,
            final(self).tail == old(self).tail,
    {
        let back: Block = self.tail.unwrap();
        self.body.push(back);
    }

    /// True when `(x, y)` coincides with a body segment other than the
    /// last one. The tail cell is excluded because it vacates on the next
    /// step, so it is not a collision target.
    pub fn overlap_tail(&self, x: i32, y: i32) -> (r: bool)
        requires
            self.body@.len() >= 1,
        ensures
            r == overlaps_except_tail(self.body@, Block { x, y }),
    {
        let n: usize = self.body.len();
        let mut i: usize = 0;
        while i + 1 < n
            invariant
                n == self.body@.len(),
                n >= 1,
                i + 1 <= n,
                forall|k: int| 0 <= k < i ==> #[trigger] self.body@[k] != (Block { x, y }),
            decreases n - i,
        {
            let b = &self.body[i];
            if b.x == x && b.y == y {
                proof {
                    assert(0 <= i < self.body@.len() - 1 && self.body@[i as int] == Block { x, y });
                }
                return true;
            }
            i = i + 1;
        }
        false
    }
}

/// One movement step keeps the body length unchanged, and restoring the
/// remembered tail right after it grows the body by exactly one cell.
pub proof fn lemma_move_then_restore_lengths(body: Seq<Block>, nh: Block)
    requires
        body.len() >= 1,
    ensures
        moved_body(body, nh).len() == body.len(),
        moved_body(body, nh).push(body.last()).len() == body.len() + 1,
{
}

/// The overlap check never fires on the tail cell alone: in a body of
/// pairwise-distinct cells, the last cell matches no earlier segment.
pub proof fn lemma_tail_excluded(body: Seq<Block>)
    requires
        body.len() >= 1,
        forall|i: int, j: int| 0 <= i < j < body.len() ==> body[i] != body[j],
    ensures
        !overlaps_except_tail(body, body.last()),
{
    if overlaps_except_tail(body, body.last()) {
        let i = choose|i: int| 0 <= i < body.len() - 1 && body[i] == body.last();
        assert(body[i] != body[body.len() - 1]);
    }
}

} // verus!
