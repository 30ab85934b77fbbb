//! A snake: an ordered body of grid coordinates plus a heading.
//!
//! Index 0 is the head and the last index the tail.  Each tick the body
//! shifts one cell forward with toroidal wrap-around; a 180-degree turn is
//! silently rejected; growth re-appends the tail position saved from
//! before the shift.

use vstd::prelude::*;

use crate::board::{on_grid, BOARD_SIZE};
use crate::direction::{opposite, Direction};

verus! {

/// The cell one step from `p` in heading `d`, wrapping at the grid edges.
pub open spec fn step(p: (usize, usize), d: Direction) -> (usize, usize) {
    match d {
        Direction::Right => (p.0, ((p.1 + 1) % (BOARD_SIZE as int)) as usize),
        Direction::Down => (((p.0 + 1) % (BOARD_SIZE as int)) as usize, p.1),
        Direction::Left => (p.0, (if p.1 > 0 { p.1 - 1 } else { BOARD_SIZE - 1 }) as usize),
        Direction::Up => ((if p.0 > 0 { p.0 - 1 } else { BOARD_SIZE - 1 }) as usize, p.1),
    }
}

/// A body after one advance in heading `d`: the new head in front, every
/// other segment moved to its predecessor's place, the old tail dropped.
pub open spec fn shifted(body: Seq<(usize, usize)>, d: Direction) -> Seq<(usize, usize)> {
    seq![step(body[0], d)] + body.drop_last()
}

/// A valid snake body: never empty, never off the grid.
pub open spec fn body_ok(body: Seq<(usize, usize)>) -> bool {
    &&& body.len() >= 1
    &&& forall|k: int| 0 <= k < body.len() ==> on_grid(#[trigger] body[k])
}

/// One step stays on the grid.
pub proof fn lemma_step_on_grid(p: (usize, usize), d: Direction)
    requires
        on_grid(p),
    ensures
        on_grid(step(p, d)),
{
}

/// Law: movement wraps at every edge.  Moving Right from the last column
/// reaches column 0 of the same row, and analogously for the other three
/// headings at their edges.
pub proof fn lemma_step_wraps(p: (usize, usize))
    requires
        on_grid(p),
    ensures
        p.1 == BOARD_SIZE - 1 ==> step(p, Direction::Right) == (p.0, 0usize),
        p.0 == BOARD_SIZE - 1 ==> step(p, Direction::Down) == (0usize, p.1),
        p.1 == 0 ==> step(p, Direction::Left) == (p.0, (BOARD_SIZE - 1) as usize),
        p.0 == 0 ==> step(p, Direction::Up) == ((BOARD_SIZE - 1) as usize, p.1),
{
}

/// An ordered body of coordinates and the current heading.
pub struct Snake {
    body: Vec<(usize, usize)>,
    direction: Direction,
}

impl Snake {
    /// The body as a sequence; index 0 is the head, the last the tail.
    pub closed spec fn segs(&self) -> Seq<(usize, usize)> {
        self.body@
    }

    /// The current heading.
    pub closed spec fn heading(&self) -> Direction {
        self.direction
    }

    /// A snake is never empty and never leaves the grid.
    pub open spec fn wf(&self) -> bool {
        body_ok(self.segs())
    }

    /// A one-segment snake at `head`, facing `direction`.
    pub fn new(head: (usize, usize), direction: Direction) -> (r: Snake)
        requires
            on_grid(head),
        ensures
            r.segs() == seq![head],
            r.heading() == direction,
            r.wf(),
    {
        Snake { body: vec![head], direction }
    }

    /// The head coordinate.
    pub fn head(&self) -> (r: (usize, usize))
        requires
            self.wf(),
        ensures
            r == self.segs()[0],
    {
        self.body[0]
    }

    /// The tail coordinate.
    pub fn tail(&self) -> (r: (usize, usize))
        requires
            self.wf(),
        ensures
            r == self.segs().last(),
    {
        self.body[self.body.len() - 1]
    }

    /// Append `tail` to the body.  The engine passes the tail position
    /// saved from before the shift, so the snake gets one segment longer
    /// without any other segment moving.
    pub fn grow(&mut self, tail: (usize, usize))
        requires
            old(self).wf(),
            on_grid(tail),
        ensures
            final(self).segs() == old(self).segs().push(tail),
            final(self).heading() == old(self).heading(),
            final(self).wf(),
    {
        self.body.push(tail);
    }

    /// The number of body segments.
    pub fn size(&self) -> (r: usize)
        ensures
            r == self.segs().len(),
    {
        self.body.len()
    }

    /// Change the heading, unless the request is the exact opposite of the
    /// current heading: a 180-degree reversal is always rejected, silently.
    pub fn control(&mut self, direction: Direction)
        ensures
            final(self).heading() == if direction == opposite(old(self).heading()) {
                old(self).heading()
            } else {
                direction
            },
            final(self).segs() == old(self).segs(),
    {
        match self.direction {
            Direction::Right => {
                if direction != Direction::Left {
                    self.direction = direction;
                }
            },
            Direction::Down => {
                if direction != Direction::Up {
                    self.direction = direction;
                }
            },
            Direction::Left => {
                if direction != Direction::Right {
                    self.direction = direction;
                }
            },
            Direction::Up => {
                if direction != Direction::Down {
                    self.direction = direction;
                }
            },
        }
    }

    /// Advance one tick: every segment moves to its predecessor's place,
    /// processed from tail to head, and the head moves one cell in the
    /// current heading with wrap-around on both axes.
    pub fn update(&mut self)
        requires
            old(self).wf(),
        ensures
            final(self).segs() == shifted(old(self).segs(), old(self).heading()),
            final(self).heading() == old(self).heading(),
            final(self).wf(),
    {
        let len = self.body.len();
        let mut i: usize = len;
        while i > 0
            invariant
                old(self).wf(),
                i <= len,
                len == self.body@.len(),
                len == old(self).segs().len(),
                self.direction == old(self).heading(),
                forall|k: int| 0 <= k < i ==> self.body@[k] == old(self).segs()[k],
                forall|k: int|
                    i <= k < len && k > 0 ==> self.body@[k] == old(self).segs()[k - 1],
                i == 0 ==> self.body@[0] == step(old(self).segs()[0], old(self).heading()),
            decreases i,
        {
            let idx = i - 1;
            if idx > 0 {
                let prev = self.body[idx - 1];
                self.body.set(idx, prev);
            } else {
                let head = self.body[0];
                assert(head == old(self).segs()[0]);
                assert(on_grid(head));
                let new_head = match self.direction {
                    Direction::Right => (head.0, (head.1 + 1) % BOARD_SIZE),
                    Direction::Down => ((head.0 + 1) % BOARD_SIZE, head.1),
                    Direction::Left => (
                        head.0,
                        if head.1 > 0 {
                            head.1 - 1
                        } else {
                            BOARD_SIZE - 1
                        },
                    ),
                    Direction::Up => (
                        if head.0 > 0 {
                            head.0 - 1
                        } else {
                            BOARD_SIZE - 1
                        },
                        head.1,
                    ),
                };
                self.body.set(0, new_head);
            }
            i = idx;
        }
        proof {
            assert(self.segs() =~= shifted(old(self).segs(), old(self).heading()));
            assert forall|k: int| 0 <= k < self.segs().len()
                implies on_grid(#[trigger] self.segs()[k]) by {
                if k == 0 {
                    lemma_step_on_grid(old(self).segs()[0], old(self).heading());
                }
            }
        }
    }
}

} // verus!
