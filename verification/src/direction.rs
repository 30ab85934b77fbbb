//! Headings on the grid and their one-byte wire codes.

use vstd::prelude::*;

use crate::util::{next_state, random_number, RandomSource};

verus! {

/// A heading: the direction a snake advances on each tick.
#[derive(Clone, Copy, Debug, PartialEq, Eq, Structural)]
pub enum Direction {
    Right,
    Down,
    Left,
    Up,
}

/// The heading reached by a 180-degree turn.
pub open spec fn opposite(d: Direction) -> Direction {
    match d {
        Direction::Right => Direction::Left,
        Direction::Down => Direction::Up,
        Direction::Left => Direction::Right,
        Direction::Up => Direction::Down,
    }
}

/// The one-byte wire code of a heading: 0 Right, 1 Down, 2 Left, 3 Up.
pub open spec fn direction_code(d: Direction) -> u8 {
    match d {
        Direction::Right => 0,
        Direction::Down => 1,
        Direction::Left => 2,
        Direction::Up => 3,
    }
}

/// The heading a wire code stands for; meaningful for codes 0 to 3.
pub open spec fn direction_of_code(value: u8) -> Direction {
    match value {
        0 => Direction::Right,
        1 => Direction::Down,
        2 => Direction::Left,
        _ => Direction::Up,
    }
}

impl Direction {
    /// The wire code of this heading.
    pub fn code(self) -> (r: u8)
        ensures
            r == direction_code(self),
    {
        match self {
            Direction::Right => 0,
            Direction::Down => 1,
            Direction::Left => 2,
            Direction::Up => 3,
        }
    }

    /// The heading a wire code stands for.  Codes above 3 mean a malformed
    /// packet and are rejected by the caller before this runs.
    pub fn from(value: u8) -> (r: Direction)
        requires
            value <= 3,
        ensures
            r == direction_of_code(value),
            direction_code(r) == value,
    {
        match value {
            0 => Direction::Right,
            1 => Direction::Down,
            2 => Direction::Left,
            _ => Direction::Up,
        }
    }

    /// A heading drawn from the random source: the next draw taken modulo
    /// four and read as a wire code.
    pub fn random(rng: &mut RandomSource) -> (r: Direction)
        ensures
            final(rng).state() == next_state(old(rng).state()),
            r == direction_of_code((next_state(old(rng).state()) % 4) as u8),
    {
        let n = random_number(rng);
        Direction::from((n % 4) as u8)
    }
}

} // verus!
