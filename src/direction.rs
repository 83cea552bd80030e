use crate::random::random_below;
use vstd::prelude::*;

verus! {

/// A facing, used to pick one of the four quarter-turn rotations of a pattern.
#[derive(Debug, Clone, Copy, PartialEq, Eq, Structural)]
pub enum Direction {
    North,
    East,
    South,
    West,
}

/// The number of directions.
pub const DIRECTION_COUNT: usize = 4;

/// The direction at position `i` in the order North, East, South, West.
pub open spec fn direction_at(i: int) -> Option<Direction> {
    if i == 0 {
        Some(Direction::North)
    } else if i == 1 {
        Some(Direction::East)
    } else if i == 2 {
        Some(Direction::South)
    } else if i == 3 {
        Some(Direction::West)
    } else {
        None
    }
}

impl Direction {
    /// The direction at position `i` in declaration order, if there is one.
    pub fn from_repr(i: usize) -> (r: Option<Direction>)
        ensures
            r == direction_at(i as int),
    {
        match i {
            0 => Some(Direction::North),
            1 => Some(Direction::East),
            2 => Some(Direction::South),
            3 => Some(Direction::West),
            _ => None,
        }
    }

    /// The direction selected by a draw `i`; North where the draw names none.
    pub fn from_draw(i: usize) -> (r: Direction)
        ensures
            r == (if i < DIRECTION_COUNT { direction_at(i as int)->Some_0 } else { Direction::North }),
    {
        match Direction::from_repr(i) {
            Some(d) => d,
            None => Direction::North,
        }
    }

    /// A direction chosen uniformly at random.
    pub fn get_random_direction() -> (r: Direction)
        ensures
            exists|i: int| 0 <= i < DIRECTION_COUNT && direction_at(i) == Some(r),
    {
        let i = random_below(DIRECTION_COUNT);
        let d = Direction::from_draw(i);
        assert(direction_at(i as int) == Some(d));
        d
    }
}

} // verus!
