use vstd::prelude::*;

verus! {

/// One of the four logical moves of the focus.
#[derive(Clone, Copy, Debug, PartialEq, Eq, Structural)]
pub enum Direction {
    Right,
    Left,
    Up,
    Down,
}

impl Direction {
    /// The move that undoes this one.
    pub open spec fn opposite(self) -> Direction {
        match self {
            Direction::Right => Direction::Left,
            Direction::Left => Direction::Right,
            Direction::Up => Direction::Down,
            Direction::Down => Direction::Up,
        }
    }
}

/// The vi-style key map: `l` right, `h` left, `k` up, `j` down.
pub open spec fn key_direction(key: char) -> Option<Direction> {
    if key == 'l' {
        Some(Direction::Right)
    } else if key == 'h' {
        Some(Direction::Left)
    } else if key == 'k' {
        Some(Direction::Up)
    } else if key == 'j' {
        Some(Direction::Down)
    } else {
        None
    }
}

/// Decodes a typed character into a move; other characters are no move.
pub fn direction_of_key(key: char) -> (r: Option<Direction>)
    ensures
        r == key_direction(key),
{
    match key {
        'l' => Some(Direction::Right),
        'h' => Some(Direction::Left),
        'k' => Some(Direction::Up),
        'j' => Some(Direction::Down),
        _ => None,
    }
}

} // verus!
