//! Grid coordinates, the four facing directions, and input resolution.

use vstd::prelude::*;

verus! {

/// A cell position on the tile grid.
#[derive(Clone, Copy, Debug, PartialEq, Eq, Structural)]
pub struct Pos {
    pub x: u32,
    pub y: u32,
}

/// One of the four axis-aligned facing directions.
#[derive(Clone, Copy, Debug, PartialEq, Eq, Structural)]
pub enum Direction {
    North,
    South,
    East,
    West,
}

/// The cell of a position as a pair of mathematical integers.
pub open spec fn cell(p: Pos) -> (int, int) {
    (p.x as int, p.y as int)
}

/// The unit vector of a direction, with north pointing to decreasing `y`.
pub open spec fn dir_vec(d: Direction) -> (int, int) {
    match d {
        Direction::North => (0, -1),
        Direction::South => (0, 1),
        Direction::East => (1, 0),
        Direction::West => (-1, 0),
    }
}

/// The direction whose unit vector is `(dx, dy)`, if there is one.
pub open spec fn spec_dir_from_vec(dx: int, dy: int) -> Option<Direction> {
    if dx == 0 && dy == -1 {
        Some(Direction::North)
    } else if dx == 0 && dy == 1 {
        Some(Direction::South)
    } else if dx == 1 && dy == 0 {
        Some(Direction::East)
    } else if dx == -1 && dy == 0 {
        Some(Direction::West)
    } else {
        None
    }
}

/// `b` lies exactly one cardinal step away from `a`.
pub open spec fn is_cardinal_step(a: (int, int), b: (int, int)) -> bool {
    spec_dir_from_vec(b.0 - a.0, b.1 - a.1) is Some
}

/// The direction that faces from `a` toward a cardinally adjacent cell `b`.
pub open spec fn dir_toward(a: (int, int), b: (int, int)) -> Direction {
    if b.1 < a.1 {
        Direction::North
    } else if b.1 > a.1 {
        Direction::South
    } else if b.0 > a.0 {
        Direction::East
    } else {
        Direction::West
    }
}

/// The cell reached from `p` by the offset `(dx, dy)`, when it stays within
/// the `u32` coordinate range.
pub open spec fn spec_offset(p: Pos, dx: int, dy: int) -> Option<Pos> {
    if 0 <= p.x + dx <= u32::MAX && 0 <= p.y + dy <= u32::MAX {
        Some(Pos { x: (p.x + dx) as u32, y: (p.y + dy) as u32 })
    } else {
        None
    }
}

impl Direction {
    /// Parses an orientation property string; any other text is no direction.
    pub fn from_str(dir_str: &str) -> (r: Option<Direction>)
        ensures
            r == spec_dir_from_name(dir_str@),
    {
        if str_eq(dir_str, "north") {
            Some(Direction::North)
        } else if str_eq(dir_str, "south") {
            Some(Direction::South)
        } else if str_eq(dir_str, "east") {
            Some(Direction::East)
        } else if str_eq(dir_str, "west") {
            Some(Direction::West)
        } else {
            None
        }
    }

    /// The direction of an axis-aligned unit vector; diagonal or zero vectors
    /// map to no direction.
    pub fn from_vector2(dx: i32, dy: i32) -> (r: Option<Direction>)
        ensures
            r == spec_dir_from_vec(dx as int, dy as int),
    {
        if dx == 0 && dy == -1 {
            Some(Direction::North)
        } else if dx == 0 && dy == 1 {
            Some(Direction::South)
        } else if dx == 1 && dy == 0 {
            Some(Direction::East)
        } else if dx == -1 && dy == 0 {
            Some(Direction::West)
        } else {
            None
        }
    }

    /// The unit vector of this direction.
    pub fn to_vector2(&self) -> (r: (i32, i32))
        ensures
            (r.0 as int, r.1 as int) == dir_vec(*self),
    {
        match *self {
            Direction::North => (0, -1),
            Direction::South => (0, 1),
            Direction::East => (1, 0),
            Direction::West => (-1, 0),
        }
    }
}

/// The direction named by an orientation string, if it names one.
pub open spec fn spec_dir_from_name(s: Seq<char>) -> Option<Direction> {
    if s == "north"@ {
        Some(Direction::North)
    } else if s == "south"@ {
        Some(Direction::South)
    } else if s == "east"@ {
        Some(Direction::East)
    } else if s == "west"@ {
        Some(Direction::West)
    } else {
        None
    }
}

/// Compares two string slices by their character sequences.
pub fn str_eq(a: &str, b: &str) -> (r: bool)
    ensures
        r == (a@ == b@),
{
    let a_owned = <String as vstd::string::StringExecFns>::from_str(a);
    let b_owned = <String as vstd::string::StringExecFns>::from_str(b);
    a_owned == b_owned
}

/// Steps a position by a small offset, or reports that the step leaves the
/// `u32` coordinate range.
pub fn offset_pos(p: Pos, dx: i32, dy: i32) -> (r: Option<Pos>)
    ensures
        r == spec_offset(p, dx as int, dy as int),
{
    let nx: i64 = p.x as i64 + dx as i64;
    let ny: i64 = p.y as i64 + dy as i64;
    if 0 <= nx && nx <= u32::MAX as i64 && 0 <= ny && ny <= u32::MAX as i64 {
        Some(Pos { x: nx as u32, y: ny as u32 })
    } else {
        None
    }
}

/// The single-axis movement vector that a set of pressed keys resolves to:
/// only one clean axis press registers, and simultaneous or opposing presses
/// cancel to no movement.
pub open spec fn spec_resolve_input(left: bool, right: bool, up: bool, down: bool) -> (int, int) {
    if left && !right && !up && !down {
        (-1, 0)
    } else if !left && right && !up && !down {
        (1, 0)
    } else if !left && !right && up && !down {
        (0, -1)
    } else if !left && !right && !up && down {
        (0, 1)
    } else {
        (0, 0)
    }
}

/// Resolves pressed directional keys to a movement vector.
pub fn resolve_input(left: bool, right: bool, up: bool, down: bool) -> (r: (i32, i32))
    ensures
        (r.0 as int, r.1 as int) == spec_resolve_input(left, right, up, down),
{
    match (left, right, up, down) {
        (true, false, false, false) => (-1, 0),
        (false, true, false, false) => (1, 0),
        (false, false, true, false) => (0, -1),
        (false, false, false, true) => (0, 1),
        _ => (0, 0),
    }
}

} // verus!
