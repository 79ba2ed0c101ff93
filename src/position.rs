use vstd::prelude::*;

verus! {

/// A cell coordinate on the grid. Arithmetic on positions wraps on overflow.
#[derive(Clone, Copy, Debug, PartialEq, Eq, Structural, Hash)]
pub struct Position {
    pub x: isize,
    pub y: isize,
}

/// Componentwise wrapping sum, as a spec function.
pub open spec fn pos_add(a: Position, b: Position) -> Position {
    Position {
        x: vstd::wrapping::isize_specs::wrapping_add(a.x, b.x),
        y: vstd::wrapping::isize_specs::wrapping_add(a.y, b.y),
    }
}

/// Componentwise wrapping difference, as a spec function.
pub open spec fn pos_sub(a: Position, b: Position) -> Position {
    Position {
        x: vstd::wrapping::isize_specs::wrapping_sub(a.x, b.x),
        y: vstd::wrapping::isize_specs::wrapping_sub(a.y, b.y),
    }
}

/// Componentwise wrapping scaling, as a spec function.
pub open spec fn pos_scale(a: Position, k: isize) -> Position {
    Position {
        x: vstd::wrapping::isize_specs::wrapping_mul(k, a.x),
        y: vstd::wrapping::isize_specs::wrapping_mul(k, a.y),
    }
}

impl Position {
    pub fn new(x: isize, y: isize) -> (r: Position)
        ensures
            r.x == x,
            r.y == y,
    {
        Position { x, y }
    }

    /// The origin, where every pointer of a fresh program starts.
    pub fn origin() -> (r: Position)
        ensures
            r.x == 0,
            r.y == 0,
    {
        Position { x: 0, y: 0 }
    }
}

impl vstd::std_specs::ops::AddSpecImpl for Position {
    open spec fn obeys_add_spec() -> bool {
        true
    }

    open spec fn add_req(self, rhs: Position) -> bool {
        true
    }

    open spec fn add_spec(self, rhs: Position) -> Position {
        pos_add(self, rhs)
    }
}

impl std::ops::Add for Position {
    type Output = Position;

    fn add(self, other: Position) -> (r: Position)
        ensures
            r == pos_add(self, other),
    {
        Position { x: self.x.wrapping_add(other.x), y: self.y.wrapping_add(other.y) }
    }
}

impl vstd::std_specs::ops::SubSpecImpl for Position {
    open spec fn obeys_sub_spec() -> bool {
        true
    }

    open spec fn sub_req(self, rhs: Position) -> bool {
        true
    }

    open spec fn sub_spec(self, rhs: Position) -> Position {
        pos_sub(self, rhs)
    }
}

impl std::ops::Sub for Position {
    type Output = Position;

    fn sub(self, other: Position) -> (r: Position)
        ensures
            r == pos_sub(self, other),
    {
        Position { x: self.x.wrapping_sub(other.x), y: self.y.wrapping_sub(other.y) }
    }
}

impl vstd::std_specs::ops::MulSpecImpl<isize> for Position {
    open spec fn obeys_mul_spec() -> bool {
        true
    }

    open spec fn mul_req(self, rhs: isize) -> bool {
        true
    }

    open spec fn mul_spec(self, rhs: isize) -> Position {
        pos_scale(self, rhs)
    }
}

impl std::ops::Mul<isize> for Position {
    type Output = Position;

    fn mul(self, scalar: isize) -> (r: Position)
        ensures
            r == pos_scale(self, scalar),
    {
        Position { x: scalar.wrapping_mul(self.x), y: scalar.wrapping_mul(self.y) }
    }
}

/// One of the four directions a pointer can face.
#[derive(Clone, Copy, Debug, PartialEq, Eq, Structural)]
pub enum Direction {
    Right,
    Left,
    Up,
    Down,
}

/// The unit step of a direction; the y axis grows upward.
pub open spec fn unit_of(d: Direction) -> (int, int) {
    match d {
        Direction::Right => (1, 0),
        Direction::Left => (-1, 0),
        Direction::Up => (0, 1),
        Direction::Down => (0, -1),
    }
}

pub open spec fn opposite_of(d: Direction) -> Direction {
    match d {
        Direction::Right => Direction::Left,
        Direction::Left => Direction::Right,
        Direction::Up => Direction::Down,
        Direction::Down => Direction::Up,
    }
}

impl Default for Direction {
    fn default() -> (r: Direction)
        ensures
            r == Direction::Right,
    {
        Direction::Right
    }
}

impl Direction {
    pub fn opposite(&self) -> (r: Direction)
        ensures
            r == opposite_of(*self),
    {
        match self {
            Direction::Right => Direction::Left,
            Direction::Left => Direction::Right,
            Direction::Up => Direction::Down,
            Direction::Down => Direction::Up,
        }
    }

    pub fn unit_vector(&self) -> (r: Position)
        ensures
            r.x == unit_of(*self).0,
            r.y == unit_of(*self).1,
    {
        match self {
            Direction::Right => Position::new(1, 0),
            Direction::Left => Position::new(-1, 0),
            Direction::Up => Position::new(0, 1),
            Direction::Down => Position::new(0, -1),
        }
    }
}

} // verus!
