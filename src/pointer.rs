//! A directed cursor over the grid.
use vstd::prelude::*;

use crate::position::{pos_add, unit_of, Direction, Position};

verus! {

/// The position reached from `p` after `n` unit steps in direction `d`,
/// wrapping on overflow.
pub open spec fn moved(p: Position, d: Direction, n: int) -> Position {
    pos_add(p, Position { x: (unit_of(d).0 * n) as isize, y: (unit_of(d).1 * n) as isize })
}

/// A cursor: where it is, where it faces, its byte register and its own
/// stack of saved positions.
#[derive(Debug)]
pub struct Pointer {
    pub position: Position,
    pub direction: Direction,
    pub position_stack: Vec<Position>,
    pub value: u8,
}

/// What a pointer holds, as mathematical values.
pub struct PointerView {
    pub position: Position,
    pub direction: Direction,
    pub stack: Seq<Position>,
    pub value: u8,
}

impl View for Pointer {
    type V = PointerView;

    open spec fn view(&self) -> PointerView {
        PointerView {
            position: self.position,
            direction: self.direction,
            stack: self.position_stack@,
            value: self.value,
        }
    }
}

/// The position after `k` single steps in direction `d`.
pub open spec fn walk(p: Position, d: Direction, k: nat) -> Position
    decreases k,
{
    if k == 0 {
        p
    } else {
        moved(walk(p, d, (k - 1) as nat), d, 1)
    }
}

/// The position `n` cells from `p` in direction `d`.
pub fn advance(p: Position, d: Direction, n: u8) -> (r: Position)
    ensures
        r == moved(p, d, n as int),
{
    let unit = d.unit_vector();
    let k = n as isize;
    let delta = Position::new(unit.x * k, unit.y * k);
    p + delta
}

impl Pointer {
    /// A pointer at `position` facing `direction`, with an empty stack and a
    /// zero register.
    pub fn new(position: Position, direction: Direction) -> (r: Pointer)
        ensures
            r.position == position,
            r.direction == direction,
            r.position_stack@ == Seq::<Position>::empty(),
            r.value == 0,
    {
        Pointer { position, direction, position_stack: Vec::new(), value: 0 }
    }

    /// A fresh pointer that takes only the position and direction of `other`.
    pub fn from_other(other: &Pointer) -> (r: Pointer)
        ensures
            r.position == other.position,
            r.direction == other.direction,
            r.position_stack@ == Seq::<Position>::empty(),
            r.value == 0,
    {
        Pointer::new(other.position, other.direction)
    }

    /// Moves `amount` cells in the pointer's direction.
    pub fn move_pointer(&mut self, amount: u8)
        ensures
            final(self).position == moved(old(self).position, old(self).direction, amount as int),
            final(self).direction == old(self).direction,
            final(self).position_stack == old(self).position_stack,
            final(self).value == old(self).value,
    {
        self.position = advance(self.position, self.direction, amount);
    }
}

} // verus!
