use vstd::prelude::*;

use crate::velocity::Velocity;

verus! {

/// Where an actor stands, in whole units of the playing field.
#[derive(Clone, Copy, Debug, PartialEq, Eq, Structural)]
pub struct Position {
    pub x: i32,
    pub y: i32,
}

impl Position {
    /// The position `(x, y)`.
    pub fn new(x: i32, y: i32) -> (r: Position)
        ensures
            r.x == x,
            r.y == y,
    {
        Position { x, y }
    }

    /// Moves by one tick of `velocity`: its speed along each axis is added to
    /// the matching coordinate.
    pub fn advance<const ACCELERATION_STEPS: u16>(&mut self, velocity: &Velocity<ACCELERATION_STEPS>)
        requires
            i32::MIN <= old(self).x + velocity.spec_x() <= i32::MAX,
            i32::MIN <= old(self).y + velocity.spec_y() <= i32::MAX,
        ensures
            final(self).x == old(self).x + velocity.spec_x(),
            final(self).y == old(self).y + velocity.spec_y(),
    {
        self.x = self.x + velocity.x();
        self.y = self.y + velocity.y();
    }
}

impl Default for Position {
    /// The origin.
    fn default() -> (r: Position)
        ensures
            r.x == 0,
            r.y == 0,
    {
        Position::new(0, 0)
    }
}

} // verus!
