use vstd::prelude::*;

use crate::direction::Direction;

verus! {

/// Number of animation frames in each row of the actor's sprite atlas.
pub const MANFRED_SPRITE_ATLAS_COLUMNS: u32 = 8;

/// The row of the sprite atlas that shows the actor facing `direction`.
pub open spec fn sprite_row(direction: Direction) -> int {
    match direction {
        Direction::Down => 0,
        Direction::Left => 1,
        Direction::Right => 2,
        Direction::Up => 3,
    }
}

/// The player's actor; it remembers the direction it last moved in.
#[derive(Clone, Copy, Debug, PartialEq, Eq, Structural)]
pub struct Manfred {
    pub view_direction: Direction,
}

impl Manfred {
    /// The sprite to show next, given the one shown now: while moving, the
    /// next frame of the row for the view direction (wrapping round); at
    /// rest, the first frame of that row.
    pub fn sprite_index(&self, current_index: u32, is_moving: bool) -> (r: u32)
        ensures
            r == (if is_moving {
                (current_index + 1) % (MANFRED_SPRITE_ATLAS_COLUMNS as int)
            } else {
                0
            }) + sprite_row(self.view_direction) * MANFRED_SPRITE_ATLAS_COLUMNS,
    {
        let frame = if !is_moving {
            0
        } else {
            (current_index % MANFRED_SPRITE_ATLAS_COLUMNS + 1) % MANFRED_SPRITE_ATLAS_COLUMNS
        };
        let row: u32 = match self.view_direction {
            Direction::Down => 0,
            Direction::Left => 1,
            Direction::Right => 2,
            Direction::Up => 3,
        };
        frame + row * MANFRED_SPRITE_ATLAS_COLUMNS
    }
}

impl Default for Manfred {
    /// Facing down, towards the viewer.
    fn default() -> (r: Manfred)
        ensures
            r.view_direction == Direction::Down,
    {
        Manfred { view_direction: Direction::Down }
    }
}

} // verus!
