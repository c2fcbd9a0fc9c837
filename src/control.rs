use vstd::prelude::*;

use crate::direction::Direction;
use crate::manfred::Manfred;
use crate::velocity::{accelerated, decelerated, direction_of, Velocity};

verus! {

/// Which of the four direction controls are held during one tick.
#[derive(Clone, Copy, Debug, PartialEq, Eq, Structural)]
pub struct PressedDirections {
    pub up: bool,
    pub down: bool,
    pub left: bool,
    pub right: bool,
}

/// The step pair after one control signal: accelerated towards `direction`
/// when it is pressed, released otherwise.
pub open spec fn signalled(steps: (int, int), direction: Direction, pressed: bool, limit: int) -> (
    int,
    int,
) {
    if pressed {
        accelerated(steps, direction, limit)
    } else {
        decelerated(steps, direction)
    }
}

/// The step pair after one tick of input: the signals for left, right, up
/// and down, in this order.
pub open spec fn controlled(steps: (int, int), pressed: PressedDirections, limit: int) -> (int, int) {
    let after_left = signalled(steps, Direction::Left, pressed.left, limit);
    let after_right = signalled(after_left, Direction::Right, pressed.right, limit);
    let after_up = signalled(after_right, Direction::Up, pressed.up, limit);
    signalled(after_up, Direction::Down, pressed.down, limit)
}

fn signal<const ACCELERATION_STEPS: u16>(
    velocity: &mut Velocity<ACCELERATION_STEPS>,
    direction: Direction,
    pressed: bool,
)
    ensures
        final(velocity)@ == signalled(old(velocity)@, direction, pressed, ACCELERATION_STEPS as int),
        final(velocity).spec_max_speed() == old(velocity).spec_max_speed(),
{
    if pressed {
        velocity.accelerate(direction);
    } else {
        velocity.decelerate(direction);
    }
}

/// Applies one tick of input to `velocity`, then turns `manfred` to face
/// the new velocity if it is moving; at rest it keeps its view direction.
pub fn handle_acceleration<const ACCELERATION_STEPS: u16>(
    pressed: PressedDirections,
    velocity: &mut Velocity<ACCELERATION_STEPS>,
    manfred: &mut Manfred,
)
    ensures
        final(velocity)@ == controlled(old(velocity)@, pressed, ACCELERATION_STEPS as int),
        final(velocity).spec_max_speed() == old(velocity).spec_max_speed(),
        final(manfred).view_direction == if final(velocity).spec_is_moving() {
            direction_of(final(velocity)@)
        } else {
            old(manfred).view_direction
        },
{
    signal(velocity, Direction::Left, pressed.left);
    signal(velocity, Direction::Right, pressed.right);
    signal(velocity, Direction::Up, pressed.up);
    signal(velocity, Direction::Down, pressed.down);
    if velocity.is_moving() {
        manfred.view_direction = velocity.get_direction();
    }
}

} // verus!
