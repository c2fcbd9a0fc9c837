use manfreds_apokalypse::{handle_acceleration, Direction, Manfred, PressedDirections, Velocity};

/// The velocity that the game gives its actor: ten steps to a top speed of 5.
type ActorVelocity = Velocity<10>;

struct World {
    manfred: Manfred,
    velocity: ActorVelocity,
    pressed: PressedDirections,
}

impl World {
    fn init() -> World {
        World {
            manfred: Manfred::default(),
            velocity: ActorVelocity::new(5),
            pressed: PressedDirections { up: false, down: false, left: false, right: false },
        }
    }

    fn run_step(&mut self) {
        handle_acceleration(self.pressed, &mut self.velocity, &mut self.manfred);
    }
}

#[test]
fn when_no_key_pressed_then_does_not_move() {
    let mut world = World::init();

    world.run_step();

    assert!(!world.velocity.is_moving());
    assert_eq!(Direction::Down, world.manfred.view_direction);
}

// At one step of ten a top speed of 5 truncates to a speed of 0: the first
// tick of a pressed key shows in the step counts (the actor is moving), and
// the speed only from the second tick on.

#[test]
fn when_a_pressed_then_accelerates_left() {
    let mut world = World::init();
    world.pressed.left = true;

    world.run_step();

    let velocity_after_step_1 = world.velocity.clone();
    assert!(velocity_after_step_1.is_moving());
    assert_eq!(0, velocity_after_step_1.x());
    assert_eq!(0, velocity_after_step_1.y());
    assert_eq!(Direction::Left, world.manfred.view_direction);

    world.run_step();

    assert!(world.velocity.x() < velocity_after_step_1.x());
    assert_eq!(0, world.velocity.y());
    assert_eq!(Direction::Left, world.manfred.view_direction);
}

#[test]
fn when_d_pressed_then_accelerates_right() {
    let mut world = World::init();
    world.pressed.right = true;

    world.run_step();

    let velocity_after_step_1 = world.velocity.clone();
    assert!(velocity_after_step_1.is_moving());
    assert_eq!(0, velocity_after_step_1.x());
    assert_eq!(0, velocity_after_step_1.y());
    assert_eq!(Direction::Right, world.manfred.view_direction);

    world.run_step();

    assert!(world.velocity.x() > velocity_after_step_1.x());
    assert_eq!(0, world.velocity.y());
    assert_eq!(Direction::Right, world.manfred.view_direction);
}

#[test]
fn when_s_pressed_then_accelerates_downwards() {
    let mut world = World::init();
    world.pressed.down = true;

    world.run_step();

    let velocity_after_step_1 = world.velocity.clone();
    assert!(velocity_after_step_1.is_moving());
    assert_eq!(0, velocity_after_step_1.x());
    assert_eq!(0, velocity_after_step_1.y());
    assert_eq!(Direction::Down, world.manfred.view_direction);

    world.run_step();

    assert_eq!(0, world.velocity.x());
    assert!(world.velocity.y() < velocity_after_step_1.y());
    assert_eq!(Direction::Down, world.manfred.view_direction);
}

#[test]
fn when_w_pressed_then_accelerates_upwards() {
    let mut world = World::init();
    world.pressed.up = true;

    world.run_step();

    let velocity_after_step_1 = world.velocity.clone();
    assert!(velocity_after_step_1.is_moving());
    assert_eq!(0, velocity_after_step_1.x());
    assert_eq!(0, velocity_after_step_1.y());
    assert_eq!(Direction::Up, world.manfred.view_direction);

    world.run_step();

    assert_eq!(0, world.velocity.x());
    assert!(world.velocity.y() > velocity_after_step_1.y());
    assert_eq!(Direction::Up, world.manfred.view_direction);
}

#[test]
fn when_w_and_then_d_pressed_then_accelerates_diagonally() {
    let mut world = World::init();
    world.pressed.up = true;
    world.pressed.right = true;

    world.run_step();

    let velocity_after_step_1 = world.velocity.clone();
    assert!(velocity_after_step_1.is_moving());
    assert_eq!(0, velocity_after_step_1.x());
    assert_eq!(0, velocity_after_step_1.y());
    assert_eq!(Direction::Up, world.manfred.view_direction);

    world.run_step();

    assert!(world.velocity.x() > velocity_after_step_1.x());
    assert!(world.velocity.y() > velocity_after_step_1.y());
    assert_eq!(Direction::Up, world.manfred.view_direction);
}

#[test]
fn when_opposite_directions_pressed_then_does_not_move() {
    let mut world = World::init();
    world.pressed.left = true;
    world.pressed.right = true;

    world.run_step();

    assert!(!world.velocity.is_moving());
    assert_eq!(Direction::Down, world.manfred.view_direction);
}

#[test]
fn when_button_is_released_then_stops_moving_but_keeps_view_direction() {
    let mut world = World::init();
    world.pressed.right = true;

    world.run_step();

    assert!(world.velocity.is_moving());
    assert_eq!(Direction::Right, world.manfred.view_direction);

    world.pressed.right = false;

    world.run_step();

    assert!(!world.velocity.is_moving());
    assert_eq!(Direction::Right, world.manfred.view_direction);
}

#[test]
fn held_keys_reach_top_speed_and_release_decays_step_by_step() {
    let mut world = World::init();
    world.pressed.left = true;
    for _ in 0..12 {
        world.run_step();
    }
    assert_eq!(-5, world.velocity.x());
    world.pressed.left = false;
    world.run_step();
    // nine steps of ten: 9 * 5 / 10 = 4
    assert_eq!(-4, world.velocity.x());
    assert_eq!(Direction::Left, world.manfred.view_direction);
}
