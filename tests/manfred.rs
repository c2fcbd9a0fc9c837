use manfreds_apokalypse::{Direction, Manfred, Position, Velocity, MANFRED_SPRITE_ATLAS_COLUMNS};

#[test]
fn manfred_faces_down_by_default() {
    assert_eq!(Direction::Down, Manfred::default().view_direction);
}

#[test]
fn sprite_index_at_rest_is_the_first_frame_of_the_row() {
    let manfred = Manfred { view_direction: Direction::Down };
    assert_eq!(0, manfred.sprite_index(5, false));
    let manfred = Manfred { view_direction: Direction::Left };
    assert_eq!(8, manfred.sprite_index(13, false));
    let manfred = Manfred { view_direction: Direction::Right };
    assert_eq!(16, manfred.sprite_index(0, false));
    let manfred = Manfred { view_direction: Direction::Up };
    assert_eq!(24, manfred.sprite_index(3, false));
}

#[test]
fn sprite_index_while_moving_advances_and_wraps() {
    let manfred = Manfred { view_direction: Direction::Up };
    assert_eq!(25, manfred.sprite_index(0, true));
    assert_eq!(31, manfred.sprite_index(6, true));
    assert_eq!(24, manfred.sprite_index(7, true));
    // a frame index taken from another row continues in this one
    assert_eq!(27, manfred.sprite_index(10, true));
    let manfred = Manfred { view_direction: Direction::Left };
    assert_eq!(8, manfred.sprite_index(u32::MAX, true));
    assert_eq!(8, MANFRED_SPRITE_ATLAS_COLUMNS);
}

#[test]
fn position_new_and_default() {
    let position = Position::new(3, -4);
    assert_eq!(3, position.x);
    assert_eq!(-4, position.y);
    assert_eq!(Position::new(0, 0), Position::default());
}

#[test]
fn position_advances_by_the_velocity() {
    let mut velocity = Velocity::<2>::new(40);
    velocity.accelerate(Direction::Right);
    velocity.accelerate(Direction::Down);
    velocity.accelerate(Direction::Down);
    // (1, -2): speed 40, 40 / sqrt(5) = 17.88..., 80 / sqrt(5) = 35.77...
    let mut position = Position::new(100, 100);
    position.advance(&velocity);
    assert_eq!(Position::new(118, 64), position);
    position.advance(&velocity);
    assert_eq!(Position::new(136, 28), position);
}
