//! Motion model of a single controllable 2D actor: bounded step counters,
//! a velocity built from two of them with speed scaling, and the
//! classification of a velocity into a facing direction.
pub mod control;
pub mod direction;
pub mod laws;
pub mod limited_int;
pub mod manfred;
pub mod position;
pub mod velocity;

pub use control::{handle_acceleration, PressedDirections};
pub use direction::Direction;
pub use limited_int::LimitedInt;
pub use manfred::{Manfred, MANFRED_SPRITE_ATLAS_COLUMNS};
pub use position::Position;
pub use velocity::Velocity;
