//! A small top-down arena shooter, as a simulation core without a window.
//!
//! All lengths are whole numbers of micro-units ([`vector::UNIT`] of them make
//! one arena unit), and an angle is held as a vector that points along it, so
//! that every step of the simulation is exact integer arithmetic.

pub mod collision;
pub mod entity;
pub mod game;
pub mod shape;
pub mod spawn;
pub mod transform;
pub mod vector;

pub use game::Config;
pub use game::Game;
pub use vector::Rotation;
pub use vector::Vec2;
