//! The short-lived marks that a collision leaves.

pub mod data;
pub mod systems;

pub use data::{Explosion, ExplosionEvent};
pub use systems::explosion_system;
