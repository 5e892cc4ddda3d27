//! Bullets: how they are fired, how they fly and what they destroy.

pub mod data;
pub mod systems;

pub use data::{bullet_points, Bullet};
pub use systems::{
    break_up, check_bullet_bounds, check_bullet_collisions, fragment, move_bullets, BulletHit,
    Destruction, Fragment,
};
