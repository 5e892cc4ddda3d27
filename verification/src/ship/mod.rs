//! The player's ship: how it is steered, kept in view, damaged and healed.

pub mod data;
pub mod systems;

pub use data::{player_ship_points, setup_player, PlayerShip};
pub use systems::{
    check_ship_bounds, check_ship_collisions, heal_player, player_input_and_movement, Controls,
    ShipCollision, ShipEvent,
};
