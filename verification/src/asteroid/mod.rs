//! Asteroids: their size classes, their outlines and the rules that move,
//! spawn and remove them.

pub mod data;
pub mod systems;

pub use data::{
    generate_polygon, polar_vertex, Asteroid, AsteroidParameters, AsteroidSize, PolarPoint,
};
