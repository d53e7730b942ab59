//! Simulation core of a two-player arcade llama battle: fixed-step movement,
//! timed power-ups, player and bonus collisions, scoring and the bonus
//! spawner. Lengths are in millionths of a world unit and times in
//! microseconds, so every rule is integer arithmetic.
mod random;

pub mod bonus;
pub mod collision;
pub mod config;
pub mod digits;
pub mod display;
pub mod factory;
pub mod game;
pub mod geometry;
pub mod mutation;
pub mod particles;
pub mod player;
pub mod ui;
