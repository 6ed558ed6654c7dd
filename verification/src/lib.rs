//! The game logic of the owo pixel-art series: an entity-component store,
//! sprite animation tables, grid layout, input state and the per-frame
//! command planning, all verified with Verus.

pub mod config;
pub mod error;
pub mod ecs;
pub mod sprite;
pub mod animation;
pub mod grid;
pub mod colour;
mod random;
pub mod input;
pub mod command;
