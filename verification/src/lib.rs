//! Verified game logic of a tile-based factory automation game and its
//! companions: conveyor directions, belts and their sprites, payload
//! transport lines, distributors, generators, bridges, sinks, operators and
//! tool selection; a first conveyor prototype with its hover cursor and
//! generator; the wave and cooldown timers of a small space shooter; and
//! wave-function-collapse map generation with its step controls.

pub mod conveyor;
pub mod factory_game;
pub mod game;
pub mod mapgen;
pub mod space_shooter;
pub mod terrain;
pub mod sprite_sheet;
pub mod tiles;
