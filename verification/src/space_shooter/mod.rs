//! The space shooter: the player's ship against waves of enemies.

pub mod enemy;
