//! The first version of the space shooter: a ship with a gun, and an enemy
//! every half minute.

pub mod bullets;
pub mod enemy;
pub mod player;
