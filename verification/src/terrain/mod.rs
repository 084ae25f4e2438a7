//! Terrain generation driven step by step from the keyboard.

pub mod mapgen_viz;
