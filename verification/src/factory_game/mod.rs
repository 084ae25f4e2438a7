//! The factory game: conveyors and the machines placed on the tile grid.

pub mod bridge;
pub mod conveyor;
pub mod conveyor_belts;
pub mod distributor;
pub mod generator;
pub mod helpers;
pub mod interaction;
pub mod payload_handler;
pub mod operators;
pub mod payloads;
pub mod sink;
