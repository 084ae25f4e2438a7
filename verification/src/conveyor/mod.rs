//! The first conveyor prototype: each tile holds at most one conveyor, which
//! sends payloads in a single direction and is drawn from a fixed strip of
//! the sprite sheet.

pub mod generator;
pub mod interaction;
pub mod payload;
pub mod visuals;

use vstd::prelude::*;

use crate::factory_game::helpers::ConveyorDirection;

verus! {

/// A conveyor that sends payloads in direction `.0`.
#[derive(PartialEq, Eq, Structural, Clone, Copy, Debug)]
pub struct Conveyor(pub ConveyorDirection);

impl Default for Conveyor {
    fn default() -> (r: Self)
        ensures
            r == Conveyor(ConveyorDirection::North),
    {
        Conveyor(ConveyorDirection::North)
    }
}

/// Sheet index of the straight belt, fed from the west and sending east.
pub const WEST_TO_EAST: u32 = 11;

/// Sheet index of the belt fed from the south and the west, sending east.
pub const SOUTH_AND_WEST_TO_EAST: u32 = 12;

/// Sheet index of the corner belt fed from the south, sending east.
pub const SOUTH_TO_EAST: u32 = 13;

/// Sheet index of the belt fed from the north and the south, sending east.
pub const NORTH_AND_SOUTH_TO_EAST: u32 = 14;

/// Sheet index of the belt fed from the north, the south and the west,
/// sending east.
pub const NORTH_AND_SOUTH_AND_WEST_TO_EAST: u32 = 15;

/// Sheet index of the empty square shown on the hovered tile when no
/// conveyor is chosen.
pub const BLANK_SQUARE: u32 = 20;

} // verus!
