use vstd::prelude::*;

use crate::conveyor::{SOUTH_TO_EAST, WEST_TO_EAST};
use crate::factory_game::helpers::{is_cardinal, opposite, square_opposite, ConveyorDirection, SquareDirection, TileFlip};

verus! {

/// The conveyor direction chosen for the hovered tile; `None` clears tiles.
#[derive(PartialEq, Eq, Structural, Clone, Copy, Debug)]
pub struct HoveredTile(pub Option<ConveyorDirection>);

/// The choice after `o`: none, then east, south, west, north, and none
/// again.
pub open spec fn next_hover_option(o: Option<ConveyorDirection>) -> Option<ConveyorDirection> {
    match o {
        None => Some(ConveyorDirection::East),
        Some(ConveyorDirection::East) => Some(ConveyorDirection::South),
        Some(ConveyorDirection::South) => Some(ConveyorDirection::West),
        Some(ConveyorDirection::West) => Some(ConveyorDirection::North),
        Some(ConveyorDirection::North) => None,
    }
}

impl HoveredTile {
    /// Moves on to the next choice.
    pub fn set_to_next_option(&mut self)
        ensures
            final(self).0 == next_hover_option(old(self).0),
    {
        self.0 = match self.0 {
            None => Some(ConveyorDirection::East),
            Some(ConveyorDirection::East) => Some(ConveyorDirection::South),
            Some(ConveyorDirection::South) => Some(ConveyorDirection::West),
            Some(ConveyorDirection::West) => Some(ConveyorDirection::North),
            Some(ConveyorDirection::North) => None,
        };
    }
}

/// Five moves to the next choice come back to the first.
pub proof fn law_hover_options_cycle(o: Option<ConveyorDirection>)
    ensures
        next_hover_option(next_hover_option(next_hover_option(next_hover_option(next_hover_option(o))))) == o,
{
}

/// The flip of no mirroring at all.
pub open spec fn no_flip() -> TileFlip {
    TileFlip { x: false, y: false, d: false }
}

/// The sheet index and flip of a conveyor that takes payloads in from the
/// side `from` and sends them out towards `to`; one that goes straight on
/// (or whose sides are the same) is a straight belt, the others corners.
pub open spec fn conveyor_between(from: SquareDirection, to: SquareDirection) -> (u32, TileFlip) {
    match (from, to) {
        (SquareDirection::West, SquareDirection::East) | (SquareDirection::East, SquareDirection::East) =>
            (WEST_TO_EAST, no_flip()),
        (SquareDirection::East, SquareDirection::West) | (SquareDirection::West, SquareDirection::West) =>
            (WEST_TO_EAST, TileFlip { x: true, y: false, d: false }),
        (SquareDirection::North, SquareDirection::South) | (SquareDirection::South, SquareDirection::South) =>
            (WEST_TO_EAST, TileFlip { x: false, y: false, d: true }),
        (SquareDirection::South, SquareDirection::North) | (SquareDirection::North, SquareDirection::North) =>
            (WEST_TO_EAST, TileFlip { x: false, y: true, d: true }),
        (SquareDirection::East, SquareDirection::North) => (SOUTH_TO_EAST, TileFlip { x: false, y: true, d: true }),
        (SquareDirection::East, SquareDirection::South) => (SOUTH_TO_EAST, TileFlip { x: false, y: false, d: true }),
        (SquareDirection::North, SquareDirection::East) => (SOUTH_TO_EAST, TileFlip { x: false, y: true, d: false }),
        (SquareDirection::North, SquareDirection::West) => (SOUTH_TO_EAST, TileFlip { x: true, y: true, d: false }),
        (SquareDirection::West, SquareDirection::North) => (SOUTH_TO_EAST, TileFlip { x: true, y: true, d: true }),
        (SquareDirection::West, SquareDirection::South) => (SOUTH_TO_EAST, TileFlip { x: true, y: false, d: true }),
        (SquareDirection::South, SquareDirection::East) => (SOUTH_TO_EAST, no_flip()),
        (SquareDirection::South, SquareDirection::West) => (SOUTH_TO_EAST, TileFlip { x: true, y: false, d: false }),
        _ => (WEST_TO_EAST, no_flip()),
    }
}

/// The sheet index and flip of a conveyor from side `from` towards `to`.
/// Both must be sides, not corners.
pub fn get_conveyor_tile(from: SquareDirection, to: SquareDirection) -> (r: (u32, TileFlip))
    requires
        is_cardinal(from),
        is_cardinal(to),
    ensures
        r == conveyor_between(from, to),
        r.0 == if from == to || from == square_opposite(to) {
            WEST_TO_EAST
        } else {
            SOUTH_TO_EAST
        },
{
    match (from, to) {
        // straights
        (SquareDirection::West, SquareDirection::East) | (SquareDirection::East, SquareDirection::East) => (
            WEST_TO_EAST,
            TileFlip { x: false, y: false, d: false },
        ),
        (SquareDirection::East, SquareDirection::West) | (SquareDirection::West, SquareDirection::West) => (
            WEST_TO_EAST,
            TileFlip { x: true, y: false, d: false },
        ),
        (SquareDirection::North, SquareDirection::South) | (SquareDirection::South, SquareDirection::South) => (
            WEST_TO_EAST,
            TileFlip { x: false, y: false, d: true },
        ),
        (SquareDirection::South, SquareDirection::North) | (SquareDirection::North, SquareDirection::North) => (
            WEST_TO_EAST,
            TileFlip { x: false, y: true, d: true },
        ),
        // corners
        (SquareDirection::East, SquareDirection::North) => (SOUTH_TO_EAST, TileFlip { d: true, y: true, x: false }),
        (SquareDirection::East, SquareDirection::South) => (SOUTH_TO_EAST, TileFlip { d: true, x: false, y: false }),
        (SquareDirection::North, SquareDirection::East) => (SOUTH_TO_EAST, TileFlip { y: true, x: false, d: false }),
        (SquareDirection::North, SquareDirection::West) => (SOUTH_TO_EAST, TileFlip { x: true, y: true, d: false }),
        (SquareDirection::West, SquareDirection::North) => (SOUTH_TO_EAST, TileFlip { d: true, x: true, y: true }),
        (SquareDirection::West, SquareDirection::South) => (SOUTH_TO_EAST, TileFlip { d: true, x: true, y: false }),
        (SquareDirection::South, SquareDirection::East) => (SOUTH_TO_EAST, TileFlip { x: false, y: false, d: false }),
        (SquareDirection::South, SquareDirection::West) => (SOUTH_TO_EAST, TileFlip { x: true, y: false, d: false }),
        _ => (WEST_TO_EAST, TileFlip { x: false, y: false, d: false }),
    }
}

/// The tile shown on the hovered tile for a conveyor sending payloads in
/// direction `direction`: a straight belt, fed from behind.
pub fn get_hover_tile(direction: SquareDirection) -> (r: (u32, TileFlip))
    requires
        is_cardinal(direction),
    ensures
        r == conveyor_between(square_opposite(direction), direction),
        r.0 == WEST_TO_EAST,
{
    get_conveyor_tile(opposite(direction), direction)
}

} // verus!
