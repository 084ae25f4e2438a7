use vstd::prelude::*;

use crate::conveyor::{
    Conveyor, NORTH_AND_SOUTH_AND_WEST_TO_EAST, NORTH_AND_SOUTH_TO_EAST, SOUTH_AND_WEST_TO_EAST,
    SOUTH_TO_EAST, WEST_TO_EAST,
};
use crate::factory_game::conveyor_belts::belt_flip;
use crate::factory_game::helpers::{
    conveyor_of, square_of, square_opposite, ConveyorDirection, SquareDirection, TileFlip,
};
use crate::tiles::{east_relative, make_east_relative, neighbor_at, Neighbors};

verus! {

/// Whether the neighbour in direction `d` holds a conveyor sending payloads
/// to this tile.
pub open spec fn feeds_here(neighbors: Neighbors<Conveyor>, d: SquareDirection) -> bool {
    match neighbor_at(neighbors, d) {
        Some(c) => c.0 == conveyor_of(square_opposite(d)),
        None => false,
    }
}

/// Just the side neighbours that send payloads to this tile.
pub open spec fn feeding_neighbors(neighbors: Neighbors<Conveyor>) -> Neighbors<Conveyor> {
    Neighbors {
        north: if feeds_here(neighbors, SquareDirection::North) { neighbors.north } else { None },
        east: if feeds_here(neighbors, SquareDirection::East) { neighbors.east } else { None },
        south: if feeds_here(neighbors, SquareDirection::South) { neighbors.south } else { None },
        west: if feeds_here(neighbors, SquareDirection::West) { neighbors.west } else { None },
        north_east: None,
        north_west: None,
        south_west: None,
        south_east: None,
    }
}

/// The sheet index for a conveyor sending east that is fed from the sides
/// that are set, and whether to mirror it along y. A conveyor fed from the
/// east, or from no side at all, is drawn straight.
pub open spec fn east_conveyor_index(n: bool, e: bool, s: bool, w: bool) -> (u32, bool) {
    if e {
        (WEST_TO_EAST, false)
    } else if !n && !s && w {
        (WEST_TO_EAST, false)
    } else if !n && s && w {
        (SOUTH_AND_WEST_TO_EAST, false)
    } else if n && !s && w {
        (SOUTH_AND_WEST_TO_EAST, true)
    } else if !n && s && !w {
        (SOUTH_TO_EAST, false)
    } else if n && !s && !w {
        (SOUTH_TO_EAST, true)
    } else if n && s && !w {
        (NORTH_AND_SOUTH_TO_EAST, false)
    } else if n && s && w {
        (NORTH_AND_SOUTH_AND_WEST_TO_EAST, false)
    } else {
        (WEST_TO_EAST, false)
    }
}

/// The sheet index and flip of a conveyor sending payloads in direction
/// `out`: its feeding neighbours are turned so that `out` becomes east, the
/// matching east-facing sprite is chosen, and it is turned back.
pub open spec fn conveyor_tile(out: ConveyorDirection, neighbors: Neighbors<Conveyor>) -> (u32, TileFlip) {
    let rel = east_relative(feeding_neighbors(neighbors), square_of(out));
    let (index, y_flip) = east_conveyor_index(rel.north is Some, rel.east is Some, rel.south is Some, rel.west is Some);
    (index, belt_flip(out, y_flip))
}

/// Keeps the neighbour if it sends payloads in direction `d`.
fn keep_if_sending(neighbor: &Option<Conveyor>, d: ConveyorDirection) -> (r: Option<Conveyor>)
    ensures
        r == match *neighbor {
            Some(c) => if c.0 == d { Some(c) } else { None },
            None => None,
        },
{
    match neighbor {
        Some(c) => if c.0 == d { Some(*c) } else { None },
        None => None,
    }
}

/// The sheet index and flip of a conveyor sending payloads in direction
/// `out`, from the conveyors around it.
pub fn update_conveyor_tile(out: ConveyorDirection, neighbors: &Neighbors<Conveyor>) -> (r: (u32, TileFlip))
    ensures
        r == conveyor_tile(out, *neighbors),
{
    let out_dir = out.to_square();

    // Just the conveyors pointing towards this one.
    let incoming = Neighbors {
        north: keep_if_sending(&neighbors.north, ConveyorDirection::South),
        east: keep_if_sending(&neighbors.east, ConveyorDirection::West),
        south: keep_if_sending(&neighbors.south, ConveyorDirection::North),
        west: keep_if_sending(&neighbors.west, ConveyorDirection::East),
        north_east: None,
        north_west: None,
        south_west: None,
        south_east: None,
    };
    assert(incoming == feeding_neighbors(*neighbors));

    // Turn all of this so that east is always the "out" direction.
    let rel = make_east_relative(incoming, out_dir);
    let n = rel.north.is_some();
    let e = rel.east.is_some();
    let s = rel.south.is_some();
    let w = rel.west.is_some();

    let (index, y_flip) = if e {
        (WEST_TO_EAST, false)
    } else if !n && !s && w {
        (WEST_TO_EAST, false)
    } else if !n && s && w {
        (SOUTH_AND_WEST_TO_EAST, false)
    } else if n && !s && w {
        (SOUTH_AND_WEST_TO_EAST, true)
    } else if !n && s && !w {
        (SOUTH_TO_EAST, false)
    } else if n && !s && !w {
        (SOUTH_TO_EAST, true)
    } else if n && s && !w {
        (NORTH_AND_SOUTH_TO_EAST, false)
    } else if n && s && w {
        (NORTH_AND_SOUTH_AND_WEST_TO_EAST, false)
    } else {
        (WEST_TO_EAST, false)
    };

    // y_flip tells whether to flip y in the "east is out" orientation; turning
    // the tile to face `out` makes it an x flip for north and south.
    let flip = match out {
        ConveyorDirection::North => TileFlip { x: y_flip, y: true, d: true },
        ConveyorDirection::South => TileFlip { x: !y_flip, y: false, d: true },
        ConveyorDirection::East => TileFlip { x: false, y: y_flip, d: false },
        ConveyorDirection::West => TileFlip { x: true, y: !y_flip, d: false },
    };
    (index, flip)
}

} // verus!
