use vstd::prelude::*;

use crate::factory_game::helpers::{is_cardinal, SquareDirection};

verus! {

/// A position on the tile grid, counted from the bottom-left corner.
#[derive(PartialEq, Eq, Structural, Clone, Copy, Debug)]
pub struct TilePos {
    pub x: u32,
    pub y: u32,
}

/// The width and height of a tile grid.
#[derive(PartialEq, Eq, Structural, Clone, Copy, Debug)]
pub struct TilemapSize {
    pub x: u32,
    pub y: u32,
}

/// Whether a point with integer coordinates lies on a map of the given size.
pub open spec fn on_map(x: int, y: int, size: TilemapSize) -> bool {
    0 <= x < size.x && 0 <= y < size.y
}

/// The step taken along x and along y when moving one tile in direction `d`.
pub open spec fn step_of(d: SquareDirection) -> (int, int) {
    match d {
        SquareDirection::East => (1, 0),
        SquareDirection::NorthEast => (1, 1),
        SquareDirection::North => (0, 1),
        SquareDirection::NorthWest => (-1, 1),
        SquareDirection::West => (-1, 0),
        SquareDirection::SouthWest => (-1, -1),
        SquareDirection::South => (0, -1),
        SquareDirection::SouthEast => (1, -1),
    }
}

/// The tile one step from `pos` in direction `d`, if it lies on the map.
pub open spec fn offset_of(pos: TilePos, d: SquareDirection, size: TilemapSize) -> Option<TilePos> {
    let x = pos.x + step_of(d).0;
    let y = pos.y + step_of(d).1;
    if on_map(x, y, size) {
        Some(TilePos { x: x as u32, y: y as u32 })
    } else {
        None
    }
}

impl TilePos {
    /// The neighbouring tile in direction `direction`, if it lies on the map.
    pub fn square_offset(&self, direction: &SquareDirection, map_size: &TilemapSize) -> (r: Option<
        TilePos,
    >)
        ensures
            r == offset_of(*self, *direction, *map_size),
    {
        let (dx, dy): (i8, i8) = match direction {
            SquareDirection::East => (1, 0),
            SquareDirection::NorthEast => (1, 1),
            SquareDirection::North => (0, 1),
            SquareDirection::NorthWest => (-1, 1),
            SquareDirection::West => (-1, 0),
            SquareDirection::SouthWest => (-1, -1),
            SquareDirection::South => (0, -1),
            SquareDirection::SouthEast => (1, -1),
        };
        let x: i64 = self.x as i64 + dx as i64;
        let y: i64 = self.y as i64 + dy as i64;
        if 0 <= x && x < map_size.x as i64 && 0 <= y && y < map_size.y as i64 {
            Some(TilePos { x: x as u32, y: y as u32 })
        } else {
            None
        }
    }

    /// The index of this tile in a row-by-row listing of the map.
    pub fn to_index(&self, map_size: &TilemapSize) -> (r: usize)
        requires
            self.y * map_size.x + self.x <= usize::MAX,
        ensures
            r == self.y * map_size.x + self.x,
    {
        (self.y as usize) * (map_size.x as usize) + (self.x as usize)
    }
}

/// Values attached to the eight neighbours of a tile; a neighbour that is not
/// there holds `None`.
#[derive(Debug)]
pub struct Neighbors<T> {
    pub north: Option<T>,
    pub east: Option<T>,
    pub south: Option<T>,
    pub west: Option<T>,
    pub north_east: Option<T>,
    pub north_west: Option<T>,
    pub south_west: Option<T>,
    pub south_east: Option<T>,
}

/// The value held for the neighbour in direction `d`.
pub open spec fn neighbor_at<T>(n: Neighbors<T>, d: SquareDirection) -> Option<T> {
    match d {
        SquareDirection::East => n.east,
        SquareDirection::NorthEast => n.north_east,
        SquareDirection::North => n.north,
        SquareDirection::NorthWest => n.north_west,
        SquareDirection::West => n.west,
        SquareDirection::SouthWest => n.south_west,
        SquareDirection::South => n.south,
        SquareDirection::SouthEast => n.south_east,
    }
}

impl<T> Neighbors<T> {
    /// The value held for the neighbour in direction `direction`.
    pub fn get(&self, direction: SquareDirection) -> (r: Option<&T>)
        ensures
            r == match neighbor_at(*self, direction) {
                Some(v) => Some(&v),
                None => None::<&T>,
            },
    {
        match direction {
            SquareDirection::East => self.east.as_ref(),
            SquareDirection::NorthEast => self.north_east.as_ref(),
            SquareDirection::North => self.north.as_ref(),
            SquareDirection::NorthWest => self.north_west.as_ref(),
            SquareDirection::West => self.west.as_ref(),
            SquareDirection::SouthWest => self.south_west.as_ref(),
            SquareDirection::South => self.south.as_ref(),
            SquareDirection::SouthEast => self.south_east.as_ref(),
        }
    }
}

impl Neighbors<TilePos> {
    /// The positions of the four side neighbours of `tile_pos` that lie on
    /// the map; diagonal neighbours are `None`.
    pub fn get_square_neighboring_positions(tile_pos: &TilePos, map_size: &TilemapSize) -> (r:
        Neighbors<TilePos>)
        ensures
            forall|d: SquareDirection|
                #[trigger] neighbor_at(r, d) == if is_cardinal(d) {
                    offset_of(*tile_pos, d, *map_size)
                } else {
                    None
                },
    {
        Neighbors {
            north: tile_pos.square_offset(&SquareDirection::North, map_size),
            east: tile_pos.square_offset(&SquareDirection::East, map_size),
            south: tile_pos.square_offset(&SquareDirection::South, map_size),
            west: tile_pos.square_offset(&SquareDirection::West, map_size),
            north_east: None,
            north_west: None,
            south_west: None,
            south_east: None,
        }
    }
}

/// The neighbours of `n`, relabelled so that direction `d` becomes east: what
/// lay in direction `d` is now east, and so on round the compass.
pub open spec fn east_relative<T>(n: Neighbors<T>, d: SquareDirection) -> Neighbors<T> {
    match d {
        SquareDirection::North => Neighbors {
            north: n.west,
            east: n.north,
            south: n.east,
            west: n.south,
            north_east: None,
            north_west: None,
            south_west: None,
            south_east: None,
        },
        SquareDirection::South => Neighbors {
            north: n.east,
            east: n.south,
            south: n.west,
            west: n.north,
            north_east: None,
            north_west: None,
            south_west: None,
            south_east: None,
        },
        SquareDirection::West => Neighbors {
            north: n.south,
            east: n.west,
            south: n.north,
            west: n.east,
            north_east: None,
            north_west: None,
            south_west: None,
            south_east: None,
        },
        _ => n,
    }
}

/// Rotates the neighbours so that `direction` becomes east. Diagonal
/// neighbours are dropped unless the direction already is east.
pub fn make_east_relative<T>(neighbors: Neighbors<T>, direction: SquareDirection) -> (r: Neighbors<T>)
    requires
        is_cardinal(direction),
    ensures
        r == east_relative(neighbors, direction),
{
    match direction {
        SquareDirection::North => Neighbors {
            north: neighbors.west,
            east: neighbors.north,
            south: neighbors.east,
            west: neighbors.south,
            north_east: None,
            north_west: None,
            south_west: None,
            south_east: None,
        },
        SquareDirection::South => Neighbors {
            north: neighbors.east,
            east: neighbors.south,
            south: neighbors.west,
            west: neighbors.north,
            north_east: None,
            north_west: None,
            south_west: None,
            south_east: None,
        },
        SquareDirection::West => Neighbors {
            north: neighbors.south,
            east: neighbors.west,
            south: neighbors.north,
            west: neighbors.east,
            north_east: None,
            north_west: None,
            south_west: None,
            south_east: None,
        },
        _ => neighbors,
    }
}

} // verus!
