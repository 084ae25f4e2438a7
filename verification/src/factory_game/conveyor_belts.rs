use vstd::prelude::*;

use crate::factory_game::conveyor::Conveyor;
use crate::factory_game::helpers::{
    all_directions, flip_facing, is_cardinal, next_of, square_of, square_opposite, conveyor_of,
    ConveyorDirection, ConveyorDirections, SquareDirection, TileFlip,
};
use crate::factory_game::interaction::{PlaceTile, Tool};
use crate::sprite_sheet::GameSprite;
use crate::tiles::{east_relative, make_east_relative, neighbor_at, Neighbors, TilePos};

verus! {

/// The conveyor-belt tool: places belts that send payloads in direction `.0`.
#[derive(Clone, Copy, Debug)]
pub struct ConveyorBeltTool(pub ConveyorDirection);

impl Default for ConveyorBeltTool {
    fn default() -> (r: Self)
        ensures
            r.0 == ConveyorDirection::North,
    {
        ConveyorBeltTool(ConveyorDirection::North)
    }
}

/// A click with the conveyor-belt tool: place a belt sending payloads in
/// direction `.1` at tile `.0`.
#[derive(Clone, Copy, Debug)]
pub struct PlaceConveyorBeltEvent(pub TilePos, pub ConveyorDirection);

/// The components of a conveyor belt.
#[derive(Clone, Copy, Debug)]
pub struct ConveyorBeltBundle {
    pub conveyor: Conveyor,
    pub accepts_payload: AcceptsPayloadConveyor,
}

/// The directions a conveyor takes payloads from while it is empty.
#[derive(Clone, Copy, Debug)]
pub struct AcceptsPayloadConveyor(pub ConveyorDirections);

impl AcceptsPayloadConveyor {
    /// Accepts payloads from `directions`.
    pub fn new(directions: ConveyorDirections) -> (r: Self)
        ensures
            r.0@ == directions@,
    {
        AcceptsPayloadConveyor(directions)
    }

    /// Accepts payloads from every side.
    pub fn all() -> (r: Self)
        ensures
            r.0@ == all_directions(),
    {
        AcceptsPayloadConveyor(ConveyorDirections::all())
    }

    /// Accepts payloads from every side but those of `directions`.
    pub fn except(directions: ConveyorDirections) -> (r: Self)
        ensures
            r.0@ == all_directions().difference(directions@),
    {
        AcceptsPayloadConveyor(ConveyorDirections::all_except(directions))
    }

    /// Accepts payloads from the given sides.
    pub fn from_direction_iter(directions: &[ConveyorDirection]) -> (r: Self)
        ensures
            forall|d: ConveyorDirection| r.0@.contains(d) == directions@.contains(d),
    {
        AcceptsPayloadConveyor(ConveyorDirections::from_directions(directions))
    }
}

impl ConveyorBeltBundle {
    /// A belt sending payloads in direction `output` and, while empty, taking
    /// them from the three other sides.
    pub fn new(output: ConveyorDirection) -> (r: Self)
        ensures
            r.conveyor@.outputs == Set::empty().insert(output),
            r.conveyor@.inputs == Set::<ConveyorDirection>::empty(),
            r.accepts_payload.0@ == all_directions().remove(output),
    {
        let r = ConveyorBeltBundle {
            conveyor: Conveyor::from(output),
            accepts_payload: AcceptsPayloadConveyor::except(ConveyorDirections::new(output)),
        };
        assert(all_directions().difference(Set::empty().insert(output)) =~= all_directions().remove(
            output,
        ));
        r
    }
}

/// A conveyor takes payloads from the sides it accepts while it is empty and
/// from no side while it carries a payload.
pub fn update_conveyor_inputs(conveyor: &mut Conveyor, accepts_payload: &AcceptsPayloadConveyor, payload_count: usize)
    ensures
        final(conveyor)@.outputs == old(conveyor)@.outputs,
        final(conveyor)@.inputs == if payload_count == 0 {
            accepts_payload.0@
        } else {
            Set::<ConveyorDirection>::empty()
        },
{
    if payload_count == 0 {
        conveyor.set_inputs(accepts_payload.0);
    } else {
        conveyor.set_inputs(ConveyorDirections::default());
    }
}

impl Tool for ConveyorBeltTool {
    /// The tool's preview: an arrow facing the belt's direction.
    fn get_sprite_flip(&self) -> (r: (GameSprite, TileFlip))
        ensures
            r == (GameSprite::Arrow, flip_facing(self.0)),
    {
        (GameSprite::Arrow, self.0.tile_flip())
    }

    /// Turns the tool clockwise.
    fn next_variant(&mut self)
        ensures
            *final(self) == ConveyorBeltTool(next_of(old(self).0)),
    {
        self.0 = match self.0 {
            ConveyorDirection::North => ConveyorDirection::East,
            ConveyorDirection::East => ConveyorDirection::South,
            ConveyorDirection::South => ConveyorDirection::West,
            ConveyorDirection::West => ConveyorDirection::North,
        }
    }

    /// A click at `tile_pos`: place a belt in the tool's direction.
    fn execute(&self, tile_pos: &TilePos) -> (r: PlaceTile)
        ensures
            r == PlaceTile::ConveyorBelt(PlaceConveyorBeltEvent(*tile_pos, self.0)),
    {
        PlaceTile::ConveyorBelt(PlaceConveyorBeltEvent(*tile_pos, self.0))
    }
}

/// Whether the neighbour in direction `d` is a conveyor sending payloads to
/// this tile.
pub open spec fn points_here(neighbors: Neighbors<Conveyor>, d: SquareDirection) -> bool {
    match neighbor_at(neighbors, d) {
        Some(c) => c@.outputs.contains(conveyor_of(square_opposite(d))),
        None => false,
    }
}

/// Just the side neighbours that send payloads to this tile.
pub open spec fn incoming_neighbors(neighbors: Neighbors<Conveyor>) -> Neighbors<Conveyor> {
    Neighbors {
        north: if points_here(neighbors, SquareDirection::North) {
            neighbors.north
        } else {
            None
        },
        east: if points_here(neighbors, SquareDirection::East) {
            neighbors.east
        } else {
            None
        },
        south: if points_here(neighbors, SquareDirection::South) {
            neighbors.south
        } else {
            None
        },
        west: if points_here(neighbors, SquareDirection::West) {
            neighbors.west
        } else {
            None
        },
        north_east: None,
        north_west: None,
        south_west: None,
        south_east: None,
    }
}

/// The belt sprite for the incoming sides of a belt that sends payloads
/// east, and whether to mirror it along y. `n`, `e`, `s` and `w` tell
/// whether payloads come in from the north, east, south and west.
pub open spec fn east_belt_sprite(n: bool, e: bool, s: bool, w: bool) -> (GameSprite, bool) {
    if !n && !e && !s && w {
        (GameSprite::ConveyorInWOutE, false)
    } else if !n && s && w {
        (GameSprite::ConveyorInSWOutE, false)
    } else if n && !s && w {
        (GameSprite::ConveyorInSWOutE, true)
    } else if !n && s && !w {
        (GameSprite::ConveyorInSOutE, false)
    } else if n && !e && !s && !w {
        (GameSprite::ConveyorInSOutE, true)
    } else if n && s && !w {
        (GameSprite::ConveyorInNSOutE, false)
    } else if n && s && w {
        (GameSprite::ConveyorInNSWOutE, false)
    } else if n && e && !s && !w {
        (GameSprite::ConveyorInSOutE, true)
    } else {
        (GameSprite::ConveyorInWOutE, false)
    }
}

/// The flip that turns an east-facing belt sprite, mirrored along y when
/// `y_flip`, to send payloads in direction `out`.
pub open spec fn belt_flip(out: ConveyorDirection, y_flip: bool) -> TileFlip {
    match out {
        ConveyorDirection::North => TileFlip { x: y_flip, y: true, d: true },
        ConveyorDirection::South => TileFlip { x: !y_flip, y: false, d: true },
        ConveyorDirection::East => TileFlip { x: false, y: y_flip, d: false },
        ConveyorDirection::West => TileFlip { x: true, y: !y_flip, d: false },
    }
}

/// The sprite and flip of a belt sending payloads in direction `out`, given
/// its neighbours: the neighbours that send payloads to it are turned so that
/// `out` becomes east, the matching east-facing sprite is chosen, and the
/// sprite is turned back to face `out`.
pub open spec fn belt_tile(out: ConveyorDirection, neighbors: Neighbors<Conveyor>) -> (GameSprite, TileFlip) {
    let rel = east_relative(incoming_neighbors(neighbors), square_of(out));
    let (sprite, y_flip) = east_belt_sprite(
        rel.north is Some,
        rel.east is Some,
        rel.south is Some,
        rel.west is Some,
    );
    (sprite, belt_flip(out, y_flip))
}

/// Keeps the neighbour in direction `d` if it sends payloads to this tile.
fn keep_if_pointing(neighbor: &Option<Conveyor>, d: ConveyorDirection) -> (r: Option<Conveyor>)
    ensures
        r == match *neighbor {
            Some(c) => if c@.outputs.contains(d) {
                Some(c)
            } else {
                None
            },
            None => None,
        },
{
    match neighbor {
        Some(c) => {
            if c.outputs().is_set(d) {
                Some(*c)
            } else {
                None
            }
        },
        None => None,
    }
}

/// The sprite and flip of a belt sending payloads in direction `out`,
/// from the conveyors around it.
pub fn update_conveyor_belt_tile(out: ConveyorDirection, neighbors: &Neighbors<Conveyor>) -> (r: (
    GameSprite,
    TileFlip,
))
    ensures
        r == belt_tile(out, *neighbors),
{
    let out_dir = out.to_square();

    // Just the conveyors pointing towards this one.
    let incoming = Neighbors {
        north: keep_if_pointing(&neighbors.north, ConveyorDirection::South),
        east: keep_if_pointing(&neighbors.east, ConveyorDirection::West),
        south: keep_if_pointing(&neighbors.south, ConveyorDirection::North),
        west: keep_if_pointing(&neighbors.west, ConveyorDirection::East),
        north_east: None,
        north_west: None,
        south_west: None,
        south_east: None,
    };
    assert(incoming == incoming_neighbors(*neighbors));

    // Rotate all of this so that east is always the "out" direction.
    let rel = make_east_relative(incoming, out_dir);

    let n = rel.north.is_some();
    let e = rel.east.is_some();
    let s = rel.south.is_some();
    let w = rel.west.is_some();

    let (new_sprite, y_flip) = if !n && !e && !s && w {
        (GameSprite::ConveyorInWOutE, false)
    } else if !n && s && w {
        (GameSprite::ConveyorInSWOutE, false)
    } else if n && !s && w {
        (GameSprite::ConveyorInSWOutE, true)
    } else if !n && s && !w {
        (GameSprite::ConveyorInSOutE, false)
    } else if n && !e && !s && !w {
        (GameSprite::ConveyorInSOutE, true)
    } else if n && s && !w {
        (GameSprite::ConveyorInNSOutE, false)
    } else if n && s && w {
        (GameSprite::ConveyorInNSWOutE, false)
    } else if n && e && !s && !w {
        (GameSprite::ConveyorInSOutE, true)
    } else {
        (GameSprite::ConveyorInWOutE, false)
    };

    // y_flip tells whether to flip y for the "east is always out"
    // orientation. Now turn the tile so that the out direction is right; for
    // north and south this makes y_flip an x_flip.
    let new_flip = match out {
        ConveyorDirection::North => TileFlip { x: y_flip, y: true, d: true },
        ConveyorDirection::South => TileFlip { x: !y_flip, y: false, d: true },
        ConveyorDirection::East => TileFlip { x: false, y: y_flip, d: false },
        ConveyorDirection::West => TileFlip { x: true, y: !y_flip, d: false },
    };
    (new_sprite, new_flip)
}

/// A belt that nothing feeds, or that is fed only from behind, is drawn as a
/// straight belt facing its direction.
pub proof fn law_unfed_belt_is_straight(out: ConveyorDirection, neighbors: Neighbors<Conveyor>)
    requires
        forall|d: SquareDirection| is_cardinal(d) && d != square_of(out) && #[trigger] points_here(neighbors, d)
            ==> d == square_opposite(square_of(out)),
    ensures
        belt_tile(out, neighbors) == (GameSprite::ConveyorInWOutE, flip_facing(out)),
{
    assert(points_here(neighbors, SquareDirection::North) ==> SquareDirection::North == square_opposite(square_of(out)) || SquareDirection::North == square_of(out));
    assert(points_here(neighbors, SquareDirection::South) ==> SquareDirection::South == square_opposite(square_of(out)) || SquareDirection::South == square_of(out));
    assert(points_here(neighbors, SquareDirection::East) ==> SquareDirection::East == square_opposite(square_of(out)) || SquareDirection::East == square_of(out));
    assert(points_here(neighbors, SquareDirection::West) ==> SquareDirection::West == square_opposite(square_of(out)) || SquareDirection::West == square_of(out));
}

/// The side to the left of a belt sending payloads in direction `out`.
pub open spec fn left_of(out: ConveyorDirection) -> SquareDirection {
    match out {
        ConveyorDirection::East => SquareDirection::North,
        ConveyorDirection::North => SquareDirection::West,
        ConveyorDirection::West => SquareDirection::South,
        ConveyorDirection::South => SquareDirection::East,
    }
}

/// The side to the right of a belt sending payloads in direction `out`.
pub open spec fn right_of(out: ConveyorDirection) -> SquareDirection {
    square_opposite(left_of(out))
}

/// `f` mirrored across the axis of a belt sending payloads in direction
/// `out`: the flip across the belt is turned over, the rest kept.
pub open spec fn mirrored_across(out: ConveyorDirection, f: TileFlip) -> TileFlip {
    match out {
        ConveyorDirection::East | ConveyorDirection::West => TileFlip { y: !f.y, ..f },
        ConveyorDirection::North | ConveyorDirection::South => TileFlip { x: !f.x, ..f },
    }
}

/// Swapping which of a belt's two sides feed it mirrors its tile. If
/// `second` is fed from behind and from the front as `first` is, and from
/// its left exactly when `first` is fed from its right (and the other way
/// round), both get the same sprite; when only one side of `first` feeds
/// it, the flips are mirror images across the belt, and when both or
/// neither do, the tiles are the same.
pub proof fn law_mirrored_feeders_mirror_the_belt(out: ConveyorDirection, first: Neighbors<Conveyor>, second: Neighbors<Conveyor>)
    requires
        points_here(second, square_of(out)) == points_here(first, square_of(out)),
        points_here(second, square_opposite(square_of(out))) == points_here(first, square_opposite(square_of(out))),
        points_here(second, left_of(out)) == points_here(first, right_of(out)),
        points_here(second, right_of(out)) == points_here(first, left_of(out)),
    ensures
        belt_tile(out, second).0 == belt_tile(out, first).0,
        points_here(first, left_of(out)) != points_here(first, right_of(out))
            ==> belt_tile(out, second).1 == mirrored_across(out, belt_tile(out, first).1),
        points_here(first, left_of(out)) == points_here(first, right_of(out)) ==> belt_tile(out, second) == belt_tile(out, first),
{
}

} // verus!
