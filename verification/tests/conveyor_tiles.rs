use dafm::conveyor::interaction::{get_conveyor_tile, get_hover_tile, HoveredTile};
use dafm::conveyor::visuals::update_conveyor_tile;
use dafm::conveyor::{Conveyor as SingleConveyor, SOUTH_AND_WEST_TO_EAST, SOUTH_TO_EAST, WEST_TO_EAST};
use dafm::factory_game::conveyor::Conveyor;
use dafm::factory_game::conveyor_belts::update_conveyor_belt_tile;
use dafm::factory_game::helpers::ConveyorDirection::{East, North, South, West};
use dafm::factory_game::helpers::{SquareDirection, TileFlip};
use dafm::sprite_sheet::GameSprite;
use dafm::tiles::Neighbors;

fn no_neighbors<T>() -> Neighbors<T> {
    Neighbors {
        north: None,
        east: None,
        south: None,
        west: None,
        north_east: None,
        north_west: None,
        south_west: None,
        south_east: None,
    }
}

const NO_FLIP: TileFlip = TileFlip { x: false, y: false, d: false };

#[test]
fn unfed_belt_is_straight() {
    for out in [North, East, South, West] {
        let (sprite, flip) = update_conveyor_belt_tile(out, &no_neighbors());
        assert_eq!(sprite, GameSprite::ConveyorInWOutE);
        assert_eq!(flip, out.tile_flip());
    }
}

#[test]
fn belt_fed_from_the_side_is_a_corner() {
    // A belt sending east, fed by a belt to its south sending north.
    let mut n = no_neighbors();
    n.south = Some(Conveyor::from(North));
    assert_eq!(update_conveyor_belt_tile(East, &n), (GameSprite::ConveyorInSOutE, NO_FLIP));

    // The same belt fed from the north is the corner mirrored along y.
    let mut n = no_neighbors();
    n.north = Some(Conveyor::from(South));
    assert_eq!(
        update_conveyor_belt_tile(East, &n),
        (GameSprite::ConveyorInSOutE, TileFlip { x: false, y: true, d: false })
    );

    // A neighbour that sends elsewhere does not feed the belt.
    let mut n = no_neighbors();
    n.south = Some(Conveyor::from(East));
    assert_eq!(update_conveyor_belt_tile(East, &n), (GameSprite::ConveyorInWOutE, NO_FLIP));
}

#[test]
fn belt_fed_from_behind_and_side() {
    let mut n = no_neighbors();
    n.west = Some(Conveyor::from(East));
    n.south = Some(Conveyor::from(North));
    assert_eq!(update_conveyor_belt_tile(East, &n), (GameSprite::ConveyorInSWOutE, NO_FLIP));
}

#[test]
fn single_direction_conveyor_tiles() {
    assert_eq!(update_conveyor_tile(East, &no_neighbors()), (WEST_TO_EAST, NO_FLIP));
    let mut n = no_neighbors();
    n.west = Some(SingleConveyor(East));
    n.south = Some(SingleConveyor(North));
    assert_eq!(update_conveyor_tile(East, &n), (SOUTH_AND_WEST_TO_EAST, NO_FLIP));
    // Fed from the east as well: drawn straight.
    n.east = Some(SingleConveyor(West));
    assert_eq!(update_conveyor_tile(East, &n), (WEST_TO_EAST, NO_FLIP));
}

#[test]
fn conveyor_tiles_between_sides() {
    assert_eq!(get_conveyor_tile(SquareDirection::West, SquareDirection::East), (WEST_TO_EAST, NO_FLIP));
    assert_eq!(get_conveyor_tile(SquareDirection::South, SquareDirection::East), (SOUTH_TO_EAST, NO_FLIP));
    assert_eq!(
        get_conveyor_tile(SquareDirection::West, SquareDirection::North),
        (SOUTH_TO_EAST, TileFlip { x: true, y: true, d: true })
    );
    assert_eq!(
        get_conveyor_tile(SquareDirection::North, SquareDirection::South),
        (WEST_TO_EAST, TileFlip { x: false, y: false, d: true })
    );
}

#[test]
fn hover_tile_is_straight() {
    for d in [SquareDirection::North, SquareDirection::East, SquareDirection::South, SquareDirection::West] {
        assert_eq!(get_hover_tile(d).0, WEST_TO_EAST);
    }
    assert_eq!(get_hover_tile(SquareDirection::West), (WEST_TO_EAST, TileFlip { x: true, y: false, d: false }));
}

#[test]
fn hover_options_cycle() {
    let mut h = HoveredTile(None);
    let mut seen = Vec::new();
    for _ in 0..5 {
        h.set_to_next_option();
        seen.push(h.0);
    }
    assert_eq!(seen, vec![Some(East), Some(South), Some(West), Some(North), None]);
}
