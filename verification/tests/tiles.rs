use dafm::factory_game::helpers::SquareDirection;
use dafm::tiles::{Neighbors, TilePos, TilemapSize};

#[test]
fn offsets_stay_on_the_map() {
    let size = TilemapSize { x: 3, y: 2 };
    let p = TilePos { x: 0, y: 0 };
    assert_eq!(p.square_offset(&SquareDirection::East, &size), Some(TilePos { x: 1, y: 0 }));
    assert_eq!(p.square_offset(&SquareDirection::North, &size), Some(TilePos { x: 0, y: 1 }));
    assert_eq!(p.square_offset(&SquareDirection::West, &size), None);
    assert_eq!(p.square_offset(&SquareDirection::South, &size), None);
    assert_eq!(p.square_offset(&SquareDirection::NorthEast, &size), Some(TilePos { x: 1, y: 1 }));
    let q = TilePos { x: 2, y: 1 };
    assert_eq!(q.square_offset(&SquareDirection::East, &size), None);
    assert_eq!(q.square_offset(&SquareDirection::North, &size), None);
}

#[test]
fn tiles_are_listed_row_by_row() {
    let size = TilemapSize { x: 3, y: 2 };
    assert_eq!(TilePos { x: 0, y: 0 }.to_index(&size), 0);
    assert_eq!(TilePos { x: 2, y: 0 }.to_index(&size), 2);
    assert_eq!(TilePos { x: 1, y: 1 }.to_index(&size), 4);
}

#[test]
fn side_neighbours_of_a_corner() {
    let size = TilemapSize { x: 3, y: 3 };
    let n = Neighbors::get_square_neighboring_positions(&TilePos { x: 0, y: 0 }, &size);
    assert_eq!(n.north, Some(TilePos { x: 0, y: 1 }));
    assert_eq!(n.east, Some(TilePos { x: 1, y: 0 }));
    assert_eq!(n.south, None);
    assert_eq!(n.west, None);
    assert_eq!(n.north_east, None);
    assert_eq!(n.get(SquareDirection::East), Some(&TilePos { x: 1, y: 0 }));
}
