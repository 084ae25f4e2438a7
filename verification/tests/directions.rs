use dafm::factory_game::helpers::ConveyorDirection::{East, North, South, West};
use dafm::factory_game::helpers::{opposite, ConveyorDirection, ConveyorDirections, SquareDirection, TileFlip};

const ALL: [ConveyorDirection; 4] = [North, East, South, West];

#[test]
fn opposite_twice_is_identity() {
    for d in ALL {
        assert_eq!(d.opposite().opposite(), d);
    }
    assert_eq!(North.opposite(), South);
    assert_eq!(East.opposite(), West);
}

#[test]
fn four_turns_come_back() {
    for d in ALL {
        assert_eq!(d.next().next(), d.opposite());
        assert_eq!(d.next().next().next().next(), d);
        assert_eq!(d.left().next(), d);
        assert_eq!(d.right(), d.next());
    }
    assert_eq!(North.next(), East);
    assert_eq!(North.left(), West);
}

#[test]
fn indices_and_bits() {
    assert_eq!(ALL.map(|d| d.index()), [0, 1, 2, 3]);
    assert_eq!(ALL.map(|d| d.bit()), [1, 2, 4, 8]);
}

#[test]
fn square_directions_round_trip() {
    for d in ALL {
        assert_eq!(ConveyorDirection::from_square(d.to_square()), d);
    }
    assert_eq!(opposite(SquareDirection::North), SquareDirection::South);
    assert_eq!(opposite(SquareDirection::East), SquareDirection::West);
}

#[test]
fn tile_flips_face_each_direction() {
    assert_eq!(East.tile_flip(), TileFlip { x: false, y: false, d: false });
    assert_eq!(West.tile_flip(), TileFlip { x: true, y: true, d: false });
    assert_eq!(North.tile_flip(), TileFlip { x: false, y: true, d: true });
    assert_eq!(South.tile_flip(), TileFlip { x: true, y: false, d: true });
}

#[test]
fn direction_sets() {
    let n = ConveyorDirections::new(North);
    assert!(n.is_set(North));
    assert!(!n.is_set(East));
    assert_eq!(n.single(), North);
    assert!(ConveyorDirections::default().is_none());
    assert!(!n.is_none());

    let rest = ConveyorDirections::all_except(n);
    assert_eq!(rest.iter(), vec![East, South, West]);
    assert!(ConveyorDirections::all_except(rest).same_as(&n));
    assert_eq!(ConveyorDirections::all().iter(), vec![North, East, South, West]);
    assert!(n.union(rest).same_as(&ConveyorDirections::all()));
}

#[test]
fn iteration_starts_where_asked() {
    let set = ConveyorDirections::from_directions(&[West, North, South]);
    assert_eq!(set.iter_from(East), vec![South, West, North]);
    assert_eq!(set.iter_from(West), vec![West, North, South]);
}
