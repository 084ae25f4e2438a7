use dafm::factory_game::helpers::SquareDirection;
use dafm::mapgen::{
    Combos, Generator, MapEntry, TileClass, TileClassData, TileClasses, TileOption, TileSet,
};
use dafm::tiles::{TilePos, TilemapSize};

const A: [u8; 8] = [0; 8];
const B: [u8; 8] = [1; 8];

fn two_classes() -> TileSet {
    TileSet::new(TileClasses::new(&[(5, B), (7, A), (6, B)]))
}

fn options(e: &MapEntry) -> Vec<usize> {
    match e {
        MapEntry::Superposition { options } => options.iter().map(|c| c.0).collect(),
        MapEntry::Collapsed { .. } => panic!("expected an undecided tile"),
    }
}

#[test]
fn classes_group_tiles_by_colours() {
    let classes = TileClasses::new(&[(5, B), (7, A), (6, B)]);
    assert_eq!(classes.len(), 2);
    assert_eq!(classes.classes[0].wang_id, A);
    assert_eq!(classes.classes[0].tiles, vec![7]);
    assert_eq!(classes.classes[1].wang_id, B);
    assert_eq!(classes.classes[1].tiles, vec![5, 6]);
    assert_eq!(classes.get_tile_classes_options(), vec![TileClass(0), TileClass(1)]);
}

#[test]
fn colours_are_ordered_position_by_position() {
    let mut early = [0u8; 8];
    early[7] = 9;
    let mut late = [0u8; 8];
    late[6] = 1;
    let classes = TileClasses::new(&[(1, late), (2, early)]);
    assert_eq!(classes.classes[0].wang_id, early);
    assert_eq!(classes.classes[1].wang_id, late);
}

#[test]
fn edges_connect_when_colours_match() {
    let a = TileClassData { wang_id: [1, 2, 3, 4, 5, 6, 7, 8], tiles: vec![] };
    // Its left edge (positions 7, 6, 5) matches the right edge of `a`
    // (positions 1, 2, 3); its top edge (7, 0, 1) matches the bottom of `a`
    // (5, 4, 3).
    let b = TileClassData { wang_id: [4, 3, 0, 0, 0, 4, 3, 6], tiles: vec![] };
    assert_eq!(a.connects_with(&b), (false, false));
    let c = TileClassData { wang_id: [5, 4, 0, 0, 0, 4, 3, 2], tiles: vec![] };
    assert_eq!(a.connects_with(&c), (true, false));
    let d = TileClassData { wang_id: [5, 4, 0, 0, 0, 0, 0, 6], tiles: vec![] };
    assert_eq!(a.connects_with(&d), (false, true));
}

#[test]
fn tile_set_lists_tiles_by_index() {
    let set = two_classes();
    assert_eq!(
        set.tiles,
        vec![
            TileOption { class: TileClass(1), index: 5 },
            TileOption { class: TileClass(1), index: 6 },
            TileOption { class: TileClass(0), index: 7 },
        ]
    );
}

#[test]
fn combos_are_looked_up_after_sorting() {
    let c = Combos::new(&[(TileClass(2), TileClass(0)), (TileClass(0), TileClass(1)), (TileClass(0), TileClass(0))]);
    let decided = |class: usize| MapEntry::Collapsed { class: TileClass(class), index: 0 };
    assert!(c.is_allowed(&decided(0), &TileClass(0), false));
    assert!(c.is_allowed(&decided(1), &TileClass(0), false));
    assert!(!c.is_allowed(&decided(2), &TileClass(0), false));
    assert!(c.is_allowed(&decided(0), &TileClass(2), false));
    assert!(!c.is_allowed(&decided(0), &TileClass(1), false));
    // Swapped: class 1 may have class 0 on the other side.
    assert!(c.is_allowed(&decided(0), &TileClass(1), true));
    assert!(!c.is_allowed(&decided(1), &TileClass(0), true));
    let open = MapEntry::new(vec![TileClass(1), TileClass(2)]);
    assert!(c.is_allowed(&open, &TileClass(0), false));
    assert!(!c.is_allowed(&open, &TileClass(2), false));
}

#[test]
fn constraining_keeps_allowed_options() {
    let set = two_classes();
    let from = MapEntry::Collapsed { class: TileClass(1), index: 5 };
    let mut e = MapEntry::new(vec![TileClass(0), TileClass(1)]);
    assert!(e.constrain(&set, &from, SquareDirection::East));
    assert_eq!(options(&e), vec![1]);
    assert!(!e.constrain(&set, &from, SquareDirection::North));
    assert_eq!(options(&e), vec![1]);
}

#[test]
fn collapse_picks_a_tile_of_the_class() {
    let set = two_classes();
    for _ in 0..20 {
        let mut e = MapEntry::new(vec![TileClass(0), TileClass(1)]);
        e.collapse(&set, 1);
        match e {
            MapEntry::Collapsed { class, index } => {
                assert_eq!(class, TileClass(1));
                assert!(index == 5 || index == 6);
            }
            _ => panic!("expected a decided tile"),
        }
    }
    let mut none_left = MapEntry::new(vec![]);
    none_left.collapse(&set, 0);
    assert!(matches!(none_left, MapEntry::Collapsed { class: TileClass(0), index: 0 }));
}

#[test]
fn deciding_a_tile_narrows_its_row() {
    let size = TilemapSize { x: 3, y: 1 };
    let mut g = Generator::new(&size, two_classes());
    assert_eq!(g.grid().len(), 3);
    assert!(!g.is_done());
    let start = TilePos { x: 0, y: 0 };
    g.collapse(start, 0);
    assert!(g.grid()[0].is_collapsed());
    let changed = g.update_options(start);
    assert_eq!(changed, vec![TilePos { x: 1, y: 0 }, TilePos { x: 2, y: 0 }]);
    assert_eq!(options(&g.grid()[1]), vec![0]);
    assert_eq!(options(&g.grid()[2]), vec![0]);
    g.collapse(TilePos { x: 1, y: 0 }, 0);
    g.collapse(TilePos { x: 2, y: 0 }, 0);
    assert!(g.is_done());
    g.reset();
    assert_eq!(options(&g.grid()[0]), vec![0, 1]);
    assert_eq!(g.index_to_pos(2), TilePos { x: 2, y: 0 });
}

#[test]
fn nothing_changes_when_all_fit() {
    let size = TilemapSize { x: 2, y: 2 };
    let mut g = Generator::new(&size, two_classes());
    let changed = g.update_options(TilePos { x: 1, y: 1 });
    assert!(changed.is_empty());
    assert_eq!(options(&g.grid()[3]), vec![0, 1]);
}

#[test]
fn steps_decide_the_whole_row() {
    let size = TilemapSize { x: 3, y: 1 };
    let mut g = Generator::new(&size, two_classes());
    let (changed, done) = g.step_at(TilePos { x: 1, y: 0 }, 1);
    assert!(!done);
    assert_eq!(changed, vec![TilePos { x: 2, y: 0 }, TilePos { x: 0, y: 0 }]);
    assert_eq!(options(&g.grid()[0]), vec![1]);
    assert_eq!(options(&g.grid()[2]), vec![1]);
    let (changed, done) = g.step_at(TilePos { x: 0, y: 0 }, 0);
    assert!(changed.is_empty());
    assert!(!done);
    let (_, done) = g.step_at(TilePos { x: 2, y: 0 }, 0);
    assert!(done);
    assert!(matches!(g.grid()[1], MapEntry::Collapsed { class: TileClass(1), .. }));
}
