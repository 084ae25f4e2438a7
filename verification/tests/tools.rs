use dafm::factory_game::conveyor_belts::{ConveyorBeltTool, PlaceConveyorBeltEvent};
use dafm::factory_game::distributor::PlaceDistributorEvent;
use dafm::factory_game::helpers::ConveyorDirection::{East, North, South};
use dafm::factory_game::helpers::TileFlip;
use dafm::factory_game::interaction::{
    setup_tools, AnyTool, ClearTileEvent, ClearTool, PlaceTile, PlaceTileEvent, Tool, Tools,
};
use dafm::factory_game::operators::{Operator, PlaceOperatorEvent};
use dafm::sprite_sheet::GameSprite;
use dafm::tiles::TilePos;

const P: TilePos = TilePos { x: 3, y: 4 };

#[test]
fn tool_bar_starts_with_no_tool() {
    let tools = setup_tools();
    assert_eq!(tools.tools().len(), 8);
    assert!(tools.current_tool().is_none());
    assert!(tools.get_sprite_flip().is_none());
    let slots: Vec<u32> = tools.tools().iter().map(|t| t.slot()).collect();
    assert_eq!(slots, vec![1, 2, 3, 4, 5, 6, 7, 8]);
}

#[test]
fn selecting_and_turning_a_tool() {
    let mut tools = setup_tools();
    tools.set_tool(2);
    assert!(tools.is_active_slot(2));
    assert!(!tools.is_active_slot(3));
    assert_eq!(tools.get_sprite_flip(), Some((GameSprite::Arrow, North.tile_flip())));
    tools.next_variant();
    assert_eq!(tools.get_sprite_flip(), Some((GameSprite::Arrow, East.tile_flip())));
    let action = tools.current_tool().unwrap().tool().execute(&P);
    assert!(matches!(action, PlaceTile::ConveyorBelt(PlaceConveyorBeltEvent(p, East)) if p == P));
    assert!(action.makes_new_entity());
    assert_eq!(action.tile_pos(), P);
}

#[test]
fn empty_slot_selects_nothing() {
    let mut tools = setup_tools();
    tools.set_tool(1);
    assert!(tools.current_tool().is_some());
    tools.set_tool(10);
    assert!(tools.current_tool().is_none());
    tools.set_tool(1);
    tools.set_no_tool();
    assert!(tools.current_tool().is_none());
    assert!(!tools.is_active_slot(1));
}

#[test]
fn clear_tool_clears() {
    let mut tools = setup_tools();
    tools.set_tool(1);
    assert_eq!(tools.get_sprite_flip(), Some((GameSprite::Delete, TileFlip { x: false, y: false, d: false })));
    let action = tools.current_tool().unwrap().tool().execute(&P);
    assert!(matches!(action, PlaceTile::Clear(ClearTileEvent(p)) if p == P));
    assert!(!action.makes_new_entity());
    // The clear tool has a single variant.
    tools.next_variant();
    assert_eq!(tools.get_sprite_flip(), Some((GameSprite::Delete, TileFlip { x: false, y: false, d: false })));
}

#[test]
fn distributor_and_operator_tools() {
    let mut tools = setup_tools();
    tools.set_tool(5);
    let action = tools.current_tool().unwrap().tool().execute(&P);
    assert!(matches!(action, PlaceTile::Distributor(PlaceDistributorEvent(p, East)) if p == P));
    tools.next_variant();
    let action = tools.current_tool().unwrap().tool().execute(&P);
    assert!(matches!(action, PlaceTile::Distributor(PlaceDistributorEvent(_, South))));

    tools.set_tool(8);
    assert_eq!(tools.get_sprite_flip().unwrap().0, GameSprite::OperatorMultiply);
    let action = tools.current_tool().unwrap().tool().execute(&P);
    assert!(matches!(action, PlaceTile::Operator(PlaceOperatorEvent(_, Operator::Multiply, North))));
}

#[test]
fn tools_are_kept_in_slot_order() {
    let mut tools = Tools::default();
    tools.add(3, AnyTool::Clear(ClearTool));
    tools.add(1, AnyTool::ConveyorBelt(ConveyorBeltTool(South)));
    tools.add(3, AnyTool::ConveyorBelt(ConveyorBeltTool(North)));
    tools.add(2, AnyTool::Clear(ClearTool));
    let slots: Vec<u32> = tools.tools().iter().map(|t| t.slot()).collect();
    assert_eq!(slots, vec![1, 2, 3, 3]);
    // The first tool added to slot 3 is the one picked for it.
    tools.set_tool(3);
    assert_eq!(tools.get_sprite_flip().unwrap().0, GameSprite::Delete);
    // A tool added to a new slot is the one picked for that slot.
    tools.add(9, AnyTool::ConveyorBelt(ConveyorBeltTool(East)));
    tools.set_tool(9);
    assert_eq!(tools.get_sprite_flip(), Some((GameSprite::Arrow, East.tile_flip())));
}
