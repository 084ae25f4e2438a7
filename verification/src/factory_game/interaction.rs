use vstd::prelude::*;

use crate::factory_game::bridge::{BridgeTool, PlaceBridgeEvent};
use crate::factory_game::conveyor_belts::{ConveyorBeltTool, PlaceConveyorBeltEvent};
use crate::factory_game::distributor::{DistributorTool, PlaceDistributorEvent};
use crate::factory_game::generator::{GeneratorTool, PlaceGeneratorEvent};
use crate::factory_game::helpers::{flip_facing, next_of, ConveyorDirection, TileFlip};
use crate::factory_game::operators::{operator_sprite, Operator, OperatorsTool, PlaceOperatorEvent};
use crate::factory_game::sink::{PlaceSinkEvent, SinkTool};
use crate::sprite_sheet::GameSprite;
use crate::tiles::TilePos;

verus! {

/// A click with the clear tool: empty the tile.
#[derive(Clone, Copy, Debug)]
pub struct ClearTileEvent(pub TilePos);

/// What a click with a tool asks for: a tile to clear, or something to place
/// on a tile.
#[derive(Clone, Copy, Debug)]
pub enum PlaceTile {
    Clear(ClearTileEvent),
    ConveyorBelt(PlaceConveyorBeltEvent),
    Generator(PlaceGeneratorEvent),
    Sink(PlaceSinkEvent),
    Distributor(PlaceDistributorEvent),
    Bridge(PlaceBridgeEvent),
    Operator(PlaceOperatorEvent),
}

/// The tile a [`PlaceTile`] is about.
pub open spec fn place_tile_pos(p: PlaceTile) -> TilePos {
    match p {
        PlaceTile::Clear(e) => e.0,
        PlaceTile::ConveyorBelt(e) => e.0,
        PlaceTile::Generator(e) => e.0,
        PlaceTile::Sink(e) => e.0,
        PlaceTile::Distributor(e) => e.0,
        PlaceTile::Bridge(e) => e.0,
        PlaceTile::Operator(e) => e.0,
    }
}

/// Something that happens to one tile.
pub trait PlaceTileEvent {
    /// The tile.
    fn tile_pos(&self) -> TilePos;

    /// Whether a new entity is placed on the tile after it is cleared.
    fn makes_new_entity(&self) -> bool;
}

impl PlaceTileEvent for PlaceTile {
    fn tile_pos(&self) -> (r: TilePos)
        ensures
            r == place_tile_pos(*self),
    {
        match self {
            PlaceTile::Clear(e) => e.0,
            PlaceTile::ConveyorBelt(e) => e.0,
            PlaceTile::Generator(e) => e.0,
            PlaceTile::Sink(e) => e.0,
            PlaceTile::Distributor(e) => e.0,
            PlaceTile::Bridge(e) => e.0,
            PlaceTile::Operator(e) => e.0,
        }
    }

    /// Every event but clearing places a new entity.
    fn makes_new_entity(&self) -> (r: bool)
        ensures
            r == !(*self is Clear),
    {
        match self {
            PlaceTile::Clear(_) => false,
            _ => true,
        }
    }
}

/// A tool the player can click tiles with.
pub trait Tool {
    /// The sprite and flip shown on the hovered tile.
    fn get_sprite_flip(&self) -> (GameSprite, TileFlip);

    /// Switches to the tool's next variant.
    fn next_variant(&mut self);

    /// What a click on `tile_pos` asks for.
    fn execute(&self, tile_pos: &TilePos) -> PlaceTile;
}

/// The clear tool: empties tiles.
#[derive(Clone, Copy, Debug)]
pub struct ClearTool;

impl Tool for ClearTool {
    fn get_sprite_flip(&self) -> (r: (GameSprite, TileFlip))
        ensures
            r == (GameSprite::Delete, TileFlip { x: false, y: false, d: false }),
    {
        (GameSprite::Delete, TileFlip { x: false, y: false, d: false })
    }

    fn next_variant(&mut self)
        ensures
            *final(self) == *old(self),
    {
    }

    fn execute(&self, tile_pos: &TilePos) -> (r: PlaceTile)
        ensures
            r == PlaceTile::Clear(ClearTileEvent(*tile_pos)),
    {
        PlaceTile::Clear(ClearTileEvent(*tile_pos))
    }
}

/// Any of the game's tools.
#[derive(Clone, Copy, Debug)]
pub enum AnyTool {
    Clear(ClearTool),
    ConveyorBelt(ConveyorBeltTool),
    Generator(GeneratorTool),
    Sink(SinkTool),
    Distributor(DistributorTool),
    Bridge(BridgeTool),
    Operators(OperatorsTool),
}

/// The sprite and flip a tool shows.
pub open spec fn tool_sprite_flip(t: AnyTool) -> (GameSprite, TileFlip) {
    match t {
        AnyTool::Clear(_) => (GameSprite::Delete, TileFlip { x: false, y: false, d: false }),
        AnyTool::ConveyorBelt(b) => (GameSprite::Arrow, flip_facing(b.0)),
        AnyTool::Generator(_) => (GameSprite::Generator, TileFlip { x: false, y: false, d: false }),
        AnyTool::Sink(_) => (GameSprite::Sink, TileFlip { x: false, y: false, d: false }),
        AnyTool::Distributor(d) => (GameSprite::Distributor, flip_facing(d.0)),
        AnyTool::Bridge(_) => (GameSprite::Bridge, TileFlip { x: false, y: false, d: false }),
        AnyTool::Operators(o) => (operator_sprite(o.operator), flip_facing(o.direction)),
    }
}

/// A tool after switching to its next variant: tools with a direction turn
/// clockwise, the others stay as they are.
pub open spec fn tool_next_variant(t: AnyTool) -> AnyTool {
    match t {
        AnyTool::ConveyorBelt(b) => AnyTool::ConveyorBelt(ConveyorBeltTool(next_of(b.0))),
        AnyTool::Distributor(d) => AnyTool::Distributor(DistributorTool(next_of(d.0))),
        AnyTool::Operators(o) => AnyTool::Operators(OperatorsTool { direction: next_of(o.direction), ..o }),
        _ => t,
    }
}

/// What a click with a tool on `pos` asks for.
pub open spec fn tool_action(t: AnyTool, pos: TilePos) -> PlaceTile {
    match t {
        AnyTool::Clear(_) => PlaceTile::Clear(ClearTileEvent(pos)),
        AnyTool::ConveyorBelt(b) => PlaceTile::ConveyorBelt(PlaceConveyorBeltEvent(pos, b.0)),
        AnyTool::Generator(_) => PlaceTile::Generator(PlaceGeneratorEvent(pos)),
        AnyTool::Sink(_) => PlaceTile::Sink(PlaceSinkEvent(pos)),
        AnyTool::Distributor(d) => PlaceTile::Distributor(PlaceDistributorEvent(pos, d.0)),
        AnyTool::Bridge(_) => PlaceTile::Bridge(PlaceBridgeEvent(pos)),
        AnyTool::Operators(o) => PlaceTile::Operator(PlaceOperatorEvent(pos, o.operator, o.direction)),
    }
}

impl Tool for AnyTool {
    fn get_sprite_flip(&self) -> (r: (GameSprite, TileFlip))
        ensures
            r == tool_sprite_flip(*self),
    {
        match self {
            AnyTool::Clear(t) => t.get_sprite_flip(),
            AnyTool::ConveyorBelt(t) => t.get_sprite_flip(),
            AnyTool::Generator(t) => t.get_sprite_flip(),
            AnyTool::Sink(t) => t.get_sprite_flip(),
            AnyTool::Distributor(t) => t.get_sprite_flip(),
            AnyTool::Bridge(t) => t.get_sprite_flip(),
            AnyTool::Operators(t) => t.get_sprite_flip(),
        }
    }

    fn next_variant(&mut self)
        ensures
            *final(self) == tool_next_variant(*old(self)),
    {
        match self {
            AnyTool::ConveyorBelt(t) => t.next_variant(),
            AnyTool::Distributor(t) => t.next_variant(),
            AnyTool::Operators(t) => t.next_variant(),
            _ => {},
        }
    }

    fn execute(&self, tile_pos: &TilePos) -> (r: PlaceTile)
        ensures
            r == tool_action(*self, *tile_pos),
    {
        match self {
            AnyTool::Clear(t) => t.execute(tile_pos),
            AnyTool::ConveyorBelt(t) => t.execute(tile_pos),
            AnyTool::Generator(t) => t.execute(tile_pos),
            AnyTool::Sink(t) => t.execute(tile_pos),
            AnyTool::Distributor(t) => t.execute(tile_pos),
            AnyTool::Bridge(t) => t.execute(tile_pos),
            AnyTool::Operators(t) => t.execute(tile_pos),
        }
    }
}

/// A tool in a numbered slot of the tool bar.
#[derive(Clone, Copy, Debug)]
pub struct ToolEntry {
    pub slot: u32,
    pub tool: AnyTool,
}

impl ToolEntry {
    /// The slot number.
    pub fn slot(&self) -> (r: u32)
        ensures
            r == self.slot,
    {
        self.slot
    }

    /// The tool.
    pub fn tool(&self) -> (r: &AnyTool)
        ensures
            *r == self.tool,
    {
        &self.tool
    }
}

/// The entries are in order of their slots.
pub open spec fn sorted_by_slot(s: Seq<ToolEntry>) -> bool {
    forall|i: int, j: int| 0 <= i < j < s.len() ==> #[trigger] s[i].slot <= #[trigger] s[j].slot
}

/// The number of entries of `s` with a slot of at most `slot`.
pub open spec fn slots_up_to(s: Seq<ToolEntry>, slot: u32) -> int
    decreases s.len(),
{
    if s.len() == 0 {
        0
    } else {
        slots_up_to(s.drop_last(), slot) + if s.last().slot <= slot {
            1int
        } else {
            0
        }
    }
}

/// The position of the first entry of `s` in slot `slot`.
pub open spec fn first_in_slot(s: Seq<ToolEntry>, slot: u32) -> Option<int>
    decreases s.len(),
{
    if s.len() == 0 {
        None
    } else {
        match first_in_slot(s.drop_last(), slot) {
            Some(i) => Some(i),
            None => if s.last().slot == slot {
                Some(s.len() - 1)
            } else {
                None
            },
        }
    }
}

/// What the tool bar holds.
pub struct ToolsModel {
    pub current_tool: Option<usize>,
    pub tools: Seq<ToolEntry>,
}

/// The tool bar: tools in numbered slots, and the one in use.
#[derive(Debug)]
pub struct Tools {
    current_tool: Option<usize>,
    tools: Vec<ToolEntry>,
}

impl View for Tools {
    type V = ToolsModel;

    closed spec fn view(&self) -> ToolsModel {
        ToolsModel { current_tool: self.current_tool, tools: self.tools@ }
    }
}

impl Default for Tools {
    fn default() -> (r: Self)
        ensures
            r@.current_tool is None,
            r@.tools == Seq::<ToolEntry>::empty(),
            r.wf(),
    {
        Tools { current_tool: None, tools: Vec::new() }
    }
}

impl Tools {
    /// The tools are in slot order and the tool in use is one of them.
    pub open spec fn wf(&self) -> bool {
        &&& sorted_by_slot(self@.tools)
        &&& match self@.current_tool {
            Some(i) => i < self@.tools.len(),
            None => true,
        }
    }

    /// Adds `tool` in slot `slot`, after the tools in the same or lower slots.
    pub fn add(&mut self, slot: u32, tool: AnyTool)
        requires
            old(self).wf(),
        ensures
            final(self).wf(),
            final(self)@.current_tool == old(self)@.current_tool,
            final(self)@.tools == old(self)@.tools.insert(
                slots_up_to(old(self)@.tools, slot),
                ToolEntry { slot, tool },
            ),
            (forall|j: int| 0 <= j < old(self)@.tools.len() ==> #[trigger] old(self)@.tools[j].slot <= slot)
                ==> final(self)@.tools == old(self)@.tools.push(ToolEntry { slot, tool }),
    {
        let ghost s = self@.tools;
        let entry = ToolEntry { slot, tool };
        let mut k: usize = 0;
        proof {
            lemma_slots_up_to(s, slot);
        }
        while k < self.tools.len() && self.tools[k].slot <= slot
            invariant
                s == self.tools@,
                sorted_by_slot(s),
                k <= s.len(),
                forall|j: int| 0 <= j < k ==> (#[trigger] s[j]).slot <= slot,
            decreases s.len() - k,
        {
            k = k + 1;
        }
        proof {
            if k < s.len() {
                assert(s[k as int].slot > slot);
                assert forall|j: int| k <= j < s.len() implies (#[trigger] s[j]).slot > slot by {
                    assert(s[k as int].slot <= s[j].slot);
                }
            }
            lemma_slots_up_to_split(s, slot, k as int);
        }
        self.tools.insert(k, entry);
        proof {
            if k == s.len() {
                assert(self.tools@ =~= s.push(entry));
            }
            let t = self.tools@;
            assert forall|i: int, j: int| 0 <= i < j < t.len() implies #[trigger] t[i].slot
                <= #[trigger] t[j].slot by {
                if j < k {
                    assert(t[i] == s[i] && t[j] == s[j]);
                } else if j == k {
                    assert(t[i] == s[i]);
                } else if i < k {
                    assert(t[i] == s[i] && t[j] == s[j - 1]);
                } else if i == k {
                    assert(t[j] == s[j - 1]);
                } else {
                    assert(t[i] == s[i - 1] && t[j] == s[j - 1]);
                }
            }
        }
    }

    /// The sprite and flip of the tool in use, if any.
    pub fn get_sprite_flip(&self) -> (r: Option<(GameSprite, TileFlip)>)
        requires
            self.wf(),
        ensures
            r == match self@.current_tool {
                Some(i) => Some(tool_sprite_flip(self@.tools[i as int].tool)),
                None => None,
            },
    {
        match self.current_tool {
            Some(i) => Some(self.tools[i].tool.get_sprite_flip()),
            None => None,
        }
    }

    /// Puts every tool away.
    pub fn set_no_tool(&mut self)
        ensures
            final(self)@.current_tool is None,
            final(self)@.tools == old(self)@.tools,
    {
        self.current_tool = None
    }

    /// Picks up the first tool in slot `slot`, or none if the slot is empty.
    pub fn set_tool(&mut self, slot: u32)
        requires
            old(self).wf(),
        ensures
            final(self).wf(),
            final(self)@.tools == old(self)@.tools,
            final(self)@.current_tool == match first_in_slot(old(self)@.tools, slot) {
                Some(i) => Some(i as usize),
                None => None,
            },
    {
        let ghost s = self@.tools;
        let mut i: usize = 0;
        let mut found: Option<usize> = None;
        assert(s.take(0) =~= Seq::<ToolEntry>::empty());
        while i < self.tools.len()
            invariant
                s == self.tools@,
                i <= s.len(),
                found == match first_in_slot(s.take(i as int), slot) {
                    Some(j) => Some(j as usize),
                    None => None,
                },
                forall|j: int| first_in_slot(s.take(i as int), slot) == Some(j) ==> 0 <= j < i,
            decreases s.len() - i,
        {
            assert(s.take(i + 1).drop_last() =~= s.take(i as int));
            if found.is_none() && self.tools[i].slot == slot {
                found = Some(i);
            }
            i = i + 1;
        }
        assert(s.take(s.len() as int) =~= s);
        self.current_tool = found;
    }

    /// Switches the tool in use, if any, to its next variant.
    pub fn next_variant(&mut self)
        requires
            old(self).wf(),
        ensures
            final(self).wf(),
            final(self)@.current_tool == old(self)@.current_tool,
            final(self)@.tools == match old(self)@.current_tool {
                Some(i) => old(self)@.tools.update(
                    i as int,
                    ToolEntry {
                        tool: tool_next_variant(old(self)@.tools[i as int].tool),
                        ..old(self)@.tools[i as int]
                    },
                ),
                None => old(self)@.tools,
            },
    {
        match self.current_tool {
            Some(i) => {
                let mut entry = self.tools[i];
                entry.tool.next_variant();
                let ghost s = self.tools@;
                self.tools.set(i, entry);
                proof {
                    let t = self.tools@;
                    assert forall|a: int, b: int| 0 <= a < b < t.len() implies #[trigger] t[a].slot
                        <= #[trigger] t[b].slot by {
                        assert(t[a].slot == s[a].slot);
                        assert(t[b].slot == s[b].slot);
                    }
                }
            },
            None => {},
        }
    }

    /// The entry of the tool in use, if any.
    pub fn current_tool(&self) -> (r: Option<&ToolEntry>)
        requires
            self.wf(),
        ensures
            r == match self@.current_tool {
                Some(i) => Some(&self@.tools[i as int]),
                None => None,
            },
    {
        match self.current_tool {
            Some(index) => Some(&self.tools[index]),
            None => None,
        }
    }

    /// All the entries, in slot order.
    pub fn tools(&self) -> (r: &Vec<ToolEntry>)
        ensures
            r@ == self@.tools,
    {
        &self.tools
    }

    /// Whether the tool in use sits in slot `slot`.
    pub fn is_active_slot(&self, slot: u32) -> (r: bool)
        requires
            self.wf(),
        ensures
            r == match self@.current_tool {
                Some(i) => self@.tools[i as int].slot == slot,
                None => false,
            },
    {
        match self.current_tool() {
            Some(entry) => entry.slot() == slot,
            None => false,
        }
    }
}

/// On sorted entries, the entries with a slot of at most `slot` come first.
pub proof fn lemma_slots_up_to(s: Seq<ToolEntry>, slot: u32)
    ensures
        0 <= slots_up_to(s, slot) <= s.len(),
    decreases s.len(),
{
    if s.len() > 0 {
        lemma_slots_up_to(s.drop_last(), slot);
    }
}

/// When the first `k` entries have a slot of at most `slot` and the others a
/// larger one, `k` entries have a slot of at most `slot`.
pub proof fn lemma_slots_up_to_split(s: Seq<ToolEntry>, slot: u32, k: int)
    requires
        0 <= k <= s.len(),
        forall|j: int| 0 <= j < k ==> (#[trigger] s[j]).slot <= slot,
        forall|j: int| k <= j < s.len() ==> (#[trigger] s[j]).slot > slot,
    ensures
        slots_up_to(s, slot) == k,
    decreases s.len(),
{
    if s.len() > 0 {
        let f = s.drop_last();
        if k == s.len() {
            assert forall|j: int| 0 <= j < k - 1 implies (#[trigger] f[j]).slot <= slot by {
                assert(f[j] == s[j]);
            }
            lemma_slots_up_to_split(f, slot, k - 1);
        } else {
            assert forall|j: int| 0 <= j < k implies (#[trigger] f[j]).slot <= slot by {
                assert(f[j] == s[j]);
            }
            assert forall|j: int| k <= j < f.len() implies (#[trigger] f[j]).slot > slot by {
                assert(f[j] == s[j]);
            }
            lemma_slots_up_to_split(f, slot, k);
        }
    }
}

/// On entries in slot order, those with a slot of at most `slot` come
/// first, the others after them.
proof fn lemma_slots_prefix(s: Seq<ToolEntry>, slot: u32)
    requires
        sorted_by_slot(s),
    ensures
        0 <= slots_up_to(s, slot) <= s.len(),
        forall|j: int| 0 <= j < slots_up_to(s, slot) ==> (#[trigger] s[j]).slot <= slot,
        forall|j: int| slots_up_to(s, slot) <= j < s.len() ==> (#[trigger] s[j]).slot > slot,
    decreases s.len(),
{
    if s.len() > 0 {
        let f = s.drop_last();
        assert(sorted_by_slot(f)) by {
            assert forall|i: int, j: int| 0 <= i < j < f.len() implies #[trigger] f[i].slot <= #[trigger] f[j].slot by {
                assert(s[i].slot <= s[j].slot);
            }
        }
        lemma_slots_prefix(f, slot);
        let c = slots_up_to(f, slot);
        if s.last().slot <= slot {
            assert forall|j: int| 0 <= j < f.len() implies (#[trigger] f[j]).slot <= slot by {
                assert(s[j].slot <= s[s.len() - 1].slot);
            }
            if c < f.len() {
                assert(f[c].slot > slot);
            }
        }
        assert forall|j: int| 0 <= j < slots_up_to(s, slot) implies (#[trigger] s[j]).slot <= slot by {
            if j < f.len() {
                assert(s[j] == f[j]);
            }
        }
        assert forall|j: int| slots_up_to(s, slot) <= j < s.len() implies (#[trigger] s[j]).slot > slot by {
            if j < f.len() {
                assert(s[j] == f[j]);
            }
        }
    }
}

/// With no entry in slot `slot`, the search for it finds nothing.
proof fn lemma_first_in_slot_none(t: Seq<ToolEntry>, slot: u32)
    requires
        forall|j: int| 0 <= j < t.len() ==> (#[trigger] t[j]).slot != slot,
    ensures
        first_in_slot(t, slot) is None,
    decreases t.len(),
{
    if t.len() > 0 {
        let f = t.drop_last();
        assert forall|j: int| 0 <= j < f.len() implies (#[trigger] f[j]).slot != slot by {
            assert(t[j] == f[j]);
        }
        lemma_first_in_slot_none(f, slot);
        assert(t.last() == t[t.len() - 1]);
    }
}

/// The search for slot `slot` finds the first entry in it.
proof fn lemma_first_in_slot_at(t: Seq<ToolEntry>, slot: u32, k: int)
    requires
        0 <= k < t.len(),
        t[k].slot == slot,
        forall|j: int| 0 <= j < k ==> (#[trigger] t[j]).slot != slot,
    ensures
        first_in_slot(t, slot) == Some(k),
    decreases t.len(),
{
    let f = t.drop_last();
    if k == t.len() - 1 {
        assert forall|j: int| 0 <= j < f.len() implies (#[trigger] f[j]).slot != slot by {
            assert(t[j] == f[j]);
        }
        lemma_first_in_slot_none(f, slot);
    } else {
        assert forall|j: int| 0 <= j < k implies (#[trigger] f[j]).slot != slot by {
            assert(t[j] == f[j]);
        }
        assert(f[k] == t[k]);
        lemma_first_in_slot_at(f, slot, k);
    }
}

/// A tool added in a slot that held none is the one picked up for that
/// slot.
pub proof fn law_add_then_select(s: Seq<ToolEntry>, slot: u32, tool: AnyTool)
    requires
        sorted_by_slot(s),
        forall|j: int| 0 <= j < s.len() ==> (#[trigger] s[j]).slot != slot,
    ensures
        first_in_slot(s.insert(slots_up_to(s, slot), ToolEntry { slot, tool }), slot) == Some(slots_up_to(s, slot)),
{
    lemma_slots_prefix(s, slot);
    let k = slots_up_to(s, slot);
    let t = s.insert(k, ToolEntry { slot, tool });
    assert forall|j: int| 0 <= j < k implies (#[trigger] t[j]).slot != slot by {
        assert(t[j] == s[j]);
    }
    lemma_first_in_slot_at(t, slot, k);
}

/// The game's tool bar: clear, belt, generator, sink, distributor, bridge,
/// plus and multiply in slots 1 to 8, with no tool in use.
pub fn setup_tools() -> (r: Tools)
    ensures
        r.wf(),
        r@.current_tool is None,
        r@.tools == seq![
            ToolEntry { slot: 1, tool: AnyTool::Clear(ClearTool) },
            ToolEntry { slot: 2, tool: AnyTool::ConveyorBelt(ConveyorBeltTool(ConveyorDirection::North)) },
            ToolEntry { slot: 3, tool: AnyTool::Generator(GeneratorTool) },
            ToolEntry { slot: 4, tool: AnyTool::Sink(SinkTool) },
            ToolEntry { slot: 5, tool: AnyTool::Distributor(DistributorTool(ConveyorDirection::East)) },
            ToolEntry { slot: 6, tool: AnyTool::Bridge(BridgeTool) },
            ToolEntry { slot: 7, tool: AnyTool::Operators(OperatorsTool { operator: Operator::Plus, direction: ConveyorDirection::North }) },
            ToolEntry { slot: 8, tool: AnyTool::Operators(OperatorsTool { operator: Operator::Multiply, direction: ConveyorDirection::North }) },
        ],
{
    let mut tools = Tools::default();
    tools.add(1, AnyTool::Clear(ClearTool));
    tools.add(2, AnyTool::ConveyorBelt(ConveyorBeltTool(ConveyorDirection::North)));
    tools.add(3, AnyTool::Generator(GeneratorTool));
    tools.add(4, AnyTool::Sink(SinkTool));
    tools.add(5, AnyTool::Distributor(DistributorTool(ConveyorDirection::East)));
    tools.add(6, AnyTool::Bridge(BridgeTool));
    tools.add(7, AnyTool::Operators(OperatorsTool::plus()));
    tools.add(8, AnyTool::Operators(OperatorsTool::multiply()));
    tools
}

} // verus!
