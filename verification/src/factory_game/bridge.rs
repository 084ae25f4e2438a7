use vstd::prelude::*;

use crate::factory_game::conveyor::{find_incoming_directions, incoming_directions, Conveyor};
use crate::factory_game::helpers::{
    all_directions, opposite_of, ConveyorDirection, ConveyorDirections, TileFlip,
};
use crate::factory_game::payload_handler::PayloadHandler;
use crate::factory_game::payloads::{
    advanced, entities_of, has_room, ready_payload, spacing_of, without, LineModel,
    PayloadTransportLine, RequestPayloadTransferEvent, TransportedPayload,
};
use crate::factory_game::interaction::{PlaceTile, Tool};
use crate::sprite_sheet::GameSprite;
use crate::tiles::{Neighbors, TilePos};

verus! {

/// What a bridge holds.
pub struct BridgeModel {
    pub top: Option<PayloadTransportLine>,
    pub bottom: Option<PayloadTransportLine>,
    pub capacity: u32,
}

/// A crossing of two conveyors on one tile: the top lane carries payloads
/// east or west, the bottom lane north or south.
#[derive(Debug)]
pub struct BridgeConveyor {
    top: Option<PayloadTransportLine>,
    bottom: Option<PayloadTransportLine>,
    capacity: u32,
}

impl View for BridgeConveyor {
    type V = BridgeModel;

    closed spec fn view(&self) -> BridgeModel {
        BridgeModel { top: self.top, bottom: self.bottom, capacity: self.capacity }
    }
}

/// A lane that is there is well formed.
pub open spec fn optional_lane_wf(lane: Option<PayloadTransportLine>) -> bool {
    match lane {
        Some(l) => l.wf(),
        None => true,
    }
}

/// The output of a lane that is there.
pub open spec fn optional_lane_output(lane: Option<PayloadTransportLine>) -> Option<ConveyorDirection> {
    match lane {
        Some(l) => l@.output,
        None => None,
    }
}

/// The entities on a lane that is there.
pub open spec fn optional_lane_entities(lane: Option<PayloadTransportLine>) -> Seq<u64> {
    match lane {
        Some(l) => entities_of(l@.payloads),
        None => Seq::empty(),
    }
}

/// The output the bottom lane should have for the given inputs: payloads
/// from the north go south, else payloads from the south go north.
pub open spec fn wanted_bottom_output(inputs: Set<ConveyorDirection>) -> Option<ConveyorDirection> {
    if inputs.contains(ConveyorDirection::North) {
        Some(ConveyorDirection::South)
    } else if inputs.contains(ConveyorDirection::South) {
        Some(ConveyorDirection::North)
    } else {
        None
    }
}

/// The output the top lane should have for the given inputs: payloads from
/// the east go west, else payloads from the west go east.
pub open spec fn wanted_top_output(inputs: Set<ConveyorDirection>) -> Option<ConveyorDirection> {
    if inputs.contains(ConveyorDirection::East) {
        Some(ConveyorDirection::West)
    } else if inputs.contains(ConveyorDirection::West) {
        Some(ConveyorDirection::East)
    } else {
        None
    }
}

/// Lane `after` is lane `before` if its output is `wanted`, else a new empty
/// lane towards `wanted` (or no lane).
pub open spec fn lane_set_up(
    before: Option<PayloadTransportLine>,
    after: Option<PayloadTransportLine>,
    wanted: Option<ConveyorDirection>,
    capacity: u32,
) -> bool {
    if optional_lane_output(before) == wanted {
        after == before
    } else {
        match wanted {
            Some(d) => after is Some && after->0@ == (LineModel { payloads: Seq::empty(), output: Some(d), capacity }),
            None => after is None,
        }
    }
}

/// A bridge's lanes carry payloads across it: whatever lanes it had, once
/// they are set up for the sides `inputs` it takes payloads from, each lane
/// sends payloads out opposite a side they come in by, the bottom lane
/// north or south and the top lane east or west; a payload coming in from
/// the north leaves to the south, and one from the east leaves to the west.
/// A lane's output side is among the conveyor's outputs (every side but the
/// inputs) unless payloads also come in from that side. A lane is there
/// exactly when some input lies on its axis.
pub proof fn law_lanes_cross_the_bridge(
    old_bottom: Option<PayloadTransportLine>,
    bottom: Option<PayloadTransportLine>,
    old_top: Option<PayloadTransportLine>,
    top: Option<PayloadTransportLine>,
    inputs: Set<ConveyorDirection>,
    capacity: u32,
)
    requires
        lane_set_up(old_bottom, bottom, wanted_bottom_output(inputs), capacity),
        lane_set_up(old_top, top, wanted_top_output(inputs), capacity),
    ensures
        optional_lane_output(bottom) matches Some(d) ==> is_vertical(d) && inputs.contains(opposite_of(d))
            && (!inputs.contains(d) ==> all_directions().difference(inputs).contains(d)),
        optional_lane_output(top) matches Some(d) ==> !is_vertical(d) && inputs.contains(opposite_of(d))
            && (!inputs.contains(d) ==> all_directions().difference(inputs).contains(d)),
        (optional_lane_output(bottom) is None) == (!inputs.contains(ConveyorDirection::North)
            && !inputs.contains(ConveyorDirection::South)),
        (optional_lane_output(top) is None) == (!inputs.contains(ConveyorDirection::East)
            && !inputs.contains(ConveyorDirection::West)),
        inputs.contains(ConveyorDirection::North) ==> optional_lane_output(bottom) == Some(ConveyorDirection::South),
        inputs.contains(ConveyorDirection::East) ==> optional_lane_output(top) == Some(ConveyorDirection::West),
{
    assert(optional_lane_output(bottom) == wanted_bottom_output(inputs));
    assert(optional_lane_output(top) == wanted_top_output(inputs));
}

/// Whether payloads sent in `direction` ride on the bottom lane.
pub open spec fn is_vertical(direction: ConveyorDirection) -> bool {
    direction == ConveyorDirection::North || direction == ConveyorDirection::South
}

impl Default for BridgeConveyor {
    fn default() -> (r: Self)
        ensures
            r@.top is None,
            r@.bottom is None,
            r@.capacity == 5,
    {
        BridgeConveyor { top: None, bottom: None, capacity: 5 }
    }
}

/// Moves a lane that is there on by `t` and returns its ready payload with
/// its direction.
fn update_lane(lane: &mut Option<PayloadTransportLine>, t: u32) -> (r: Option<(ConveyorDirection, u64)>)
    requires
        optional_lane_wf(*old(lane)),
    ensures
        optional_lane_wf(*final(lane)),
        match *old(lane) {
            None => r is None && *final(lane) == *old(lane),
            Some(l) => {
                &&& (*final(lane)) is Some
                &&& (*final(lane))->0@ == (LineModel {
                    payloads: advanced(l@.payloads, t as int, spacing_of(l@.capacity)),
                    ..l@
                })
                &&& r == match (ready_payload((*final(lane))->0@.payloads), l@.output) {
                    (Some(p), Some(d)) => Some((d, p)),
                    _ => None,
                }
            },
        },
{
    match lane {
        Some(l) => {
            let ready = l.update(t);
            match (ready, l.output_direction()) {
                (Some(p), Some(d)) => Some((d, p)),
                _ => None,
            }
        },
        None => None,
    }
}

/// What taking the payload of `request` does to a bridge: a payload sent
/// north or south goes onto the bottom lane, one sent east or west onto the
/// top lane, if that lane is there and has room at its start; `r` is the
/// payload taken.
pub open spec fn bridge_took(before: BridgeModel, after: BridgeModel, request: RequestPayloadTransferEvent, r: Option<u64>) -> bool {
    &&& after.capacity == before.capacity
    &&& r is Some ==> r == Some(request.payload)
    &&& if is_vertical(request.direction) {
        &&& after.top == before.top
        &&& match before.bottom {
            None => r is None && after.bottom is None,
            Some(l) => match r {
                Some(p) => has_room(l@, 0) && after.bottom is Some && after.bottom->0@
                    == (LineModel {
                    payloads: l@.payloads.push(
                        TransportedPayload { entity: p, from: opposite_of(request.direction), mu: 0 },
                    ),
                    ..l@
                }),
                None => !has_room(l@, 0) && after.bottom == before.bottom,
            },
        }
    } else {
        &&& after.bottom == before.bottom
        &&& match before.top {
            None => r is None && after.top is None,
            Some(l) => match r {
                Some(p) => has_room(l@, 0) && after.top is Some && after.top->0@
                    == (LineModel {
                    payloads: l@.payloads.push(
                        TransportedPayload { entity: p, from: opposite_of(request.direction), mu: 0 },
                    ),
                    ..l@
                }),
                None => !has_room(l@, 0) && after.top == before.top,
            },
        }
    }
}

/// What taking `payload` off a bridge does: it leaves both lanes.
pub open spec fn bridge_removed(before: BridgeModel, after: BridgeModel, payload: u64) -> bool {
    &&& after.capacity == before.capacity
    &&& match (before.top, after.top) {
        (Some(a), Some(b)) => b@ == (LineModel { payloads: without(a@.payloads, payload), ..a@ }),
        (None, None) => true,
        _ => false,
    }
    &&& match (before.bottom, after.bottom) {
        (Some(a), Some(b)) => b@ == (LineModel { payloads: without(a@.payloads, payload), ..a@ }),
        (None, None) => true,
        _ => false,
    }
}

impl BridgeConveyor {
    /// The lanes that are there are well formed.
    pub open spec fn wf(&self) -> bool {
        optional_lane_wf(self@.top) && optional_lane_wf(self@.bottom)
    }

    /// Takes `payload` off both lanes.
    pub fn remove_payload(&mut self, payload: u64)
        requires
            old(self).wf(),
        ensures
            final(self).wf(),
            bridge_removed(old(self)@, final(self)@, payload),
    {
        match &mut self.top {
            Some(top) => top.remove_payload(payload),
            None => {},
        }
        match &mut self.bottom {
            Some(bottom) => bottom.remove_payload(payload),
            None => {},
        }
    }

    /// The output of the bottom lane, if there is one.
    pub fn current_bottom_output(&self) -> (r: Option<ConveyorDirection>)
        ensures
            r == optional_lane_output(self@.bottom),
    {
        match &self.bottom {
            Some(bottom) => bottom.output_direction(),
            None => None,
        }
    }

    /// The output of the top lane, if there is one.
    pub fn current_top_output(&self) -> (r: Option<ConveyorDirection>)
        ensures
            r == optional_lane_output(self@.top),
    {
        match &self.top {
            Some(top) => top.output_direction(),
            None => None,
        }
    }

    /// Sets the bridge up for its current neighbours: it takes payloads from
    /// the neighbours that send payloads to it and sends them on the other
    /// sides; a payload from the north goes south (else one from the south
    /// goes north) on the bottom lane, and one from the east goes west (else
    /// one from the west goes east) on the top lane. A lane whose output
    /// changes is replaced by a new empty one.
    pub fn update_bridge_conveyor(&mut self, conveyor: &mut Conveyor, neighbors: &Neighbors<Conveyor>)
        requires
            old(self).wf(),
        ensures
            final(self).wf(),
            final(self)@.capacity == old(self)@.capacity,
            final(conveyor)@.inputs == incoming_directions(*neighbors),
            final(conveyor)@.outputs == all_directions().difference(incoming_directions(*neighbors)),
            lane_set_up(
                old(self)@.bottom,
                final(self)@.bottom,
                wanted_bottom_output(incoming_directions(*neighbors)),
                old(self)@.capacity,
            ),
            lane_set_up(
                old(self)@.top,
                final(self)@.top,
                wanted_top_output(incoming_directions(*neighbors)),
                old(self)@.capacity,
            ),
    {
        let inputs = find_incoming_directions(neighbors);
        conveyor.set_inputs(inputs);
        conveyor.set_outputs(ConveyorDirections::all_except(inputs));

        let wanted_bottom_output = if inputs.is_set(ConveyorDirection::North) {
            Some(ConveyorDirection::South)
        } else if inputs.is_set(ConveyorDirection::South) {
            Some(ConveyorDirection::North)
        } else {
            None
        };

        let wanted_top_output = if inputs.is_set(ConveyorDirection::East) {
            Some(ConveyorDirection::West)
        } else if inputs.is_set(ConveyorDirection::West) {
            Some(ConveyorDirection::East)
        } else {
            None
        };

        let current_bottom_output = self.current_bottom_output();
        if current_bottom_output != wanted_bottom_output {
            self.bottom = match wanted_bottom_output {
                Some(output) => Some(PayloadTransportLine::new(output, self.capacity)),
                None => None,
            };
        }
        let current_top_output = self.current_top_output();
        if current_top_output != wanted_top_output {
            self.top = match wanted_top_output {
                Some(output) => Some(PayloadTransportLine::new(output, self.capacity)),
                None => None,
            };
        }
    }

    /// Takes a payload sent in `request.direction` onto the lane for that
    /// direction, if the lane is there and has room at its start.
    pub fn try_transfer_request(&mut self, request: &RequestPayloadTransferEvent) -> (r: Option<u64>)
        requires
            old(self).wf(),
        ensures
            final(self).wf(),
            final(self)@.capacity == old(self)@.capacity,
            bridge_took(old(self)@, final(self)@, *request, r),
    {
        let transport = match request.direction {
            ConveyorDirection::North | ConveyorDirection::South => &mut self.bottom,
            ConveyorDirection::East | ConveyorDirection::West => &mut self.top,
        };
        match transport {
            Some(line) => line.try_transfer_request(request),
            None => None,
        }
    }

    /// Moves both lanes on by `t`; returns the payloads then ready to leave
    /// the top lane and the bottom lane, each with its direction.
    pub fn update(&mut self, t: u32) -> (r: (Option<(ConveyorDirection, u64)>, Option<(ConveyorDirection, u64)>))
        requires
            old(self).wf(),
        ensures
            final(self).wf(),
            final(self)@.capacity == old(self)@.capacity,
            match old(self)@.top {
                None => r.0 is None && final(self)@.top is None,
                Some(l) => {
                    &&& final(self)@.top is Some
                    &&& final(self)@.top->0@ == (LineModel {
                        payloads: advanced(l@.payloads, t as int, spacing_of(l@.capacity)),
                        ..l@
                    })
                    &&& r.0 == match (ready_payload(final(self)@.top->0@.payloads), l@.output) {
                        (Some(p), Some(d)) => Some((d, p)),
                        _ => None,
                    }
                },
            },
            match old(self)@.bottom {
                None => r.1 is None && final(self)@.bottom is None,
                Some(l) => {
                    &&& final(self)@.bottom is Some
                    &&& final(self)@.bottom->0@ == (LineModel {
                        payloads: advanced(l@.payloads, t as int, spacing_of(l@.capacity)),
                        ..l@
                    })
                    &&& r.1 == match (ready_payload(final(self)@.bottom->0@.payloads), l@.output) {
                        (Some(p), Some(d)) => Some((d, p)),
                        _ => None,
                    }
                },
            },
    {
        let top = update_lane(&mut self.top, t);
        let bottom = update_lane(&mut self.bottom, t);
        (top, bottom)
    }
}

impl PayloadHandler for BridgeConveyor {
    open spec fn handler_wf(&self) -> bool {
        self.wf()
    }

    open spec fn handles(&self, conveyor: Conveyor) -> bool {
        true
    }

    open spec fn releases(&self) -> bool {
        true
    }

    open spec fn took(&self, after: Self, conveyor: Conveyor, request: RequestPayloadTransferEvent, r: Option<u64>) -> bool {
        bridge_took(self@, after@, request, r)
    }

    open spec fn gave_up(&self, after: Self, payload: u64) -> bool {
        bridge_removed(self@, after@, payload)
    }

    fn handles_conveyor(&self, conveyor: &Conveyor) -> (r: bool) {
        true
    }

    fn releases_payloads(&self) -> (r: bool) {
        true
    }

    /// Takes the payload onto the lane for its direction, if there is room.
    fn try_transfer(&mut self, self_conveyor: &Conveyor, request: &RequestPayloadTransferEvent) -> (r:
        Option<u64>)
        ensures
            bridge_took(old(self)@, final(self)@, *request, r),
    {
        self.try_transfer_request(request)
    }

    /// Takes `payload` off both lanes.
    fn remove_payload(&mut self, payload: u64)
        ensures
            bridge_removed(old(self)@, final(self)@, payload),
    {
        BridgeConveyor::remove_payload(self, payload)
    }

    /// The payloads of the top lane, then those of the bottom lane.
    fn iter_payloads(&self) -> (r: Vec<u64>)
        ensures
            r@ == optional_lane_entities(self@.top) + optional_lane_entities(self@.bottom),
    {
        let mut r: Vec<u64> = match &self.top {
            Some(top) => top.iter_payloads(),
            None => Vec::new(),
        };
        let mut more: Vec<u64> = match &self.bottom {
            Some(bottom) => bottom.iter_payloads(),
            None => Vec::new(),
        };
        r.append(&mut more);
        r
    }
}

/// A click with the bridge tool: place a bridge at the tile.
#[derive(Clone, Copy, Debug)]
pub struct PlaceBridgeEvent(pub TilePos);

impl PlaceBridgeEvent {
    /// The tile to place the bridge on.
    pub fn tile_pos(&self) -> (r: TilePos)
        ensures
            r == self.0,
    {
        self.0
    }

    /// The components of the new bridge: a bridge without lanes and a
    /// conveyor with outputs on every side.
    pub fn configure_new_entity(&self) -> (r: (BridgeConveyor, Conveyor))
        ensures
            r.0.wf(),
            r.0@.top is None,
            r.0@.bottom is None,
            r.0@.capacity == 5,
            r.1@.outputs == all_directions(),
            r.1@.inputs == Set::<ConveyorDirection>::empty(),
    {
        (BridgeConveyor::default(), Conveyor::new(ConveyorDirections::all()))
    }
}

/// The bridge tool.
#[derive(Clone, Copy, Debug)]
pub struct BridgeTool;

impl Tool for BridgeTool {
    /// The tool's preview: the bridge sprite, unturned.
    fn get_sprite_flip(&self) -> (r: (GameSprite, TileFlip))
        ensures
            r == (GameSprite::Bridge, TileFlip { x: false, y: false, d: false }),
    {
        (GameSprite::Bridge, TileFlip { x: false, y: false, d: false })
    }

    /// A click at `tile_pos`: place a bridge there.
    /// The tool has a single variant.
    fn next_variant(&mut self)
        ensures
            *final(self) == *old(self),
    {
    }

    fn execute(&self, tile_pos: &TilePos) -> (r: PlaceTile)
        ensures
            r == PlaceTile::Bridge(PlaceBridgeEvent(*tile_pos)),
    {
        PlaceTile::Bridge(PlaceBridgeEvent(*tile_pos))
    }
}

} // verus!
