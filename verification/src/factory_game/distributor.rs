use vstd::prelude::*;

use smallvec::SmallVec;

use crate::factory_game::conveyor::{first_accepting, Conveyor};
use crate::factory_game::helpers::{
    all_directions, flip_facing, index_of, is_single, next_of, opposite_of, rotation_from, select,
    ConveyorDirection, ConveyorDirections, TileFlip,
};
use crate::factory_game::payload_handler::PayloadHandler;
use crate::factory_game::payloads::{
    advanced, entities_of, has_room, ready_payload, spacing_of, without, LineModel,
    PayloadTransportLine, RequestPayloadTransferEvent, TransportedPayload, MU_ONE,
};
use crate::factory_game::interaction::{PlaceTile, Tool};
use crate::sprite_sheet::GameSprite;
use crate::tiles::{Neighbors, TilePos};

verus! {

/// The output lanes of a distributor, one per direction, kept in a
/// `SmallVec` with room for three lanes inline.
#[verifier::external_body]
#[derive(Debug)]
pub struct DistributorOutputs {
    inner: SmallVec<[(ConveyorDirection, PayloadTransportLine); 3]>,
}

/// The lanes a [`DistributorOutputs`] holds, in order.
pub uninterp spec fn distributor_output_items(o: DistributorOutputs) -> Seq<(ConveyorDirection, PayloadTransportLine)>;

impl DistributorOutputs {
    /// `SmallVec::new`: no lanes.
    #[verifier::external_body]
    pub(crate) fn new() -> (r: DistributorOutputs)
        ensures
            distributor_output_items(r) == Seq::<(ConveyorDirection, PayloadTransportLine)>::empty(),
    {
        DistributorOutputs { inner: SmallVec::new() }
    }

    /// `SmallVec::len`: the number of lanes.
    #[verifier::external_body]
    pub(crate) fn len(&self) -> (r: usize)
        ensures
            r == distributor_output_items(*self).len(),
    {
        self.inner.len()
    }

    /// `SmallVec` indexing: the lane at position `i`.
    #[verifier::external_body]
    pub(crate) fn get(&self, i: usize) -> (r: &(ConveyorDirection, PayloadTransportLine))
        requires
            i < distributor_output_items(*self).len(),
        ensures
            *r == distributor_output_items(*self)[i as int],
    {
        &self.inner[i]
    }

    /// `SmallVec` mutable indexing: the lane at position `i`, to change in
    /// place.
    #[verifier::external_body]
    pub(crate) fn get_mut(&mut self, i: usize) -> (r: &mut (ConveyorDirection, PayloadTransportLine))
        requires
            i < distributor_output_items(*old(self)).len(),
        ensures
            *r == distributor_output_items(*old(self))[i as int],
            distributor_output_items(*final(self)) == distributor_output_items(*old(self)).update(
                i as int,
                *final(r),
            ),
    {
        &mut self.inner[i]
    }

    /// `SmallVec::push`: appends a lane.
    #[verifier::external_body]
    pub(crate) fn push(&mut self, lane: (ConveyorDirection, PayloadTransportLine))
        ensures
            distributor_output_items(*final(self)) == distributor_output_items(*old(self)).push(lane),
    {
        self.inner.push(lane);
    }
}

/// Every lane of `lanes` is well formed.
pub open spec fn lanes_wf(lanes: Seq<(ConveyorDirection, PayloadTransportLine)>) -> bool {
    forall|i: int| 0 <= i < lanes.len() ==> (#[trigger] lanes[i]).1.wf()
}

/// The number of payloads on all of `lanes`.
pub open spec fn lanes_count(lanes: Seq<(ConveyorDirection, PayloadTransportLine)>) -> int
    decreases lanes.len(),
{
    if lanes.len() == 0 {
        0
    } else {
        lanes_count(lanes.drop_last()) + lanes.last().1@.payloads.len()
    }
}

/// The entities of the payloads on `lanes`, lane by lane, front first.
pub open spec fn lanes_entities(lanes: Seq<(ConveyorDirection, PayloadTransportLine)>) -> Seq<u64>
    decreases lanes.len(),
{
    if lanes.len() == 0 {
        Seq::empty()
    } else {
        lanes_entities(lanes.drop_last()) + entities_of(lanes.last().1@.payloads)
    }
}

/// The first lane, in order, whose front payload is ready to leave, with
/// that payload.
pub open spec fn first_ready(lanes: Seq<(ConveyorDirection, PayloadTransportLine)>) -> Option<(ConveyorDirection, u64)>
    decreases lanes.len(),
{
    if lanes.len() == 0 {
        None
    } else {
        match ready_payload(lanes[0].1@.payloads) {
            Some(e) => Some((lanes[0].0, e)),
            None => first_ready(lanes.subrange(1, lanes.len() as int)),
        }
    }
}

/// The position of the first lane towards `d`, or -1 when there is none.
pub open spec fn lane_index(lanes: Seq<(ConveyorDirection, PayloadTransportLine)>, d: ConveyorDirection) -> int
    decreases lanes.len(),
{
    if lanes.len() == 0 {
        -1
    } else {
        let k = lane_index(lanes.drop_last(), d);
        if k >= 0 {
            k
        } else if lanes.last().0 == d {
            lanes.len() - 1
        } else {
            -1
        }
    }
}

/// Lane `b` is lane `a` with every payload moved on by `t`.
pub open spec fn lane_advanced(a: (ConveyorDirection, PayloadTransportLine), b: (ConveyorDirection, PayloadTransportLine), t: int) -> bool {
    &&& b.0 == a.0
    &&& b.1@ == (LineModel { payloads: advanced(a.1@.payloads, t, spacing_of(a.1@.capacity)), ..a.1@ })
}

/// `b` is `a` with every lane moved on by `t`.
pub open spec fn lanes_advanced(
    a: Seq<(ConveyorDirection, PayloadTransportLine)>,
    b: Seq<(ConveyorDirection, PayloadTransportLine)>,
    t: int,
) -> bool {
    &&& a.len() == b.len()
    &&& forall|i: int| 0 <= i < a.len() ==> lane_advanced(a[i], #[trigger] b[i], t)
}

/// Lane `b` is lane `a` with the payloads of `entity` taken off.
pub open spec fn lane_without(a: (ConveyorDirection, PayloadTransportLine), b: (ConveyorDirection, PayloadTransportLine), entity: u64) -> bool {
    &&& b.0 == a.0
    &&& b.1@ == (LineModel { payloads: without(a.1@.payloads, entity), ..a.1@ })
}

/// `b` is `a` with the payloads of `entity` taken off every lane.
pub open spec fn lanes_without(
    a: Seq<(ConveyorDirection, PayloadTransportLine)>,
    b: Seq<(ConveyorDirection, PayloadTransportLine)>,
    entity: u64,
) -> bool {
    &&& a.len() == b.len()
    &&& forall|i: int| 0 <= i < a.len() ==> lane_without(a[i], #[trigger] b[i], entity)
}

/// `b` is `a` with `payload` added at the back of lane `k`.
pub open spec fn lane_pushed(
    a: Seq<(ConveyorDirection, PayloadTransportLine)>,
    b: Seq<(ConveyorDirection, PayloadTransportLine)>,
    k: int,
    payload: TransportedPayload,
) -> bool {
    &&& a.len() == b.len()
    &&& 0 <= k < a.len()
    &&& forall|j: int| 0 <= j < a.len() && j != k ==> #[trigger] b[j] == a[j]
    &&& b[k].0 == a[k].0
    &&& b[k].1@ == LineModel { payloads: a[k].1@.payloads.push(payload), ..a[k].1@ }
}

/// What a distributor holds.
pub struct DistributorModel {
    pub next_output: ConveyorDirection,
    pub input: PayloadTransportLine,
    pub outputs: Seq<(ConveyorDirection, PayloadTransportLine)>,
    pub capacity: u32,
}

/// The number of payloads a distributor holds.
pub open spec fn distributor_count(m: DistributorModel) -> int {
    m.input@.payloads.len() + lanes_count(m.outputs)
}

/// A distributor takes a payload only while it holds fewer than its
/// capacity, so taking payloads never brings it past its capacity.
pub proof fn law_take_within_capacity(before: DistributorModel, after: DistributorModel, p: TransportedPayload)
    requires
        distributor_count(before) < before.capacity,
        after.input@.payloads == before.input@.payloads.push(p),
        after.outputs == before.outputs,
        after.capacity == before.capacity,
    ensures
        distributor_count(after) == distributor_count(before) + 1,
        distributor_count(after) <= after.capacity,
{
}

/// A machine that takes payloads in on one side and hands them out in turn
/// to the neighbours that will accept them.
#[derive(Debug)]
pub struct Distributor {
    next_output: ConveyorDirection,
    input: PayloadTransportLine,
    outputs: DistributorOutputs,
    capacity: u32,
}

impl View for Distributor {
    type V = DistributorModel;

    closed spec fn view(&self) -> DistributorModel {
        DistributorModel {
            next_output: self.next_output,
            input: self.input,
            outputs: distributor_output_items(self.outputs),
            capacity: self.capacity,
        }
    }
}

/// Where the payload at the front of a distributor's input would go: the
/// first output, clockwise from the one after the last used, whose
/// neighbour accepts payloads.
pub open spec fn distribution_destination(
    m: DistributorModel,
    conveyor: Conveyor,
    neighbors: Neighbors<Conveyor>,
) -> Option<ConveyorDirection> {
    first_accepting(select(rotation_from(index_of(m.next_output)), conveyor@.outputs), neighbors)
}

/// `m1` is `m0` with every payload, on the input and on each output lane,
/// moved on by `t`.
pub open spec fn model_advanced(m0: DistributorModel, m1: DistributorModel, t: int) -> bool {
    &&& m1.next_output == m0.next_output
    &&& m1.capacity == m0.capacity
    &&& m1.input@ == (LineModel {
        payloads: advanced(m0.input@.payloads, t, spacing_of(m0.input@.capacity)),
        ..m0.input@
    })
    &&& lanes_advanced(m0.outputs, m1.outputs, t)
}

/// `m1` is `m0` after `payload`, at the front of the input, was offered to
/// the outputs: when an output whose neighbour accepts payloads is found,
/// the turn passes to the one after it, and if its lane has room halfway
/// along, the payload moves there from the input.
pub open spec fn handed_on(
    m0: DistributorModel,
    m1: DistributorModel,
    conveyor: Conveyor,
    neighbors: Neighbors<Conveyor>,
    payload: u64,
) -> bool {
    match distribution_destination(m0, conveyor, neighbors) {
        None => m1 == m0,
        Some(destination) => {
            let k = lane_index(m0.outputs, destination);
            &&& m1.next_output == next_of(destination)
            &&& m1.capacity == m0.capacity
            &&& if k >= 0 && has_room(m0.outputs[k].1@, (MU_ONE / 2) as int) {
                &&& lane_pushed(
                    m0.outputs,
                    m1.outputs,
                    k,
                    TransportedPayload { entity: payload, from: ConveyorDirection::North, mu: MU_ONE / 2 },
                )
                &&& m1.input@ == (LineModel { payloads: without(m0.input@.payloads, payload), ..m0.input@ })
            } else {
                &&& m1.outputs == m0.outputs
                &&& m1.input == m0.input
            }
        },
    }
}

impl Distributor {
    /// Every lane is well formed.
    pub open spec fn wf(&self) -> bool {
        self@.input.wf() && lanes_wf(self@.outputs)
    }

    /// A distributor that takes payloads from `input` and sends them out on
    /// the other three sides, with lanes of the given capacity.
    pub fn new(input: ConveyorDirection, capacity: u32) -> (r: Self)
        ensures
            r.wf(),
            r@.next_output == ConveyorDirection::North,
            r@.capacity == capacity,
            r@.input@ == (LineModel { payloads: Seq::empty(), output: None, capacity }),
            r@.outputs.len() == select(rotation_from(0), all_directions().remove(input)).len(),
            forall|i: int|
                0 <= i < r@.outputs.len() ==> {
                    &&& (#[trigger] r@.outputs[i]).0 == select(rotation_from(0), all_directions().remove(input))[i]
                    &&& r@.outputs[i].1@ == (LineModel {
                        payloads: Seq::empty(),
                        output: Some(r@.outputs[i].0),
                        capacity,
                    })
                },
    {
        let directions = ConveyorDirections::all_except(ConveyorDirections::new(input)).iter();
        assert(all_directions().difference(Set::empty().insert(input)) =~= all_directions().remove(input));
        let mut outputs = DistributorOutputs::new();
        let mut i: usize = 0;
        while i < directions.len()
            invariant
                i <= directions.len(),
                distributor_output_items(outputs).len() == i,
                forall|j: int|
                    0 <= j < i ==> {
                        &&& (#[trigger] distributor_output_items(outputs)[j]).0 == directions@[j]
                        &&& distributor_output_items(outputs)[j].1@ == (LineModel {
                            payloads: Seq::empty(),
                            output: Some(directions@[j]),
                            capacity,
                        })
                        &&& distributor_output_items(outputs)[j].1.wf()
                    },
            decreases directions.len() - i,
        {
            let d = directions[i];
            outputs.push((d, PayloadTransportLine::new(d, capacity)));
            i = i + 1;
        }
        Distributor {
            next_output: ConveyorDirection::North,
            input: PayloadTransportLine::new_no_output(capacity),
            outputs,
            capacity,
        }
    }

    /// The number of payloads in the distributor, counting at most
    /// `usize::MAX`.
    pub fn count(&self) -> (r: usize)
        ensures
            r == if self@.input@.payloads.len() + lanes_count(self@.outputs) <= usize::MAX {
                self@.input@.payloads.len() + lanes_count(self@.outputs)
            } else {
                usize::MAX as int
            },
    {
        let mut total: usize = self.input.count();
        let n = self.outputs.len();
        let mut i: usize = 0;
        while i < n
            invariant
                n == self@.outputs.len(),
                i <= n,
                total == if self@.input@.payloads.len() + lanes_count(self@.outputs.take(i as int))
                    <= usize::MAX {
                    self@.input@.payloads.len() + lanes_count(self@.outputs.take(i as int))
                } else {
                    usize::MAX as int
                },
            decreases n - i,
        {
            assert(self@.outputs.take(i + 1).drop_last() =~= self@.outputs.take(i as int));
            total = total.saturating_add(self.outputs.get(i).1.count());
            i = i + 1;
        }
        assert(self@.outputs.take(n as int) =~= self@.outputs);
        total
    }

    /// Moves every payload on by `t`.
    pub fn update_payloads(&mut self, t: u32)
        requires
            old(self).wf(),
        ensures
            final(self).wf(),
            final(self)@.next_output == old(self)@.next_output,
            final(self)@.capacity == old(self)@.capacity,
            final(self)@.input@ == (LineModel {
                payloads: advanced(old(self)@.input@.payloads, t as int, spacing_of(old(self)@.input@.capacity)),
                ..old(self)@.input@
            }),
            lanes_advanced(old(self)@.outputs, final(self)@.outputs, t as int),
    {
        self.input.update_payloads(t);
        let ghost start = self@.outputs;
        let ghost input = self@.input;
        let n = self.outputs.len();
        let mut i: usize = 0;
        while i < n
            invariant
                n == start.len(),
                i <= n,
                self@.outputs.len() == n,
                self@.input == input,
                input.wf(),
                self@.next_output == old(self)@.next_output,
                self@.capacity == old(self)@.capacity,
                lanes_wf(start),
                lanes_wf(self@.outputs),
                forall|j: int| i <= j < n ==> #[trigger] self@.outputs[j] == start[j],
                forall|j: int| 0 <= j < i ==> lane_advanced(start[j], #[trigger] self@.outputs[j], t as int),
            decreases n - i,
        {
            let ghost before = self@.outputs;
            let lane = self.outputs.get_mut(i);
            lane.1.update_payloads(t);
            assert(lane_advanced(start[i as int], self@.outputs[i as int], t as int));
            assert(forall|j: int| 0 <= j < n && j != i ==> self@.outputs[j] == before[j]);
            i = i + 1;
        }
    }

    /// The first output lane whose front payload is ready to leave, with that
    /// payload.
    pub fn get_payload_to_transfer(&self) -> (r: Option<(ConveyorDirection, u64)>)
        ensures
            r == first_ready(self@.outputs),
    {
        let ghost lanes = self@.outputs;
        let n = self.outputs.len();
        let mut i: usize = 0;
        assert(lanes.subrange(0, n as int) =~= lanes);
        while i < n
            invariant
                n == lanes.len(),
                lanes == self@.outputs,
                i <= n,
                first_ready(lanes) == first_ready(lanes.subrange(i as int, n as int)),
            decreases n - i,
        {
            let lane = self.outputs.get(i);
            let ghost rest = lanes.subrange(i as int, n as int);
            assert(rest[0] == lanes[i as int]);
            assert(rest.subrange(1, rest.len() as int) =~= lanes.subrange(i + 1, n as int));
            match lane.1.get_payload_to_transfer() {
                Some(e) => {
                    return Some((lane.0, e));
                },
                None => {},
            }
            i = i + 1;
        }
        None
    }

    /// Takes `payload` off every output lane.
    pub fn remove_payload_from_outputs(&mut self, payload: u64)
        requires
            old(self).wf(),
        ensures
            final(self).wf(),
            final(self)@.next_output == old(self)@.next_output,
            final(self)@.capacity == old(self)@.capacity,
            final(self)@.input == old(self)@.input,
            lanes_without(old(self)@.outputs, final(self)@.outputs, payload),
    {
        let ghost start = self@.outputs;
        let n = self.outputs.len();
        let mut i: usize = 0;
        while i < n
            invariant
                n == start.len(),
                i <= n,
                self@.outputs.len() == n,
                self@.input == old(self)@.input,
                self@.input.wf(),
                self@.next_output == old(self)@.next_output,
                self@.capacity == old(self)@.capacity,
                start == old(self)@.outputs,
                lanes_wf(start),
                lanes_wf(self@.outputs),
                forall|j: int| i <= j < n ==> #[trigger] self@.outputs[j] == start[j],
                forall|j: int| 0 <= j < i ==> lane_without(start[j], #[trigger] self@.outputs[j], payload),
            decreases n - i,
        {
            let ghost before = self@.outputs;
            let lane = self.outputs.get_mut(i);
            lane.1.remove_payload(payload);
            assert(lane_without(start[i as int], self@.outputs[i as int], payload));
            assert(forall|j: int| 0 <= j < n && j != i ==> self@.outputs[j] == before[j]);
            i = i + 1;
        }
    }

    /// The entities of the payloads on the output lanes, lane by lane.
    pub fn iter_output_payloads(&self) -> (r: Vec<u64>)
        ensures
            r@ == lanes_entities(self@.outputs),
    {
        let ghost lanes = self@.outputs;
        let mut r: Vec<u64> = Vec::new();
        let n = self.outputs.len();
        let mut i: usize = 0;
        while i < n
            invariant
                n == lanes.len(),
                lanes == self@.outputs,
                i <= n,
                r@ == lanes_entities(lanes.take(i as int)),
            decreases n - i,
        {
            let mut more = self.outputs.get(i).1.iter_payloads();
            assert(lanes.take(i + 1).drop_last() =~= lanes.take(i as int));
            r.append(&mut more);
            i = i + 1;
        }
        assert(lanes.take(n as int) =~= lanes);
        r
    }

    /// Hands the front payload of the input to the first output, clockwise
    /// from the one after the last used, whose neighbour accepts payloads,
    /// if that lane has room for it halfway along. The payload is given by
    /// `get_payload`, called only when it is taken. Returns the payload
    /// handed on.
    pub fn distribute<F: FnOnce() -> u64>(
        &mut self,
        self_conveyor: &Conveyor,
        neighbors: &Neighbors<Conveyor>,
        get_payload: F,
    ) -> (r: Option<u64>)
        requires
            old(self).wf(),
            get_payload.requires(()),
        ensures
            final(self).wf(),
            final(self)@.capacity == old(self)@.capacity,
            match distribution_destination(old(self)@, *self_conveyor, *neighbors) {
                None => {
                    &&& r is None
                    &&& final(self)@ == old(self)@
                },
                Some(destination) => {
                    let k = lane_index(old(self)@.outputs, destination);
                    &&& final(self)@.next_output == next_of(destination)
                    &&& if k >= 0 && has_room(old(self)@.outputs[k].1@, (MU_ONE / 2) as int) {
                        &&& r is Some
                        &&& get_payload.ensures((), r->0)
                        &&& lane_pushed(
                            old(self)@.outputs,
                            final(self)@.outputs,
                            k,
                            TransportedPayload {
                                entity: r->0,
                                from: ConveyorDirection::North,
                                mu: MU_ONE / 2,
                            },
                        )
                        &&& final(self)@.input@ == (LineModel {
                            payloads: without(old(self)@.input@.payloads, r->0),
                            ..old(self)@.input@
                        })
                    } else {
                        &&& r is None
                        &&& final(self)@.outputs == old(self)@.outputs
                        &&& final(self)@.input == old(self)@.input
                    }
                },
            },
    {
        let destination = self_conveyor.get_available_destination(self.next_output, neighbors);
        match destination {
            None => {
                None
            },
            Some(destination) => {
                let ghost lanes = self@.outputs;
                let n = self.outputs.len();
                let mut i: usize = 0;
                proof {
                    lemma_lane_index(lanes, destination);
                }
                while i < n
                    invariant
                        n == lanes.len(),
                        lanes == self@.outputs,
                        i <= n,
                        forall|j: int| 0 <= j < i ==> (#[trigger] lanes[j]).0 != destination,
                    ensures
                        i <= n,
                        forall|j: int| 0 <= j < i ==> (#[trigger] lanes[j]).0 != destination,
                        i < n ==> lanes[i as int].0 == destination,
                    decreases n - i,
                {
                    if self.outputs.get(i).0 == destination {
                        break;
                    }
                    i = i + 1;
                }
                let mut payload: Option<u64> = None;
                if i < n {
                    assert(lane_index(lanes, destination) == i as int);
                    let lane = self.outputs.get_mut(i);
                    payload = lane.1.try_transfer_onto_with_mu(
                        ConveyorDirection::North,
                        MU_ONE / 2,
                        get_payload,
                    );
                } else {
                    assert(lane_index(lanes, destination) == -1);
                }
                match payload {
                    Some(p) => {
                        self.input.remove_payload(p);
                    },
                    None => {},
                }
                self.next_output = destination.next();
                payload
            },
        }
    }

    /// One step of a distributor: every payload moves on by `t`, the front
    /// payload of the input is handed on if it is ready, and the first output
    /// payload ready to leave is returned with its direction.
    pub fn tick(&mut self, self_conveyor: &Conveyor, neighbors: &Neighbors<Conveyor>, t: u32) -> (r:
        Option<(ConveyorDirection, u64)>)
        requires
            old(self).wf(),
        ensures
            final(self).wf(),
            exists|mid: DistributorModel|
                #[trigger] model_advanced(old(self)@, mid, t as int) && match ready_payload(mid.input@.payloads) {
                    Some(p) => handed_on(mid, final(self)@, *self_conveyor, *neighbors, p),
                    None => final(self)@ == mid,
                },
            r == first_ready(final(self)@.outputs),
    {
        self.update_payloads(t);
        let ghost mid = self@;
        assert(model_advanced(old(self)@, mid, t as int));
        match self.input.get_payload_to_transfer() {
            Some(payload) => {
                self.distribute(
                    self_conveyor,
                    neighbors,
                    move || -> (p: u64) ensures p == payload { payload },
                );
            },
            None => {},
        }
        self.get_payload_to_transfer()
    }
}

/// `lane_index` finds the first lane towards `d`, or reports that there is
/// none.
pub proof fn lemma_lane_index(lanes: Seq<(ConveyorDirection, PayloadTransportLine)>, d: ConveyorDirection)
    ensures
        -1 <= lane_index(lanes, d) < lanes.len(),
        lane_index(lanes, d) >= 0 ==> lanes[lane_index(lanes, d)].0 == d,
        forall|j: int| 0 <= j < lanes.len() && (j < lane_index(lanes, d) || lane_index(lanes, d) == -1)
            ==> (#[trigger] lanes[j]).0 != d,
    decreases lanes.len(),
{
    if lanes.len() > 0 {
        let front = lanes.drop_last();
        lemma_lane_index(front, d);
        let k = lane_index(front, d);
        assert forall|j: int| 0 <= j < lanes.len() - 1 implies (#[trigger] front[j]) == lanes[j] by {}
        if k >= 0 {
            assert(lanes[k] == front[k]);
            assert forall|j: int| 0 <= j < lanes.len() && j < lane_index(lanes, d) implies (#[trigger] lanes[j]).0 != d by {
                assert(front[j] == lanes[j]);
            }
        } else {
            assert forall|j: int| 0 <= j < lanes.len() && (j < lane_index(lanes, d) || lane_index(lanes, d) == -1)
                implies (#[trigger] lanes[j]).0 != d by {
                if j < lanes.len() - 1 {
                    assert(front[j] == lanes[j]);
                }
            }
        }
    }
}

impl PayloadHandler for Distributor {
    open spec fn handler_wf(&self) -> bool {
        self.wf()
    }

    open spec fn handles(&self, conveyor: Conveyor) -> bool {
        true
    }

    open spec fn releases(&self) -> bool {
        true
    }

    open spec fn took(&self, after: Self, conveyor: Conveyor, request: RequestPayloadTransferEvent, r: Option<u64>) -> bool {
        &&& after@.next_output == self@.next_output
        &&& after@.capacity == self@.capacity
        &&& after@.outputs == self@.outputs
        &&& match r {
            Some(p) => {
                &&& self@.input@.payloads.len() + lanes_count(self@.outputs) < self@.capacity
                &&& after@.input@ == (LineModel {
                    payloads: self@.input@.payloads.push(
                        TransportedPayload { entity: p, from: opposite_of(request.direction), mu: 0 },
                    ),
                    ..self@.input@
                })
            },
            None => {
                &&& (self@.input@.payloads.len() + lanes_count(self@.outputs) >= self@.capacity
                    || !has_room(self@.input@, 0))
                &&& after@.input == self@.input
            },
        }
    }

    open spec fn gave_up(&self, after: Self, payload: u64) -> bool {
        &&& after@.input == self@.input
        &&& after@.next_output == self@.next_output
        &&& after@.capacity == self@.capacity
        &&& lanes_without(self@.outputs, after@.outputs, payload)
    }

    fn handles_conveyor(&self, conveyor: &Conveyor) -> (r: bool) {
        true
    }

    fn releases_payloads(&self) -> (r: bool) {
        true
    }

    /// Takes the offered payload onto the input lane unless the distributor
    /// already holds `capacity` payloads or the input lane has no room.
    fn try_transfer(&mut self, self_conveyor: &Conveyor, request: &RequestPayloadTransferEvent) -> (r:
        Option<u64>)
        ensures
            final(self)@.next_output == old(self)@.next_output,
            final(self)@.capacity == old(self)@.capacity,
            final(self)@.outputs == old(self)@.outputs,
            match r {
                Some(p) => {
                    &&& old(self)@.input@.payloads.len() + lanes_count(old(self)@.outputs) < old(self)@.capacity
                    &&& final(self)@.input@ == (LineModel {
                        payloads: old(self)@.input@.payloads.push(
                            TransportedPayload { entity: p, from: opposite_of(request.direction), mu: 0 },
                        ),
                        ..old(self)@.input@
                    })
                },
                None => {
                    &&& (old(self)@.input@.payloads.len() + lanes_count(old(self)@.outputs) >= old(self)@.capacity
                        || !has_room(old(self)@.input@, 0))
                    &&& final(self)@.input == old(self)@.input
                },
            },
    {
        let c = self.count();
        if c >= self.capacity as usize {
            return None;
        }
        self.input.try_transfer_request(request)
    }

    /// Takes `payload` off the output lanes.
    fn remove_payload(&mut self, payload: u64)
        ensures
            final(self)@.input == old(self)@.input,
            lanes_without(old(self)@.outputs, final(self)@.outputs, payload),
    {
        self.remove_payload_from_outputs(payload)
    }

    /// The payloads of the input lane, then those of the output lanes.
    fn iter_payloads(&self) -> (r: Vec<u64>)
        ensures
            r@ == entities_of(self@.input@.payloads) + lanes_entities(self@.outputs),
    {
        let mut r = self.input.iter_payloads();
        let mut more = self.iter_output_payloads();
        r.append(&mut more);
        r
    }
}

/// A click with the distributor tool: place a distributor whose input faces
/// `.1`'s opposite side at tile `.0`.
#[derive(Clone, Copy, Debug)]
pub struct PlaceDistributorEvent(pub TilePos, pub ConveyorDirection);

impl PlaceDistributorEvent {
    /// The tile to place the distributor on.
    pub fn tile_pos(&self) -> (r: TilePos)
        ensures
            r == self.0,
    {
        self.0
    }

    /// The components of the new distributor: a distributor with lanes of
    /// capacity 5 taking payloads from the side opposite the tool's
    /// direction, and a conveyor with that input and the three other sides as
    /// outputs.
    pub fn configure_new_entity(&self) -> (r: (Distributor, Conveyor))
        ensures
            r.0.wf(),
            r.0@.capacity == 5,
            r.0@.next_output == ConveyorDirection::North,
            r.0@.input@ == (LineModel { payloads: Seq::empty(), output: None, capacity: 5 }),
            r.0@.outputs.len() == 3,
            forall|i: int|
                0 <= i < 3 ==> {
                    &&& (#[trigger] r.0@.outputs[i]).0 == select(
                        rotation_from(0),
                        all_directions().remove(opposite_of(self.1)),
                    )[i]
                    &&& r.0@.outputs[i].1@ == (LineModel {
                        payloads: Seq::empty(),
                        output: Some(r.0@.outputs[i].0),
                        capacity: 5,
                    })
                },
            r.1@.inputs == Set::empty().insert(opposite_of(self.1)),
            r.1@.outputs == all_directions().remove(opposite_of(self.1)),
    {
        let input_direction = self.1.opposite();
        let mut conveyor = Conveyor::default();
        let inputs = ConveyorDirections::new(input_direction);
        conveyor.set_inputs(inputs);
        conveyor.set_outputs(ConveyorDirections::all_except(inputs));
        proof {
            assert(all_directions().difference(Set::empty().insert(input_direction)) =~= all_directions().remove(
                input_direction,
            ));
            lemma_three_others(input_direction);
        }
        (Distributor::new(input_direction, 5), conveyor)
    }
}

/// Three directions remain when one is taken out.
pub proof fn lemma_three_others(d: ConveyorDirection)
    ensures
        select(rotation_from(0), all_directions().remove(d)).len() == 3,
{
    reveal_with_fuel(select, 5);
    let s = rotation_from(0);
    assert(s.drop_last().drop_last().drop_last().drop_last() =~= Seq::<ConveyorDirection>::empty());
}

/// The distributor tool: places distributors whose outputs include
/// direction `.0`.
#[derive(Clone, Copy, Debug)]
pub struct DistributorTool(pub ConveyorDirection);

impl Default for DistributorTool {
    fn default() -> (r: Self)
        ensures
            r.0 == ConveyorDirection::East,
    {
        DistributorTool(ConveyorDirection::East)
    }
}

impl Tool for DistributorTool {
    /// The tool's preview: the distributor sprite facing the tool's direction.
    fn get_sprite_flip(&self) -> (r: (GameSprite, TileFlip))
        ensures
            r == (GameSprite::Distributor, flip_facing(self.0)),
    {
        (GameSprite::Distributor, self.0.tile_flip())
    }

    /// Turns the tool clockwise.
    fn next_variant(&mut self)
        ensures
            *final(self) == DistributorTool(next_of(old(self).0)),
    {
        self.0 = self.0.next();
    }

    /// A click at `tile_pos`: place a distributor with an output in the
    /// tool's direction.
    fn execute(&self, tile_pos: &TilePos) -> (r: PlaceTile)
        ensures
            r == PlaceTile::Distributor(PlaceDistributorEvent(*tile_pos, self.0)),
    {
        PlaceTile::Distributor(PlaceDistributorEvent(*tile_pos, self.0))
    }
}

/// The tile of a new distributor: the distributor sprite turned to face away
/// from its input.
pub fn distributor_tile(conveyor: &Conveyor) -> (r: (GameSprite, TileFlip))
    requires
        is_single(conveyor@.inputs),
    ensures
        exists|d: ConveyorDirection|
            conveyor@.inputs == Set::empty().insert(d) && r == (GameSprite::Distributor, flip_facing(opposite_of(d))),
{
    let input = conveyor.inputs().single();
    (GameSprite::Distributor, input.opposite().tile_flip())
}

} // verus!
