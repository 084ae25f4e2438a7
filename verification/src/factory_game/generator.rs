use vstd::prelude::*;

use smallvec::SmallVec;

use crate::factory_game::conveyor::{first_accepting, Conveyor};
use crate::factory_game::distributor::{
    first_ready, lane_advanced, lane_index, lane_pushed, lane_without, lanes_advanced, lanes_entities,
    lanes_without, lanes_wf, lemma_lane_index,
};
use crate::factory_game::helpers::{
    direction_at, index_of, next_of, opposite_of, rotation_from, select, square_of, ConveyorDirection,
    ConveyorDirections, TileFlip,
};
use crate::factory_game::operators::Operand;
use crate::factory_game::payload_handler::PayloadHandler;
use crate::factory_game::payloads::{
    entities_of, has_room, LineModel, PayloadTransportLine, RequestPayloadTransferEvent,
    TransportedPayload, MU_ONE,
};
use crate::factory_game::interaction::{PlaceTile, Tool};
use crate::sprite_sheet::GameSprite;
use crate::tiles::{neighbor_at, Neighbors, TilePos};

verus! {

/// The output lanes of a generator, one per direction, kept in a `SmallVec`
/// with room for four lanes inline.
#[verifier::external_body]
#[derive(Debug)]
pub struct GeneratorOutputs {
    inner: SmallVec<[(ConveyorDirection, PayloadTransportLine); 4]>,
}

/// The lanes a [`GeneratorOutputs`] holds, in order.
pub uninterp spec fn generator_output_items(o: GeneratorOutputs) -> Seq<(ConveyorDirection, PayloadTransportLine)>;

impl GeneratorOutputs {
    /// `SmallVec::new`: no lanes.
    #[verifier::external_body]
    pub(crate) fn new() -> (r: GeneratorOutputs)
        ensures
            generator_output_items(r) == Seq::<(ConveyorDirection, PayloadTransportLine)>::empty(),
    {
        GeneratorOutputs { inner: SmallVec::new() }
    }

    /// `SmallVec::len`: the number of lanes.
    #[verifier::external_body]
    pub(crate) fn len(&self) -> (r: usize)
        ensures
            r == generator_output_items(*self).len(),
    {
        self.inner.len()
    }

    /// `SmallVec` indexing: the lane at position `i`.
    #[verifier::external_body]
    pub(crate) fn get(&self, i: usize) -> (r: &(ConveyorDirection, PayloadTransportLine))
        requires
            i < generator_output_items(*self).len(),
        ensures
            *r == generator_output_items(*self)[i as int],
    {
        &self.inner[i]
    }

    /// `SmallVec` mutable indexing: the lane at position `i`, to change in
    /// place.
    #[verifier::external_body]
    pub(crate) fn get_mut(&mut self, i: usize) -> (r: &mut (ConveyorDirection, PayloadTransportLine))
        requires
            i < generator_output_items(*old(self)).len(),
        ensures
            *r == generator_output_items(*old(self))[i as int],
            generator_output_items(*final(self)) == generator_output_items(*old(self)).update(
                i as int,
                *final(r),
            ),
    {
        &mut self.inner[i]
    }

    /// `SmallVec::push`: appends a lane.
    #[verifier::external_body]
    pub(crate) fn push(&mut self, lane: (ConveyorDirection, PayloadTransportLine))
        ensures
            generator_output_items(*final(self)) == generator_output_items(*old(self)).push(lane),
    {
        self.inner.push(lane);
    }

    /// `SmallVec::remove`: takes out the lane at position `i`, moving the
    /// later lanes forward.
    #[verifier::external_body]
    pub(crate) fn remove(&mut self, i: usize) -> (r: (ConveyorDirection, PayloadTransportLine))
        requires
            i < generator_output_items(*old(self)).len(),
        ensures
            r == generator_output_items(*old(self))[i as int],
            generator_output_items(*final(self)) == generator_output_items(*old(self)).remove(i as int),
    {
        self.inner.remove(i)
    }
}

/// The directions a generator sends payloads to: those of the neighbouring
/// conveyors that do not send payloads back to it.
pub open spec fn generator_output_set(neighbors: Neighbors<Conveyor>) -> Set<ConveyorDirection> {
    Set::new(
        |d: ConveyorDirection|
            match neighbor_at(neighbors, square_of(d)) {
                Some(c) => !c@.outputs.contains(opposite_of(d)),
                None => false,
            },
    )
}

/// The lanes of `lanes` towards a direction of `set`, in order.
pub open spec fn kept_lanes(lanes: Seq<(ConveyorDirection, PayloadTransportLine)>, set: Set<ConveyorDirection>) -> Seq<
    (ConveyorDirection, PayloadTransportLine),
>
    decreases lanes.len(),
{
    if lanes.len() == 0 {
        Seq::empty()
    } else {
        let rest = kept_lanes(lanes.drop_last(), set);
        if set.contains(lanes.last().0) {
            rest.push(lanes.last())
        } else {
            rest
        }
    }
}

/// The entities of the payloads on the lanes of `lanes` towards a
/// direction outside `set`, lane by lane.
pub open spec fn dropped_entities(lanes: Seq<(ConveyorDirection, PayloadTransportLine)>, set: Set<ConveyorDirection>) -> Seq<
    u64,
>
    decreases lanes.len(),
{
    if lanes.len() == 0 {
        Seq::empty()
    } else {
        let rest = dropped_entities(lanes.drop_last(), set);
        if set.contains(lanes.last().0) {
            rest
        } else {
            rest + entities_of(lanes.last().1@.payloads)
        }
    }
}

/// The directions of `dirs` that no lane of `lanes` goes towards, in order.
pub open spec fn missing_dirs(dirs: Seq<ConveyorDirection>, lanes: Seq<(ConveyorDirection, PayloadTransportLine)>) -> Seq<
    ConveyorDirection,
>
    decreases dirs.len(),
{
    if dirs.len() == 0 {
        Seq::empty()
    } else {
        let rest = missing_dirs(dirs.drop_last(), lanes);
        if exists|j: int| 0 <= j < lanes.len() && (#[trigger] lanes[j]).0 == dirs.last() {
            rest
        } else {
            rest.push(dirs.last())
        }
    }
}

/// `after` is `kept` followed by a new empty lane of capacity 1 for each
/// direction of `added`.
pub open spec fn lanes_extended(
    kept: Seq<(ConveyorDirection, PayloadTransportLine)>,
    added: Seq<ConveyorDirection>,
    after: Seq<(ConveyorDirection, PayloadTransportLine)>,
) -> bool {
    &&& after.len() == kept.len() + added.len()
    &&& forall|i: int| 0 <= i < kept.len() ==> #[trigger] after[i] == kept[i]
    &&& forall|j: int|
        0 <= j < added.len() ==> {
            &&& (#[trigger] after[kept.len() + j]).0 == added[j]
            &&& after[kept.len() + j].1@ == (LineModel {
                payloads: Seq::empty(),
                output: Some(added[j]),
                capacity: 1,
            })
        }
}

/// `a + b`, or `u64::MAX` when that is larger.
pub open spec fn saturating_sum(a: u64, b: u64) -> u64 {
    if a + b > u64::MAX {
        u64::MAX
    } else {
        (a + b) as u64
    }
}

/// What a generator holds; times are in milliseconds.
pub struct GeneratorModel {
    pub next_generate_time: u64,
    pub time_between_generations: u64,
    pub outputs: Seq<(ConveyorDirection, PayloadTransportLine)>,
    pub next_output: ConveyorDirection,
}

/// A machine that makes a new payload every so often and sends it to its
/// neighbouring conveyors in turn. Times are in milliseconds.
#[derive(Debug)]
pub struct Generator {
    next_generate_time: u64,
    time_between_generations: u64,
    outputs: GeneratorOutputs,
    next_output: ConveyorDirection,
}

impl View for Generator {
    type V = GeneratorModel;

    closed spec fn view(&self) -> GeneratorModel {
        GeneratorModel {
            next_generate_time: self.next_generate_time,
            time_between_generations: self.time_between_generations,
            outputs: generator_output_items(self.outputs),
            next_output: self.next_output,
        }
    }
}

impl Default for Generator {
    fn default() -> (r: Self)
        ensures
            r@.next_generate_time == 0,
            r@.time_between_generations == 1000,
            r@.outputs == Seq::<(ConveyorDirection, PayloadTransportLine)>::empty(),
            r@.next_output == ConveyorDirection::North,
            r.wf(),
    {
        Generator {
            next_generate_time: 0,
            time_between_generations: 1000,
            outputs: GeneratorOutputs::new(),
            next_output: ConveyorDirection::North,
        }
    }
}

impl Generator {
    /// Every lane is well formed.
    pub open spec fn wf(&self) -> bool {
        lanes_wf(self@.outputs)
    }

    /// Moves every payload on by `t`.
    pub fn update_payloads(&mut self, t: u32)
        requires
            old(self).wf(),
        ensures
            final(self).wf(),
            final(self)@.next_output == old(self)@.next_output,
            final(self)@.next_generate_time == old(self)@.next_generate_time,
            final(self)@.time_between_generations == old(self)@.time_between_generations,
            lanes_advanced(old(self)@.outputs, final(self)@.outputs, t as int),
    {
        let ghost start = self@.outputs;
        let n = self.outputs.len();
        let mut i: usize = 0;
        while i < n
            invariant
                n == start.len(),
                i <= n,
                self@.outputs.len() == n,
                self@.next_output == old(self)@.next_output,
                self@.next_generate_time == old(self)@.next_generate_time,
                self@.time_between_generations == old(self)@.time_between_generations,
                start == old(self)@.outputs,
                lanes_wf(start),
                lanes_wf(self@.outputs),
                forall|j: int| i <= j < n ==> #[trigger] self@.outputs[j] == start[j],
                forall|j: int| 0 <= j < i ==> lane_advanced(start[j], #[trigger] self@.outputs[j], t as int),
            decreases n - i,
        {
            let ghost before = self@.outputs;
            let lane = self.outputs.get_mut(i);
            lane.1.update_payloads(t);
            assert(lane_advanced(start[i as int], self@.outputs[i as int], t as int));
            assert(forall|j: int| 0 <= j < n && j != i ==> self@.outputs[j] == before[j]);
            i = i + 1;
        }
    }

    /// The first output lane whose front payload is ready to leave, with that
    /// payload.
    pub fn get_payload_to_transfer(&self) -> (r: Option<(ConveyorDirection, u64)>)
        ensures
            r == first_ready(self@.outputs),
    {
        let ghost lanes = self@.outputs;
        let n = self.outputs.len();
        let mut i: usize = 0;
        assert(lanes.subrange(0, n as int) =~= lanes);
        while i < n
            invariant
                n == lanes.len(),
                lanes == self@.outputs,
                i <= n,
                first_ready(lanes) == first_ready(lanes.subrange(i as int, n as int)),
            decreases n - i,
        {
            let lane = self.outputs.get(i);
            let ghost rest = lanes.subrange(i as int, n as int);
            assert(rest[0] == lanes[i as int]);
            assert(rest.subrange(1, rest.len() as int) =~= lanes.subrange(i + 1, n as int));
            match lane.1.get_payload_to_transfer() {
                Some(e) => {
                    return Some((lane.0, e));
                },
                None => {},
            }
            i = i + 1;
        }
        None
    }

    /// One step of a generator's lanes: every payload moves on by `t`, and
    /// the first payload ready to leave is returned with its direction.
    pub fn tick(&mut self, t: u32) -> (r: Option<(ConveyorDirection, u64)>)
        requires
            old(self).wf(),
        ensures
            final(self).wf(),
            final(self)@.next_output == old(self)@.next_output,
            final(self)@.next_generate_time == old(self)@.next_generate_time,
            lanes_advanced(old(self)@.outputs, final(self)@.outputs, t as int),
            r == first_ready(final(self)@.outputs),
    {
        self.update_payloads(t);
        self.get_payload_to_transfer()
    }

    /// Sets the generator up for its current neighbours: its conveyor sends
    /// payloads to every neighbouring conveyor that does not send payloads
    /// back, the lanes towards other sides are dropped, and a new lane of
    /// capacity 1 is added for each new output. Returns whether the outputs
    /// changed and the payloads that were on the dropped lanes.
    pub fn update_outputs(&mut self, conveyor: &mut Conveyor, neighbors: &Neighbors<Conveyor>) -> (r: (
        bool,
        Vec<u64>,
    ))
        requires
            old(self).wf(),
        ensures
            final(self).wf(),
            final(conveyor)@.outputs == generator_output_set(*neighbors),
            final(conveyor)@.inputs == old(conveyor)@.inputs,
            r.0 == (old(conveyor)@.outputs != generator_output_set(*neighbors)),
            r.1@ == dropped_entities(old(self)@.outputs, generator_output_set(*neighbors)),
            lanes_extended(
                kept_lanes(old(self)@.outputs, generator_output_set(*neighbors)),
                missing_dirs(
                    select(rotation_from(0), generator_output_set(*neighbors)),
                    kept_lanes(old(self)@.outputs, generator_output_set(*neighbors)),
                ),
                final(self)@.outputs,
            ),
            final(self)@.next_output == old(self)@.next_output,
            final(self)@.next_generate_time == old(self)@.next_generate_time,
            final(self)@.time_between_generations == old(self)@.time_between_generations,
    {
        let ghost set = generator_output_set(*neighbors);
        // The neighbouring conveyors that do not send payloads to this tile.
        let mut found: Vec<ConveyorDirection> = Vec::new();
        let all = crate::factory_game::helpers::conveyor_directions();
        let mut d_i: usize = 0;
        while d_i < 4
            invariant
                d_i <= 4,
                set == generator_output_set(*neighbors),
                forall|k: int| 0 <= k < 4 ==> #[trigger] all[k] == direction_at(k),
                forall|d: ConveyorDirection| #[trigger] found@.contains(d) == (index_of(d) < d_i && set.contains(d)),
            decreases 4 - d_i,
        {
            let d = all[d_i];
            assert(index_of(d) == d_i);
            let ghost old_found = found@;
            match neighbors.get(d.to_square()) {
                Some(c) => {
                    if !c.outputs().is_set(d.opposite()) {
                        found.push(d);
                    }
                },
                None => {},
            }
            proof {
                assert forall|e: ConveyorDirection| #[trigger] found@.contains(e) == (index_of(e) < d_i + 1 && set.contains(e)) by {
                    if found@.len() > old_found.len() {
                        assert(found@ == old_found.push(d));
                        if found@.contains(e) && e != d {
                            let k = choose|k: int| 0 <= k < found@.len() && found@[k] == e;
                            assert(old_found[k] == e);
                        }
                        if old_found.contains(e) {
                            let k = choose|k: int| 0 <= k < old_found.len() && old_found[k] == e;
                            assert(found@[k] == e);
                        }
                        if e == d {
                            assert(found@[old_found.len() as int] == e);
                        }
                    }
                }
            }
            d_i = d_i + 1;
        }
        let output_directions = ConveyorDirections::from_directions(found.as_slice());
        assert(output_directions@ =~= set);

        let old_outputs = conveyor.outputs();
        conveyor.set_outputs(output_directions);
        let changed = !old_outputs.same_as(&output_directions);

        // Drop the lanes that no longer lead anywhere.
        let ghost orig = self@.outputs;
        let mut dropped: Vec<u64> = Vec::new();
        let mut i: usize = 0;
        let ghost mut k: int = 0;
        assert(orig.take(0) =~= Seq::<(ConveyorDirection, PayloadTransportLine)>::empty());
        assert(orig.skip(0) =~= orig);
        while i < self.outputs.len()
            invariant
                0 <= k <= orig.len(),
                orig == old(self)@.outputs,
                lanes_wf(orig),
                set == output_directions@,
                i == kept_lanes(orig.take(k), set).len(),
                self@.outputs == kept_lanes(orig.take(k), set) + orig.skip(k),
                dropped@ == dropped_entities(orig.take(k), set),
                self@.next_output == old(self)@.next_output,
                self@.next_generate_time == old(self)@.next_generate_time,
                self@.time_between_generations == old(self)@.time_between_generations,
            decreases self@.outputs.len() - i,
        {
            proof {
                lemma_kept_lanes(orig.take(k), set);
                assert(orig.take(k + 1).drop_last() =~= orig.take(k));
                assert(orig.take(k + 1).last() == orig[k]);
                assert(self@.outputs[i as int] == orig[k]);
                assert(orig.skip(k)[0] == orig[k]);
                assert(orig.skip(k).subrange(1, orig.skip(k).len() as int) =~= orig.skip(k + 1));
            }
            let dir = self.outputs.get(i).0;
            if output_directions.is_set(dir) {
                proof {
                    assert(kept_lanes(orig.take(k + 1), set) == kept_lanes(orig.take(k), set).push(orig[k]));
                    assert(self@.outputs =~= kept_lanes(orig.take(k + 1), set) + orig.skip(k + 1));
                }
                i = i + 1;
            } else {
                let lane = self.outputs.remove(i);
                let mut more = lane.1.iter_payloads();
                dropped.append(&mut more);
                proof {
                    assert(kept_lanes(orig.take(k + 1), set) == kept_lanes(orig.take(k), set));
                    assert(self@.outputs =~= kept_lanes(orig.take(k + 1), set) + orig.skip(k + 1));
                }
            }
            proof {
                k = k + 1;
            }
        }
        proof {
            assert(orig.take(k) =~= orig);
            assert(self@.outputs =~= kept_lanes(orig, set));
            lemma_kept_lanes(orig, set);
        }

        // Add a lane for each new output.
        let ghost kept = self@.outputs;
        let dirs = output_directions.iter();
        proof {
            lemma_select_distinct(rotation_from(0), set);
        }
        let mut j: usize = 0;
        while j < dirs.len()
            invariant
                j <= dirs.len(),
                dirs@ == select(rotation_from(0), set),
                forall|a: int, b: int| 0 <= a < b < dirs@.len() ==> dirs@[a] != dirs@[b],
                lanes_wf(kept),
                lanes_wf(self@.outputs),
                lanes_extended(kept, missing_dirs(dirs@.take(j as int), kept), self@.outputs),
                forall|a: int| 0 <= a < missing_dirs(dirs@.take(j as int), kept).len()
                    ==> dirs@.take(j as int).contains(#[trigger] missing_dirs(dirs@.take(j as int), kept)[a]),
                self@.next_output == old(self)@.next_output,
                self@.next_generate_time == old(self)@.next_generate_time,
                self@.time_between_generations == old(self)@.time_between_generations,
            decreases dirs.len() - j,
        {
            let d = dirs[j];
            let ghost added = missing_dirs(dirs@.take(j as int), kept);
            assert(dirs@.take(j + 1).drop_last() =~= dirs@.take(j as int));
            assert(dirs@.take(j + 1).last() == d);
            let n = self.outputs.len();
            let mut present = false;
            let mut m: usize = 0;
            while m < n
                invariant
                    n == self@.outputs.len(),
                    m <= n,
                    present == exists|x: int| 0 <= x < m && (#[trigger] self@.outputs[x]).0 == d,
                decreases n - m,
            {
                if self.outputs.get(m).0 == d {
                    present = true;
                }
                m = m + 1;
            }
            proof {
                // A lane towards `d` can only be one that was kept: the added
                // lanes go towards earlier directions, which differ from `d`.
                assert((exists|x: int| 0 <= x < kept.len() && (#[trigger] kept[x]).0 == d) == present) by {
                    if present {
                        let x = choose|x: int| 0 <= x < n && (#[trigger] self@.outputs[x]).0 == d;
                        if x >= kept.len() {
                            let a = x - kept.len();
                            assert(self@.outputs[kept.len() + a].0 == added[a]);
                            assert(dirs@.take(j as int).contains(added[a]));
                            let b = choose|b: int| 0 <= b < j && dirs@.take(j as int)[b] == added[a];
                            assert(dirs@[b] == dirs@[j as int]);
                        } else {
                            assert(self@.outputs[x] == kept[x]);
                        }
                    }
                    if exists|x: int| 0 <= x < kept.len() && (#[trigger] kept[x]).0 == d {
                        let x = choose|x: int| 0 <= x < kept.len() && (#[trigger] kept[x]).0 == d;
                        assert(self@.outputs[x] == kept[x]);
                    }
                }
            }
            if !present {
                self.outputs.push((d, PayloadTransportLine::new(d, 1)));
                proof {
                    assert(missing_dirs(dirs@.take(j + 1), kept) == added.push(d));
                }
            } else {
                assert(missing_dirs(dirs@.take(j + 1), kept) == added);
            }
            proof {
                let added2 = missing_dirs(dirs@.take(j + 1), kept);
                assert forall|a: int| 0 <= a < added2.len() implies dirs@.take(j + 1).contains(#[trigger] added2[a]) by {
                    if a < added.len() {
                        assert(added2[a] == added[a]);
                        let b = choose|b: int| 0 <= b < j && dirs@.take(j as int)[b] == added[a];
                        assert(dirs@.take(j + 1)[b] == added[a]);
                    } else {
                        assert(dirs@.take(j + 1)[j as int] == d);
                    }
                }
            }
            j = j + 1;
        }
        assert(dirs@.take(dirs.len() as int) =~= dirs@);
        (changed, dropped)
    }

    /// The number every payload a generator makes carries.
    pub fn generated_operand() -> (r: Operand)
        ensures
            r == Operand(1),
    {
        Operand(1)
    }

    /// Makes a payload with `spawn` and puts it halfway along the lane
    /// towards the first output, clockwise from the next one in turn, whose
    /// neighbour accepts payloads, if `now` is past the time of the next
    /// generation and that lane has room. The turn moves on whenever such an
    /// output exists; the next generation is due `time_between_generations`
    /// after a payload is made. Returns the payload made.
    pub fn generate<F: FnOnce() -> u64>(
        &mut self,
        now: u64,
        conveyor: &Conveyor,
        neighbors: &Neighbors<Conveyor>,
        spawn: F,
    ) -> (r: Option<u64>)
        requires
            old(self).wf(),
            spawn.requires(()),
        ensures
            final(self).wf(),
            final(self)@.time_between_generations == old(self)@.time_between_generations,
            if now <= old(self)@.next_generate_time {
                &&& r is None
                &&& final(self)@ == old(self)@
            } else {
                match first_accepting(select(rotation_from(index_of(old(self)@.next_output)), conveyor@.outputs), *neighbors) {
                    None => {
                        &&& r is None
                        &&& final(self)@ == old(self)@
                    },
                    Some(destination) => {
                        let k = lane_index(old(self)@.outputs, destination);
                        &&& final(self)@.next_output == next_of(old(self)@.next_output)
                        &&& if k >= 0 && has_room(old(self)@.outputs[k].1@, (MU_ONE / 2) as int) {
                            &&& r is Some
                            &&& spawn.ensures((), r->0)
                            &&& lane_pushed(
                                old(self)@.outputs,
                                final(self)@.outputs,
                                k,
                                TransportedPayload { entity: r->0, from: ConveyorDirection::North, mu: MU_ONE / 2 },
                            )
                            &&& final(self)@.next_generate_time == saturating_sum(now, old(self)@.time_between_generations)
                        } else {
                            &&& r is None
                            &&& final(self)@.outputs == old(self)@.outputs
                            &&& final(self)@.next_generate_time == old(self)@.next_generate_time
                        }
                    },
                }
            },
    {
        if now <= self.next_generate_time {
            return None;
        }
        match conveyor.get_available_destination(self.next_output, neighbors) {
            None => None,
            Some(destination) => {
                let ghost lanes = self@.outputs;
                let n = self.outputs.len();
                let mut i: usize = 0;
                proof {
                    lemma_lane_index(lanes, destination);
                }
                while i < n
                    invariant
                        n == lanes.len(),
                        lanes == self@.outputs,
                        i <= n,
                        forall|j: int| 0 <= j < i ==> (#[trigger] lanes[j]).0 != destination,
                    ensures
                        i <= n,
                        forall|j: int| 0 <= j < i ==> (#[trigger] lanes[j]).0 != destination,
                        i < n ==> lanes[i as int].0 == destination,
                    decreases n - i,
                {
                    if self.outputs.get(i).0 == destination {
                        break;
                    }
                    i = i + 1;
                }
                let mut payload: Option<u64> = None;
                if i < n {
                    assert(lane_index(lanes, destination) == i as int);
                    let lane = self.outputs.get_mut(i);
                    payload = lane.1.try_transfer_onto_with_mu(ConveyorDirection::North, MU_ONE / 2, spawn);
                    if payload.is_some() {
                        self.next_generate_time = now.saturating_add(self.time_between_generations);
                    }
                } else {
                    assert(lane_index(lanes, destination) == -1);
                }
                self.next_output = self.next_output.next();
                payload
            },
        }
    }
}

/// What `kept_lanes` keeps and what it drops.
pub proof fn lemma_kept_lanes(lanes: Seq<(ConveyorDirection, PayloadTransportLine)>, set: Set<ConveyorDirection>)
    requires
        lanes_wf(lanes),
    ensures
        lanes_wf(kept_lanes(lanes, set)),
        kept_lanes(lanes, set).len() <= lanes.len(),
        forall|i: int| 0 <= i < kept_lanes(lanes, set).len() ==> set.contains(#[trigger] kept_lanes(lanes, set)[i].0),
    decreases lanes.len(),
{
    if lanes.len() > 0 {
        let front = lanes.drop_last();
        assert forall|i: int| 0 <= i < front.len() implies (#[trigger] front[i]).1.wf() by {
            assert(front[i] == lanes[i]);
        }
        lemma_kept_lanes(front, set);
        let r = kept_lanes(lanes, set);
        let f = kept_lanes(front, set);
        if set.contains(lanes.last().0) {
            assert forall|i: int| 0 <= i < r.len() implies (#[trigger] r[i]).1.wf() by {
                if i < f.len() {
                    assert(r[i] == f[i]);
                }
            }
            assert forall|i: int| 0 <= i < r.len() implies set.contains(#[trigger] r[i].0) by {
                if i < f.len() {
                    assert(r[i] == f[i]);
                }
            }
        }
    }
}

/// Selecting from a sequence without repeats gives a sequence without
/// repeats, made of elements of both.
pub proof fn lemma_select_distinct(s: Seq<ConveyorDirection>, set: Set<ConveyorDirection>)
    requires
        s == rotation_from(0),
    ensures
        forall|a: int, b: int| 0 <= a < b < select(s, set).len() ==> select(s, set)[a] != select(s, set)[b],
        forall|a: int| 0 <= a < select(s, set).len() ==> set.contains(#[trigger] select(s, set)[a]),
{
    reveal_with_fuel(select, 5);
    let s0 = s.drop_last().drop_last().drop_last().drop_last();
    let s1 = s.drop_last().drop_last().drop_last();
    let s2 = s.drop_last().drop_last();
    let s3 = s.drop_last();
    assert(s0 =~= Seq::<ConveyorDirection>::empty());
    assert(s1 =~= seq![ConveyorDirection::North]);
    assert(s2 =~= seq![ConveyorDirection::North, ConveyorDirection::East]);
    assert(s3 =~= seq![ConveyorDirection::North, ConveyorDirection::East, ConveyorDirection::South]);
}

impl PayloadHandler for Generator {
    open spec fn handler_wf(&self) -> bool {
        self.wf()
    }

    open spec fn handles(&self, conveyor: Conveyor) -> bool {
        true
    }

    open spec fn releases(&self) -> bool {
        true
    }

    open spec fn took(&self, after: Self, conveyor: Conveyor, request: RequestPayloadTransferEvent, r: Option<u64>) -> bool {
        r is None && after == *self
    }

    open spec fn gave_up(&self, after: Self, payload: u64) -> bool {
        &&& lanes_without(self@.outputs, after@.outputs, payload)
        &&& after@.next_output == self@.next_output
        &&& after@.next_generate_time == self@.next_generate_time
        &&& after@.time_between_generations == self@.time_between_generations
    }

    fn handles_conveyor(&self, conveyor: &Conveyor) -> (r: bool) {
        true
    }

    fn releases_payloads(&self) -> (r: bool) {
        true
    }

    /// A generator never takes payloads from its neighbours.
    fn try_transfer(&mut self, self_conveyor: &Conveyor, request: &RequestPayloadTransferEvent) -> (r:
        Option<u64>)
        ensures
            r is None,
            *final(self) == *old(self),
    {
        None
    }

    /// Takes `payload` off the output lanes.
    fn remove_payload(&mut self, payload: u64)
        ensures
            lanes_without(old(self)@.outputs, final(self)@.outputs, payload),
            final(self)@.next_output == old(self)@.next_output,
            final(self)@.next_generate_time == old(self)@.next_generate_time,
            final(self)@.time_between_generations == old(self)@.time_between_generations,
    {
        let ghost start = self@.outputs;
        let n = self.outputs.len();
        let mut i: usize = 0;
        while i < n
            invariant
                n == start.len(),
                i <= n,
                self@.outputs.len() == n,
                self@.next_output == old(self)@.next_output,
                self@.next_generate_time == old(self)@.next_generate_time,
                self@.time_between_generations == old(self)@.time_between_generations,
                start == old(self)@.outputs,
                lanes_wf(start),
                lanes_wf(self@.outputs),
                forall|j: int| i <= j < n ==> #[trigger] self@.outputs[j] == start[j],
                forall|j: int| 0 <= j < i ==> lane_without(start[j], #[trigger] self@.outputs[j], payload),
            decreases n - i,
        {
            let ghost before = self@.outputs;
            let lane = self.outputs.get_mut(i);
            lane.1.remove_payload(payload);
            assert(lane_without(start[i as int], self@.outputs[i as int], payload));
            assert(forall|j: int| 0 <= j < n && j != i ==> self@.outputs[j] == before[j]);
            i = i + 1;
        }
    }

    /// The payloads on the output lanes, lane by lane.
    fn iter_payloads(&self) -> (r: Vec<u64>)
        ensures
            r@ == lanes_entities(self@.outputs),
    {
        let ghost lanes = self@.outputs;
        let mut r: Vec<u64> = Vec::new();
        let n = self.outputs.len();
        let mut i: usize = 0;
        while i < n
            invariant
                n == lanes.len(),
                lanes == self@.outputs,
                i <= n,
                r@ == lanes_entities(lanes.take(i as int)),
            decreases n - i,
        {
            let mut more = self.outputs.get(i).1.iter_payloads();
            assert(lanes.take(i + 1).drop_last() =~= lanes.take(i as int));
            r.append(&mut more);
            i = i + 1;
        }
        assert(lanes.take(n as int) =~= lanes);
        r
    }
}

/// A click with the generator tool: place a generator at the tile.
#[derive(Clone, Copy, Debug)]
pub struct PlaceGeneratorEvent(pub TilePos);

/// The generator tool.
#[derive(Clone, Copy, Debug)]
pub struct GeneratorTool;

impl Tool for GeneratorTool {
    /// The tool's preview: the generator sprite, unturned.
    fn get_sprite_flip(&self) -> (r: (GameSprite, TileFlip))
        ensures
            r == (GameSprite::Generator, TileFlip { x: false, y: false, d: false }),
    {
        (GameSprite::Generator, TileFlip { x: false, y: false, d: false })
    }

    /// A click at `tile_pos`: place a generator there.
    /// The tool has a single variant.
    fn next_variant(&mut self)
        ensures
            *final(self) == *old(self),
    {
    }

    fn execute(&self, tile_pos: &TilePos) -> (r: PlaceTile)
        ensures
            r == PlaceTile::Generator(PlaceGeneratorEvent(*tile_pos)),
    {
        PlaceTile::Generator(PlaceGeneratorEvent(*tile_pos))
    }
}

impl PlaceGeneratorEvent {
    /// The components of the new generator: a generator that makes a payload
    /// every second and a conveyor with outputs on every side.
    pub fn configure_new_entity(&self) -> (r: (Generator, Conveyor))
        ensures
            r.0.wf(),
            r.0@.next_generate_time == 0,
            r.0@.time_between_generations == 1000,
            r.0@.outputs == Seq::<(ConveyorDirection, PayloadTransportLine)>::empty(),
            r.0@.next_output == ConveyorDirection::North,
            r.1@.outputs == crate::factory_game::helpers::all_directions(),
            r.1@.inputs == Set::<ConveyorDirection>::empty(),
    {
        (Generator::default(), Conveyor::new(ConveyorDirections::all()))
    }
}

} // verus!
