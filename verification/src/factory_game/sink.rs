use vstd::prelude::*;

use smallvec::SmallVec;

use crate::factory_game::conveyor::Conveyor;
use crate::factory_game::helpers::{opposite_of, ConveyorDirection, ConveyorDirections, TileFlip};
use crate::factory_game::payload_handler::PayloadHandler;
use crate::factory_game::payloads::{RequestPayloadTransferEvent, MU_ONE};
use crate::factory_game::interaction::{PlaceTile, Tool};
use crate::sprite_sheet::GameSprite;
use crate::tiles::TilePos;

verus! {

/// The payloads a sink is swallowing, with the side each came from and how
/// far it has sunk (out of [`MU_ONE`]), kept in a `SmallVec` with room for
/// four inline.
#[verifier::external_body]
#[derive(Debug)]
pub struct SinkPayloads {
    inner: SmallVec<[(u64, ConveyorDirection, u32); 4]>,
}

/// The payloads a [`SinkPayloads`] holds, in order.
pub uninterp spec fn sink_payload_items(p: SinkPayloads) -> Seq<(u64, ConveyorDirection, u32)>;

impl SinkPayloads {
    /// `SmallVec::new`: no payloads.
    #[verifier::external_body]
    pub(crate) fn new() -> (r: SinkPayloads)
        ensures
            sink_payload_items(r) == Seq::<(u64, ConveyorDirection, u32)>::empty(),
    {
        SinkPayloads { inner: SmallVec::new() }
    }

    /// `SmallVec::len`: the number of payloads.
    #[verifier::external_body]
    pub(crate) fn len(&self) -> (r: usize)
        ensures
            r == sink_payload_items(*self).len(),
    {
        self.inner.len()
    }

    /// `SmallVec` indexing: the payload at position `i`.
    #[verifier::external_body]
    pub(crate) fn get(&self, i: usize) -> (r: (u64, ConveyorDirection, u32))
        requires
            i < sink_payload_items(*self).len(),
        ensures
            r == sink_payload_items(*self)[i as int],
    {
        self.inner[i]
    }

    /// `SmallVec::push`: appends a payload.
    #[verifier::external_body]
    pub(crate) fn push(&mut self, p: (u64, ConveyorDirection, u32))
        ensures
            sink_payload_items(*final(self)) == sink_payload_items(*old(self)).push(p),
    {
        self.inner.push(p);
    }
}

/// The payloads still sinking after `t` more: those whose progress stays
/// below [`MU_ONE`], moved on by `t`, in order.
pub open spec fn still_sinking(s: Seq<(u64, ConveyorDirection, u32)>, t: int) -> Seq<(u64, ConveyorDirection, u32)>
    decreases s.len(),
{
    if s.len() == 0 {
        Seq::empty()
    } else {
        let rest = still_sinking(s.drop_last(), t);
        let p = s.last();
        if p.2 + t < MU_ONE {
            rest.push((p.0, p.1, (p.2 + t) as u32))
        } else {
            rest
        }
    }
}

/// The payloads that have sunk completely after `t` more, in order.
pub open spec fn sunk(s: Seq<(u64, ConveyorDirection, u32)>, t: int) -> Seq<u64>
    decreases s.len(),
{
    if s.len() == 0 {
        Seq::empty()
    } else {
        let rest = sunk(s.drop_last(), t);
        let p = s.last();
        if p.2 + t < MU_ONE {
            rest
        } else {
            rest.push(p.0)
        }
    }
}

/// Every payload of a sink is, after any time, either still sinking or gone:
/// none is lost and none is added.
pub proof fn law_sink_keeps_count(s: Seq<(u64, ConveyorDirection, u32)>, t: int)
    ensures
        still_sinking(s, t).len() + sunk(s, t).len() == s.len(),
    decreases s.len(),
{
    if s.len() > 0 {
        law_sink_keeps_count(s.drop_last(), t);
    }
}

/// After the time a payload takes to cross a whole tile, every payload has
/// sunk, in the order they came.
pub proof fn law_sink_swallows_all(s: Seq<(u64, ConveyorDirection, u32)>, t: int)
    requires
        t >= MU_ONE,
    ensures
        still_sinking(s, t) == Seq::<(u64, ConveyorDirection, u32)>::empty(),
        sunk(s, t) == s.map_values(|p: (u64, ConveyorDirection, u32)| p.0),
    decreases s.len(),
{
    if s.len() > 0 {
        law_sink_swallows_all(s.drop_last(), t);
        assert(s.map_values(|p: (u64, ConveyorDirection, u32)| p.0) =~= s.drop_last().map_values(
            |p: (u64, ConveyorDirection, u32)| p.0,
        ).push(s.last().0));
    } else {
        assert(s.map_values(|p: (u64, ConveyorDirection, u32)| p.0) =~= Seq::<u64>::empty());
    }
}

/// Sinking adds up over time: sinking by `t1` and then by `t2` leaves the
/// same payloads sinking, each as far along, as sinking by `t1 + t2` at
/// once, and swallows the same payloads in all.
pub proof fn law_sinking_adds_up(s: Seq<(u64, ConveyorDirection, u32)>, t1: int, t2: int)
    requires
        t1 >= 0,
        t2 >= 0,
    ensures
        still_sinking(still_sinking(s, t1), t2) == still_sinking(s, t1 + t2),
        (sunk(s, t1) + sunk(still_sinking(s, t1), t2)).to_multiset() == sunk(s, t1 + t2).to_multiset(),
    decreases s.len(),
{
    broadcast use vstd::seq_lib::group_to_multiset_ensures, vstd::seq_lib::lemma_multiset_commutative;
    broadcast use vstd::multiset::group_multiset_axioms;

    if s.len() > 0 {
        let front = s.drop_last();
        let p = s.last();
        law_sinking_adds_up(front, t1, t2);
        let k1 = still_sinking(front, t1);
        if p.2 + t1 < MU_ONE {
            let q = (p.0, p.1, (p.2 + t1) as u32);
            assert(still_sinking(s, t1) == k1.push(q));
            assert(k1.push(q).drop_last() =~= k1);
            assert(k1.push(q).last() == q);
        } else {
            assert(still_sinking(s, t1) == k1);
        }
        let a = sunk(front, t1);
        let b = sunk(k1, t2);
        let c = sunk(front, t1 + t2);
        assert((a + b).to_multiset() == c.to_multiset());
        if p.2 + t1 >= MU_ONE {
            assert(sunk(s, t1) == a.push(p.0));
            assert((a.push(p.0) + b).to_multiset() =~= a.push(p.0).to_multiset().add(b.to_multiset()));
            assert(a.push(p.0).to_multiset() =~= a.to_multiset().insert(p.0));
            assert((a + b).to_multiset() =~= a.to_multiset().add(b.to_multiset()));
            assert(c.push(p.0).to_multiset() =~= c.to_multiset().insert(p.0));
            assert((a.push(p.0) + b).to_multiset() =~= c.push(p.0).to_multiset());
        } else if p.2 + t1 + t2 >= MU_ONE {
            assert(sunk(s, t1) == a);
            assert(a + b.push(p.0) =~= (a + b).push(p.0));
        }
    }
}

/// A machine that swallows every payload sent to it.
#[derive(Debug)]
pub struct Sink {
    payloads: SinkPayloads,
}

impl View for Sink {
    type V = Seq<(u64, ConveyorDirection, u32)>;

    closed spec fn view(&self) -> Seq<(u64, ConveyorDirection, u32)> {
        sink_payload_items(self.payloads)
    }
}

impl Default for Sink {
    fn default() -> (r: Self)
        ensures
            r@ == Seq::<(u64, ConveyorDirection, u32)>::empty(),
    {
        Sink { payloads: SinkPayloads::new() }
    }
}

impl Sink {
    /// Every payload has sunk less than all the way.
    pub open spec fn wf(&self) -> bool {
        forall|i: int| 0 <= i < self@.len() ==> (#[trigger] self@[i]).2 < MU_ONE
    }

    /// Sinks every payload by `t` more; returns the payloads that have sunk
    /// all the way, which leave the sink.
    pub fn update(&mut self, t: u32) -> (r: Vec<u64>)
        requires
            old(self).wf(),
        ensures
            final(self).wf(),
            final(self)@ == still_sinking(old(self)@, t as int),
            r@ == sunk(old(self)@, t as int),
    {
        let ghost s = self@;
        let mut kept = SinkPayloads::new();
        let mut done: Vec<u64> = Vec::new();
        let n = self.payloads.len();
        let mut i: usize = 0;
        assert(s.take(0) =~= Seq::<(u64, ConveyorDirection, u32)>::empty());
        while i < n
            invariant
                n == s.len(),
                i <= n,
                s == self@,
                forall|j: int| 0 <= j < s.len() ==> (#[trigger] s[j]).2 < MU_ONE,
                sink_payload_items(kept) == still_sinking(s.take(i as int), t as int),
                forall|j: int| 0 <= j < sink_payload_items(kept).len() ==> (#[trigger] sink_payload_items(kept)[j]).2 < MU_ONE,
                done@ == sunk(s.take(i as int), t as int),
            decreases n - i,
        {
            let (entity, direction, mu) = self.payloads.get(i);
            assert(s.take(i + 1).drop_last() =~= s.take(i as int));
            assert(s.take(i + 1).last() == s[i as int]);
            if t < MU_ONE - mu {
                kept.push((entity, direction, mu + t));
            } else {
                done.push(entity);
            }
            i = i + 1;
        }
        assert(s.take(n as int) =~= s);
        self.payloads = kept;
        done
    }
}

impl PayloadHandler for Sink {
    open spec fn handler_wf(&self) -> bool {
        self.wf()
    }

    open spec fn handles(&self, conveyor: Conveyor) -> bool {
        true
    }

    /// A sink never gives up a payload.
    open spec fn releases(&self) -> bool {
        false
    }

    open spec fn took(&self, after: Self, conveyor: Conveyor, request: RequestPayloadTransferEvent, r: Option<u64>) -> bool {
        &&& r == Some(request.payload)
        &&& after@ == self@.push((request.payload, opposite_of(request.direction), 0u32))
    }

    open spec fn gave_up(&self, after: Self, payload: u64) -> bool {
        after == *self
    }

    fn handles_conveyor(&self, conveyor: &Conveyor) -> (r: bool) {
        true
    }

    fn releases_payloads(&self) -> (r: bool) {
        false
    }

    /// A sink takes every payload offered, starting to sink it from the side
    /// it came in.
    fn try_transfer(&mut self, self_conveyor: &Conveyor, request: &RequestPayloadTransferEvent) -> (r:
        Option<u64>)
        ensures
            r == Some(request.payload),
            final(self)@ == old(self)@.push((request.payload, opposite_of(request.direction), 0u32)),
    {
        self.payloads.push((request.payload, request.direction.opposite(), 0));
        assert forall|i: int| 0 <= i < self@.len() implies (#[trigger] self@[i]).2 < MU_ONE by {
            if i < old(self)@.len() {
                assert(self@[i] == old(self)@[i]);
            }
        }
        Some(request.payload)
    }

    /// Never called: a sink never hands payloads on.
    fn remove_payload(&mut self, payload: u64) {
    }

    /// The payloads being swallowed, in order.
    fn iter_payloads(&self) -> (r: Vec<u64>)
        ensures
            r@ == self@.map_values(|p: (u64, ConveyorDirection, u32)| p.0),
    {
        let mut r: Vec<u64> = Vec::new();
        let n = self.payloads.len();
        let mut i: usize = 0;
        while i < n
            invariant
                n == self@.len(),
                i <= n,
                r@ == self@.take(i as int).map_values(|p: (u64, ConveyorDirection, u32)| p.0),
            decreases n - i,
        {
            r.push(self.payloads.get(i).0);
            assert(self@.take(i + 1).map_values(|p: (u64, ConveyorDirection, u32)| p.0) =~= self@.take(
                i as int,
            ).map_values(|p: (u64, ConveyorDirection, u32)| p.0).push(self@[i as int].0));
            i = i + 1;
        }
        assert(self@.take(n as int) =~= self@);
        r
    }
}

/// A click with the sink tool: place a sink at the tile.
#[derive(Clone, Copy, Debug)]
pub struct PlaceSinkEvent(pub TilePos);

impl PlaceSinkEvent {
    /// The components of the new sink: an empty sink and a conveyor with no
    /// outputs.
    pub fn configure_new_entity(&self) -> (r: (Sink, Conveyor))
        ensures
            r.0@ == Seq::<(u64, ConveyorDirection, u32)>::empty(),
            r.0.wf(),
            r.1@.outputs == Set::<ConveyorDirection>::empty(),
            r.1@.inputs == Set::<ConveyorDirection>::empty(),
    {
        (Sink::default(), Conveyor::new(ConveyorDirections::default()))
    }
}

/// The sink tool.
#[derive(Clone, Copy, Debug)]
pub struct SinkTool;

impl Tool for SinkTool {
    /// The tool's preview: the sink sprite, unturned.
    fn get_sprite_flip(&self) -> (r: (GameSprite, TileFlip))
        ensures
            r == (GameSprite::Sink, TileFlip { x: false, y: false, d: false }),
    {
        (GameSprite::Sink, TileFlip { x: false, y: false, d: false })
    }

    /// A click at `tile_pos`: place a sink there.
    /// The tool has a single variant.
    fn next_variant(&mut self)
        ensures
            *final(self) == *old(self),
    {
    }

    fn execute(&self, tile_pos: &TilePos) -> (r: PlaceTile)
        ensures
            r == PlaceTile::Sink(PlaceSinkEvent(*tile_pos)),
    {
        PlaceTile::Sink(PlaceSinkEvent(*tile_pos))
    }
}

} // verus!
