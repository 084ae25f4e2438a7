use vstd::prelude::*;

use smallvec::SmallVec;

use crate::factory_game::helpers::{opposite_of, ConveyorDirection};

verus! {

/// Travel across one tile, in thousandths: a payload enters a tile at
/// progress 0 and is ready to leave it at `MU_ONE`.
pub const MU_ONE: u32 = 1000;

/// A payload riding on a transport line: the payload's entity, the side it
/// came in from, and how far it has travelled (out of [`MU_ONE`]).
#[derive(PartialEq, Eq, Structural, Clone, Copy, Debug)]
pub struct TransportedPayload {
    pub entity: u64,
    pub from: ConveyorDirection,
    pub mu: u32,
}

impl TransportedPayload {
    /// A payload with the given entity, entry side and progress.
    pub fn new(entity: u64, from: ConveyorDirection, mu: u32) -> (r: Self)
        ensures
            r == (TransportedPayload { entity, from, mu }),
    {
        TransportedPayload { entity, from, mu }
    }
}

/// The payloads of a transport line, front first, kept in a `SmallVec` with
/// room for two payloads inline.
#[verifier::external_body]
#[derive(Debug)]
pub struct PayloadList {
    inner: SmallVec<[TransportedPayload; 2]>,
}

/// The payloads a [`PayloadList`] holds, in order.
pub uninterp spec fn payload_list_items(list: PayloadList) -> Seq<TransportedPayload>;

impl PayloadList {
    /// `SmallVec::new`: an empty list.
    #[verifier::external_body]
    pub(crate) fn new() -> (r: PayloadList)
        ensures
            payload_list_items(r) == Seq::<TransportedPayload>::empty(),
    {
        PayloadList { inner: SmallVec::new() }
    }

    /// `SmallVec::len`: the number of payloads.
    #[verifier::external_body]
    pub(crate) fn len(&self) -> (r: usize)
        ensures
            r == payload_list_items(*self).len(),
    {
        self.inner.len()
    }

    /// `SmallVec` indexing: a copy of the payload at position `i`.
    #[verifier::external_body]
    pub(crate) fn get(&self, i: usize) -> (r: TransportedPayload)
        requires
            i < payload_list_items(*self).len(),
        ensures
            r == payload_list_items(*self)[i as int],
    {
        self.inner[i]
    }

    /// `SmallVec` mutable indexing: overwrites the payload at position `i`.
    #[verifier::external_body]
    pub(crate) fn set(&mut self, i: usize, p: TransportedPayload)
        requires
            i < payload_list_items(*old(self)).len(),
        ensures
            payload_list_items(*final(self)) == payload_list_items(*old(self)).update(i as int, p),
    {
        self.inner[i] = p;
    }

    /// `SmallVec::push`: appends a payload at the back.
    #[verifier::external_body]
    pub(crate) fn push(&mut self, p: TransportedPayload)
        ensures
            payload_list_items(*final(self)) == payload_list_items(*old(self)).push(p),
    {
        self.inner.push(p);
    }
}

/// The distance two payloads on a line with `capacity` must keep: a
/// `capacity`-th of the tile, rounded up to whole thousandths, so that
/// progress kept in thousandths is never closer than that share. A line of
/// capacity 0 has room for a single payload.
pub open spec fn spacing_of(capacity: u32) -> int {
    if capacity == 0 {
        MU_ONE + 1
    } else if MU_ONE as int % capacity as int == 0 {
        MU_ONE as int / capacity as int
    } else {
        MU_ONE as int / capacity as int + 1
    }
}

/// For progress kept in thousandths, keeping [`spacing_of`] a distance is
/// keeping at least a `capacity`-th of the tile exactly.
pub proof fn law_spacing_is_exact(capacity: u32, front: int, back: int)
    requires
        capacity > 0,
    ensures
        (front >= back + spacing_of(capacity)) <==> ((front - back) * capacity >= MU_ONE),
{
    let c = capacity as int;
    let d = front - back;
    let q = MU_ONE as int / c;
    let m = MU_ONE as int % c;
    assert(q * c + m == MU_ONE && 0 <= m < c) by (nonlinear_arith)
        requires
            c > 0,
            q == MU_ONE as int / c,
            m == MU_ONE as int % c,
    ;
    if m == 0 {
        assert((d >= q) <==> (d * c >= q * c)) by (nonlinear_arith)
            requires
                c > 0,
        ;
    } else {
        assert((d >= q + 1) <==> (d * c >= q * c + m)) by (nonlinear_arith)
            requires
                c > 0,
                0 < m < c,
        {
            if d >= q + 1 {
                assert(d * c >= (q + 1) * c);
            } else {
                assert(d * c <= q * c);
            }
        }
    }
}

/// Every payload's progress is at most [`MU_ONE`], and any two payloads are
/// at least `spacing` apart, the one in front further along.
pub open spec fn well_spaced(s: Seq<TransportedPayload>, spacing: int) -> bool {
    &&& forall|i: int| 0 <= i < s.len() ==> #[trigger] s[i].mu <= MU_ONE
    &&& forall|i: int, j: int| 0 <= i < j < s.len() ==> #[trigger] s[j].mu + spacing <= #[trigger] s[i].mu
}

/// The payloads after every payload has moved on by `t`, each held back to
/// stay `spacing` behind the one in front, and the front one stopping at
/// [`MU_ONE`].
pub open spec fn advanced(s: Seq<TransportedPayload>, t: int, spacing: int) -> Seq<TransportedPayload>
    decreases s.len(),
{
    if s.len() == 0 {
        Seq::empty()
    } else {
        let front = advanced(s.drop_last(), t, spacing);
        let limit = if front.len() == 0 {
            MU_ONE as int
        } else {
            front.last().mu - spacing
        };
        let moved = s.last().mu + t;
        let mu = if moved <= limit {
            moved
        } else {
            limit
        };
        front.push(TransportedPayload { mu: mu as u32, ..s.last() })
    }
}

/// The payloads of `s` other than those of `entity`, in order.
pub open spec fn without(s: Seq<TransportedPayload>, entity: u64) -> Seq<TransportedPayload>
    decreases s.len(),
{
    if s.len() == 0 {
        Seq::empty()
    } else {
        let rest = without(s.drop_last(), entity);
        if s.last().entity == entity {
            rest
        } else {
            rest.push(s.last())
        }
    }
}

/// The entities of the payloads of `s`, in order.
pub open spec fn entities_of(s: Seq<TransportedPayload>) -> Seq<u64> {
    s.map_values(|p: TransportedPayload| p.entity)
}

/// What a transport line holds.
pub struct LineModel {
    pub payloads: Seq<TransportedPayload>,
    pub output: Option<ConveyorDirection>,
    pub capacity: u32,
}

/// Whether a line has room for a payload entering at progress `mu`: it is
/// empty, or its last payload is at least one spacing beyond `mu`.
pub open spec fn has_room(m: LineModel, mu: int) -> bool {
    m.payloads.len() == 0 || m.payloads.last().mu >= spacing_of(m.capacity) + mu
}

/// What offering a payload from `from` at progress `mu` does to a line:
/// with room for it, the payload `r` names joins at the back; without, the
/// line stays as it was and nothing is taken. [`PayloadTransportLine::try_transfer_onto`]
/// has the outcome of [`PayloadTransportLine::try_transfer_onto_with_mu`]
/// at progress 0.
pub open spec fn transfer_outcome(
    before: PayloadTransportLine,
    after: PayloadTransportLine,
    from: ConveyorDirection,
    mu: u32,
    r: Option<u64>,
) -> bool {
    &&& after@.output == before@.output
    &&& after@.capacity == before@.capacity
    &&& match r {
        Some(p) => {
            &&& has_room(before@, mu as int)
            &&& after@.payloads == before@.payloads.push(TransportedPayload { entity: p, from, mu })
        },
        None => {
            &&& !has_room(before@, mu as int)
            &&& after == before
        },
    }
}

/// The payload at the front of the line if it has travelled all the way.
pub open spec fn ready_payload(s: Seq<TransportedPayload>) -> Option<u64> {
    if s.len() > 0 && s[0].mu == MU_ONE {
        Some(s[0].entity)
    } else {
        None
    }
}

/// A lane that carries payloads across a tile towards one output, keeping
/// them apart by a spacing that depends on its capacity.
#[derive(Debug)]
pub struct PayloadTransportLine {
    payloads: PayloadList,
    output_direction: Option<ConveyorDirection>,
    capacity: u32,
}

impl View for PayloadTransportLine {
    type V = LineModel;

    closed spec fn view(&self) -> LineModel {
        LineModel {
            payloads: payload_list_items(self.payloads),
            output: self.output_direction,
            capacity: self.capacity,
        }
    }
}

impl PayloadTransportLine {
    /// Payloads are in range and well spaced.
    pub open spec fn wf(&self) -> bool {
        well_spaced(self@.payloads, spacing_of(self@.capacity))
    }

    /// An empty line that sends payloads towards `destination`.
    pub fn new(destination: ConveyorDirection, capacity: u32) -> (r: Self)
        ensures
            r@.payloads == Seq::<TransportedPayload>::empty(),
            r@.output == Some(destination),
            r@.capacity == capacity,
            r.wf(),
    {
        PayloadTransportLine {
            payloads: PayloadList::new(),
            output_direction: Some(destination),
            capacity,
        }
    }

    /// An empty line with no output of its own.
    pub fn new_no_output(capacity: u32) -> (r: Self)
        ensures
            r@.payloads == Seq::<TransportedPayload>::empty(),
            r@.output == None::<ConveyorDirection>,
            r@.capacity == capacity,
            r.wf(),
    {
        PayloadTransportLine { payloads: PayloadList::new(), output_direction: None, capacity }
    }

    /// The direction payloads leave in.
    pub fn output_direction(&self) -> (r: Option<ConveyorDirection>)
        ensures
            r == self@.output,
    {
        self.output_direction
    }

    /// How many payloads the line carries.
    pub fn count(&self) -> (r: usize)
        ensures
            r == self@.payloads.len(),
    {
        self.payloads.len()
    }

    /// The payloads, front first.
    pub fn payloads(&self) -> (r: Vec<TransportedPayload>)
        ensures
            r@ == self@.payloads,
    {
        let mut r: Vec<TransportedPayload> = Vec::new();
        let n = self.payloads.len();
        let mut i: usize = 0;
        while i < n
            invariant
                n == self@.payloads.len(),
                i <= n,
                r@ == self@.payloads.take(i as int),
            decreases n - i,
        {
            r.push(self.payloads.get(i));
            assert(self@.payloads.take(i + 1) =~= self@.payloads.take(i as int).push(
                self@.payloads[i as int],
            ));
            i = i + 1;
        }
        assert(self@.payloads.take(n as int) =~= self@.payloads);
        r
    }

    /// The entities of the payloads, front first.
    pub fn iter_payloads(&self) -> (r: Vec<u64>)
        ensures
            r@ == entities_of(self@.payloads),
    {
        let mut r: Vec<u64> = Vec::new();
        let n = self.payloads.len();
        let mut i: usize = 0;
        while i < n
            invariant
                n == self@.payloads.len(),
                i <= n,
                r@ == entities_of(self@.payloads.take(i as int)),
            decreases n - i,
        {
            r.push(self.payloads.get(i).entity);
            assert(entities_of(self@.payloads.take(i + 1)) =~= entities_of(
                self@.payloads.take(i as int),
            ).push(self@.payloads[i as int].entity));
            i = i + 1;
        }
        assert(self@.payloads.take(n as int) =~= self@.payloads);
        r
    }

    /// The spacing payloads keep on this line.
    fn spacing(&self) -> (r: u32)
        ensures
            r == spacing_of(self@.capacity),
    {
        if self.capacity == 0 {
            MU_ONE + 1
        } else if MU_ONE % self.capacity == 0 {
            MU_ONE / self.capacity
        } else {
            MU_ONE / self.capacity + 1
        }
    }

    /// Whether a payload entering at progress `mu` fits behind the others.
    pub fn has_room_for_one_more_with_mu(&self, mu: u32) -> (r: bool)
        requires
            mu <= MU_ONE,
        ensures
            r == has_room(self@, mu as int),
    {
        let n = self.payloads.len();
        if n == 0 {
            true
        } else {
            let last = self.payloads.get(n - 1);
            last.mu >= self.spacing() + mu
        }
    }

    /// Puts a payload on the line at progress `mu` if there is room for it;
    /// the payload is made by `get_payload`, which is called only then.
    /// Returns the payload taken.
    pub fn try_transfer_onto_with_mu<F: FnOnce() -> u64>(
        &mut self,
        from: ConveyorDirection,
        mu: u32,
        get_payload: F,
    ) -> (r: Option<u64>)
        requires
            old(self).wf(),
            mu <= MU_ONE,
            get_payload.requires(()),
        ensures
            final(self).wf(),
            transfer_outcome(*old(self), *final(self), from, mu, r),
            r matches Some(p) ==> get_payload.ensures((), p),
    {
        if self.has_room_for_one_more_with_mu(mu) {
            let p = get_payload();
            let ghost s = self@.payloads;
            self.payloads.push(TransportedPayload::new(p, from, mu));
            proof {
                let s2 = self@.payloads;
                assert forall|i: int, j: int| 0 <= i < j < s2.len() implies #[trigger] s2[j].mu
                    + spacing_of(self@.capacity) <= #[trigger] s2[i].mu by {
                    if j == s.len() {
                        if i < s.len() - 1 {
                            assert(s[s.len() - 1].mu + spacing_of(self@.capacity) <= s[i].mu);
                        }
                    } else {
                        assert(s[j].mu + spacing_of(self@.capacity) <= s[i].mu);
                    }
                }
                assert forall|i: int| 0 <= i < s2.len() implies #[trigger] s2[i].mu <= MU_ONE by {
                    if i < s.len() {
                        assert(s[i].mu <= MU_ONE);
                    }
                }
            }
            Some(p)
        } else {
            None
        }
    }

    /// Puts a payload on the line at its start if there is room for it.
    pub fn try_transfer_onto<F: FnOnce() -> u64>(&mut self, from: ConveyorDirection, get_payload: F) -> (r:
        Option<u64>)
        requires
            old(self).wf(),
            get_payload.requires(()),
        ensures
            final(self).wf(),
            transfer_outcome(*old(self), *final(self), from, 0, r),
            r matches Some(p) ==> get_payload.ensures((), p),
    {
        self.try_transfer_onto_with_mu(from, 0, get_payload)
    }

    /// Moves every payload on by `t`, each stopping one spacing behind the
    /// payload in front and the front payload stopping at [`MU_ONE`].
    pub fn update_payloads(&mut self, t: u32)
        requires
            old(self).wf(),
        ensures
            final(self).wf(),
            final(self)@.payloads == advanced(old(self)@.payloads, t as int, spacing_of(old(self)@.capacity)),
            final(self)@.output == old(self)@.output,
            final(self)@.capacity == old(self)@.capacity,
    {
        let ghost s = self@.payloads;
        let ghost sp = spacing_of(self@.capacity);
        proof {
            lemma_advanced(s, t as int, sp);
        }
        let spacing = self.spacing();
        let n = self.payloads.len();
        let mut last_mu: Option<u32> = None;
        let mut i: usize = 0;
        assert(s.take(0) =~= Seq::<TransportedPayload>::empty());
        assert(s.skip(0) =~= s);
        while i < n
            invariant
                n == s.len(),
                i <= n,
                spacing == sp,
                well_spaced(s, sp),
                self@.capacity == old(self)@.capacity,
                self@.output == old(self)@.output,
                s == old(self)@.payloads,
                sp == spacing_of(old(self)@.capacity),
                self@.payloads == advanced(s.take(i as int), t as int, sp) + s.skip(i as int),
                last_mu == if i == 0 {
                    None::<u32>
                } else {
                    Some(advanced(s.take(i as int), t as int, sp).last().mu)
                },
            decreases n - i,
        {
            let ghost front = advanced(s.take(i as int), t as int, sp);
            proof {
                lemma_advanced(s.take(i as int), t as int, sp);
                lemma_advanced(s.take(i + 1), t as int, sp);
                assert(s.take(i + 1).drop_last() =~= s.take(i as int));
                assert(s.take(i + 1).last() == s[i as int]);
                if i > 0 {
                    assert(s[i as int].mu + sp <= s[i - 1].mu);
                    assert(s.take(i as int)[i - 1] == s[i - 1]);
                }
            }
            let p = self.payloads.get(i);
            assert(p == s[i as int]) by {
                assert(self@.payloads[i as int] == s.skip(i as int)[0]);
            }
            let max_mu: u32 = match last_mu {
                None => MU_ONE,
                Some(m) => m - spacing,
            };
            let new_mu: u32 = if t >= max_mu - p.mu {
                max_mu
            } else {
                p.mu + t
            };
            let np = TransportedPayload { entity: p.entity, from: p.from, mu: new_mu };
            self.payloads.set(i, np);
            proof {
                assert(advanced(s.take(i + 1), t as int, sp) == front.push(np));
                assert(self@.payloads =~= advanced(s.take(i + 1), t as int, sp) + s.skip(i + 1));
            }
            last_mu = Some(new_mu);
            i = i + 1;
        }
        proof {
            assert(s.take(n as int) =~= s);
            assert(self@.payloads =~= advanced(s, t as int, sp));
        }
    }

    /// The front payload, if it has travelled all the way.
    pub fn get_payload_to_transfer(&self) -> (r: Option<u64>)
        ensures
            r == ready_payload(self@.payloads),
    {
        if self.payloads.len() > 0 {
            let p = self.payloads.get(0);
            if p.mu == MU_ONE {
                return Some(p.entity);
            }
        }
        None
    }

    /// Moves the payloads on by `t` and returns the front payload if it is
    /// then ready to leave the tile.
    pub fn update(&mut self, t: u32) -> (r: Option<u64>)
        requires
            old(self).wf(),
        ensures
            final(self).wf(),
            final(self)@.payloads == advanced(old(self)@.payloads, t as int, spacing_of(old(self)@.capacity)),
            final(self)@.output == old(self)@.output,
            final(self)@.capacity == old(self)@.capacity,
            r == ready_payload(final(self)@.payloads),
    {
        self.update_payloads(t);
        self.get_payload_to_transfer()
    }

    /// Takes the payloads of `payload` off the line.
    pub fn remove_payload(&mut self, payload: u64)
        requires
            old(self).wf(),
        ensures
            final(self).wf(),
            final(self)@.payloads == without(old(self)@.payloads, payload),
            final(self)@.output == old(self)@.output,
            final(self)@.capacity == old(self)@.capacity,
    {
        let ghost s = self@.payloads;
        let ghost sp = spacing_of(self@.capacity);
        let mut kept = PayloadList::new();
        let n = self.payloads.len();
        let mut i: usize = 0;
        assert(s.take(0) =~= Seq::<TransportedPayload>::empty());
        while i < n
            invariant
                n == s.len(),
                i <= n,
                s == self@.payloads,
                payload_list_items(kept) == without(s.take(i as int), payload),
            decreases n - i,
        {
            let p = self.payloads.get(i);
            assert(s.take(i + 1).drop_last() =~= s.take(i as int));
            if p.entity != payload {
                kept.push(p);
            }
            i = i + 1;
        }
        assert(s.take(n as int) =~= s);
        proof {
            lemma_without(s, payload, sp);
        }
        self.payloads = kept;
    }
}

/// Advancing payloads keeps them in order, in range and well spaced, moves
/// none of them backwards and keeps their entities and entry sides.
pub proof fn lemma_advanced(s: Seq<TransportedPayload>, t: int, spacing: int)
    requires
        well_spaced(s, spacing),
        t >= 0,
        spacing >= 0,
    ensures
        advanced(s, t, spacing).len() == s.len(),
        well_spaced(advanced(s, t, spacing), spacing),
        forall|i: int|
            0 <= i < s.len() ==> {
                &&& (#[trigger] advanced(s, t, spacing)[i]).entity == s[i].entity
                &&& advanced(s, t, spacing)[i].from == s[i].from
                &&& s[i].mu <= advanced(s, t, spacing)[i].mu
                &&& advanced(s, t, spacing)[i].mu <= s[i].mu + t
            },
    decreases s.len(),
{
    if s.len() > 0 {
        let s1 = s.drop_last();
        assert forall|i: int, j: int| 0 <= i < j < s1.len() implies #[trigger] s1[j].mu + spacing
            <= #[trigger] s1[i].mu by {
            assert(s[j].mu + spacing <= s[i].mu);
        }
        assert forall|i: int| 0 <= i < s1.len() implies #[trigger] s1[i].mu <= MU_ONE by {
            assert(s[i].mu <= MU_ONE);
        }
        lemma_advanced(s1, t, spacing);
        let front = advanced(s1, t, spacing);
        let r = advanced(s, t, spacing);
        let k = s.len() - 1;
        if front.len() > 0 {
            assert(s[k].mu + spacing <= s[k - 1].mu);
            assert(s1[k - 1] == s[k - 1]);
            assert(front[k - 1] == front.last());
        }
        assert(s.last() == s[k]);
        assert forall|i: int, j: int| 0 <= i < j < r.len() implies #[trigger] r[j].mu + spacing
            <= #[trigger] r[i].mu by {
            if j < k {
                assert(r[j] == front[j]);
                assert(r[i] == front[i]);
            } else {
                assert(r[i] == front[i]);
                if i < k - 1 {
                    assert(front[k - 1].mu + spacing <= front[i].mu);
                }
            }
        }
        assert forall|i: int| 0 <= i < r.len() implies #[trigger] r[i].mu <= MU_ONE by {
            if i < k {
                assert(r[i] == front[i]);
            } else {
                if k > 0 {
                    assert(front[k - 1].mu <= MU_ONE);
                }
            }
        }
        assert forall|i: int| 0 <= i < s.len() implies {
            &&& (#[trigger] advanced(s, t, spacing)[i]).entity == s[i].entity
            &&& advanced(s, t, spacing)[i].from == s[i].from
            &&& s[i].mu <= advanced(s, t, spacing)[i].mu
            &&& advanced(s, t, spacing)[i].mu <= s[i].mu + t
        } by {
            if i < k {
                assert(r[i] == front[i]);
                assert(s1[i] == s[i]);
            }
        }
    }
}

/// Taking the payloads of one entity off a line keeps the others in order
/// and well spaced.
pub proof fn lemma_without(s: Seq<TransportedPayload>, entity: u64, spacing: int)
    requires
        well_spaced(s, spacing),
    ensures
        well_spaced(without(s, entity), spacing),
        forall|i: int| 0 <= i < without(s, entity).len() ==> s.contains(#[trigger] without(s, entity)[i]),
        forall|i: int| 0 <= i < without(s, entity).len() ==> (#[trigger] without(s, entity)[i]).entity != entity,
    decreases s.len(),
{
    if s.len() > 0 {
        let s1 = s.drop_last();
        assert forall|i: int, j: int| 0 <= i < j < s1.len() implies #[trigger] s1[j].mu + spacing
            <= #[trigger] s1[i].mu by {
            assert(s[j].mu + spacing <= s[i].mu);
        }
        assert forall|i: int| 0 <= i < s1.len() implies #[trigger] s1[i].mu <= MU_ONE by {
            assert(s[i].mu <= MU_ONE);
        }
        lemma_without(s1, entity, spacing);
        let w1 = without(s1, entity);
        let w = without(s, entity);
        assert forall|i: int| 0 <= i < w1.len() implies s.contains(#[trigger] w1[i]) by {
            let k = choose|k: int| 0 <= k < s1.len() && s1[k] == w1[i];
            assert(s[k] == w1[i]);
        }
        if s.last().entity != entity {
            let k = s.len() - 1;
            assert(w == w1.push(s.last()));
            assert forall|i: int, j: int| 0 <= i < j < w.len() implies #[trigger] w[j].mu + spacing
                <= #[trigger] w[i].mu by {
                if j < w1.len() {
                    assert(w[j] == w1[j]);
                    assert(w[i] == w1[i]);
                } else {
                    assert(w[i] == w1[i]);
                    let m = choose|m: int| 0 <= m < s1.len() && s1[m] == w1[i];
                    assert(s[m] == s1[m]);
                    assert(s[k].mu + spacing <= s[m].mu);
                }
            }
            assert forall|i: int| 0 <= i < w.len() implies s.contains(#[trigger] w[i]) by {
                if i < w1.len() {
                    assert(w[i] == w1[i]);
                } else {
                    assert(s[k] == w[i]);
                }
            }
            assert forall|i: int| 0 <= i < w.len() implies #[trigger] w[i].mu <= MU_ONE by {
                if i < w1.len() {
                    assert(w[i] == w1[i]);
                } else {
                    assert(s[k].mu <= MU_ONE);
                }
            }
            assert forall|i: int| 0 <= i < w.len() implies (#[trigger] w[i]).entity != entity by {
                if i < w1.len() {
                    assert(w[i] == w1[i]);
                }
            }
        }
    }
}

/// Moving a line's payloads on by `t` keeps its payloads in order with their
/// entities and entry sides; none goes back and none goes further than `t`,
/// and the front one goes the full `t` unless it reaches the end of the tile.
pub proof fn law_update_moves_forward(s: Seq<TransportedPayload>, t: u32, capacity: u32)
    requires
        well_spaced(s, spacing_of(capacity)),
    ensures
        advanced(s, t as int, spacing_of(capacity)).len() == s.len(),
        entities_of(advanced(s, t as int, spacing_of(capacity))) == entities_of(s),
        forall|i: int|
            0 <= i < s.len() ==> {
                &&& s[i].mu <= (#[trigger] advanced(s, t as int, spacing_of(capacity))[i]).mu <= s[i].mu + t
                &&& advanced(s, t as int, spacing_of(capacity))[i].from == s[i].from
            },
        s.len() > 0 ==> advanced(s, t as int, spacing_of(capacity))[0].mu == if s[0].mu + t <= MU_ONE {
            s[0].mu + t
        } else {
            MU_ONE as int
        },
{
    let sp = spacing_of(capacity);
    lemma_advanced(s, t as int, sp);
    let a = advanced(s, t as int, sp);
    assert(entities_of(a) =~= entities_of(s)) by {
        assert forall|i: int| 0 <= i < s.len() implies entities_of(a)[i] == entities_of(s)[i] by {
            assert(a[i].entity == s[i].entity);
        }
    }
    if s.len() > 0 {
        lemma_advanced_front(s, t as int, sp);
    }
}

/// The front payload moves on by `t`, up to the end of the tile.
proof fn lemma_advanced_front(s: Seq<TransportedPayload>, t: int, spacing: int)
    requires
        s.len() > 0,
        t >= 0,
    ensures
        advanced(s, t, spacing).len() == s.len(),
        advanced(s, t, spacing)[0].mu == if s[0].mu + t <= MU_ONE { s[0].mu + t } else { MU_ONE as int },
    decreases s.len(),
{
    if s.len() > 1 {
        lemma_advanced_front(s.drop_last(), t, spacing);
        assert(s.drop_last()[0] == s[0]);
        assert(advanced(s, t, spacing)[0] == advanced(s.drop_last(), t, spacing)[0]);
    } else {
        assert(advanced(s.drop_last(), t, spacing) =~= Seq::<TransportedPayload>::empty());
        assert(s.last() == s[0]);
    }
}

/// Taking off a payload that was just put on a line gives back the payloads
/// it had before.
pub proof fn law_remove_undoes_transfer(s: Seq<TransportedPayload>, p: TransportedPayload)
    requires
        !entities_of(s).contains(p.entity),
    ensures
        without(s.push(p), p.entity) == s,
{
    lemma_without_absent(s, p.entity);
    assert(s.push(p).drop_last() =~= s);
}

/// Taking off the payloads of an entity a line does not carry leaves it as
/// it is.
proof fn lemma_without_absent(s: Seq<TransportedPayload>, entity: u64)
    requires
        !entities_of(s).contains(entity),
    ensures
        without(s, entity) == s,
    decreases s.len(),
{
    if s.len() > 0 {
        let s1 = s.drop_last();
        assert(!entities_of(s1).contains(entity)) by {
            if entities_of(s1).contains(entity) {
                let j = choose|j: int| 0 <= j < s1.len() && entities_of(s1)[j] == entity;
                assert(entities_of(s)[j] == entity);
            }
        }
        lemma_without_absent(s1, entity);
        assert(entities_of(s)[s.len() - 1] == s.last().entity);
        assert(s1.push(s.last()) =~= s);
    }
}

/// On a well-spaced line the payloads span at most the length of the tile:
/// the spacings between them add up to at most [`MU_ONE`].
pub proof fn law_line_length(s: Seq<TransportedPayload>, capacity: u32)
    requires
        well_spaced(s, spacing_of(capacity)),
        s.len() > 0,
    ensures
        (s.len() - 1) * spacing_of(capacity) <= MU_ONE,
{
    let sp = spacing_of(capacity);
    lemma_spread(s, sp, s.len() - 1);
    assert(s[0].mu <= MU_ONE);
}

/// The payload at `j` is at least `j` spacings behind the front one.
proof fn lemma_spread(s: Seq<TransportedPayload>, spacing: int, j: int)
    requires
        well_spaced(s, spacing),
        0 <= j < s.len(),
    ensures
        s[j].mu + j * spacing <= s[0].mu,
    decreases j,
{
    if j > 0 {
        lemma_spread(s, spacing, j - 1);
        assert(s[j].mu + spacing <= s[j - 1].mu);
        assert((j - 1) * spacing + spacing == j * spacing) by (nonlinear_arith);
    } else {
        assert(j * spacing == 0) by (nonlinear_arith)
            requires
                j == 0,
        ;
    }
}

/// A request to hand `payload` from `source` to the neighbouring tile
/// `destination`, which lies in direction `direction` from the source.
#[derive(Clone, Copy, Debug)]
pub struct RequestPayloadTransferEvent {
    pub payload: u64,
    pub source: u64,
    pub destination: u64,
    pub direction: ConveyorDirection,
}

/// `destination` took `payload` from `source`.
#[derive(Clone, Copy, Debug)]
pub struct PayloadTransferredEvent {
    pub payload: u64,
    pub source: u64,
}

impl PayloadTransportLine {
    /// Takes a payload offered by a neighbour if there is room at the start of
    /// the line; the payload enters from the side it was sent from.
    pub fn try_transfer_request(&mut self, request: &RequestPayloadTransferEvent) -> (r: Option<u64>)
        requires
            old(self).wf(),
        ensures
            final(self).wf(),
            final(self)@.output == old(self)@.output,
            final(self)@.capacity == old(self)@.capacity,
            match r {
                Some(p) => {
                    &&& has_room(old(self)@, 0)
                    &&& p == request.payload
                    &&& final(self)@.payloads == old(self)@.payloads.push(
                        TransportedPayload { entity: p, from: opposite_of(request.direction), mu: 0 },
                    )
                },
                None => {
                    &&& !has_room(old(self)@, 0)
                    &&& *final(self) == *old(self)
                },
            },
    {
        let payload = request.payload;
        self.try_transfer_onto(request.direction.opposite(), move || -> (p: u64) ensures p == payload { payload })
    }
}

} // verus!

verus! {

impl crate::factory_game::payload_handler::PayloadHandler for PayloadTransportLine {
    open spec fn handler_wf(&self) -> bool {
        self.wf()
    }

    open spec fn handles(&self, conveyor: crate::factory_game::conveyor::Conveyor) -> bool {
        true
    }

    open spec fn releases(&self) -> bool {
        true
    }

    open spec fn took(
        &self,
        after: Self,
        conveyor: crate::factory_game::conveyor::Conveyor,
        request: RequestPayloadTransferEvent,
        r: Option<u64>,
    ) -> bool {
        &&& after@.output == self@.output
        &&& after@.capacity == self@.capacity
        &&& match r {
            Some(p) => after@.payloads == self@.payloads.push(
                TransportedPayload { entity: p, from: opposite_of(request.direction), mu: 0 },
            ),
            None => {
                &&& !has_room(self@, 0)
                &&& after == *self
            },
        }
    }

    open spec fn gave_up(&self, after: Self, payload: u64) -> bool {
        &&& after@.payloads == without(self@.payloads, payload)
        &&& after@.output == self@.output
        &&& after@.capacity == self@.capacity
    }

    fn handles_conveyor(&self, conveyor: &crate::factory_game::conveyor::Conveyor) -> (r: bool) {
        true
    }

    fn releases_payloads(&self) -> (r: bool) {
        true
    }

    fn try_transfer(
        &mut self,
        self_conveyor: &crate::factory_game::conveyor::Conveyor,
        request: &RequestPayloadTransferEvent,
    ) -> (r: Option<u64>)
        ensures
            final(self)@.output == old(self)@.output,
            final(self)@.capacity == old(self)@.capacity,
            match r {
                Some(p) => final(self)@.payloads == old(self)@.payloads.push(
                    TransportedPayload { entity: p, from: opposite_of(request.direction), mu: 0 },
                ),
                None => {
                    &&& !has_room(old(self)@, 0)
                    &&& *final(self) == *old(self)
                },
            },
    {
        self.try_transfer_request(request)
    }

    fn remove_payload(&mut self, payload: u64)
        ensures
            final(self)@.payloads == without(old(self)@.payloads, payload),
            final(self)@.output == old(self)@.output,
            final(self)@.capacity == old(self)@.capacity,
    {
        PayloadTransportLine::remove_payload(self, payload)
    }

    fn iter_payloads(&self) -> (r: Vec<u64>)
        ensures
            r@ == entities_of(self@.payloads),
    {
        PayloadTransportLine::iter_payloads(self)
    }
}

} // verus!
