use vstd::prelude::*;

use crate::conveyor::Conveyor;
use crate::factory_game::helpers::{conveyor_directions, direction_at, square_of, ConveyorDirection};
use crate::tiles::{neighbor_at, Neighbors};

verus! {

/// Milliseconds between two payloads of a generator.
pub const GENERATE_INTERVAL: u64 = 5000;

/// A tile that makes payloads and hands them to the conveyors around it in
/// turn.
#[derive(PartialEq, Eq, Structural, Clone, Copy, Debug)]
pub struct Generator {
    /// When the next payload may be made, in milliseconds.
    pub next_generate_time: u64,
    /// Where in the clockwise order north, east, south, west the search for
    /// a conveyor to hand the next payload to starts.
    pub next_transport_direction_index: u32,
}

impl Default for Generator {
    fn default() -> (r: Self)
        ensures
            r == (Generator { next_generate_time: 0, next_transport_direction_index: 0 }),
    {
        Generator { next_generate_time: 0, next_transport_direction_index: 0 }
    }
}

/// The position, in the clockwise order, of the first direction from
/// `start + i` on that has a conveyor among `neighbors`.
pub open spec fn first_with_conveyor(neighbors: Neighbors<Conveyor>, start: int, i: int) -> Option<int>
    decreases 4 - i,
{
    if i < 0 || i >= 4 {
        None
    } else if neighbor_at(neighbors, square_of(direction_at(start + i))) is Some {
        Some((start + i) % 4)
    } else {
        first_with_conveyor(neighbors, start, i + 1)
    }
}

impl Generator {
    /// At time `now` (in milliseconds): when the last payload has left and
    /// its time has come, a new payload is due; the next one then comes
    /// [`GENERATE_INTERVAL`] later. Tells whether a payload is due.
    pub fn generate(&mut self, now: u64, has_payloads: bool) -> (r: bool)
        ensures
            r == (now > old(self).next_generate_time && !has_payloads),
            r ==> final(self).next_generate_time == if now + GENERATE_INTERVAL <= u64::MAX {
                now + GENERATE_INTERVAL
            } else {
                u64::MAX as int
            },
            !r ==> final(self).next_generate_time == old(self).next_generate_time,
            final(self).next_transport_direction_index == old(self).next_transport_direction_index,
    {
        if now > self.next_generate_time && !has_payloads {
            self.next_generate_time = now.saturating_add(GENERATE_INTERVAL);
            true
        } else {
            false
        }
    }

    /// Picks the conveyor to hand the next payload to: the first direction,
    /// going clockwise from where the last search left off, that has a
    /// conveyor; the next search starts after it.
    pub fn pick_transport_direction(&mut self, conveyor_neighbors: &Neighbors<Conveyor>) -> (r: Option<ConveyorDirection>)
        ensures
            match first_with_conveyor(*conveyor_neighbors, old(self).next_transport_direction_index as int, 0) {
                Some(k) => {
                    &&& r == Some(direction_at(k))
                    &&& final(self).next_transport_direction_index == (k + 1) % 4
                    &&& final(self).next_generate_time == old(self).next_generate_time
                },
                None => r is None && *final(self) == *old(self),
            },
    {
        let all = conveyor_directions();
        let start = self.next_transport_direction_index as usize;
        let mut i: usize = 0;
        while i < 4
            invariant
                i <= 4,
                start == old(self).next_transport_direction_index,
                *self == *old(self),
                forall|k: int| 0 <= k < 4 ==> #[trigger] all[k] == direction_at(k),
                first_with_conveyor(*conveyor_neighbors, start as int, 0) == first_with_conveyor(
                    *conveyor_neighbors,
                    start as int,
                    i as int,
                ),
            decreases 4 - i,
        {
            let direction_index = (start % 4 + i) % 4;
            assert(direction_index == (start + i) % 4);
            let d = all[direction_index];
            assert(d == direction_at(start + i));
            if conveyor_neighbors.get(d.to_square()).is_some() {
                self.next_transport_direction_index = ((direction_index + 1) % 4) as u32;
                return Some(d);
            }
            i = i + 1;
        }
        None
    }
}

} // verus!
