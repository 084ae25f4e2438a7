pub mod payloads;
pub mod transfers;

use vstd::prelude::*;

use crate::factory_game::helpers::{
    all_directions, conveyor_of, index_of, is_cardinal, is_single, opposite_of, rotation_from,
    select, square_of, ConveyorDirection, ConveyorDirections, SquareDirection,
};
use crate::tiles::{neighbor_at, offset_of, Neighbors, TilePos, TilemapSize};

verus! {

/// What a conveyor sends on and where it takes payloads from.
pub struct ConveyorModel {
    pub outputs: Set<ConveyorDirection>,
    pub inputs: Set<ConveyorDirection>,
}

/// A tile that moves payloads: the directions it sends them to and the
/// directions it accepts them from.
#[derive(Clone, Copy, Debug)]
pub struct Conveyor {
    outputs: ConveyorDirections,
    inputs: ConveyorDirections,
}

impl View for Conveyor {
    type V = ConveyorModel;

    closed spec fn view(&self) -> ConveyorModel {
        ConveyorModel { outputs: self.outputs@, inputs: self.inputs@ }
    }
}

impl Default for Conveyor {
    fn default() -> (r: Self)
        ensures
            r@.outputs == Set::<ConveyorDirection>::empty(),
            r@.inputs == Set::<ConveyorDirection>::empty(),
    {
        Conveyor { outputs: ConveyorDirections::default(), inputs: ConveyorDirections::default() }
    }
}

/// Whether the neighbour in direction `d` holds a conveyor that takes
/// payloads coming from this tile.
pub open spec fn accepts_from_neighbor(neighbors: Neighbors<Conveyor>, d: ConveyorDirection) -> bool {
    match neighbor_at(neighbors, square_of(d)) {
        Some(c) => c@.inputs.contains(opposite_of(d)),
        None => false,
    }
}

/// The first direction of `s` whose neighbour accepts payloads from this
/// tile.
pub open spec fn first_accepting(s: Seq<ConveyorDirection>, neighbors: Neighbors<Conveyor>) -> Option<
    ConveyorDirection,
>
    decreases s.len(),
{
    if s.len() == 0 {
        None
    } else if accepts_from_neighbor(neighbors, s[0]) {
        Some(s[0])
    } else {
        first_accepting(s.subrange(1, s.len() as int), neighbors)
    }
}

/// The directions whose neighbour is a conveyor that sends payloads to this
/// tile.
pub open spec fn incoming_directions(neighbors: Neighbors<Conveyor>) -> Set<ConveyorDirection> {
    Set::new(
        |d: ConveyorDirection|
            match neighbor_at(neighbors, square_of(d)) {
                Some(c) => c@.outputs.contains(opposite_of(d)),
                None => false,
            },
    )
}

impl Conveyor {
    /// A conveyor with the given outputs and no inputs.
    pub fn new(outputs: ConveyorDirections) -> (r: Self)
        ensures
            r@.outputs == outputs@,
            r@.inputs == Set::<ConveyorDirection>::empty(),
    {
        Conveyor { outputs, inputs: ConveyorDirections::default() }
    }

    /// A conveyor that sends payloads in the single direction `direction`.
    pub fn from(direction: ConveyorDirection) -> (r: Self)
        ensures
            r@.outputs == Set::empty().insert(direction),
            r@.inputs == Set::<ConveyorDirection>::empty(),
    {
        Conveyor::new(ConveyorDirections::new(direction))
    }

    /// The one output of a conveyor that has exactly one.
    pub fn output(&self) -> (r: ConveyorDirection)
        requires
            is_single(self@.outputs),
        ensures
            self@.outputs == Set::empty().insert(r),
    {
        self.outputs.single()
    }

    /// The directions payloads leave in.
    pub fn outputs(&self) -> (r: ConveyorDirections)
        ensures
            r@ == self@.outputs,
    {
        self.outputs
    }

    /// The output, or `None` when there is no output.
    pub fn single_or_no_output(&self) -> (r: Option<ConveyorDirection>)
        requires
            self@.outputs == Set::<ConveyorDirection>::empty() || is_single(self@.outputs),
        ensures
            match r {
                None => self@.outputs == Set::<ConveyorDirection>::empty(),
                Some(d) => self@.outputs == Set::empty().insert(d),
            },
    {
        if self.outputs.is_none() {
            None
        } else {
            Some(self.outputs.single())
        }
    }

    /// The directions payloads are accepted from.
    pub fn inputs(&self) -> (r: ConveyorDirections)
        ensures
            r@ == self@.inputs,
    {
        self.inputs
    }

    /// Replaces the inputs.
    pub fn set_inputs(&mut self, inputs: ConveyorDirections)
        ensures
            final(self)@.inputs == inputs@,
            final(self)@.outputs == old(self)@.outputs,
    {
        self.inputs = inputs;
    }

    /// Replaces the outputs.
    pub fn set_outputs(&mut self, outputs: ConveyorDirections)
        ensures
            final(self)@.outputs == outputs@,
            final(self)@.inputs == old(self)@.inputs,
    {
        self.outputs = outputs;
    }

    /// The first output, going clockwise from `next_output`, whose neighbour
    /// is a conveyor that accepts payloads from this tile.
    pub fn get_available_destination(
        &self,
        next_output: ConveyorDirection,
        neighbors: &Neighbors<Conveyor>,
    ) -> (r: Option<ConveyorDirection>)
        ensures
            r == first_accepting(select(rotation_from(index_of(next_output)), self@.outputs), *neighbors),
    {
        let candidates = self.outputs.iter_from(next_output);
        let ghost s = candidates@;
        let mut i: usize = 0;
        assert(s.subrange(0, s.len() as int) =~= s);
        while i < candidates.len()
            invariant
                s == candidates@,
                s == select(rotation_from(index_of(next_output)), self@.outputs),
                i <= s.len(),
                first_accepting(s, *neighbors) == first_accepting(s.subrange(i as int, s.len() as int), *neighbors),
            decreases candidates.len() - i,
        {
            let d = candidates[i];
            let ghost rest = s.subrange(i as int, s.len() as int);
            assert(rest[0] == d);
            assert(rest.subrange(1, rest.len() as int) =~= s.subrange(i + 1, s.len() as int));
            match neighbors.get(d.to_square()) {
                Some(c) => {
                    if c.inputs.is_set(d.opposite()) {
                        assert(neighbor_at(*neighbors, square_of(d)) == Some(*c));
                        assert(accepts_from_neighbor(*neighbors, d));
                        assert(first_accepting(rest, *neighbors) == Some(d));
                        return Some(d);
                    }
                },
                None => {},
            }
            i = i + 1;
        }
        None
    }
}

/// The directions whose neighbour is a conveyor with an output pointing at
/// this tile.
pub fn find_incoming_directions(neighbors: &Neighbors<Conveyor>) -> (r: ConveyorDirections)
    ensures
        r@ == incoming_directions(*neighbors),
{
    let mut found: Vec<ConveyorDirection> = Vec::new();
    let all = crate::factory_game::helpers::conveyor_directions();
    let mut i: usize = 0;
    while i < 4
        invariant
            i <= 4,
            forall|k: int| 0 <= k < 4 ==> #[trigger] all[k] == crate::factory_game::helpers::direction_at(k),
            forall|d: ConveyorDirection|
                #[trigger] found@.contains(d) == (index_of(d) < i && incoming_directions(*neighbors).contains(d)),
        decreases 4 - i,
    {
        let d = all[i];
        assert(index_of(d) == i);
        let ghost old_found = found@;
        match neighbors.get(d.to_square()) {
            Some(c) => {
                if c.outputs.is_set(d.opposite()) {
                    found.push(d);
                }
            },
            None => {},
        }
        proof {
            assert forall|e: ConveyorDirection|
                #[trigger] found@.contains(e) == (index_of(e) < i + 1 && incoming_directions(*neighbors).contains(e)) by {
                if found@.len() > old_found.len() {
                    assert(found@ == old_found.push(d));
                    if found@.contains(e) && e != d {
                        let k = choose|k: int| 0 <= k < found@.len() && found@[k] == e;
                        assert(old_found[k] == e);
                    }
                    if old_found.contains(e) {
                        let k = choose|k: int| 0 <= k < old_found.len() && old_found[k] == e;
                        assert(found@[k] == e);
                    }
                    if e == d {
                        assert(found@[old_found.len() as int] == e);
                    }
                }
            }
        }
        i = i + 1;
    }
    let r = ConveyorDirections::from_directions(found.as_slice());
    assert(r@ =~= incoming_directions(*neighbors));
    r
}

/// A conveyor belt that sends payloads straight on.
#[derive(Clone, Copy, Debug, Default)]
pub struct SimpleConveyor;

/// The tiles whose conveyors need another look this frame, each once.
#[derive(Debug)]
pub struct TilesToCheck(pub Vec<TilePos>);

/// Whether `p` is one of `sources` or a side neighbour on the map of one of
/// them.
pub open spec fn near_sources(sources: Set<TilePos>, size: TilemapSize, p: TilePos) -> bool {
    sources.contains(p) || exists|s: TilePos, d: SquareDirection|
        sources.contains(s) && is_cardinal(d) && #[trigger] offset_of(s, d, size) == Some(p)
}

/// Adds `p` to `v` unless it is already there.
fn insert_once(v: &mut Vec<TilePos>, p: TilePos)
    ensures
        final(v)@.to_set() == old(v)@.to_set().insert(p),
        old(v)@.no_duplicates() ==> final(v)@.no_duplicates(),
{
    let mut i: usize = 0;
    while i < v.len()
        invariant
            i <= v@.len(),
            forall|j: int| 0 <= j < i ==> v@[j] != p,
        decreases v@.len() - i,
    {
        if v[i] == p {
            assert(v@.to_set() =~= v@.to_set().insert(p)) by {
                assert(v@.contains(p));
            }
            return;
        }
        i = i + 1;
    }
    let ghost before = v@;
    v.push(p);
    proof {
        assert(v@.to_set() =~= before.to_set().insert(p)) by {
            assert forall|x: TilePos| v@.to_set().contains(x) <==> before.to_set().insert(p).contains(x) by {
                if v@.contains(x) && x != p {
                    let j = choose|j: int| 0 <= j < v@.len() && v@[j] == x;
                    assert(before[j] == x);
                }
                if before.contains(x) {
                    let j = choose|j: int| 0 <= j < before.len() && before[j] == x;
                    assert(v@[j] == x);
                }
                if x == p {
                    assert(v@[v@.len() - 1] == p);
                }
            }
        }
    }
}

/// The tiles to look at again: those where a conveyor was added or an
/// entity removed, and their side neighbours on the map, each once.
pub fn update_tiles_to_check(new: &[TilePos], removed: &[TilePos], map_size: &TilemapSize) -> (r: TilesToCheck)
    ensures
        r.0@.no_duplicates(),
        forall|p: TilePos| #[trigger] r.0@.to_set().contains(p) <==> near_sources(
            new@.to_set().union(removed@.to_set()),
            *map_size,
            p,
        ),
{
    let ghost sources = new@.to_set().union(removed@.to_set());
    let mut to_check: Vec<TilePos> = Vec::new();
    let mut i: usize = 0;
    while i < new.len()
        invariant
            i <= new@.len(),
            to_check@.no_duplicates(),
            to_check@.to_set() == new@.take(i as int).to_set(),
        decreases new@.len() - i,
    {
        insert_once(&mut to_check, new[i]);
        proof {
            assert(new@.take(i + 1) =~= new@.take(i as int).push(new@[i as int]));
            new@.take(i as int).lemma_push_to_set_commute(new@[i as int]);
        }
        i = i + 1;
    }
    proof {
        assert(new@.take(new@.len() as int) =~= new@);
        assert(removed@.take(0) =~= Seq::<TilePos>::empty());
        assert(new@.to_set().union(removed@.take(0).to_set()) =~= new@.to_set());
    }
    let mut i: usize = 0;
    while i < removed.len()
        invariant
            i <= removed@.len(),
            to_check@.no_duplicates(),
            to_check@.to_set() == new@.to_set().union(removed@.take(i as int).to_set()),
        decreases removed@.len() - i,
    {
        insert_once(&mut to_check, removed[i]);
        proof {
            assert(new@.take(new@.len() as int) =~= new@);
            assert(removed@.take(i + 1) =~= removed@.take(i as int).push(removed@[i as int]));
            removed@.take(i as int).lemma_push_to_set_commute(removed@[i as int]);
            assert(to_check@.to_set() =~= new@.to_set().union(removed@.take(i + 1).to_set()));
        }
        i = i + 1;
    }
    proof {
        assert(removed@.take(removed@.len() as int) =~= removed@);
        assert(new@.take(new@.len() as int) =~= new@);
    }
    let sources_list = to_check.clone();
    assert(sources_list@ == to_check@);
    let mut i: usize = 0;
    while i < sources_list.len()
        invariant
            i <= sources_list@.len(),
            sources_list@.to_set() == sources,
            to_check@.no_duplicates(),
            forall|p: TilePos| #[trigger] to_check@.to_set().contains(p) ==> near_sources(sources, *map_size, p),
            forall|p: TilePos| sources.contains(p) ==> #[trigger] to_check@.to_set().contains(p),
            forall|s: TilePos, d: SquareDirection| #![trigger offset_of(s, d, *map_size)]
                sources_list@.take(i as int).contains(s) && is_cardinal(d) && offset_of(s, d, *map_size) is Some
                    ==> to_check@.to_set().contains(offset_of(s, d, *map_size)->0),
        decreases sources_list@.len() - i,
    {
        let pos = sources_list[i];
        let neighbors = Neighbors::get_square_neighboring_positions(&pos, map_size);
        let ghost before = to_check@;
        proof {
            assert(sources.contains(pos)) by {
                assert(sources_list@.contains(pos)) by {
                    assert(sources_list@[i as int] == pos);
                }
            }
        }
        if let Some(p) = neighbors.north {
            proof {
                assert(neighbor_at(neighbors, SquareDirection::North) == offset_of(pos, SquareDirection::North, *map_size));
                assert(near_sources(sources, *map_size, p));
            }
            insert_once(&mut to_check, p);
        }
        if let Some(p) = neighbors.east {
            proof {
                assert(neighbor_at(neighbors, SquareDirection::East) == offset_of(pos, SquareDirection::East, *map_size));
                assert(near_sources(sources, *map_size, p));
            }
            insert_once(&mut to_check, p);
        }
        if let Some(p) = neighbors.south {
            proof {
                assert(neighbor_at(neighbors, SquareDirection::South) == offset_of(pos, SquareDirection::South, *map_size));
                assert(near_sources(sources, *map_size, p));
            }
            insert_once(&mut to_check, p);
        }
        if let Some(p) = neighbors.west {
            proof {
                assert(neighbor_at(neighbors, SquareDirection::West) == offset_of(pos, SquareDirection::West, *map_size));
                assert(near_sources(sources, *map_size, p));
            }
            insert_once(&mut to_check, p);
        }
        proof {
            assert(neighbor_at(neighbors, SquareDirection::North) == offset_of(pos, SquareDirection::North, *map_size));
            assert(neighbor_at(neighbors, SquareDirection::East) == offset_of(pos, SquareDirection::East, *map_size));
            assert(neighbor_at(neighbors, SquareDirection::South) == offset_of(pos, SquareDirection::South, *map_size));
            assert(neighbor_at(neighbors, SquareDirection::West) == offset_of(pos, SquareDirection::West, *map_size));
            assert(sources_list@.take(i + 1) =~= sources_list@.take(i as int).push(pos));
            assert forall|s: TilePos, d: SquareDirection| #![trigger offset_of(s, d, *map_size)]
                sources_list@.take(i + 1).contains(s) && is_cardinal(d) && offset_of(s, d, *map_size) is Some
                    implies to_check@.to_set().contains(offset_of(s, d, *map_size)->0) by {
                if s != pos {
                    let t = sources_list@.take(i + 1);
                    let j = choose|j: int| 0 <= j < t.len() && t[j] == s;
                    assert(sources_list@.take(i as int)[j] == s);
                    assert(before.to_set().contains(offset_of(s, d, *map_size)->0));
                }
            }
        }
        i = i + 1;
    }
    proof {
        assert(sources_list@.take(sources_list@.len() as int) =~= sources_list@);
        assert forall|p: TilePos| near_sources(sources, *map_size, p) implies #[trigger] to_check@.to_set().contains(p) by {
            if !sources.contains(p) {
                let (s, d) = choose|s: TilePos, d: SquareDirection|
                    sources.contains(s) && is_cardinal(d) && #[trigger] offset_of(s, d, *map_size) == Some(p);
                assert(sources_list@.contains(s));
            }
        }
    }
    TilesToCheck(to_check)
}

} // verus!
