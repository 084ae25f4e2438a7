use vstd::prelude::*;

verus! {

/// The four directions a conveyor can take payloads from or send them to.
#[derive(PartialEq, Eq, Structural, Clone, Copy, Debug)]
pub enum ConveyorDirection {
    North,
    South,
    East,
    West,
}

/// The eight directions in which a neighbouring tile may lie on a square grid.
#[derive(PartialEq, Eq, Structural, Clone, Copy, Debug)]
pub enum SquareDirection {
    East,
    NorthEast,
    North,
    NorthWest,
    West,
    SouthWest,
    South,
    SouthEast,
}

/// North, east, south and west: the four directions that are not diagonal.
pub open spec fn is_cardinal(d: SquareDirection) -> bool {
    d == SquareDirection::North || d == SquareDirection::East || d == SquareDirection::South
        || d == SquareDirection::West
}

/// The opposite of a cardinal square direction.
pub open spec fn square_opposite(d: SquareDirection) -> SquareDirection {
    match d {
        SquareDirection::East => SquareDirection::West,
        SquareDirection::North => SquareDirection::South,
        SquareDirection::West => SquareDirection::East,
        _ => SquareDirection::North,
    }
}

/// Returns the direction opposite to the cardinal direction `d`.
pub fn opposite(d: SquareDirection) -> (r: SquareDirection)
    requires
        is_cardinal(d),
    ensures
        r == square_opposite(d),
        is_cardinal(r),
{
    match d {
        SquareDirection::East => SquareDirection::West,
        SquareDirection::North => SquareDirection::South,
        SquareDirection::West => SquareDirection::East,
        _ => SquareDirection::North,
    }
}

/// The direction facing the other way.
pub open spec fn opposite_of(d: ConveyorDirection) -> ConveyorDirection {
    match d {
        ConveyorDirection::East => ConveyorDirection::West,
        ConveyorDirection::North => ConveyorDirection::South,
        ConveyorDirection::West => ConveyorDirection::East,
        ConveyorDirection::South => ConveyorDirection::North,
    }
}

/// Position in the clockwise order north, east, south, west.
pub open spec fn index_of(d: ConveyorDirection) -> int {
    match d {
        ConveyorDirection::North => 0,
        ConveyorDirection::East => 1,
        ConveyorDirection::South => 2,
        ConveyorDirection::West => 3,
    }
}

/// The direction at position `i` (taken modulo four) of the clockwise order
/// north, east, south, west.
pub open spec fn direction_at(i: int) -> ConveyorDirection {
    let k = i % 4;
    if k == 0 {
        ConveyorDirection::North
    } else if k == 1 {
        ConveyorDirection::East
    } else if k == 2 {
        ConveyorDirection::South
    } else {
        ConveyorDirection::West
    }
}

/// The next direction, turning clockwise.
pub open spec fn next_of(d: ConveyorDirection) -> ConveyorDirection {
    direction_at(index_of(d) + 1)
}

/// The previous direction, turning anticlockwise.
pub open spec fn previous_of(d: ConveyorDirection) -> ConveyorDirection {
    direction_at(index_of(d) + 3)
}

/// The bit that stands for a direction in a set of directions.
pub open spec fn bit_of(d: ConveyorDirection) -> u8 {
    match d {
        ConveyorDirection::North => 1,
        ConveyorDirection::East => 2,
        ConveyorDirection::South => 4,
        ConveyorDirection::West => 8,
    }
}

/// The square direction that has the same meaning as a conveyor direction.
pub open spec fn square_of(d: ConveyorDirection) -> SquareDirection {
    match d {
        ConveyorDirection::North => SquareDirection::North,
        ConveyorDirection::South => SquareDirection::South,
        ConveyorDirection::East => SquareDirection::East,
        ConveyorDirection::West => SquareDirection::West,
    }
}

/// The conveyor direction that has the same meaning as a cardinal square
/// direction.
pub open spec fn conveyor_of(d: SquareDirection) -> ConveyorDirection {
    match d {
        SquareDirection::North => ConveyorDirection::North,
        SquareDirection::South => ConveyorDirection::South,
        SquareDirection::East => ConveyorDirection::East,
        _ => ConveyorDirection::West,
    }
}

/// How a tile sprite is mirrored: along x, along y, and along the diagonal.
#[derive(PartialEq, Eq, Structural, Clone, Copy, Debug)]
pub struct TileFlip {
    pub x: bool,
    pub y: bool,
    pub d: bool,
}

impl Default for TileFlip {
    fn default() -> (r: Self)
        ensures
            r == (TileFlip { x: false, y: false, d: false }),
    {
        TileFlip { x: false, y: false, d: false }
    }
}

/// The flip that turns an east-facing sprite to face `d`.
pub open spec fn flip_facing(d: ConveyorDirection) -> TileFlip {
    match d {
        ConveyorDirection::North => TileFlip { x: false, y: true, d: true },
        ConveyorDirection::South => TileFlip { x: true, y: false, d: true },
        ConveyorDirection::East => TileFlip { x: false, y: false, d: false },
        ConveyorDirection::West => TileFlip { x: true, y: true, d: false },
    }
}

impl Default for ConveyorDirection {
    fn default() -> (r: Self)
        ensures
            r == ConveyorDirection::North,
    {
        ConveyorDirection::North
    }
}

impl ConveyorDirection {
    /// The direction facing the other way.
    pub fn opposite(&self) -> (r: Self)
        ensures
            r == opposite_of(*self),
    {
        match self {
            ConveyorDirection::East => ConveyorDirection::West,
            ConveyorDirection::North => ConveyorDirection::South,
            ConveyorDirection::West => ConveyorDirection::East,
            ConveyorDirection::South => ConveyorDirection::North,
        }
    }

    /// Position of the direction in the clockwise order north, east, south,
    /// west.
    pub fn index(&self) -> (r: usize)
        ensures
            r == index_of(*self),
    {
        match self {
            ConveyorDirection::North => 0,
            ConveyorDirection::East => 1,
            ConveyorDirection::South => 2,
            ConveyorDirection::West => 3,
        }
    }

    /// The next direction, turning clockwise.
    pub fn next(&self) -> (r: ConveyorDirection)
        ensures
            r == next_of(*self),
    {
        match self {
            ConveyorDirection::North => ConveyorDirection::East,
            ConveyorDirection::East => ConveyorDirection::South,
            ConveyorDirection::South => ConveyorDirection::West,
            ConveyorDirection::West => ConveyorDirection::North,
        }
    }

    /// The side to the left of something travelling in this direction.
    pub fn left(&self) -> (r: ConveyorDirection)
        ensures
            r == previous_of(*self),
    {
        match self {
            ConveyorDirection::North => ConveyorDirection::West,
            ConveyorDirection::East => ConveyorDirection::North,
            ConveyorDirection::South => ConveyorDirection::East,
            ConveyorDirection::West => ConveyorDirection::South,
        }
    }

    /// The side to the right of something travelling in this direction.
    pub fn right(&self) -> (r: ConveyorDirection)
        ensures
            r == next_of(*self),
    {
        self.next()
    }

    /// The bit that stands for this direction in a [`ConveyorDirections`].
    pub fn bit(&self) -> (r: u8)
        ensures
            r == bit_of(*self),
    {
        match self {
            ConveyorDirection::North => 1,
            ConveyorDirection::East => 2,
            ConveyorDirection::South => 4,
            ConveyorDirection::West => 8,
        }
    }

    /// The flip that turns an east-facing sprite to face this direction.
    pub fn tile_flip(&self) -> (r: TileFlip)
        ensures
            r == flip_facing(*self),
    {
        match self {
            ConveyorDirection::North => TileFlip { x: false, y: true, d: true },
            ConveyorDirection::South => TileFlip { x: true, y: false, d: true },
            ConveyorDirection::East => TileFlip { x: false, y: false, d: false },
            ConveyorDirection::West => TileFlip { x: true, y: true, d: false },
        }
    }

    /// The square direction with the same meaning.
    pub fn to_square(&self) -> (r: SquareDirection)
        ensures
            r == square_of(*self),
            is_cardinal(r),
    {
        match self {
            ConveyorDirection::North => SquareDirection::North,
            ConveyorDirection::South => SquareDirection::South,
            ConveyorDirection::East => SquareDirection::East,
            ConveyorDirection::West => SquareDirection::West,
        }
    }

    /// The conveyor direction with the same meaning as a cardinal square
    /// direction.
    pub fn from_square(d: SquareDirection) -> (r: ConveyorDirection)
        requires
            is_cardinal(d),
        ensures
            r == conveyor_of(d),
            square_of(r) == d,
    {
        match d {
            SquareDirection::North => ConveyorDirection::North,
            SquareDirection::South => ConveyorDirection::South,
            SquareDirection::East => ConveyorDirection::East,
            _ => ConveyorDirection::West,
        }
    }
}

/// The four conveyor directions in clockwise order, starting north.
pub fn conveyor_directions() -> (r: [ConveyorDirection; 4])
    ensures
        forall|i: int| 0 <= i < 4 ==> #[trigger] r[i] == direction_at(i),
{
    [
        ConveyorDirection::North,
        ConveyorDirection::East,
        ConveyorDirection::South,
        ConveyorDirection::West,
    ]
}

/// The four directions in clockwise order, starting at position `start`.
pub open spec fn rotation_from(start: int) -> Seq<ConveyorDirection> {
    seq![direction_at(start), direction_at(start + 1), direction_at(start + 2), direction_at(start + 3)]
}

/// The elements of `s` that lie in `set`, in the order of `s`.
pub open spec fn select(s: Seq<ConveyorDirection>, set: Set<ConveyorDirection>) -> Seq<ConveyorDirection>
    decreases s.len(),
{
    if s.len() == 0 {
        Seq::empty()
    } else {
        let rest = select(s.drop_last(), set);
        if set.contains(s.last()) {
            rest.push(s.last())
        } else {
            rest
        }
    }
}

/// A set that holds exactly one direction.
pub open spec fn is_single(s: Set<ConveyorDirection>) -> bool {
    exists|d: ConveyorDirection| s == Set::empty().insert(d)
}

/// All four directions.
pub open spec fn all_directions() -> Set<ConveyorDirection> {
    Set::full()
}

proof fn lemma_bits(a: u8, b: u8, m: u8)
    by (bit_vector)
    requires
        m == 1 || m == 2 || m == 4 || m == 8,
    ensures
        ((a | b) & m != 0) == ((a & m != 0) || (b & m != 0)),
        ((a & !b) & m != 0) == ((a & m != 0) && !(b & m != 0)),
        (15u8 & !b) & m != 0 == !(b & m != 0),
        15u8 & m != 0,
        0u8 & m == 0,
        m & m != 0,
{
}

proof fn lemma_distinct_bits(d: ConveyorDirection, e: ConveyorDirection)
    ensures
        (bit_of(d) & bit_of(e) != 0) == (d == e),
{
    let m = bit_of(d);
    let n = bit_of(e);
    assert(1u8 & 2u8 == 0 && 1u8 & 4u8 == 0 && 1u8 & 8u8 == 0 && 2u8 & 4u8 == 0 && 2u8 & 8u8 == 0
        && 4u8 & 8u8 == 0 && 2u8 & 1u8 == 0 && 4u8 & 1u8 == 0 && 8u8 & 1u8 == 0 && 4u8 & 2u8 == 0
        && 8u8 & 2u8 == 0 && 8u8 & 4u8 == 0 && 1u8 & 1u8 != 0 && 2u8 & 2u8 != 0 && 4u8 & 4u8 != 0
        && 8u8 & 8u8 != 0) by (bit_vector);
}

/// A set of conveyor directions, one bit per direction.
#[derive(PartialEq, Eq, Structural, Clone, Copy, Debug)]
pub struct ConveyorDirections(u8);

impl View for ConveyorDirections {
    type V = Set<ConveyorDirection>;

    closed spec fn view(&self) -> Set<ConveyorDirection> {
        Set::new(|d: ConveyorDirection| self.0 & bit_of(d) != 0)
    }
}

impl Default for ConveyorDirections {
    fn default() -> (r: Self)
        ensures
            r@ == Set::<ConveyorDirection>::empty(),
    {
        let r = ConveyorDirections(0);
        proof {
            assert forall|d: ConveyorDirection| !r@.contains(d) by {
                lemma_bits(0, 0, bit_of(d));
            }
            assert(r@ =~= Set::<ConveyorDirection>::empty());
        }
        r
    }
}

impl ConveyorDirections {
    /// The set that holds just `direction`.
    pub fn new(direction: ConveyorDirection) -> (r: Self)
        ensures
            r@ == Set::empty().insert(direction),
    {
        let r = ConveyorDirections(direction.bit());
        proof {
            assert forall|d: ConveyorDirection| r@.contains(d) == (d == direction) by {
                lemma_distinct_bits(direction, d);
            }
            assert(r@ =~= Set::empty().insert(direction));
        }
        r
    }

    /// The set of all four directions.
    pub fn all() -> (r: Self)
        ensures
            r@ == all_directions(),
    {
        let r = ConveyorDirections(15);
        proof {
            assert forall|d: ConveyorDirection| r@.contains(d) by {
                lemma_bits(0, 0, bit_of(d));
            }
            assert(r@ =~= all_directions());
        }
        r
    }

    /// The set of all directions that are not in `directions`.
    pub fn all_except(directions: ConveyorDirections) -> (r: Self)
        ensures
            r@ == all_directions().difference(directions@),
    {
        let r = ConveyorDirections(15u8 & !directions.0);
        proof {
            assert forall|d: ConveyorDirection| r@.contains(d) == !directions@.contains(d) by {
                lemma_bits(0, directions.0, bit_of(d));
            }
            assert(r@ =~= all_directions().difference(directions@));
        }
        r
    }

    /// The set of the directions in `directions`.
    pub fn from_directions(directions: &[ConveyorDirection]) -> (r: Self)
        ensures
            forall|d: ConveyorDirection| r@.contains(d) == directions@.contains(d),
    {
        let mut bits: u8 = 0;
        let mut i: usize = 0;
        proof {
            assert forall|d: ConveyorDirection|
                (bits & #[trigger] bit_of(d) != 0) == directions@.take(0).contains(d) by {
                lemma_bits(0, 0, bit_of(d));
            }
        }
        while i < directions.len()
            invariant
                i <= directions.len(),
                forall|d: ConveyorDirection|
                    (bits & #[trigger] bit_of(d) != 0) == directions@.take(i as int).contains(d),
            decreases directions.len() - i,
        {
            let x = directions[i];
            let ghost old_bits = bits;
            bits = bits | x.bit();
            proof {
                assert forall|d: ConveyorDirection|
                    (bits & #[trigger] bit_of(d) != 0) == directions@.take(i + 1).contains(d) by {
                    lemma_bits(old_bits, bit_of(x), bit_of(d));
                    lemma_distinct_bits(x, d);
                    assert(directions@.take(i + 1) =~= directions@.take(i as int).push(x));
                    assert(directions@.take(i as int).push(x).contains(d) == (directions@.take(
                        i as int,
                    ).contains(d) || x == d)) by {
                        if directions@.take(i as int).push(x).contains(d) {
                            let k = choose|k: int|
                                0 <= k < i + 1 && directions@.take(i as int).push(x)[k] == d;
                            if k < i {
                                assert(directions@.take(i as int)[k] == d);
                            }
                        }
                        if directions@.take(i as int).contains(d) {
                            let k = choose|k: int| 0 <= k < i && directions@.take(i as int)[k] == d;
                            assert(directions@.take(i as int).push(x)[k] == d);
                        }
                        if x == d {
                            assert(directions@.take(i as int).push(x)[i as int] == d);
                        }
                    }
                }
            }
            i = i + 1;
        }
        assert(directions@.take(i as int) =~= directions@);
        ConveyorDirections(bits)
    }

    /// The union of two sets of directions.
    pub fn union(&self, other: ConveyorDirections) -> (r: Self)
        ensures
            r@ == self@.union(other@),
    {
        let r = ConveyorDirections(self.0 | other.0);
        proof {
            assert forall|d: ConveyorDirection| r@.contains(d) == (self@.contains(d) || other@.contains(d)) by {
                lemma_bits(self.0, other.0, bit_of(d));
            }
            assert(r@ =~= self@.union(other@));
        }
        r
    }

    /// Whether the two sets hold the same directions.
    pub fn same_as(&self, other: &ConveyorDirections) -> (r: bool)
        ensures
            r == (self@ == other@),
    {
        let r = self.is_set(ConveyorDirection::North) == other.is_set(ConveyorDirection::North)
            && self.is_set(ConveyorDirection::East) == other.is_set(ConveyorDirection::East)
            && self.is_set(ConveyorDirection::South) == other.is_set(ConveyorDirection::South)
            && self.is_set(ConveyorDirection::West) == other.is_set(ConveyorDirection::West);
        proof {
            if r {
                assert forall|d: ConveyorDirection| self@.contains(d) == other@.contains(d) by {}
                assert(self@ =~= other@);
            } else {
                assert(self@ != other@) by {
                    if self@ == other@ {
                        assert(self@.contains(ConveyorDirection::North) == other@.contains(ConveyorDirection::North));
                        assert(self@.contains(ConveyorDirection::East) == other@.contains(ConveyorDirection::East));
                        assert(self@.contains(ConveyorDirection::South) == other@.contains(ConveyorDirection::South));
                    }
                }
            }
        }
        r
    }

    /// Whether `direction` is in the set.
    pub fn is_set(&self, direction: ConveyorDirection) -> (r: bool)
        ensures
            r == self@.contains(direction),
    {
        (self.0 & direction.bit()) != 0u8
    }

    /// Whether the set is empty.
    pub fn is_none(&self) -> (r: bool)
        ensures
            r == (self@ == Set::<ConveyorDirection>::empty()),
    {
        let r = !self.is_set(ConveyorDirection::North) && !self.is_set(ConveyorDirection::East)
            && !self.is_set(ConveyorDirection::South) && !self.is_set(ConveyorDirection::West);
        proof {
            if r {
                assert forall|d: ConveyorDirection| !self@.contains(d) by {}
                assert(self@ =~= Set::<ConveyorDirection>::empty());
            } else {
                assert(!(self@ =~= Set::<ConveyorDirection>::empty()));
            }
        }
        r
    }

    /// The directions of the set, in the clockwise order north, east, south,
    /// west.
    pub fn iter(&self) -> (r: Vec<ConveyorDirection>)
        ensures
            r@ == select(rotation_from(0), self@),
    {
        self.iter_from(ConveyorDirection::North)
    }

    /// The directions of the set, in clockwise order starting at `direction`.
    pub fn iter_from(&self, direction: ConveyorDirection) -> (r: Vec<ConveyorDirection>)
        ensures
            r@ == select(rotation_from(index_of(direction)), self@),
    {
        let all = conveyor_directions();
        let start = direction.index();
        let ghost rot = rotation_from(index_of(direction));
        let mut r: Vec<ConveyorDirection> = Vec::new();
        let mut i: usize = 0;
        while i < 4
            invariant
                i <= 4,
                start == index_of(direction),
                rot == rotation_from(index_of(direction)),
                forall|k: int| 0 <= k < 4 ==> #[trigger] all[k] == direction_at(k),
                r@ == select(rot.take(i as int), self@),
            decreases 4 - i,
        {
            let d = all[(start + i) % 4];
            assert(d == rot[i as int]);
            assert(rot.take(i + 1).drop_last() =~= rot.take(i as int));
            if self.is_set(d) {
                r.push(d);
            }
            i = i + 1;
        }
        assert(rot.take(4) =~= rot);
        r
    }

    /// The one direction of a set that holds exactly one.
    pub fn single(&self) -> (r: ConveyorDirection)
        requires
            is_single(self@),
        ensures
            self@ == Set::empty().insert(r),
    {
        let ghost d0 = choose|d: ConveyorDirection| self@ == Set::empty().insert(d);
        if self.is_set(ConveyorDirection::North) {
            ConveyorDirection::North
        } else if self.is_set(ConveyorDirection::East) {
            ConveyorDirection::East
        } else if self.is_set(ConveyorDirection::South) {
            ConveyorDirection::South
        } else {
            assert(self@.contains(d0));
            ConveyorDirection::West
        }
    }
}

} // verus!

verus! {

/// A set holds exactly one direction just when selecting its members from
/// the four directions gives one.
pub proof fn lemma_select_single(s: Set<ConveyorDirection>)
    ensures
        (select(rotation_from(0), s).len() == 1) == is_single(s),
{
    reveal_with_fuel(select, 5);
    let r = rotation_from(0);
    assert(r.drop_last().drop_last().drop_last().drop_last() =~= Seq::<ConveyorDirection>::empty());
    assert(r.drop_last().drop_last().drop_last() =~= seq![ConveyorDirection::North]);
    assert(r.drop_last().drop_last() =~= seq![ConveyorDirection::North, ConveyorDirection::East]);
    assert(r.drop_last() =~= seq![ConveyorDirection::North, ConveyorDirection::East, ConveyorDirection::South]);
    let n = s.contains(ConveyorDirection::North);
    let e = s.contains(ConveyorDirection::East);
    let so = s.contains(ConveyorDirection::South);
    let w = s.contains(ConveyorDirection::West);
    let count = (if n { 1int } else { 0 }) + (if e { 1int } else { 0 }) + (if so { 1int } else { 0 }) + (if w {
        1int
    } else {
        0
    });
    assert(select(r, s).len() == count);
    if is_single(s) {
        let d = choose|d: ConveyorDirection| s == Set::empty().insert(d);
        assert(s.contains(d));
    }
    if count == 1 {
        let d = if n {
            ConveyorDirection::North
        } else if e {
            ConveyorDirection::East
        } else if so {
            ConveyorDirection::South
        } else {
            ConveyorDirection::West
        };
        assert(s =~= Set::empty().insert(d));
    }
}

} // verus!

verus! {

/// The direction chosen from a set holding just `x` is `x`.
pub proof fn lemma_single_choice(s: Set<ConveyorDirection>, x: ConveyorDirection)
    requires
        s == Set::empty().insert(x),
    ensures
        (choose|d: ConveyorDirection| s == Set::empty().insert(d)) == x,
{
    let d = choose|d: ConveyorDirection| s == Set::empty().insert(d);
    assert(s.contains(x));
    assert(Set::<ConveyorDirection>::empty().insert(d).contains(x));
}

} // verus!

verus! {

/// Facing the other way twice faces the first way again.
pub proof fn law_opposite_twice(d: ConveyorDirection)
    ensures
        opposite_of(opposite_of(d)) == d,
{
}

/// Two clockwise turns face the other way, and four turns come back.
pub proof fn law_turns(d: ConveyorDirection)
    ensures
        next_of(next_of(d)) == opposite_of(d),
        next_of(next_of(next_of(next_of(d)))) == d,
        next_of(previous_of(d)) == d,
        previous_of(next_of(d)) == d,
{
}

/// Taking the directions not in the directions not in `s` gives `s`.
pub proof fn law_all_except_twice(s: Set<ConveyorDirection>)
    ensures
        all_directions().difference(all_directions().difference(s)) == s,
{
    assert(all_directions().difference(all_directions().difference(s)) =~= s);
}

/// A conveyor direction read as a square direction and back is itself, and
/// so is a side read as a conveyor direction and back.
pub proof fn law_square_round_trip(d: ConveyorDirection, s: SquareDirection)
    ensures
        conveyor_of(square_of(d)) == d,
        is_cardinal(square_of(d)),
        is_cardinal(s) ==> square_of(conveyor_of(s)) == s,
        square_opposite(square_of(d)) == square_of(opposite_of(d)),
{
}

} // verus!
