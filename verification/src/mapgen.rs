//! Map generation by wave function collapse: every tile starts out able to
//! take any tile class, and picking a class for one tile narrows down the
//! classes its neighbours may still take, according to which classes may sit
//! next to each other.

use vstd::prelude::*;
use vstd::relations::{sorted_by, total_ordering};

use crate::factory_game::helpers::{is_cardinal, SquareDirection};
use crate::tiles::{offset_of, on_map, Neighbors, TilePos, TilemapSize};

use rand::distr::{Distribution, Uniform};

verus! {

broadcast use vstd::seq_lib::group_to_multiset_ensures;

/// A class of tiles that share their edges, by its place in the tile set's
/// list of classes.
#[derive(Clone, Copy, PartialEq, Eq, Structural, PartialOrd, Ord, Debug)]
pub struct TileClass(pub usize);

/// Two classes `(a, b)` that may sit next to each other.
pub type Combo = (TileClass, TileClass);

/// The order of combos: by their first class, then by their second.
pub open spec fn combo_le(p: Combo, q: Combo) -> bool {
    p.0.0 < q.0.0 || (p.0.0 == q.0.0 && p.1.0 <= q.1.0)
}

/// [`combo_le`] as a relation.
pub open spec fn combo_order() -> spec_fn(Combo, Combo) -> bool {
    |p: Combo, q: Combo| combo_le(p, q)
}

/// A combo with its two classes swapped.
pub open spec fn swapped(c: Combo) -> Combo {
    (c.1, c.0)
}

/// The order of combos is a total order.
pub proof fn lemma_combo_order_total()
    ensures
        total_ordering(combo_order()),
{
    let r = combo_order();
    assert forall|p: Combo, q: Combo| #[trigger] r(p, q) && #[trigger] r(q, p) implies p == q by {
        assert(p.0 == q.0 && p.1 == q.1);
    }
}

/// Whether `s` is in combo order.
pub open spec fn combos_sorted(s: Seq<Combo>) -> bool {
    forall|i: int, j: int| 0 <= i < j < s.len() ==> combo_le(#[trigger] s[i], #[trigger] s[j])
}

/// Returns `combos` in combo order.
fn sort_combos(combos: Vec<Combo>) -> (r: Vec<Combo>)
    ensures
        r@ == combos@.sort_by(combo_order()),
{
    let mut out: Vec<Combo> = Vec::new();
    let mut i: usize = 0;
    while i < combos.len()
        invariant
            i <= combos.len(),
            combos_sorted(out@),
            out@.to_multiset() == combos@.take(i as int).to_multiset(),
        decreases combos.len() - i,
    {
        let x = combos[i];
        let mut k: usize = 0;
        while k < out.len() && (out[k].0.0 < x.0.0 || (out[k].0.0 == x.0.0 && out[k].1.0 <= x.1.0))
            invariant
                k <= out.len(),
                forall|j: int| 0 <= j < k ==> combo_le(#[trigger] out@[j], x),
            decreases out.len() - k,
        {
            k = k + 1;
        }
        let ghost before = out@;
        out.insert(k, x);
        proof {
            assert forall|a: int, b: int| 0 <= a < b < out@.len() implies combo_le(
                #[trigger] out@[a],
                #[trigger] out@[b],
            ) by {
                if b < k {
                    assert(out@[a] == before[a] && out@[b] == before[b]);
                } else if b == k {
                    assert(out@[a] == before[a]);
                } else if a < k {
                    assert(out@[a] == before[a] && out@[b] == before[b - 1]);
                } else if a == k {
                    assert(out@[b] == before[b - 1]);
                    assert(combo_le(before[k as int], before[b - 1]));
                } else {
                    assert(out@[a] == before[a - 1] && out@[b] == before[b - 1]);
                }
            }
            assert(combos@.take(i + 1) =~= combos@.take(i as int).push(x));
        }
        i = i + 1;
    }
    proof {
        assert(combos@.take(combos.len() as int) =~= combos@);
        lemma_combo_order_total();
        combos@.lemma_sort_by_ensures(combo_order());
        assert(sorted_by(out@, combo_order())) by {
            assert forall|a: int, b: int| 0 <= a < b < out@.len() implies #[trigger] combo_order()(
                out@[a],
                out@[b],
            ) by {
                assert(combo_le(out@[a], out@[b]));
            }
        }
        vstd::seq_lib::lemma_sorted_unique(out@, combos@.sort_by(combo_order()), combo_order());
    }
    out
}

/// What a [`Combos`] holds.
pub struct CombosModel {
    pub combos: Seq<Combo>,
    pub reversed_combos: Seq<Combo>,
}

/// The combos allowed along one axis, sorted for lookup, once as given and
/// once with their classes swapped.
#[derive(Debug)]
pub struct Combos {
    combos: Vec<Combo>,
    reversed_combos: Vec<Combo>,
}

impl View for Combos {
    type V = CombosModel;

    closed spec fn view(&self) -> CombosModel {
        CombosModel { combos: self.combos@, reversed_combos: self.reversed_combos@ }
    }
}

impl Combos {
    /// Both lists are in combo order.
    pub open spec fn wf(&self) -> bool {
        combos_sorted(self@.combos) && combos_sorted(self@.reversed_combos)
    }

    /// Sorts `combos`, and the same combos with their classes swapped.
    pub fn new(combos: &[Combo]) -> (r: Self)
        ensures
            r.wf(),
            r@.combos == combos@.sort_by(combo_order()),
            r@.reversed_combos == combos@.map_values(|c: Combo| swapped(c)).sort_by(combo_order()),
    {
        let mut reversed_combos: Vec<Combo> = Vec::new();
        let mut owned: Vec<Combo> = Vec::new();
        let mut i: usize = 0;
        while i < combos.len()
            invariant
                i <= combos@.len(),
                owned@ == combos@.take(i as int),
                reversed_combos@ == combos@.take(i as int).map_values(|c: Combo| swapped(c)),
            decreases combos@.len() - i,
        {
            let (a, b) = combos[i];
            owned.push((a, b));
            reversed_combos.push((b, a));
            proof {
                assert(combos@.take(i + 1) =~= combos@.take(i as int).push(combos@[i as int]));
                assert(combos@.take(i + 1).map_values(|c: Combo| swapped(c)) =~= combos@.take(
                    i as int,
                ).map_values(|c: Combo| swapped(c)).push((b, a)));
            }
            i = i + 1;
        }
        proof {
            assert(combos@.take(combos@.len() as int) =~= combos@);
        }
        let ghost given = owned@;
        let ghost swapped_given = reversed_combos@;
        let combos = sort_combos(owned);
        let reversed_combos = sort_combos(reversed_combos);
        proof {
            lemma_combo_order_total();
            given.lemma_sort_by_ensures(combo_order());
            swapped_given.lemma_sort_by_ensures(combo_order());
            lemma_sorted_by_combo(combos@);
            lemma_sorted_by_combo(reversed_combos@);
        }
        Combos { combos, reversed_combos }
    }
}

/// A sequence sorted by [`combo_order`] is in combo order.
proof fn lemma_sorted_by_combo(s: Seq<Combo>)
    requires
        sorted_by(s, combo_order()),
    ensures
        combos_sorted(s),
{
    assert forall|i: int, j: int| 0 <= i < j < s.len() implies combo_le(#[trigger] s[i], #[trigger] s[j]) by {
        assert(combo_order()(s[i], s[j]));
    }
}

/// What one map tile may still become: a decided tile of class `class` drawn
/// with tile `index`, or the classes it may still take.
#[derive(Debug)]
pub enum MapEntry {
    Collapsed { class: TileClass, index: u32 },
    Superposition { options: Vec<TileClass> },
}

/// Whether the classes of `s` are strictly increasing.
pub open spec fn classes_sorted(s: Seq<TileClass>) -> bool {
    forall|i: int, j: int| 0 <= i < j < s.len() ==> (#[trigger] s[i]).0 < (#[trigger] s[j]).0
}

/// Whether `e` is, or may still become, of class `c`.
pub open spec fn entry_allows(e: MapEntry, c: TileClass) -> bool {
    match e {
        MapEntry::Collapsed { class, .. } => class == c,
        MapEntry::Superposition { options } => options@.contains(c),
    }
}

/// Whether some combo of `combos` puts `option` next to a class that `from`
/// is or may still become.
pub open spec fn combos_allow(combos: Seq<Combo>, from: MapEntry, option: TileClass) -> bool {
    exists|j: int| 0 <= j < combos.len() && (#[trigger] combos[j]).0 == option && entry_allows(from, combos[j].1)
}

/// Whether some pair of `pairs` puts `option` next to a class that `from`
/// is or may still become: the first class of the pair is `option`, or the
/// second when `reversed`.
pub open spec fn pairs_allow(pairs: Seq<Combo>, from: MapEntry, option: TileClass, reversed: bool) -> bool {
    exists|j: int|
        0 <= j < pairs.len() && if reversed {
            (#[trigger] pairs[j]).1 == option && entry_allows(from, pairs[j].0)
        } else {
            pairs[j].0 == option && entry_allows(from, pairs[j].1)
        }
}

/// Two lists of combos that hold the same combos allow the same classes.
proof fn lemma_allow_same_combos(a: Seq<Combo>, b: Seq<Combo>, from: MapEntry, option: TileClass)
    requires
        forall|x: Combo| a.contains(x) ==> b.contains(x),
    ensures
        combos_allow(a, from, option) ==> combos_allow(b, from, option),
{
    if combos_allow(a, from, option) {
        let j = choose|j: int| 0 <= j < a.len() && (#[trigger] a[j]).0 == option && entry_allows(from, a[j].1);
        assert(b.contains(a[j]));
        let k = choose|k: int| 0 <= k < b.len() && b[k] == a[j];
        assert(b[k].0 == option && entry_allows(from, b[k].1));
    }
}

/// Sorting the pairs given to [`Combos::new`] changes no answer of the
/// lookup: a class is allowed by the sorted combos, as given or swapped,
/// exactly when some given pair allows it.
pub proof fn law_lookup_ignores_sorting(pairs: Seq<Combo>, from: MapEntry, option: TileClass, reversed: bool)
    ensures
        combos_allow(
            if reversed {
                pairs.map_values(|c: Combo| swapped(c)).sort_by(combo_order())
            } else {
                pairs.sort_by(combo_order())
            },
            from,
            option,
        ) == pairs_allow(pairs, from, option, reversed),
{
    let given = if reversed {
        pairs.map_values(|c: Combo| swapped(c))
    } else {
        pairs
    };
    let sorted = given.sort_by(combo_order());
    lemma_combo_order_total();
    given.lemma_sort_by_ensures(combo_order());
    given.to_multiset_ensures();
    sorted.to_multiset_ensures();
    assert forall|x: Combo| given.contains(x) implies sorted.contains(x) by {
        assert(given.to_multiset().count(x) > 0);
    }
    assert forall|x: Combo| sorted.contains(x) implies given.contains(x) by {
        assert(sorted.to_multiset().count(x) > 0);
    }
    lemma_allow_same_combos(given, sorted, from, option);
    lemma_allow_same_combos(sorted, given, from, option);
    if combos_allow(given, from, option) {
        let j = choose|j: int| 0 <= j < given.len() && (#[trigger] given[j]).0 == option && entry_allows(from, given[j].1);
        assert(given[j] == if reversed { swapped(pairs[j]) } else { pairs[j] });
    }
    if pairs_allow(pairs, from, option, reversed) {
        let j = choose|j: int|
            0 <= j < pairs.len() && if reversed {
                (#[trigger] pairs[j]).1 == option && entry_allows(from, pairs[j].0)
            } else {
                pairs[j].0 == option && entry_allows(from, pairs[j].1)
            };
        assert(given[j].0 == option && entry_allows(from, given[j].1));
    }
}

/// The classes `e` may still take; none once it is decided.
pub open spec fn options_of(e: MapEntry) -> Seq<TileClass> {
    match e {
        MapEntry::Superposition { options } => options@,
        MapEntry::Collapsed { .. } => Seq::empty(),
    }
}

impl MapEntry {
    /// The options of an undecided tile are strictly increasing.
    pub open spec fn wf(&self) -> bool {
        match *self {
            MapEntry::Superposition { options } => classes_sorted(options@),
            MapEntry::Collapsed { .. } => true,
        }
    }
}

/// The first position of `combos` whose first class is not below `option`.
fn lower_bound(combos: &Vec<Combo>, option: TileClass) -> (r: usize)
    requires
        combos_sorted(combos@),
    ensures
        r <= combos@.len(),
        forall|j: int| 0 <= j < r ==> (#[trigger] combos@[j]).0.0 < option.0,
        forall|j: int| r <= j < combos@.len() ==> (#[trigger] combos@[j]).0.0 >= option.0,
{
    let mut lo: usize = 0;
    let mut hi: usize = combos.len();
    while lo < hi
        invariant
            lo <= hi <= combos@.len(),
            combos_sorted(combos@),
            forall|j: int| 0 <= j < lo ==> (#[trigger] combos@[j]).0.0 < option.0,
            forall|j: int| hi <= j < combos@.len() ==> (#[trigger] combos@[j]).0.0 >= option.0,
        decreases hi - lo,
    {
        let mid = lo + (hi - lo) / 2;
        if combos[mid].0.0 < option.0 {
            assert forall|j: int| 0 <= j <= mid implies (#[trigger] combos@[j]).0.0 < option.0 by {
                if j < mid {
                    assert(combo_le(combos@[j], combos@[mid as int]));
                }
            }
            lo = mid + 1;
        } else {
            assert forall|j: int| mid <= j < combos@.len() implies (#[trigger] combos@[j]).0.0 >= option.0 by {
                if j > mid {
                    assert(combo_le(combos@[mid as int], combos@[j]));
                }
            }
            hi = mid;
        }
    }
    lo
}

/// Whether the strictly increasing `options` hold `c`.
fn contains_sorted(options: &Vec<TileClass>, c: TileClass) -> (r: bool)
    requires
        classes_sorted(options@),
    ensures
        r == options@.contains(c),
{
    let mut lo: usize = 0;
    let mut hi: usize = options.len();
    while lo < hi
        invariant
            lo <= hi <= options@.len(),
            classes_sorted(options@),
            forall|j: int| 0 <= j < lo ==> (#[trigger] options@[j]).0 < c.0,
            forall|j: int| hi <= j < options@.len() ==> (#[trigger] options@[j]).0 > c.0,
        decreases hi - lo,
    {
        let mid = lo + (hi - lo) / 2;
        let m = options[mid].0;
        if m == c.0 {
            assert(options@[mid as int] == c);
            return true;
        } else if m < c.0 {
            assert forall|j: int| 0 <= j <= mid implies (#[trigger] options@[j]).0 < c.0 by {
                if j < mid {
                    assert(options@[j].0 < options@[mid as int].0);
                }
            }
            lo = mid + 1;
        } else {
            assert forall|j: int| mid <= j < options@.len() implies (#[trigger] options@[j]).0 > c.0 by {
                if j > mid {
                    assert(options@[mid as int].0 < options@[j].0);
                }
            }
            hi = mid;
        }
    }
    assert(!options@.contains(c)) by {
        if options@.contains(c) {
            let j = choose|j: int| 0 <= j < options@.len() && options@[j] == c;
            assert(options@[j].0 == c.0);
        }
    }
    false
}

/// Whether `from` is, or may still become, of class `c`.
fn entry_allows_class(from: &MapEntry, c: TileClass) -> (r: bool)
    requires
        from.wf(),
    ensures
        r == entry_allows(*from, c),
{
    match from {
        MapEntry::Collapsed { class, .. } => class.0 == c.0,
        MapEntry::Superposition { options } => contains_sorted(options, c),
    }
}

impl Combos {
    /// Whether a tile of class `option` may sit next to `from_tile`: some
    /// combo (of the swapped ones when `reversed`) puts `option` next to a
    /// class that `from_tile` is or may still become.
    pub fn is_allowed(&self, from_tile: &MapEntry, option: &TileClass, reversed: bool) -> (r: bool)
        requires
            self.wf(),
            from_tile.wf(),
        ensures
            r == combos_allow(
                if reversed {
                    self@.reversed_combos
                } else {
                    self@.combos
                },
                *from_tile,
                *option,
            ),
    {
        let combos = if reversed {
            &self.reversed_combos
        } else {
            &self.combos
        };
        let ghost s = combos@;
        assert(s == if reversed {
            self@.reversed_combos
        } else {
            self@.combos
        });
        let mut index = lower_bound(combos, *option);
        while index < combos.len()
            invariant
                s == combos@,
                s == if reversed {
                    self@.reversed_combos
                } else {
                    self@.combos
                },
                combos_sorted(s),
                from_tile.wf(),
                index <= s.len(),
                forall|j: int| 0 <= j < index ==> !((#[trigger] s[j]).0 == *option && entry_allows(*from_tile, s[j].1)),
                forall|j: int| index <= j < s.len() ==> (#[trigger] s[j]).0.0 >= option.0,
            decreases s.len() - index,
        {
            let combo = combos[index];
            if combo.0.0 != option.0 {
                assert forall|j: int| 0 <= j < s.len() implies !((#[trigger] s[j]).0 == *option && entry_allows(*from_tile, s[j].1)) by {
                    if j > index {
                        assert(combo_le(s[index as int], s[j]));
                    }
                }
                return false;
            }
            if entry_allows_class(from_tile, combo.1) {
                assert(s[index as int].0 == *option && entry_allows(*from_tile, s[index as int].1));
                return true;
            }
            index = index + 1;
        }
        false
    }
}

/// The combos allowed side by side and one above the other.
#[derive(Debug)]
pub struct TileCombos {
    pub horizontal: Combos,
    pub vertical: Combos,
}

/// The combos that decide what may lie in direction `d` of a tile: those of
/// the axis of `d`, swapped when `d` points east or south.
pub open spec fn direction_combos(combos: TileCombos, d: SquareDirection) -> Seq<Combo> {
    match d {
        SquareDirection::East => combos.horizontal@.reversed_combos,
        SquareDirection::West => combos.horizontal@.combos,
        SquareDirection::South => combos.vertical@.reversed_combos,
        _ => combos.vertical@.combos,
    }
}

/// Whether some class that `from` is or may still become pairs with
/// `option` as `pairs` lists them: `(class, option)` when `option_second`,
/// else `(option, class)`.
pub open spec fn listed_next_to(pairs: Seq<Combo>, from: MapEntry, option: TileClass, option_second: bool) -> bool {
    exists|c: TileClass|
        #![trigger entry_allows(from, c)]
        entry_allows(from, c) && if option_second {
            pairs.contains((c, option))
        } else {
            pairs.contains((option, c))
        }
}

/// The lookups by direction read the combos the right way round. With the
/// combos made by [`Combos::new`] from `horizontal` pairs `(a, b)`, where
/// `a` fits to the left of `b`, and `vertical` pairs `(a, b)`, where `a`
/// fits above `b`: a class may lie east of a tile exactly when the tile's
/// class pairs with it as `(class, option)`, and west of it exactly when
/// they pair as `(option, class)`; south and north likewise with the
/// vertical pairs. So east and west, and south and north, are mirror
/// images of each other.
pub proof fn law_directions_read_combos(
    combos: TileCombos,
    horizontal: Seq<Combo>,
    vertical: Seq<Combo>,
    from: MapEntry,
    option: TileClass,
)
    requires
        combos.horizontal@.combos == horizontal.sort_by(combo_order()),
        combos.horizontal@.reversed_combos == horizontal.map_values(|c: Combo| swapped(c)).sort_by(combo_order()),
        combos.vertical@.combos == vertical.sort_by(combo_order()),
        combos.vertical@.reversed_combos == vertical.map_values(|c: Combo| swapped(c)).sort_by(combo_order()),
    ensures
        combos_allow(direction_combos(combos, SquareDirection::East), from, option) == listed_next_to(horizontal, from, option, true),
        combos_allow(direction_combos(combos, SquareDirection::West), from, option) == listed_next_to(horizontal, from, option, false),
        combos_allow(direction_combos(combos, SquareDirection::South), from, option) == listed_next_to(vertical, from, option, true),
        combos_allow(direction_combos(combos, SquareDirection::North), from, option) == listed_next_to(vertical, from, option, false),
        forall|a: TileClass, b: TileClass|
            combos_allow(
                direction_combos(combos, SquareDirection::East),
                MapEntry::Collapsed { class: a, index: 0 },
                b,
            ) == combos_allow(direction_combos(combos, SquareDirection::West), MapEntry::Collapsed { class: b, index: 0 }, a),
        forall|a: TileClass, b: TileClass|
            combos_allow(
                direction_combos(combos, SquareDirection::South),
                MapEntry::Collapsed { class: a, index: 0 },
                b,
            ) == combos_allow(direction_combos(combos, SquareDirection::North), MapEntry::Collapsed { class: b, index: 0 }, a),
{
    lemma_pairs_listed(horizontal, from, option);
    lemma_pairs_listed(vertical, from, option);
    law_lookup_ignores_sorting(horizontal, from, option, true);
    law_lookup_ignores_sorting(horizontal, from, option, false);
    law_lookup_ignores_sorting(vertical, from, option, true);
    law_lookup_ignores_sorting(vertical, from, option, false);
    assert forall|a: TileClass, b: TileClass|
        combos_allow(direction_combos(combos, SquareDirection::East), MapEntry::Collapsed { class: a, index: 0 }, b)
            == combos_allow(direction_combos(combos, SquareDirection::West), MapEntry::Collapsed { class: b, index: 0 }, a) by {
        let ea = MapEntry::Collapsed { class: a, index: 0 };
        let eb = MapEntry::Collapsed { class: b, index: 0 };
        lemma_pairs_listed(horizontal, ea, b);
        lemma_pairs_listed(horizontal, eb, a);
        law_lookup_ignores_sorting(horizontal, ea, b, true);
        law_lookup_ignores_sorting(horizontal, eb, a, false);
        if listed_next_to(horizontal, ea, b, true) {
            assert(entry_allows(eb, b));
        }
        if listed_next_to(horizontal, eb, a, false) {
            assert(entry_allows(ea, a));
        }
    }
    assert forall|a: TileClass, b: TileClass|
        combos_allow(direction_combos(combos, SquareDirection::South), MapEntry::Collapsed { class: a, index: 0 }, b)
            == combos_allow(direction_combos(combos, SquareDirection::North), MapEntry::Collapsed { class: b, index: 0 }, a) by {
        let ea = MapEntry::Collapsed { class: a, index: 0 };
        let eb = MapEntry::Collapsed { class: b, index: 0 };
        lemma_pairs_listed(vertical, ea, b);
        lemma_pairs_listed(vertical, eb, a);
        law_lookup_ignores_sorting(vertical, ea, b, true);
        law_lookup_ignores_sorting(vertical, eb, a, false);
        if listed_next_to(vertical, ea, b, true) {
            assert(entry_allows(eb, b));
        }
        if listed_next_to(vertical, eb, a, false) {
            assert(entry_allows(ea, a));
        }
    }
}

/// [`pairs_allow`] read as membership of the pairs.
proof fn lemma_pairs_listed(pairs: Seq<Combo>, from: MapEntry, option: TileClass)
    ensures
        pairs_allow(pairs, from, option, true) == listed_next_to(pairs, from, option, true),
        pairs_allow(pairs, from, option, false) == listed_next_to(pairs, from, option, false),
{
    if pairs_allow(pairs, from, option, true) {
        let j = choose|j: int| 0 <= j < pairs.len() && (#[trigger] pairs[j]).1 == option && entry_allows(from, pairs[j].0);
        assert(pairs.contains((pairs[j].0, option)));
    }
    if listed_next_to(pairs, from, option, true) {
        let c = choose|c: TileClass| entry_allows(from, c) && pairs.contains((c, option));
        let j = choose|j: int| 0 <= j < pairs.len() && pairs[j] == (c, option);
        assert(pairs[j].1 == option && entry_allows(from, pairs[j].0));
    }
    if pairs_allow(pairs, from, option, false) {
        let j = choose|j: int| 0 <= j < pairs.len() && (#[trigger] pairs[j]).0 == option && entry_allows(from, pairs[j].1);
        assert(pairs.contains((option, pairs[j].1)));
    }
    if listed_next_to(pairs, from, option, false) {
        let c = choose|c: TileClass| entry_allows(from, c) && pairs.contains((option, c));
        let j = choose|j: int| 0 <= j < pairs.len() && pairs[j] == (option, c);
        assert(pairs[j].0 == option && entry_allows(from, pairs[j].1));
    }
}

impl TileCombos {
    /// Both axes are well formed.
    pub open spec fn wf(&self) -> bool {
        self.horizontal.wf() && self.vertical.wf()
    }

    /// Whether a tile of class `option` may lie in direction
    /// `from_direction` of `from_tile`.
    pub fn is_allowed(&self, from_direction: &SquareDirection, from_tile: &MapEntry, option: &TileClass) -> (r: bool)
        requires
            self.wf(),
            from_tile.wf(),
            is_cardinal(*from_direction),
        ensures
            r == combos_allow(direction_combos(*self, *from_direction), *from_tile, *option),
    {
        let combos = match from_direction {
            SquareDirection::East | SquareDirection::West => &self.horizontal,
            _ => &self.vertical,
        };
        let reversed = match from_direction {
            SquareDirection::East | SquareDirection::South => true,
            _ => false,
        };
        combos.is_allowed(from_tile, option, reversed)
    }
}

/// The classes that `from_tile` allows in direction `d` of it.
pub open spec fn allowed_by(combos: TileCombos, d: SquareDirection, from_tile: MapEntry) -> spec_fn(TileClass) -> bool {
    |o: TileClass| combos_allow(direction_combos(combos, d), from_tile, o)
}

/// The options of `options` that `from_tile` allows in direction
/// `from_direction` of it, in their order.
fn allowed_options(
    options: &Vec<TileClass>,
    combos: &TileCombos,
    from_tile: &MapEntry,
    from_direction: SquareDirection,
) -> (r: Vec<TileClass>)
    requires
        combos.wf(),
        from_tile.wf(),
        is_cardinal(from_direction),
        classes_sorted(options@),
    ensures
        r@ == options@.filter(allowed_by(*combos, from_direction, *from_tile)),
        classes_sorted(r@),
        r@.len() <= options@.len(),
        forall|j: int| 0 <= j < r@.len() ==> options@.contains(#[trigger] r@[j]),
        forall|j: int| 0 <= j < r@.len() ==> combos_allow(direction_combos(*combos, from_direction), *from_tile, #[trigger] r@[j]),
        r@.len() == options@.len() ==> forall|k: int| 0 <= k < options@.len() ==> combos_allow(
            direction_combos(*combos, from_direction),
            *from_tile,
            #[trigger] options@[k],
        ),
{
    let ghost pred = allowed_by(*combos, from_direction, *from_tile);
    let ghost s = options@;
    let mut out: Vec<TileClass> = Vec::new();
    let mut i: usize = 0;
    while i < options.len()
        invariant
            s == options@,
            pred == allowed_by(*combos, from_direction, *from_tile),
            combos.wf(),
            from_tile.wf(),
            is_cardinal(from_direction),
            classes_sorted(s),
            i <= s.len(),
            out@ == s.take(i as int).filter(pred),
            classes_sorted(out@),
            out@.len() <= i,
            forall|j: int| 0 <= j < out@.len() ==> s.contains(#[trigger] out@[j]),
            forall|j: int| 0 <= j < out@.len() ==> combos_allow(direction_combos(*combos, from_direction), *from_tile, #[trigger] out@[j]),
            forall|j: int, m: int| 0 <= j < out@.len() && i <= m < s.len() ==> (#[trigger] out@[j]).0 < (#[trigger] s[m]).0,
            out@.len() == i ==> forall|k: int| 0 <= k < i ==> combos_allow(
                direction_combos(*combos, from_direction),
                *from_tile,
                #[trigger] s[k],
            ),
        decreases s.len() - i,
    {
        let o = options[i];
        proof {
            assert(s.take(i + 1) =~= s.take(i as int).push(o));
            s.take(i as int).lemma_filter_push(o, pred);
        }
        if combos.is_allowed(&from_direction, from_tile, &o) {
            out.push(o);
            proof {
                assert(s.contains(o)) by {
                    assert(s[i as int] == o);
                }
                assert forall|j: int, m: int| 0 <= j < out@.len() && i + 1 <= m < s.len() implies (#[trigger] out@[j]).0 < (#[trigger] s[m]).0 by {
                    if j < out@.len() - 1 {
                        assert(out@[j].0 < s[i as int].0);
                    }
                }
            }
        }
        i = i + 1;
    }
    assert(s.take(s.len() as int) =~= s);
    out
}

/// A tile of the tile set: its class and its index in the tile sheet.
#[derive(Clone, Copy, PartialEq, Eq, Structural, Debug)]
pub struct TileOption {
    pub class: TileClass,
    pub index: u32,
}

/// The tile classes of a tile set.
#[derive(Debug)]
pub struct TileClasses {
    pub classes: Vec<TileClassData>,
}

/// One class of tiles: the edge colours they share, and their indices in the
/// tile sheet.
#[derive(Debug)]
pub struct TileClassData {
    pub wang_id: [u8; 8],
    pub tiles: Vec<u32>,
}

/// Everything map generation needs to know of a tile set: which classes may
/// sit next to each other, the classes, and every tile with its class.
#[derive(Debug)]
pub struct TileSet {
    pub combos: TileCombos,
    pub classes: TileClasses,
    pub tiles: Vec<TileOption>,
}

/// Whether some tile of `tiles` has class `class`.
pub open spec fn has_tile_of(tiles: Seq<TileOption>, class: TileClass) -> bool {
    exists|j: int| 0 <= j < tiles.len() && (#[trigger] tiles[j]).class == class
}

/// Whether the options of `e` are classes below `n`.
pub open spec fn entry_within(e: MapEntry, n: int) -> bool {
    match e {
        MapEntry::Superposition { options } => forall|j: int| 0 <= j < options@.len() ==> (#[trigger] options@[j]).0 < n,
        MapEntry::Collapsed { .. } => true,
    }
}

impl TileSet {
    /// The combos are sorted and every class has a tile.
    pub open spec fn wf(&self) -> bool {
        &&& self.combos.wf()
        &&& forall|i: int| 0 <= i < self.classes.classes@.len() ==> #[trigger] has_tile_of(self.tiles@, TileClass(i as usize))
    }
}

/// A random index below `len`, every one as likely as the others.
#[verifier::external_body]
fn uniform_index(len: usize) -> (r: usize)
    requires
        len > 0,
    ensures
        r < len,
{
    Uniform::new(0, len).unwrap().sample(&mut rand::rng())
}

/// The sheet indices of the tiles of class `class`, in the order of `tiles`.
fn tiles_of_class(tiles: &Vec<TileOption>, class: TileClass) -> (r: Vec<u32>)
    ensures
        forall|j: int| 0 <= j < r@.len() ==> tiles@.contains(TileOption { class, index: #[trigger] r@[j] }),
        has_tile_of(tiles@, class) ==> r@.len() > 0,
{
    let mut r: Vec<u32> = Vec::new();
    let mut i: usize = 0;
    while i < tiles.len()
        invariant
            i <= tiles@.len(),
            forall|j: int| 0 <= j < r@.len() ==> tiles@.contains(TileOption { class, index: #[trigger] r@[j] }),
            (exists|j: int| 0 <= j < i && (#[trigger] tiles@[j]).class == class) ==> r@.len() > 0,
        decreases tiles@.len() - i,
    {
        if tiles[i].class.0 == class.0 {
            r.push(tiles[i].index);
            proof {
                assert(tiles@[i as int] == TileOption { class, index: tiles@[i as int].index });
            }
        }
        i = i + 1;
    }
    r
}

impl MapEntry {
    /// A tile that may still take any of `options`.
    pub fn new(options: Vec<TileClass>) -> (r: Self)
        ensures
            r == (MapEntry::Superposition { options }),
    {
        MapEntry::Superposition { options }
    }

    /// Whether the tile has been decided.
    pub fn is_collapsed(&self) -> (r: bool)
        ensures
            r == (*self is Collapsed),
    {
        match self {
            MapEntry::Collapsed { .. } => true,
            MapEntry::Superposition { .. } => false,
        }
    }

    /// Decides the tile: a tile with no options left becomes a tile of class
    /// 0 drawn with tile 0; otherwise it takes the option at `class_pick`
    /// and one of that class's tiles, picked at random. A decided tile stays
    /// as it is.
    pub fn collapse(&mut self, tile_set: &TileSet, class_pick: usize)
        requires
            tile_set.wf(),
            entry_within(*old(self), tile_set.classes.classes@.len() as int),
            match *old(self) {
                MapEntry::Superposition { options } => options@.len() > 0 ==> class_pick < options@.len(),
                MapEntry::Collapsed { .. } => true,
            },
        ensures
            match *old(self) {
                MapEntry::Collapsed { .. } => *final(self) == *old(self),
                MapEntry::Superposition { options } => if options@.len() == 0 {
                    *final(self) == (MapEntry::Collapsed { class: TileClass(0), index: 0 })
                } else {
                    &&& *final(self) matches MapEntry::Collapsed { class, index }
                    &&& class == options@[class_pick as int]
                    &&& tile_set.tiles@.contains(TileOption { class, index })
                },
            },
    {
        let picked = match self {
            MapEntry::Superposition { options } => {
                if options.len() == 0 {
                    Some(MapEntry::Collapsed { class: TileClass(0), index: 0 })
                } else {
                    let class = options[class_pick];
                    assert(options@[class_pick as int].0 < tile_set.classes.classes@.len());
                    assert(has_tile_of(tile_set.tiles@, TileClass((class.0 as int) as usize)));
                    let tiles = tiles_of_class(&tile_set.tiles, class);
                    let index = tiles[uniform_index(tiles.len())];
                    Some(MapEntry::Collapsed { class, index })
                }
            },
            MapEntry::Collapsed { .. } => None,
        };
        match picked {
            Some(e) => {
                *self = e;
            },
            None => {},
        }
    }

    /// Keeps just the options that `from_tile` allows in direction
    /// `from_direction` of it, and tells whether any were dropped.
    pub fn constrain(&mut self, tile_set: &TileSet, from_tile: &MapEntry, from_direction: SquareDirection) -> (r: bool)
        requires
            *old(self) is Superposition,
            old(self).wf(),
            tile_set.combos.wf(),
            from_tile.wf(),
            is_cardinal(from_direction),
        ensures
            final(self).wf(),
            match (*old(self), *final(self)) {
                (MapEntry::Superposition { options: before }, MapEntry::Superposition { options: after }) => {
                    &&& after@ == before@.filter(allowed_by(tile_set.combos, from_direction, *from_tile))
                    &&& r == (after@.len() != before@.len())
                },
                _ => false,
            },
    {
        let kept = match self {
            MapEntry::Superposition { options } => {
                let kept = allowed_options(options, &tile_set.combos, from_tile, from_direction);
                if kept.len() != options.len() {
                    Some(kept)
                } else {
                    None
                }
            },
            MapEntry::Collapsed { .. } => None,
        };
        match kept {
            Some(options) => {
                *self = MapEntry::Superposition { options };
                true
            },
            None => {
                proof {
                    lemma_full_filter(options_of(*self), allowed_by(tile_set.combos, from_direction, *from_tile));
                }
                false
            },
        }
    }
}

/// A filter that keeps as many items as it was given keeps them all.
proof fn lemma_full_filter(s: Seq<TileClass>, pred: spec_fn(TileClass) -> bool)
    requires
        s.filter(pred).len() == s.len(),
    ensures
        s.filter(pred) == s,
    decreases s.len(),
{
    reveal(Seq::filter);
    if s.len() > 0 {
        s.drop_last().lemma_filter_len(pred);
        if !pred(s.last()) {
            assert(false);
        }
        lemma_full_filter(s.drop_last(), pred);
        assert(s =~= s.drop_last().push(s.last()));
    }
}

/// The place of the tile at `p` in a row-by-row listing of a map of size
/// `size`.
pub open spec fn tile_index(p: TilePos, size: TilemapSize) -> int {
    p.y * size.x + p.x
}

/// What the map holds at `p`.
pub open spec fn entry_at(grid: Seq<MapEntry>, size: TilemapSize, p: TilePos) -> MapEntry {
    grid[tile_index(p, size)]
}

/// Whether every option of the tile in direction `d` of `p`, if it is on
/// the map, is allowed next to what `p` is or may still become.
pub open spec fn arc_ok(combos: TileCombos, grid: Seq<MapEntry>, size: TilemapSize, p: TilePos, d: SquareDirection) -> bool {
    match offset_of(p, d, size) {
        Some(q) => forall|k: int|
            0 <= k < options_of(entry_at(grid, size, q)).len() ==> combos_allow(
                direction_combos(combos, d),
                entry_at(grid, size, p),
                #[trigger] options_of(entry_at(grid, size, q))[k],
            ),
        None => true,
    }
}

/// Whether the map is consistent apart from the tiles of `pending`: for
/// every other tile, every option of each side neighbour is allowed next to
/// it.
pub open spec fn consistent_except(combos: TileCombos, grid: Seq<MapEntry>, size: TilemapSize, pending: Seq<TilePos>) -> bool {
    forall|p: TilePos, d: SquareDirection|
        on_map(p.x as int, p.y as int, size) && is_cardinal(d) && !pending.contains(p) ==> #[trigger] arc_ok(
            combos,
            grid,
            size,
            p,
            d,
        )
}

/// Whether `after` is `before` or a narrowing of it: a decided tile stays as
/// it is, and an undecided one keeps some of its options.
pub open spec fn narrowed(before: MapEntry, after: MapEntry) -> bool {
    match before {
        MapEntry::Collapsed { .. } => after == before,
        MapEntry::Superposition { .. } => {
            &&& after is Superposition
            &&& forall|k: int| 0 <= k < options_of(after).len() ==> options_of(before).contains(#[trigger] options_of(after)[k])
        },
    }
}

/// The number of options left over all the tiles of `grid`.
pub open spec fn total_options(grid: Seq<MapEntry>) -> nat
    decreases grid.len(),
{
    if grid.len() == 0 {
        0
    } else {
        total_options(grid.drop_last()) + options_of(grid.last()).len()
    }
}

/// Replacing one tile changes the total by the change of that tile.
proof fn lemma_total_update(grid: Seq<MapEntry>, i: int, e: MapEntry)
    requires
        0 <= i < grid.len(),
    ensures
        total_options(grid.update(i, e)) == total_options(grid) - options_of(grid[i]).len() + options_of(e).len(),
    decreases grid.len(),
{
    if i < grid.len() - 1 {
        assert(grid.update(i, e).drop_last() =~= grid.drop_last().update(i, e));
        lemma_total_update(grid.drop_last(), i, e);
    } else {
        assert(grid.update(i, e).drop_last() =~= grid.drop_last());
    }
}

/// Tiles on the map have different places in the listing, all below the
/// number of tiles.
proof fn lemma_tile_index(p: TilePos, q: TilePos, size: TilemapSize)
    requires
        on_map(p.x as int, p.y as int, size),
        on_map(q.x as int, q.y as int, size),
    ensures
        0 <= tile_index(p, size) < size.x * size.y,
        tile_index(p, size) == tile_index(q, size) ==> p == q,
{
    let (px, py, qx, qy, sx, sy) = (p.x as int, p.y as int, q.x as int, q.y as int, size.x as int, size.y as int);
    assert(0 <= py * sx + px < sx * sy) by (nonlinear_arith)
        requires
            0 <= px < sx,
            0 <= py < sy,
    ;
    assert(py * sx + px == qy * sx + qx ==> py == qy && px == qx) by (nonlinear_arith)
        requires
            0 <= px < sx,
            0 <= qx < sx,
            0 <= py,
            0 <= qy,
    {
        if py < qy {
            assert(py * sx + sx <= qy * sx);
        } else if qy < py {
            assert(qy * sx + sx <= py * sx);
        }
    }
}

/// Replacing the tile at `q` by one whose options are among its options
/// keeps every check from a tile other than `q` that held before.
proof fn lemma_narrow_keeps_arcs(
    combos: TileCombos,
    grid: Seq<MapEntry>,
    size: TilemapSize,
    q: TilePos,
    e: MapEntry,
    p: TilePos,
    d: SquareDirection,
)
    requires
        grid.len() == size.x * size.y,
        on_map(q.x as int, q.y as int, size),
        on_map(p.x as int, p.y as int, size),
        p != q,
        forall|k: int| 0 <= k < options_of(e).len() ==> options_of(entry_at(grid, size, q)).contains(#[trigger] options_of(e)[k]),
        arc_ok(combos, grid, size, p, d),
    ensures
        arc_ok(combos, grid.update(tile_index(q, size), e), size, p, d),
{
    let g2 = grid.update(tile_index(q, size), e);
    lemma_tile_index(p, q, size);
    lemma_tile_index(q, p, size);
    assert(entry_at(g2, size, p) == entry_at(grid, size, p));
    match offset_of(p, d, size) {
        Some(r) => {
            lemma_tile_index(r, q, size);
            lemma_tile_index(q, r, size);
            if r == q {
                assert forall|k: int| 0 <= k < options_of(entry_at(g2, size, r)).len() implies combos_allow(
                    direction_combos(combos, d),
                    entry_at(g2, size, p),
                    #[trigger] options_of(entry_at(g2, size, r))[k],
                ) by {
                    let o = options_of(entry_at(g2, size, r))[k];
                    assert(options_of(entry_at(grid, size, q)).contains(o));
                    let k2 = choose|k2: int| 0 <= k2 < options_of(entry_at(grid, size, q)).len() && options_of(entry_at(grid, size, q))[k2] == o;
                    assert(combos_allow(direction_combos(combos, d), entry_at(grid, size, p), options_of(entry_at(grid, size, q))[k2]));
                }
            } else {
                assert(entry_at(g2, size, r) == entry_at(grid, size, r));
            }
        },
        None => {},
    }
}

/// One step of propagation either leaves the map and the work list as they
/// are, or narrows one tile and adds it to the work list; every check that
/// held for a tile other than the added one still holds.
proof fn lemma_step_keeps_arcs(
    combos: TileCombos,
    g0: Seq<MapEntry>,
    g1: Seq<MapEntry>,
    size: TilemapSize,
    rem0: Seq<TilePos>,
    rem1: Seq<TilePos>,
)
    requires
        g0.len() == size.x * size.y,
        (rem1 == rem0 && g1 == g0) || ({
            let q = rem1.last();
            &&& rem1 == rem0.push(q)
            &&& on_map(q.x as int, q.y as int, size)
            &&& g1 == g0.update(tile_index(q, size), entry_at(g1, size, q))
            &&& narrowed(entry_at(g0, size, q), entry_at(g1, size, q))
        }),
    ensures
        forall|p: TilePos, d: SquareDirection|
            on_map(p.x as int, p.y as int, size) && (rem1 == rem0 || p != rem1.last()) && #[trigger] arc_ok(combos, g0, size, p, d)
                ==> arc_ok(combos, g1, size, p, d),
{
    if !(rem1 == rem0 && g1 == g0) {
        let q = rem1.last();
        assert forall|p: TilePos, d: SquareDirection|
            on_map(p.x as int, p.y as int, size) && (rem1 == rem0 || p != rem1.last()) && #[trigger] arc_ok(combos, g0, size, p, d)
                implies arc_ok(combos, g1, size, p, d) by {
            lemma_narrow_keeps_arcs(combos, g0, size, q, entry_at(g1, size, q), p, d);
        }
    }
}

/// One narrowing step of propagation from `p` towards direction `d`: the
/// check from `p` in direction `d` holds afterwards, and either nothing
/// changed, or the neighbour lost options and joined the work list.
pub open spec fn neighbor_step(
    combos: TileCombos,
    g0: Seq<MapEntry>,
    g1: Seq<MapEntry>,
    size: TilemapSize,
    rem0: Seq<TilePos>,
    rem1: Seq<TilePos>,
    p: TilePos,
    d: SquareDirection,
) -> bool {
    &&& arc_ok(combos, g1, size, p, d)
    &&& rem1 == rem0 ==> g1 == g0
    &&& rem1 != rem0 ==> {
        let q = rem1.last();
        &&& rem1 == rem0.push(q)
        &&& on_map(q.x as int, q.y as int, size)
        &&& q != p
        &&& offset_of(p, d, size) == Some(q)
        &&& g1 == g0.update(tile_index(q, size), entry_at(g1, size, q))
        &&& narrowed(entry_at(g0, size, q), entry_at(g1, size, q))
        &&& options_of(entry_at(g1, size, q)).len() < options_of(entry_at(g0, size, q)).len()
        &&& forall|o: TileClass|
            #[trigger] options_of(entry_at(g0, size, q)).contains(o) && !options_of(entry_at(g1, size, q)).contains(o)
                ==> !combos_allow(direction_combos(combos, d), entry_at(g0, size, p), o)
    }
}

/// Whether option `o` of the tile at `q` is ruled out by a side neighbour:
/// some tile `p` whose neighbour in direction `d` is `q`, and which allows
/// `o` there by no combo.
pub open spec fn unsupported(combos: TileCombos, grid: Seq<MapEntry>, size: TilemapSize, q: TilePos, o: TileClass) -> bool {
    exists|p: TilePos, d: SquareDirection|
        on_map(p.x as int, p.y as int, size) && is_cardinal(d) && #[trigger] offset_of(p, d, size) == Some(q)
            && !combos_allow(direction_combos(combos, d), #[trigger] entry_at(grid, size, p), o)
}

/// Every option that a tile had in `g_start` and lacks in `g` is ruled out
/// in `g` by a side neighbour.
pub open spec fn removals_justified(combos: TileCombos, g_start: Seq<MapEntry>, g: Seq<MapEntry>, size: TilemapSize) -> bool {
    forall|q: TilePos, o: TileClass|
        on_map(q.x as int, q.y as int, size) && options_of(entry_at(g_start, size, q)).contains(o)
            && !options_of(entry_at(g, size, q)).contains(o) ==> #[trigger] unsupported(combos, g, size, q, o)
}

/// A narrower tile allows no class that the wider one did not.
proof fn lemma_allow_narrowed(combos: Seq<Combo>, big: MapEntry, small: MapEntry, o: TileClass)
    requires
        narrowed(big, small),
        combos_allow(combos, small, o),
    ensures
        combos_allow(combos, big, o),
{
    let j = choose|j: int| 0 <= j < combos.len() && (#[trigger] combos[j]).0 == o && entry_allows(small, combos[j].1);
    let c = combos[j].1;
    if big is Superposition {
        let k = choose|k: int| 0 <= k < options_of(small).len() && options_of(small)[k] == c;
        assert(options_of(big).contains(options_of(small)[k]));
    }
    assert(entry_allows(big, combos[j].1));
}

/// A narrowing step keeps [`removals_justified`].
proof fn lemma_step_justified(
    combos: TileCombos,
    g_start: Seq<MapEntry>,
    g0: Seq<MapEntry>,
    g1: Seq<MapEntry>,
    size: TilemapSize,
    rem0: Seq<TilePos>,
    rem1: Seq<TilePos>,
    p: TilePos,
    d: SquareDirection,
)
    requires
        g0.len() == size.x * size.y,
        on_map(p.x as int, p.y as int, size),
        is_cardinal(d),
        removals_justified(combos, g_start, g0, size),
        neighbor_step(combos, g0, g1, size, rem0, rem1, p, d),
    ensures
        removals_justified(combos, g_start, g1, size),
{
    if rem1 != rem0 {
        let q = rem1.last();
        let qi = tile_index(q, size);
        lemma_tile_index(q, q, size);
        assert(g1 == g0.update(qi, entry_at(g1, size, q)));
        assert forall|x: TilePos| on_map(x.x as int, x.y as int, size) && x != q implies #[trigger] entry_at(g1, size, x) == entry_at(g0, size, x) by {
            lemma_tile_index(x, q, size);
            assert(tile_index(x, size) != qi);
        }
        assert forall|x: TilePos, o: TileClass|
            on_map(x.x as int, x.y as int, size) && options_of(entry_at(g_start, size, x)).contains(o)
                && !options_of(entry_at(g1, size, x)).contains(o) implies #[trigger] unsupported(combos, g1, size, x, o) by {
            if options_of(entry_at(g0, size, x)).contains(o) {
                assert(x == q);
                lemma_tile_index(p, q, size);
                assert(entry_at(g1, size, p) == entry_at(g0, size, p));
                assert(offset_of(p, d, size) == Some(x));
            } else {
                assert(unsupported(combos, g0, size, x, o));
                let (p2, d2) = choose|p2: TilePos, d2: SquareDirection|
                    on_map(p2.x as int, p2.y as int, size) && is_cardinal(d2) && #[trigger] offset_of(p2, d2, size) == Some(x)
                        && !combos_allow(direction_combos(combos, d2), #[trigger] entry_at(g0, size, p2), o);
                lemma_tile_index(p2, q, size);
                if p2 == q {
                    if combos_allow(direction_combos(combos, d2), entry_at(g1, size, p2), o) {
                        lemma_allow_narrowed(direction_combos(combos, d2), entry_at(g0, size, p2), entry_at(g1, size, p2), o);
                    }
                } else {
                    assert(entry_at(g1, size, p2) == entry_at(g0, size, p2));
                }
                assert(offset_of(p2, d2, size) == Some(x));
            }
        }
    }
}

/// Whether every tile of `h` is a narrowing of the same tile of `g`.
pub open spec fn narrows(g: Seq<MapEntry>, h: Seq<MapEntry>) -> bool {
    &&& h.len() == g.len()
    &&& forall|i: int| 0 <= i < g.len() ==> narrowed(#[trigger] g[i], h[i])
}

/// A narrowing step removes no option that a consistent narrowing `h` of
/// the map keeps: `h` narrows the map after the step too.
proof fn lemma_step_keeps_narrowings(
    combos: TileCombos,
    g0: Seq<MapEntry>,
    g1: Seq<MapEntry>,
    size: TilemapSize,
    rem0: Seq<TilePos>,
    rem1: Seq<TilePos>,
    p: TilePos,
    d: SquareDirection,
    h: Seq<MapEntry>,
)
    requires
        g0.len() == size.x * size.y,
        on_map(p.x as int, p.y as int, size),
        is_cardinal(d),
        neighbor_step(combos, g0, g1, size, rem0, rem1, p, d),
        narrows(g0, h),
        consistent_except(combos, h, size, Seq::empty()),
    ensures
        narrows(g1, h),
{
    if rem1 != rem0 {
        let q = rem1.last();
        let qi = tile_index(q, size);
        let pi = tile_index(p, size);
        lemma_tile_index(q, q, size);
        lemma_tile_index(p, q, size);
        assert(g1 == g0.update(qi, entry_at(g1, size, q)));
        assert(g0[qi] is Superposition);
        assert(narrowed(g0[pi], h[pi]));
        assert(arc_ok(combos, h, size, p, d));
        assert forall|k: int| 0 <= k < options_of(h[qi]).len() implies options_of(g1[qi]).contains(#[trigger] options_of(h[qi])[k]) by {
            let o = options_of(h[qi])[k];
            assert(narrowed(g0[qi], h[qi]));
            assert(options_of(entry_at(g0, size, q)).contains(o));
            assert(combos_allow(direction_combos(combos, d), entry_at(h, size, p), options_of(entry_at(h, size, q))[k]));
            lemma_allow_narrowed(direction_combos(combos, d), g0[pi], h[pi], o);
        }
        assert forall|i: int| 0 <= i < g1.len() implies narrowed(#[trigger] g1[i], h[i]) by {
            if i != qi {
                assert(g1[i] == g0[i]);
            } else {
                assert(narrowed(g0[qi], h[qi]));
            }
        }
    }
}

/// `ch1` grows along with `rem1`: by the same tile, or not at all.
pub open spec fn follows(rem0: Seq<TilePos>, rem1: Seq<TilePos>, ch0: Seq<TilePos>, ch1: Seq<TilePos>) -> bool {
    &&& rem1 == rem0 ==> ch1 == ch0
    &&& rem1 != rem0 ==> ch1 == ch0.push(rem1.last())
}

/// Since `g_start`, every tile of `g` was narrowed, and `ch` lists exactly
/// the tiles that lost options.
pub open spec fn tracked_changes(g_start: Seq<MapEntry>, g: Seq<MapEntry>, size: TilemapSize, ch: Seq<TilePos>) -> bool {
    &&& g.len() == g_start.len()
    &&& forall|i: int| 0 <= i < g_start.len() ==> narrowed(#[trigger] g_start[i], g[i])
    &&& forall|i: int| 0 <= i < g_start.len() ==> options_of(#[trigger] g[i]).len() <= options_of(g_start[i]).len()
    &&& forall|j: int| 0 <= j < ch.len() ==> on_map((#[trigger] ch[j]).x as int, ch[j].y as int, size)
        && options_of(entry_at(g, size, ch[j])).len() < options_of(entry_at(g_start, size, ch[j])).len()
    &&& forall|p: TilePos| on_map(p.x as int, p.y as int, size)
        && options_of(#[trigger] entry_at(g, size, p)).len() < options_of(entry_at(g_start, size, p)).len()
        ==> ch.contains(p)
}

/// A narrowing step keeps [`tracked_changes`], and lowers the total of
/// options by at least the number of tiles it adds to the work list.
proof fn lemma_step_tracks(
    combos: TileCombos,
    g_start: Seq<MapEntry>,
    g0: Seq<MapEntry>,
    g1: Seq<MapEntry>,
    size: TilemapSize,
    rem0: Seq<TilePos>,
    rem1: Seq<TilePos>,
    ch0: Seq<TilePos>,
    ch1: Seq<TilePos>,
    p: TilePos,
    d: SquareDirection,
)
    requires
        g_start.len() == size.x * size.y,
        tracked_changes(g_start, g0, size, ch0),
        neighbor_step(combos, g0, g1, size, rem0, rem1, p, d),
        follows(rem0, rem1, ch0, ch1),
    ensures
        tracked_changes(g_start, g1, size, ch1),
        rem1.len() == rem0.len() ==> total_options(g1) == total_options(g0),
        rem1.len() != rem0.len() ==> rem1.len() == rem0.len() + 1 && total_options(g1) < total_options(g0),
{
    if rem1 != rem0 {
        let q = rem1.last();
        let qi = tile_index(q, size);
        lemma_tile_index(q, q, size);
        lemma_total_update(g0, qi, entry_at(g1, size, q));
        assert(g0[qi] is Superposition);
        assert forall|i: int| 0 <= i < g_start.len() implies narrowed(#[trigger] g_start[i], g1[i]) by {
            if i == qi {
                assert(narrowed(g_start[i], g0[i]));
                assert forall|k: int| 0 <= k < options_of(g1[i]).len() implies options_of(g_start[i]).contains(#[trigger] options_of(g1[i])[k]) by {
                    let o = options_of(g1[i])[k];
                    assert(options_of(g0[i]).contains(o));
                    let k2 = choose|k2: int| 0 <= k2 < options_of(g0[i]).len() && options_of(g0[i])[k2] == o;
                    assert(options_of(g_start[i]).contains(options_of(g0[i])[k2]));
                }
            } else {
                assert(g1[i] == g0[i]);
            }
        }
        assert forall|i: int| 0 <= i < g_start.len() implies options_of(#[trigger] g1[i]).len() <= options_of(g_start[i]).len() by {
            if i != qi {
                assert(g1[i] == g0[i]);
            } else {
                assert(options_of(g0[i]).len() <= options_of(g_start[i]).len());
            }
        }
        assert forall|j: int| 0 <= j < ch1.len() implies on_map((#[trigger] ch1[j]).x as int, ch1[j].y as int, size)
            && options_of(entry_at(g1, size, ch1[j])).len() < options_of(entry_at(g_start, size, ch1[j])).len() by {
            if j < ch0.len() {
                assert(ch1[j] == ch0[j]);
                let x = ch0[j];
                lemma_tile_index(x, q, size);
                assert(options_of(entry_at(g0, size, x)).len() < options_of(entry_at(g_start, size, x)).len());
                if x != q {
                    assert(entry_at(g1, size, x) == entry_at(g0, size, x));
                }
            } else {
                assert(ch1[j] == q);
                assert(options_of(g0[qi]).len() <= options_of(g_start[qi]).len());
            }
        }
        assert forall|x: TilePos| on_map(x.x as int, x.y as int, size)
            && options_of(#[trigger] entry_at(g1, size, x)).len() < options_of(entry_at(g_start, size, x)).len()
            implies ch1.contains(x) by {
            lemma_tile_index(x, q, size);
            if x == q {
                assert(ch1[ch1.len() - 1] == q);
            } else {
                assert(entry_at(g1, size, x) == entry_at(g0, size, x));
                assert(ch0.contains(x));
                let j = choose|j: int| 0 <= j < ch0.len() && ch0[j] == x;
                assert(ch1[j] == x);
            }
        }
    }
}

/// After the four steps from `p`, the map is consistent apart from the
/// work list.
proof fn lemma_round_arcs(
    combos: TileCombos,
    g0: Seq<MapEntry>,
    g1: Seq<MapEntry>,
    g2: Seq<MapEntry>,
    g3: Seq<MapEntry>,
    g4: Seq<MapEntry>,
    size: TilemapSize,
    rem_start: Seq<TilePos>,
    rem0: Seq<TilePos>,
    rem1: Seq<TilePos>,
    rem2: Seq<TilePos>,
    rem3: Seq<TilePos>,
    rem4: Seq<TilePos>,
    p: TilePos,
)
    requires
        g0.len() == size.x * size.y,
        g1.len() == g0.len(),
        g2.len() == g0.len(),
        g3.len() == g0.len(),
        on_map(p.x as int, p.y as int, size),
        rem_start == rem0.push(p),
        consistent_except(combos, g0, size, rem_start),
        neighbor_step(combos, g0, g1, size, rem0, rem1, p, SquareDirection::East),
        neighbor_step(combos, g1, g2, size, rem1, rem2, p, SquareDirection::North),
        neighbor_step(combos, g2, g3, size, rem2, rem3, p, SquareDirection::West),
        neighbor_step(combos, g3, g4, size, rem3, rem4, p, SquareDirection::South),
    ensures
        consistent_except(combos, g4, size, rem4),
{
    lemma_step_keeps_arcs(combos, g0, g1, size, rem0, rem1);
    lemma_step_keeps_arcs(combos, g1, g2, size, rem1, rem2);
    lemma_step_keeps_arcs(combos, g2, g3, size, rem2, rem3);
    lemma_step_keeps_arcs(combos, g3, g4, size, rem3, rem4);
    assert forall|x: TilePos, d: SquareDirection|
        on_map(x.x as int, x.y as int, size) && is_cardinal(d) && !rem4.contains(x) implies #[trigger] arc_ok(
            combos,
            g4,
            size,
            x,
            d,
        ) by {
        // A tile outside the final work list was never added to it.
        assert(rem1 == rem0 || x != rem1.last()) by {
            if rem1 != rem0 {
                assert(rem4.contains(rem1.last())) by {
                    assert(rem1[rem1.len() - 1] == rem1.last());
                    assert(rem4[rem1.len() - 1] == rem1.last()) by {
                        if rem2 != rem1 { assert(rem2[rem1.len() - 1] == rem1[rem1.len() - 1]); }
                        if rem3 != rem2 { assert(rem3[rem1.len() - 1] == rem2[rem1.len() - 1]); }
                        if rem4 != rem3 { assert(rem4[rem1.len() - 1] == rem3[rem1.len() - 1]); }
                    }
                }
            }
        }
        assert(rem2 == rem1 || x != rem2.last()) by {
            if rem2 != rem1 {
                assert(rem4[rem2.len() - 1] == rem2.last()) by {
                    if rem3 != rem2 { assert(rem3[rem2.len() - 1] == rem2[rem2.len() - 1]); }
                    if rem4 != rem3 { assert(rem4[rem2.len() - 1] == rem3[rem2.len() - 1]); }
                }
            }
        }
        assert(rem3 == rem2 || x != rem3.last()) by {
            if rem3 != rem2 {
                assert(rem4[rem3.len() - 1] == rem3.last()) by {
                    if rem4 != rem3 { assert(rem4[rem3.len() - 1] == rem3[rem3.len() - 1]); }
                }
            }
        }
        assert(rem4 == rem3 || x != rem4.last()) by {
            if rem4 != rem3 {
                assert(rem4[rem4.len() - 1] == rem4.last());
            }
        }
        if x == p {
            if d == SquareDirection::East {
                assert(arc_ok(combos, g1, size, x, d));
            } else if d == SquareDirection::North {
                assert(arc_ok(combos, g2, size, x, d));
            } else if d == SquareDirection::West {
                assert(arc_ok(combos, g3, size, x, d));
            }
        } else {
            assert(!rem0.contains(x)) by {
                if rem0.contains(x) {
                    let j = choose|j: int| 0 <= j < rem0.len() && rem0[j] == x;
                    assert(rem4[j] == x) by {
                        if rem1 != rem0 { assert(rem1[j] == rem0[j]); }
                        if rem2 != rem1 { assert(rem2[j] == rem1[j]); }
                        if rem3 != rem2 { assert(rem3[j] == rem2[j]); }
                        if rem4 != rem3 { assert(rem4[j] == rem3[j]); }
                    }
                }
            }
            assert(!rem_start.contains(x)) by {
                if rem_start.contains(x) {
                    let j = choose|j: int| 0 <= j < rem_start.len() && rem_start[j] == x;
                    if j < rem0.len() {
                        assert(rem0[j] == x);
                    }
                }
            }
            assert(arc_ok(combos, g0, size, x, d));
        }
    }
}

/// Deciding a tile of a map that is consistent apart from the tiles of
/// `pending` leaves it consistent apart from those tiles and the decided one.
pub proof fn law_collapse_keeps_consistency(
    combos: TileCombos,
    grid: Seq<MapEntry>,
    size: TilemapSize,
    pending: Seq<TilePos>,
    t: TilePos,
    e: MapEntry,
)
    requires
        grid.len() == size.x * size.y,
        on_map(t.x as int, t.y as int, size),
        e is Collapsed,
        consistent_except(combos, grid, size, pending),
    ensures
        consistent_except(combos, grid.update(tile_index(t, size), e), size, pending.push(t)),
{
    let g = grid.update(tile_index(t, size), e);
    assert forall|p: TilePos, d: SquareDirection|
        on_map(p.x as int, p.y as int, size) && is_cardinal(d) && !pending.push(t).contains(p) implies #[trigger] arc_ok(
            combos,
            g,
            size,
            p,
            d,
        ) by {
        assert(p != t) by {
            assert(pending.push(t)[pending.len() as int] == t);
        }
        assert(!pending.contains(p)) by {
            if pending.contains(p) {
                let j = choose|j: int| 0 <= j < pending.len() && pending[j] == p;
                assert(pending.push(t)[j] == p);
            }
        }
        lemma_narrow_keeps_arcs(combos, grid, size, t, e, p, d);
    }
}

/// What a [`Generator`] holds.
pub struct GeneratorModel {
    pub size: TilemapSize,
    pub tile_set: TileSet,
    pub grid: Seq<MapEntry>,
}

/// A map being generated: one entry per tile, row by row.
#[derive(Debug)]
pub struct Generator {
    size: TilemapSize,
    tile_set: TileSet,
    grid: Vec<MapEntry>,
}

impl View for Generator {
    type V = GeneratorModel;

    closed spec fn view(&self) -> GeneratorModel {
        GeneratorModel { size: self.size, tile_set: self.tile_set, grid: self.grid@ }
    }
}

/// The classes `0 .. n`, in order.
pub open spec fn all_classes(n: nat) -> Seq<TileClass> {
    Seq::new(n, |i: int| TileClass(i as usize))
}

impl TileClasses {
    /// The number of classes.
    pub fn len(&self) -> (r: usize)
        ensures
            r == self.classes@.len(),
    {
        self.classes.len()
    }

    /// Every class, in order: the options of a tile nothing is known of.
    pub fn get_tile_classes_options(&self) -> (r: Vec<TileClass>)
        ensures
            r@ == all_classes(self.classes@.len()),
            self.classes@.len() <= usize::MAX,
    {
        let mut r: Vec<TileClass> = Vec::new();
        let mut i: usize = 0;
        while i < self.classes.len()
            invariant
                i <= self.classes@.len(),
                r@ == all_classes(i as nat),
            decreases self.classes@.len() - i,
        {
            r.push(TileClass(i));
            i = i + 1;
            assert(r@ =~= all_classes(i as nat));
        }
        r
    }
}

/// An undecided tile that may take any of `n` classes is well formed.
proof fn lemma_fresh_entry(e: MapEntry, n: nat)
    requires
        n <= usize::MAX,
        e is Superposition,
        options_of(e) == all_classes(n),
    ensures
        e.wf(),
        entry_within(e, n as int),
{
    let s = options_of(e);
    assert forall|a: int, b: int| 0 <= a < b < s.len() implies (#[trigger] s[a]).0 < (#[trigger] s[b]).0 by {
        assert(s[a] == TileClass(a as usize));
        assert(s[b] == TileClass(b as usize));
    }
    assert forall|j: int| 0 <= j < s.len() implies (#[trigger] s[j]).0 < n by {
        assert(s[j] == TileClass(j as usize));
    }
}

/// A fresh map of `n` undecided tiles that may each take any of `classes`.
fn fresh_grid(n: usize, classes: &TileClasses) -> (r: Vec<MapEntry>)
    ensures
        r@.len() == n,
        classes.classes@.len() <= usize::MAX,
        forall|i: int| 0 <= i < n ==> (#[trigger] r@[i]) is Superposition && options_of(r@[i]) == all_classes(classes.classes@.len()),
{
    let all = classes.get_tile_classes_options();
    let mut grid: Vec<MapEntry> = Vec::new();
    let mut i: usize = 0;
    while i < n
        invariant
            i <= n,
            grid@.len() == i,
            all@ == all_classes(classes.classes@.len()),
            forall|j: int| 0 <= j < i ==> (#[trigger] grid@[j]) is Superposition && options_of(grid@[j]) == all_classes(classes.classes@.len()),
        decreases n - i,
    {
        let options = all.clone();
        assert(options@ =~= all@);
        grid.push(MapEntry::new(options));
        i = i + 1;
    }
    grid
}

impl Generator {
    /// The map has one well-formed entry per tile, with options among the
    /// tile set's classes.
    pub open spec fn wf(&self) -> bool {
        &&& self@.tile_set.wf()
        &&& self@.size.x * self@.size.y <= usize::MAX
        &&& self@.grid.len() == self@.size.x * self@.size.y
        &&& forall|i: int| 0 <= i < self@.grid.len() ==> (#[trigger] self@.grid[i]).wf()
        &&& forall|i: int| 0 <= i < self@.grid.len() ==> entry_within(#[trigger] self@.grid[i], self@.tile_set.classes.classes@.len() as int)
    }

    /// A map of size `size` whose tiles may each take any class of
    /// `tile_set`.
    pub fn new(size: &TilemapSize, tile_set: TileSet) -> (r: Self)
        requires
            tile_set.wf(),
            size.x * size.y <= usize::MAX,
        ensures
            r.wf(),
            r@.size == *size,
            r@.tile_set == tile_set,
            forall|i: int| 0 <= i < r@.grid.len() ==> (#[trigger] r@.grid[i]) is Superposition
                && options_of(r@.grid[i]) == all_classes(tile_set.classes.classes@.len()),
    {
        let n = (size.x as usize) * (size.y as usize);
        let grid = fresh_grid(n, &tile_set.classes);
        let r = Generator { size: *size, tile_set, grid };
        proof {
            assert forall|i: int| 0 <= i < r@.grid.len() implies entry_within(#[trigger] r@.grid[i], r@.tile_set.classes.classes@.len() as int) && r@.grid[i].wf() by {
                lemma_fresh_entry(r@.grid[i], r@.tile_set.classes.classes@.len());
            }
        }
        r
    }

    /// Makes every tile undecided again, able to take any class.
    pub fn reset(&mut self)
        requires
            old(self).wf(),
        ensures
            final(self).wf(),
            final(self)@.size == old(self)@.size,
            final(self)@.tile_set == old(self)@.tile_set,
            forall|i: int| 0 <= i < final(self)@.grid.len() ==> (#[trigger] final(self)@.grid[i]) is Superposition
                && options_of(final(self)@.grid[i]) == all_classes(old(self)@.tile_set.classes.classes@.len()),
    {
        let n = self.grid.len();
        self.grid = fresh_grid(n, &self.tile_set.classes);
        proof {
            assert forall|i: int| 0 <= i < self@.grid.len() implies entry_within(#[trigger] self@.grid[i], self@.tile_set.classes.classes@.len() as int) && self@.grid[i].wf() by {
                lemma_fresh_entry(self@.grid[i], self@.tile_set.classes.classes@.len());
            }
        }
    }

    /// The entries of the map, row by row.
    pub fn grid(&self) -> (r: &Vec<MapEntry>)
        ensures
            r@ == self@.grid,
    {
        &self.grid
    }

    /// The size of the map.
    pub fn size(&self) -> (r: TilemapSize)
        ensures
            r == self@.size,
    {
        self.size
    }

    /// Whether every tile has been decided.
    pub fn is_done(&self) -> (r: bool)
        ensures
            r == forall|i: int| 0 <= i < self@.grid.len() ==> (#[trigger] self@.grid[i]) is Collapsed,
    {
        let mut i: usize = 0;
        while i < self.grid.len()
            invariant
                i <= self@.grid.len(),
                forall|j: int| 0 <= j < i ==> (#[trigger] self@.grid[j]) is Collapsed,
            decreases self@.grid.len() - i,
        {
            if !self.grid[i].is_collapsed() {
                return false;
            }
            i = i + 1;
        }
        true
    }

    /// The tile at place `index` of the row-by-row listing.
    pub fn index_to_pos(&self, index: usize) -> (r: TilePos)
        requires
            index <= u32::MAX,
            self@.size.x > 0,
        ensures
            r.x == (index as int) % (self@.size.x as int),
            r.y == (index as int) / (self@.size.x as int),
    {
        let index = index as u32;
        TilePos { x: index % self.size.x, y: index / self.size.x }
    }

    /// Decides the tile at `tile`, as [`MapEntry::collapse`] does with
    /// `class_pick`.
    pub fn collapse(&mut self, tile: TilePos, class_pick: usize)
        requires
            old(self).wf(),
            on_map(tile.x as int, tile.y as int, old(self)@.size),
            options_of(entry_at(old(self)@.grid, old(self)@.size, tile)).len() > 0 ==> class_pick < options_of(
                entry_at(old(self)@.grid, old(self)@.size, tile),
            ).len(),
        ensures
            final(self).wf(),
            final(self)@.size == old(self)@.size,
            final(self)@.tile_set == old(self)@.tile_set,
            final(self)@.grid == old(self)@.grid.update(
                tile_index(tile, old(self)@.size),
                entry_at(final(self)@.grid, old(self)@.size, tile),
            ),
            match entry_at(old(self)@.grid, old(self)@.size, tile) {
                MapEntry::Collapsed { .. } => entry_at(final(self)@.grid, old(self)@.size, tile) == entry_at(
                    old(self)@.grid,
                    old(self)@.size,
                    tile,
                ),
                MapEntry::Superposition { options } => if options@.len() == 0 {
                    entry_at(final(self)@.grid, old(self)@.size, tile) == (MapEntry::Collapsed { class: TileClass(0), index: 0 })
                } else {
                    &&& entry_at(final(self)@.grid, old(self)@.size, tile) matches MapEntry::Collapsed { class, index }
                    &&& class == options@[class_pick as int]
                    &&& old(self)@.tile_set.tiles@.contains(TileOption { class, index })
                },
            },
    {
        proof {
            lemma_tile_index(tile, tile, self.size);
        }
        let index = tile.to_index(&self.size);
        let mut entry = MapEntry::Superposition { options: Vec::new() };
        self.grid.set_and_swap(index, &mut entry);
        entry.collapse(&self.tile_set, class_pick);
        self.grid.set(index, entry);
        proof {
            let g = self@.grid;
            assert(g =~= old(self)@.grid.update(index as int, g[index as int]));
        }
    }
}

/// The number of tiles of `grid` not yet decided.
pub open spec fn undecided(grid: Seq<MapEntry>) -> nat
    decreases grid.len(),
{
    if grid.len() == 0 {
        0
    } else {
        undecided(grid.drop_last()) + if grid.last() is Superposition {
            1nat
        } else {
            0nat
        }
    }
}

/// Grids whose tiles are decided at the same places have as many undecided
/// tiles.
proof fn lemma_undecided_same(g0: Seq<MapEntry>, g1: Seq<MapEntry>)
    requires
        g0.len() == g1.len(),
        forall|i: int| 0 <= i < g0.len() ==> (#[trigger] g0[i] is Superposition) == (g1[i] is Superposition),
    ensures
        undecided(g1) == undecided(g0),
    decreases g0.len(),
{
    if g0.len() > 0 {
        let (a, b) = (g0.drop_last(), g1.drop_last());
        assert forall|i: int| 0 <= i < a.len() implies (#[trigger] a[i] is Superposition) == (b[i] is Superposition) by {
            assert(a[i] == g0[i] && b[i] == g1[i]);
        }
        lemma_undecided_same(a, b);
        assert(g0.last() == g0[g0.len() - 1]);
    }
}

/// Deciding one undecided tile, and nothing else, leaves one undecided tile
/// fewer.
proof fn lemma_undecided_one_less(g0: Seq<MapEntry>, g1: Seq<MapEntry>, ti: int)
    requires
        g0.len() == g1.len(),
        0 <= ti < g0.len(),
        g0[ti] is Superposition,
        g1[ti] is Collapsed,
        forall|i: int| 0 <= i < g0.len() && i != ti ==> (#[trigger] g0[i] is Superposition) == (g1[i] is Superposition),
    ensures
        undecided(g1) == undecided(g0) - 1,
    decreases g0.len(),
{
    let (a, b) = (g0.drop_last(), g1.drop_last());
    if ti == g0.len() - 1 {
        assert forall|i: int| 0 <= i < a.len() implies (#[trigger] a[i] is Superposition) == (b[i] is Superposition) by {
            assert(a[i] == g0[i] && b[i] == g1[i]);
        }
        lemma_undecided_same(a, b);
    } else {
        assert forall|i: int| 0 <= i < a.len() && i != ti implies (#[trigger] a[i] is Superposition) == (b[i] is Superposition) by {
            assert(a[i] == g0[i] && b[i] == g1[i]);
        }
        assert(a[ti] == g0[ti] && b[ti] == g1[ti]);
        lemma_undecided_one_less(a, b, ti);
        assert(g0.last() == g0[g0.len() - 1]);
        assert(g1.last() == g1[g1.len() - 1]);
    }
}

/// A map has at most as many undecided tiles as tiles, and none exactly when
/// every tile is decided; as each step decides one undecided tile, a map of
/// `n` tiles is done after at most `n` steps.
pub proof fn law_undecided_bounded(grid: Seq<MapEntry>)
    ensures
        undecided(grid) <= grid.len(),
        (undecided(grid) == 0) <==> (forall|i: int| 0 <= i < grid.len() ==> (#[trigger] grid[i]) is Collapsed),
    decreases grid.len(),
{
    if grid.len() > 0 {
        let a = grid.drop_last();
        law_undecided_bounded(a);
        if undecided(grid) == 0 {
            assert forall|i: int| 0 <= i < grid.len() implies (#[trigger] grid[i]) is Collapsed by {
                if i < a.len() {
                    assert(a[i] == grid[i]);
                }
            }
        }
        if forall|i: int| 0 <= i < grid.len() ==> (#[trigger] grid[i]) is Collapsed {
            assert forall|i: int| 0 <= i < a.len() implies (#[trigger] a[i]) is Collapsed by {
                assert(a[i] == grid[i]);
            }
            assert(grid[grid.len() - 1] is Collapsed);
        }
    }
}

/// Generation ends: in a run of maps in which each step decides one more
/// tile, as [`Generator::step_at`] does at an undecided tile, there are at
/// most as many steps as the first map has tiles; and once there have been
/// as many steps as it had undecided tiles, every tile is decided.
pub proof fn law_generation_ends(runs: Seq<Seq<MapEntry>>)
    requires
        runs.len() > 0,
        forall|i: int| 0 < i < runs.len() ==> #[trigger] undecided(runs[i]) == undecided(runs[i - 1]) - 1,
    ensures
        runs.len() - 1 <= runs[0].len(),
        runs.len() - 1 == undecided(runs[0]) ==> forall|j: int|
            0 <= j < runs.last().len() ==> (#[trigger] runs.last()[j]) is Collapsed,
{
    lemma_undecided_count_down(runs, runs.len() - 1);
    law_undecided_bounded(runs[0]);
    law_undecided_bounded(runs.last());
}

/// After `k` steps of a run, `k` fewer tiles are undecided.
proof fn lemma_undecided_count_down(runs: Seq<Seq<MapEntry>>, k: int)
    requires
        0 <= k < runs.len(),
        forall|i: int| 0 < i < runs.len() ==> #[trigger] undecided(runs[i]) == undecided(runs[i - 1]) - 1,
    ensures
        undecided(runs[k]) == undecided(runs[0]) - k,
    decreases k,
{
    if k > 0 {
        lemma_undecided_count_down(runs, k - 1);
        assert(undecided(runs[k]) == undecided(runs[k - 1]) - 1);
    }
}

impl Generator {
    /// Narrows the options of the neighbour of `tile_pos` in direction
    /// `direction` to those that the tile at `tile_pos` allows; when that
    /// drops any, the neighbour is added to `remaining` and to `changed`.
    fn constrain_neighbor(
        &mut self,
        tile_pos: TilePos,
        direction: SquareDirection,
        remaining: &mut Vec<TilePos>,
        changed: &mut Vec<TilePos>,
    )
        requires
            old(self).wf(),
            on_map(tile_pos.x as int, tile_pos.y as int, old(self)@.size),
            is_cardinal(direction),
        ensures
            final(self).wf(),
            final(self)@.size == old(self)@.size,
            final(self)@.tile_set == old(self)@.tile_set,
            neighbor_step(
                old(self)@.tile_set.combos,
                old(self)@.grid,
                final(self)@.grid,
                old(self)@.size,
                old(remaining)@,
                final(remaining)@,
                tile_pos,
                direction,
            ),
            follows(old(remaining)@, final(remaining)@, old(changed)@, final(changed)@),
    {
        match tile_pos.square_offset(&direction, &self.size) {
            Some(q) => {
                proof {
                    lemma_tile_index(tile_pos, q, self.size);
                    lemma_tile_index(q, tile_pos, self.size);
                }
                let ti = tile_pos.to_index(&self.size);
                let ni = q.to_index(&self.size);
                let ghost n = self@.tile_set.classes.classes@.len() as int;
                assert(self@.grid[ti as int].wf());
                let kept = match &self.grid[ni] {
                    MapEntry::Collapsed { .. } => None,
                    MapEntry::Superposition { options } => {
                        let kept = allowed_options(options, &self.tile_set.combos, &self.grid[ti], direction);
                        if kept.len() != options.len() {
                            proof {
                                let pred = allowed_by(self@.tile_set.combos, direction, self@.grid[ti as int]);
                                assert forall|o: TileClass| options@.contains(o) && !kept@.contains(o) implies !combos_allow(
                                    direction_combos(self@.tile_set.combos, direction),
                                    self@.grid[ti as int],
                                    o,
                                ) by {
                                    if pred(o) {
                                        let i = choose|i: int| 0 <= i < options@.len() && options@[i] == o;
                                        options@.lemma_filter_contains(pred, i);
                                    }
                                }
                                assert forall|j: int| 0 <= j < kept@.len() implies (#[trigger] kept@[j]).0 < n by {
                                    assert(options@.contains(kept@[j]));
                                    assert(entry_within(self@.grid[ni as int], n));
                                }
                            }
                            Some(kept)
                        } else {
                            None
                        }
                    },
                };
                match kept {
                    Some(options) => {
                        let ghost before = self@.grid;
                        self.grid.set(ni, MapEntry::Superposition { options });
                        remaining.push(q);
                        changed.push(q);
                        proof {
                            assert(self@.grid[ti as int] == before[ti as int]);
                            assert(entry_within(self@.grid[ni as int], n));
                        }
                    },
                    None => {},
                }
            },
            None => {},
        }
    }

    /// Spreads what is known of `starting_tile` over the map: each tile
    /// taken from the work list narrows its side neighbours to the options
    /// it allows, and every neighbour that loses an option joins the work
    /// list. Returns the tiles that lost options, in the order they did.
    pub fn update_options(&mut self, starting_tile: TilePos) -> (changed: Vec<TilePos>)
        requires
            old(self).wf(),
            on_map(starting_tile.x as int, starting_tile.y as int, old(self)@.size),
        ensures
            final(self).wf(),
            final(self)@.size == old(self)@.size,
            final(self)@.tile_set == old(self)@.tile_set,
            consistent_except(old(self)@.tile_set.combos, old(self)@.grid, old(self)@.size, seq![starting_tile])
                ==> consistent_except(final(self)@.tile_set.combos, final(self)@.grid, final(self)@.size, Seq::empty()),
            forall|i: int| 0 <= i < old(self)@.grid.len() ==> narrowed(#[trigger] old(self)@.grid[i], final(self)@.grid[i]),
            forall|j: int| 0 <= j < changed@.len() ==> on_map((#[trigger] changed@[j]).x as int, changed@[j].y as int, old(self)@.size)
                && options_of(entry_at(final(self)@.grid, old(self)@.size, changed@[j])).len()
                < options_of(entry_at(old(self)@.grid, old(self)@.size, changed@[j])).len(),
            forall|p: TilePos| on_map(p.x as int, p.y as int, old(self)@.size)
                && options_of(#[trigger] entry_at(final(self)@.grid, old(self)@.size, p)).len()
                < options_of(entry_at(old(self)@.grid, old(self)@.size, p)).len() ==> changed@.contains(p),
            removals_justified(old(self)@.tile_set.combos, old(self)@.grid, final(self)@.grid, old(self)@.size),
            forall|h: Seq<MapEntry>|
                narrows(old(self)@.grid, h) && consistent_except(old(self)@.tile_set.combos, h, old(self)@.size, Seq::empty())
                    ==> #[trigger] narrows(final(self)@.grid, h),
    {
        let ghost g_start = self@.grid;
        let ghost size = self@.size;
        let ghost combos = self@.tile_set.combos;
        let ghost consistent_start = consistent_except(combos, g_start, size, seq![starting_tile]);
        let mut remaining: Vec<TilePos> = Vec::new();
        remaining.push(starting_tile);
        let mut changed: Vec<TilePos> = Vec::new();
        assert(remaining@ =~= seq![starting_tile]);
        loop
            invariant
                self.wf(),
                self@.size == size,
                self@.tile_set == old(self)@.tile_set,
                combos == self@.tile_set.combos,
                g_start == old(self)@.grid,
                size == old(self)@.size,
                forall|j: int| 0 <= j < remaining@.len() ==> on_map((#[trigger] remaining@[j]).x as int, remaining@[j].y as int, size),
                consistent_start ==> consistent_except(combos, self@.grid, size, remaining@),
                consistent_start == consistent_except(combos, g_start, size, seq![starting_tile]),
                tracked_changes(g_start, self@.grid, size, changed@),
                removals_justified(combos, g_start, self@.grid, size),
                forall|h: Seq<MapEntry>|
                    #[trigger] narrows(g_start, h) && consistent_except(combos, h, size, Seq::empty()) ==> narrows(self@.grid, h),
            ensures
                self.wf(),
                self@.size == size,
                self@.tile_set == old(self)@.tile_set,
                consistent_start ==> consistent_except(combos, self@.grid, size, Seq::empty()),
                tracked_changes(g_start, self@.grid, size, changed@),
                removals_justified(combos, g_start, self@.grid, size),
                forall|h: Seq<MapEntry>|
                    #[trigger] narrows(g_start, h) && consistent_except(combos, h, size, Seq::empty()) ==> narrows(self@.grid, h),
            decreases total_options(self@.grid), remaining@.len(),
        {
            let ghost rem_start = remaining@;
            let ghost g0 = self@.grid;
            match remaining.pop() {
                None => {
                    assert(remaining@ =~= Seq::<TilePos>::empty());
                    break;
                },
                Some(tile_pos) => {
                    let ghost rem0 = remaining@;
                    assert(rem_start == rem0.push(tile_pos));
                    assert(on_map(tile_pos.x as int, tile_pos.y as int, size)) by {
                        assert(rem_start[rem_start.len() - 1] == tile_pos);
                    }
                    let ghost ch0 = changed@;
                    self.constrain_neighbor(tile_pos, SquareDirection::East, &mut remaining, &mut changed);
                    let ghost (rem1, g1, ch1) = (remaining@, self@.grid, changed@);
                    proof {
                        lemma_step_justified(combos, g_start, g0, g1, size, rem0, rem1, tile_pos, SquareDirection::East);
                        lemma_step_tracks(combos, g_start, g0, g1, size, rem0, rem1, ch0, ch1, tile_pos, SquareDirection::East);
                    }
                    self.constrain_neighbor(tile_pos, SquareDirection::North, &mut remaining, &mut changed);
                    let ghost (rem2, g2, ch2) = (remaining@, self@.grid, changed@);
                    proof {
                        lemma_step_justified(combos, g_start, g1, g2, size, rem1, rem2, tile_pos, SquareDirection::North);
                        lemma_step_tracks(combos, g_start, g1, g2, size, rem1, rem2, ch1, ch2, tile_pos, SquareDirection::North);
                    }
                    self.constrain_neighbor(tile_pos, SquareDirection::West, &mut remaining, &mut changed);
                    let ghost (rem3, g3, ch3) = (remaining@, self@.grid, changed@);
                    proof {
                        lemma_step_justified(combos, g_start, g2, g3, size, rem2, rem3, tile_pos, SquareDirection::West);
                        lemma_step_tracks(combos, g_start, g2, g3, size, rem2, rem3, ch2, ch3, tile_pos, SquareDirection::West);
                    }
                    self.constrain_neighbor(tile_pos, SquareDirection::South, &mut remaining, &mut changed);
                    let ghost (rem4, g4, ch4) = (remaining@, self@.grid, changed@);
                    proof {
                        lemma_step_justified(combos, g_start, g3, g4, size, rem3, rem4, tile_pos, SquareDirection::South);
                        lemma_step_tracks(combos, g_start, g3, g4, size, rem3, rem4, ch3, ch4, tile_pos, SquareDirection::South);
                        assert forall|h: Seq<MapEntry>|
                            #[trigger] narrows(g_start, h) && consistent_except(combos, h, size, Seq::empty())
                            implies narrows(g4, h) by {
                            lemma_step_keeps_narrowings(combos, g0, g1, size, rem0, rem1, tile_pos, SquareDirection::East, h);
                            lemma_step_keeps_narrowings(combos, g1, g2, size, rem1, rem2, tile_pos, SquareDirection::North, h);
                            lemma_step_keeps_narrowings(combos, g2, g3, size, rem2, rem3, tile_pos, SquareDirection::West, h);
                            lemma_step_keeps_narrowings(combos, g3, g4, size, rem3, rem4, tile_pos, SquareDirection::South, h);
                        }
                        if consistent_start {
                            lemma_round_arcs(combos, g0, g1, g2, g3, g4, size, rem_start, rem0, rem1, rem2, rem3, rem4, tile_pos);
                        }
                    }
                },
            }
        }
        changed
    }

    /// One step of generation at `tile`: decides it as
    /// [`Generator::collapse`] does with `class_pick`, then spreads what that
    /// tells with [`Generator::update_options`]. Returns the tiles that lost
    /// options and whether every tile is now decided.
    pub fn step_at(&mut self, tile: TilePos, class_pick: usize) -> (r: (Vec<TilePos>, bool))
        requires
            old(self).wf(),
            on_map(tile.x as int, tile.y as int, old(self)@.size),
            options_of(entry_at(old(self)@.grid, old(self)@.size, tile)).len() > 0 ==> class_pick < options_of(
                entry_at(old(self)@.grid, old(self)@.size, tile),
            ).len(),
        ensures
            final(self).wf(),
            final(self)@.size == old(self)@.size,
            final(self)@.tile_set == old(self)@.tile_set,
            entry_at(final(self)@.grid, old(self)@.size, tile) is Collapsed,
            match entry_at(old(self)@.grid, old(self)@.size, tile) {
                MapEntry::Collapsed { .. } => entry_at(final(self)@.grid, old(self)@.size, tile) == entry_at(
                    old(self)@.grid,
                    old(self)@.size,
                    tile,
                ),
                MapEntry::Superposition { options } => if options@.len() == 0 {
                    entry_at(final(self)@.grid, old(self)@.size, tile) == (MapEntry::Collapsed { class: TileClass(0), index: 0 })
                } else {
                    &&& entry_at(final(self)@.grid, old(self)@.size, tile) matches MapEntry::Collapsed { class, index }
                    &&& class == options@[class_pick as int]
                    &&& old(self)@.tile_set.tiles@.contains(TileOption { class, index })
                },
            },
            forall|i: int| 0 <= i < old(self)@.grid.len() && i != tile_index(tile, old(self)@.size)
                ==> narrowed(#[trigger] old(self)@.grid[i], final(self)@.grid[i]),
            undecided(final(self)@.grid) == undecided(old(self)@.grid) - (if entry_at(old(self)@.grid, old(self)@.size, tile) is Superposition {
                1int
            } else {
                0int
            }),
            consistent_except(old(self)@.tile_set.combos, old(self)@.grid, old(self)@.size, Seq::empty())
                ==> consistent_except(final(self)@.tile_set.combos, final(self)@.grid, final(self)@.size, Seq::empty()),
            forall|p: TilePos| on_map(p.x as int, p.y as int, old(self)@.size) && p != tile
                && options_of(#[trigger] entry_at(final(self)@.grid, old(self)@.size, p)).len()
                < options_of(entry_at(old(self)@.grid, old(self)@.size, p)).len() ==> r.0@.contains(p),
            r.1 == forall|i: int| 0 <= i < final(self)@.grid.len() ==> (#[trigger] final(self)@.grid[i]) is Collapsed,
            forall|h: Seq<MapEntry>|
                narrows(
                    old(self)@.grid.update(tile_index(tile, old(self)@.size), entry_at(final(self)@.grid, old(self)@.size, tile)),
                    h,
                ) && consistent_except(old(self)@.tile_set.combos, h, old(self)@.size, Seq::empty())
                    ==> #[trigger] narrows(final(self)@.grid, h),
    {
        let ghost g_old = self@.grid;
        let ghost size = self@.size;
        let ghost combos = self@.tile_set.combos;
        self.collapse(tile, class_pick);
        let ghost g_mid = self@.grid;
        let ghost ti = tile_index(tile, size);
        proof {
            lemma_tile_index(tile, tile, size);
            assert(g_mid[ti] is Collapsed);
            if consistent_except(combos, g_old, size, Seq::empty()) {
                law_collapse_keeps_consistency(combos, g_old, size, Seq::empty(), tile, g_mid[ti]);
                assert(Seq::<TilePos>::empty().push(tile) =~= seq![tile]);
            }
        }
        let changed = self.update_options(tile);
        proof {
            assert(narrowed(g_mid[ti], self@.grid[ti]));
            assert(g_mid == g_old.update(ti, entry_at(self@.grid, size, tile)));
            assert forall|i: int| 0 <= i < g_old.len() && i != ti implies narrowed(#[trigger] g_old[i], self@.grid[i]) by {
                assert(g_mid[i] == g_old[i]);
                assert(narrowed(g_mid[i], self@.grid[i]));
            }
            assert forall|p: TilePos| on_map(p.x as int, p.y as int, size) && p != tile
                && options_of(#[trigger] entry_at(self@.grid, size, p)).len()
                < options_of(entry_at(g_old, size, p)).len() implies changed@.contains(p) by {
                lemma_tile_index(p, tile, size);
                assert(entry_at(g_mid, size, p) == entry_at(g_old, size, p));
            }
            assert(self@.grid[ti] == g_mid[ti]);
            assert forall|i: int| 0 <= i < g_old.len() && i != ti implies (#[trigger] g_old[i] is Superposition) == (
            self@.grid[i] is Superposition) by {
                assert(narrowed(g_old[i], self@.grid[i]));
            }
            if g_old[ti] is Superposition {
                lemma_undecided_one_less(g_old, self@.grid, ti);
            } else {
                lemma_undecided_same(g_old, self@.grid);
            }
        }
        let done = self.is_done();
        (changed, done)
    }
}

/// Whether a tile with edge colours `a` fits to the left of one with `b`:
/// the right edge of `a` matches the left edge of `b`.
pub open spec fn connects_horizontally(a: [u8; 8], b: [u8; 8]) -> bool {
    a[1] == b[7] && a[2] == b[6] && a[3] == b[5]
}

/// Whether a tile with edge colours `a` fits above one with `b`: the bottom
/// edge of `a` matches the top edge of `b`.
pub open spec fn connects_vertically(a: [u8; 8], b: [u8; 8]) -> bool {
    a[5] == b[7] && a[4] == b[0] && a[3] == b[1]
}

impl TileClassData {
    /// Whether this class fits to the left of `other`, and whether it fits
    /// above it.
    pub fn connects_with(&self, other: &TileClassData) -> (r: (bool, bool))
        ensures
            r == (connects_horizontally(self.wang_id, other.wang_id), connects_vertically(self.wang_id, other.wang_id)),
    {
        let a = &self.wang_id;
        let b = &other.wang_id;
        let horizontal = a[1] == b[7] && a[2] == b[6] && a[3] == b[5];
        let vertical = a[5] == b[7] && a[4] == b[0] && a[3] == b[1];
        (horizontal, vertical)
    }
}

/// `p` comes strictly before `q` in combo order.
pub open spec fn combo_lt(p: Combo, q: Combo) -> bool {
    p.0.0 < q.0.0 || (p.0.0 == q.0.0 && p.1.0 < q.1.0)
}

/// Whether `s` is strictly increasing in combo order.
pub open spec fn combos_strictly_sorted(s: Seq<Combo>) -> bool {
    forall|i: int, j: int| 0 <= i < j < s.len() ==> combo_lt(#[trigger] s[i], #[trigger] s[j])
}

/// Whether the classes of `c` are among those of `classes`, and the first
/// fits next to the second: to its left when `horizontal`, above it
/// otherwise.
pub open spec fn connecting(classes: Seq<TileClassData>, c: Combo, horizontal: bool) -> bool {
    &&& c.0.0 < classes.len()
    &&& c.1.0 < classes.len()
    &&& if horizontal {
        connects_horizontally(classes[c.0.0 as int].wang_id, classes[c.1.0 as int].wang_id)
    } else {
        connects_vertically(classes[c.0.0 as int].wang_id, classes[c.1.0 as int].wang_id)
    }
}

/// The pairs of classes of `classes` that fit next to each other (side by
/// side when `horizontal`, one above the other otherwise), in combo order.
fn connecting_combos(classes: &Vec<TileClassData>, horizontal: bool) -> (r: Vec<Combo>)
    ensures
        combos_strictly_sorted(r@),
        forall|c: Combo| r@.contains(c) <==> connecting(classes@, c, horizontal),
{
    let n = classes.len();
    let mut r: Vec<Combo> = Vec::new();
    let mut a: usize = 0;
    while a < n
        invariant
            n == classes@.len(),
            a <= n,
            combos_strictly_sorted(r@),
            forall|j: int| 0 <= j < r@.len() ==> (#[trigger] r@[j]).0.0 < a,
            forall|c: Combo| r@.contains(c) <==> c.0.0 < a && connecting(classes@, c, horizontal),
        decreases n - a,
    {
        let mut b: usize = 0;
        while b < n
            invariant
                n == classes@.len(),
                a < n,
                b <= n,
                combos_strictly_sorted(r@),
                forall|j: int| 0 <= j < r@.len() ==> combo_lt(#[trigger] r@[j], (TileClass(a), TileClass(b))),
                forall|j: int| 0 <= j < r@.len() ==> (#[trigger] r@[j]).0.0 <= a,
                forall|c: Combo| r@.contains(c) <==> (c.0.0 < a || (c.0.0 == a && c.1.0 < b)) && connecting(
                    classes@,
                    c,
                    horizontal,
                ),
            decreases n - b,
        {
            let (h, v) = classes[a].connects_with(&classes[b]);
            let ghost before = r@;
            if (horizontal && h) || (!horizontal && v) {
                r.push((TileClass(a), TileClass(b)));
            }
            proof {
                let x: Combo = (TileClass(a), TileClass(b));
                assert forall|c: Combo| r@.contains(c) <==> (c.0.0 < a || (c.0.0 == a && c.1.0 < b + 1)) && connecting(
                    classes@,
                    c,
                    horizontal,
                ) by {
                    if r@.contains(c) && !before.contains(c) {
                        let j = choose|j: int| 0 <= j < r@.len() && r@[j] == c;
                        if j < before.len() {
                            assert(before[j] == c);
                        }
                    }
                    if before.contains(c) {
                        let j = choose|j: int| 0 <= j < before.len() && before[j] == c;
                        assert(r@[j] == c);
                    }
                    if c == x && connecting(classes@, c, horizontal) {
                        assert(r@[r@.len() - 1] == x);
                    }
                }
            }
            b = b + 1;
        }
        proof {
            assert forall|c: Combo| r@.contains(c) <==> c.0.0 < a + 1 && connecting(classes@, c, horizontal) by {
                if c.0.0 == a && connecting(classes@, c, horizontal) {
                    assert(c.1.0 < n);
                }
            }
        }
        a = a + 1;
    }
    r
}

/// A list in strict combo order is its own sorted version.
proof fn lemma_strictly_sorted_is_sorted(s: Seq<Combo>)
    requires
        combos_strictly_sorted(s),
    ensures
        s.sort_by(combo_order()) == s,
        combos_sorted(s),
{
    lemma_combo_order_total();
    s.lemma_sort_by_ensures(combo_order());
    assert(sorted_by(s, combo_order())) by {
        assert forall|i: int, j: int| 0 <= i < j < s.len() implies #[trigger] combo_order()(s[i], s[j]) by {
            assert(combo_lt(s[i], s[j]));
        }
    }
    vstd::seq_lib::lemma_sorted_unique(s, s.sort_by(combo_order()), combo_order());
    lemma_sorted_by_combo(s);
}

/// Every tile of the classes of `classes`, class by class, each with its
/// class.
pub open spec fn class_tiles(classes: Seq<TileClassData>) -> Seq<TileOption>
    decreases classes.len(),
{
    if classes.len() == 0 {
        Seq::empty()
    } else {
        class_tiles(classes.drop_last()) + classes.last().tiles@.map_values(
            |index: u32| TileOption { class: TileClass((classes.len() - 1) as usize), index },
        )
    }
}

/// Whether `s` is in order of tile index.
pub open spec fn tiles_sorted(s: Seq<TileOption>) -> bool {
    forall|i: int, j: int| 0 <= i < j < s.len() ==> (#[trigger] s[i]).index <= (#[trigger] s[j]).index
}

impl TileClasses {
    /// Every class has a tile.
    pub open spec fn wf(&self) -> bool {
        forall|i: int| 0 <= i < self.classes@.len() ==> (#[trigger] self.classes@[i]).tiles@.len() > 0
    }
}

/// The tiles of `classes`, each with its class, in order of tile index.
fn sorted_class_tiles(classes: &Vec<TileClassData>) -> (r: Vec<TileOption>)
    ensures
        tiles_sorted(r@),
        r@.to_multiset() == class_tiles(classes@).to_multiset(),
{
    let mut r: Vec<TileOption> = Vec::new();
    let mut c: usize = 0;
    while c < classes.len()
        invariant
            c <= classes@.len(),
            tiles_sorted(r@),
            r@.to_multiset() == class_tiles(classes@.take(c as int)).to_multiset(),
        decreases classes@.len() - c,
    {
        let tiles = &classes[c].tiles;
        let ghost done = r@.to_multiset();
        let mut t: usize = 0;
        while t < tiles.len()
            invariant
                c < classes@.len(),
                tiles == classes@[c as int].tiles,
                t <= tiles@.len(),
                tiles_sorted(r@),
                r@.to_multiset() == done.add(tiles@.take(t as int).map_values(
                    |index: u32| TileOption { class: TileClass(c), index },
                ).to_multiset()),
            decreases tiles@.len() - t,
        {
            let x = TileOption { class: TileClass(c), index: tiles[t] };
            let mut k: usize = 0;
            while k < r.len() && r[k].index <= x.index
                invariant
                    k <= r@.len(),
                    forall|j: int| 0 <= j < k ==> (#[trigger] r@[j]).index <= x.index,
                decreases r@.len() - k,
            {
                k = k + 1;
            }
            let ghost before = r@;
            r.insert(k, x);
            proof {
                assert forall|a: int, b: int| 0 <= a < b < r@.len() implies (#[trigger] r@[a]).index <= (#[trigger] r@[b]).index by {
                    if b < k {
                        assert(r@[a] == before[a] && r@[b] == before[b]);
                    } else if b == k {
                        assert(r@[a] == before[a]);
                    } else if a < k {
                        assert(r@[a] == before[a] && r@[b] == before[b - 1]);
                    } else if a == k {
                        assert(r@[b] == before[b - 1]);
                        assert(before[k as int].index <= before[b - 1].index);
                    } else {
                        assert(r@[a] == before[a - 1] && r@[b] == before[b - 1]);
                    }
                }
                let f = |index: u32| TileOption { class: TileClass(c), index };
                assert(tiles@.take(t + 1).map_values(f) =~= tiles@.take(t as int).map_values(f).push(x));
                vstd::seq_lib::to_multiset_build(tiles@.take(t as int).map_values(f), x);
                assert(r@.to_multiset() =~= done.add(tiles@.take(t + 1).map_values(f).to_multiset()));
            }
            t = t + 1;
        }
        proof {
            let f = |index: u32| TileOption { class: TileClass(c), index };
            assert(tiles@.take(tiles@.len() as int) =~= tiles@);
            assert(classes@.take(c + 1).drop_last() =~= classes@.take(c as int));
            assert(class_tiles(classes@.take(c + 1)) == class_tiles(classes@.take(c as int)) + tiles@.map_values(f));
            vstd::seq_lib::lemma_multiset_commutative(class_tiles(classes@.take(c as int)), tiles@.map_values(f));
        }
        c = c + 1;
    }
    assert(classes@.take(classes@.len() as int) =~= classes@);
    r
}

/// Every tile of a class of `classes` appears in [`class_tiles`].
proof fn lemma_class_tiles_contains(classes: Seq<TileClassData>, i: int, k: int)
    requires
        0 <= i < classes.len(),
        0 <= k < classes[i].tiles@.len(),
    ensures
        class_tiles(classes).contains(TileOption { class: TileClass(i as usize), index: classes[i].tiles@[k] }),
    decreases classes.len(),
{
    let x = TileOption { class: TileClass(i as usize), index: classes[i].tiles@[k] };
    let front = class_tiles(classes.drop_last());
    if i == classes.len() - 1 {
        let back = classes.last().tiles@.map_values(
            |index: u32| TileOption { class: TileClass((classes.len() - 1) as usize), index },
        );
        assert(class_tiles(classes)[front.len() + k] == back[k]);
    } else {
        assert(classes.drop_last()[i] == classes[i]);
        lemma_class_tiles_contains(classes.drop_last(), i, k);
        let j = choose|j: int| 0 <= j < front.len() && front[j] == x;
        assert(class_tiles(classes)[j] == x);
    }
}

impl TileSet {
    /// The tile set of `classes`: which classes fit next to which, and every
    /// tile with its class in order of tile index.
    pub fn new(classes: TileClasses) -> (r: Self)
        requires
            classes.wf(),
        ensures
            r.wf(),
            r.classes == classes,
            tiles_sorted(r.tiles@),
            r.tiles@.to_multiset() == class_tiles(classes.classes@).to_multiset(),
            combos_strictly_sorted(r.combos.horizontal@.combos),
            combos_strictly_sorted(r.combos.vertical@.combos),
            forall|c: Combo| r.combos.horizontal@.combos.contains(c) <==> connecting(classes.classes@, c, true),
            forall|c: Combo| r.combos.vertical@.combos.contains(c) <==> connecting(classes.classes@, c, false),
            forall|c: Combo| r.combos.horizontal@.reversed_combos.contains(c) <==> connecting(classes.classes@, swapped(c), true),
            forall|c: Combo| r.combos.vertical@.reversed_combos.contains(c) <==> connecting(classes.classes@, swapped(c), false),
    {
        let tiles = sorted_class_tiles(&classes.classes);
        let horizontal = connecting_combos(&classes.classes, true);
        let vertical = connecting_combos(&classes.classes, false);
        let h = Combos::new(horizontal.as_slice());
        let v = Combos::new(vertical.as_slice());
        proof {
            lemma_strictly_sorted_is_sorted(horizontal@);
            lemma_strictly_sorted_is_sorted(vertical@);
            lemma_combo_order_total();
            lemma_swapped_contains(horizontal@);
            lemma_swapped_contains(vertical@);
            horizontal@.map_values(|c: Combo| swapped(c)).lemma_sort_by_ensures(combo_order());
            vertical@.map_values(|c: Combo| swapped(c)).lemma_sort_by_ensures(combo_order());
            assert forall|i: int| 0 <= i < classes.classes@.len() implies #[trigger] has_tile_of(tiles@, TileClass(i as usize)) by {
                lemma_class_tiles_contains(classes.classes@, i, 0);
                let x = TileOption { class: TileClass(i as usize), index: classes.classes@[i].tiles@[0] };
                assert(tiles@.to_multiset().count(x) > 0);
                assert(tiles@.contains(x));
                let j = choose|j: int| 0 <= j < tiles@.len() && tiles@[j] == x;
                assert(tiles@[j].class == TileClass(i as usize));
            }
            assert forall|c: Combo| h@.reversed_combos.contains(c) <==> connecting(classes.classes@, swapped(c), true) by {
                assert(h@.reversed_combos.to_multiset().count(c) == horizontal@.map_values(|c: Combo| swapped(c)).to_multiset().count(c));
            }
            assert forall|c: Combo| v@.reversed_combos.contains(c) <==> connecting(classes.classes@, swapped(c), false) by {
                assert(v@.reversed_combos.to_multiset().count(c) == vertical@.map_values(|c: Combo| swapped(c)).to_multiset().count(c));
            }
        }
        TileSet { combos: TileCombos { horizontal: h, vertical: v }, classes, tiles }
    }
}

/// A combo is in the swapped list exactly when its swap is in the list.
proof fn lemma_swapped_contains(s: Seq<Combo>)
    ensures
        forall|c: Combo| s.map_values(|c: Combo| swapped(c)).contains(c) <==> s.contains(swapped(c)),
{
    let m = s.map_values(|c: Combo| swapped(c));
    assert forall|c: Combo| m.contains(c) <==> s.contains(swapped(c)) by {
        if m.contains(c) {
            let j = choose|j: int| 0 <= j < m.len() && m[j] == c;
            assert(s[j] == swapped(c));
        }
        if s.contains(swapped(c)) {
            let j = choose|j: int| 0 <= j < s.len() && s[j] == swapped(c);
            assert(m[j] == c);
        }
    }
}

/// Whether the edge colours `a` come before `b`, comparing from position
/// `k` on: the first position where they differ decides.
pub open spec fn id_lt_from(a: [u8; 8], b: [u8; 8], k: int) -> bool
    decreases 8 - k,
{
    if k < 0 || k >= 8 {
        false
    } else if a[k] < b[k] {
        true
    } else if a[k] > b[k] {
        false
    } else {
        id_lt_from(a, b, k + 1)
    }
}

/// Whether the edge colours `a` come before `b` in dictionary order.
pub open spec fn id_lt(a: [u8; 8], b: [u8; 8]) -> bool {
    id_lt_from(a, b, 0)
}

/// Dictionary order on edge colours is a strict total order.
proof fn lemma_id_order_from(a: [u8; 8], b: [u8; 8], c: [u8; 8], k: int)
    requires
        0 <= k <= 8,
    ensures
        id_lt_from(a, b, k) && id_lt_from(b, c, k) ==> id_lt_from(a, c, k),
        !id_lt_from(a, a, k),
        id_lt_from(a, b, k) ==> !id_lt_from(b, a, k),
        !id_lt_from(a, b, k) && !id_lt_from(b, a, k) ==> forall|j: int| k <= j < 8 ==> a[j] == b[j],
    decreases 8 - k,
{
    if k < 8 {
        lemma_id_order_from(a, b, c, k + 1);
    }
}

/// Dictionary order on edge colours is a strict total order.
proof fn lemma_id_order(a: [u8; 8], b: [u8; 8], c: [u8; 8])
    ensures
        id_lt(a, b) && id_lt(b, c) ==> id_lt(a, c),
        !id_lt(a, a),
        id_lt(a, b) ==> !id_lt(b, a),
        !id_lt(a, b) && !id_lt(b, a) ==> a == b,
{
    broadcast use vstd::array::group_array_axioms;

    lemma_id_order_from(a, b, c, 0);
    if !id_lt(a, b) && !id_lt(b, a) {
        assert(a =~= b);
    }
}

/// Whether `a` comes before `b`.
fn id_less(a: &[u8; 8], b: &[u8; 8]) -> (r: bool)
    ensures
        r == id_lt(*a, *b),
{
    let mut k: usize = 0;
    while k < 8
        invariant
            k <= 8,
            id_lt(*a, *b) == id_lt_from(*a, *b, k as int),
        decreases 8 - k,
    {
        if a[k] < b[k] {
            return true;
        }
        if a[k] > b[k] {
            return false;
        }
        k = k + 1;
    }
    false
}

/// The tile indices of the tiles of `wang_tiles` with edge colours `id`, in
/// their order.
pub open spec fn tiles_with_id(wang_tiles: Seq<(u32, [u8; 8])>, id: [u8; 8]) -> Seq<u32> {
    wang_tiles.filter(colored(id)).map_values(|t: (u32, [u8; 8])| t.0)
}

/// Whether a tile, given as (tile index, edge colours), has colours `id`.
pub open spec fn colored(id: [u8; 8]) -> spec_fn((u32, [u8; 8])) -> bool {
    |t: (u32, [u8; 8])| t.1 == id
}

/// Whether some tile of `wang_tiles` has edge colours `id`.
pub open spec fn has_id(wang_tiles: Seq<(u32, [u8; 8])>, id: [u8; 8]) -> bool {
    exists|t: int| 0 <= t < wang_tiles.len() && (#[trigger] wang_tiles[t]).1 == id
}

/// Whether `classes` groups the tiles of `wang_tiles` by their edge colours:
/// one class per colouring, in dictionary order, each with its tiles in
/// their order.
pub open spec fn groups(classes: Seq<TileClassData>, wang_tiles: Seq<(u32, [u8; 8])>) -> bool {
    &&& forall|i: int, j: int| 0 <= i < j < classes.len() ==> id_lt(#[trigger] classes[i].wang_id, #[trigger] classes[j].wang_id)
    &&& forall|id: [u8; 8]| #[trigger] has_id(wang_tiles, id) ==> exists|i: int| 0 <= i < classes.len() && (#[trigger] classes[i]).wang_id == id
    &&& forall|i: int| 0 <= i < classes.len() ==> has_id(wang_tiles, (#[trigger] classes[i]).wang_id)
    &&& forall|i: int| 0 <= i < classes.len() ==> (#[trigger] classes[i]).tiles@ == tiles_with_id(wang_tiles, classes[i].wang_id)
}

impl TileClasses {
    /// Groups the tiles of a tile set, given as (tile index, edge colours),
    /// into classes of tiles with the same edge colours, in dictionary order
    /// of their colours.
    pub fn new(wang_tiles: &[(u32, [u8; 8])]) -> (r: Self)
        ensures
            groups(r.classes@, wang_tiles@),
            r.wf(),
    {
        let ghost w = wang_tiles@;
        let mut classes: Vec<TileClassData> = Vec::new();
        let mut i: usize = 0;
        while i < wang_tiles.len()
            invariant
                w == wang_tiles@,
                i <= w.len(),
                groups(classes@, w.take(i as int)),
            decreases w.len() - i,
        {
            let (tile_index, id) = wang_tiles[i];
            let ghost pre = w.take(i as int);
            proof {
                assert(w.take(i + 1) =~= pre.push((tile_index, id)));
            }
            let mut k: usize = 0;
            while k < classes.len() && id_less(&classes[k].wang_id, &id)
                invariant
                    k <= classes@.len(),
                    forall|j: int| 0 <= j < k ==> id_lt((#[trigger] classes@[j]).wang_id, id),
                decreases classes@.len() - k,
            {
                k = k + 1;
            }
            let ghost before = classes@;
            if k < classes.len() && !id_less(&id, &classes[k].wang_id) {
                // A class with these colours exists: add the tile to it.
                proof {
                    lemma_id_order(classes@[k as int].wang_id, id, id);
                }
                let mut data = TileClassData { wang_id: id, tiles: Vec::new() };
                classes.set_and_swap(k, &mut data);
                data.tiles.push(tile_index);
                classes.set(k, data);
                proof {
                    lemma_groups_add(before, classes@, pre, tile_index, id, k as int);
                }
            } else {
                // A new class, placed to keep the classes in order.
                let mut tiles: Vec<u32> = Vec::new();
                tiles.push(tile_index);
                classes.insert(k, TileClassData { wang_id: id, tiles });
                proof {
                    lemma_groups_insert(before, classes@, pre, tile_index, id, k as int);
                }
            }
            i = i + 1;
        }
        proof {
            assert(w.take(w.len() as int) =~= w);
        }
        let r = TileClasses { classes };
        proof {
            assert forall|i: int| 0 <= i < r.classes@.len() implies (#[trigger] r.classes@[i]).tiles@.len() > 0 by {
                lemma_tiles_with_id_nonempty(w, r.classes@[i].wang_id);
            }
        }
        r
    }
}

/// A colouring that some tile has has a tile.
proof fn lemma_tiles_with_id_nonempty(w: Seq<(u32, [u8; 8])>, id: [u8; 8])
    requires
        has_id(w, id),
    ensures
        tiles_with_id(w, id).len() > 0,
{
    let t = choose|t: int| 0 <= t < w.len() && (#[trigger] w[t]).1 == id;
    w.lemma_filter_contains(colored(id), t);
    w.lemma_filter_len(colored(id));
}

/// Filtering one more tile by colours extends the matching class alone.
proof fn lemma_tiles_with_id_push(pre: Seq<(u32, [u8; 8])>, tile_index: u32, id: [u8; 8], other: [u8; 8])
    ensures
        tiles_with_id(pre.push((tile_index, id)), other) == if other == id {
            tiles_with_id(pre, other).push(tile_index)
        } else {
            tiles_with_id(pre, other)
        },
{
    let pred = colored(other);
    pre.lemma_filter_push((tile_index, id), pred);
    let f = |t: (u32, [u8; 8])| t.0;
    if other == id {
        assert(pre.filter(pred).push((tile_index, id)).map_values(f) =~= pre.filter(pred).map_values(f).push(tile_index));
    } else {
        assert(!pred((tile_index, id)));
    }
}

/// Adding a tile with colours that have a class adds it to that class.
proof fn lemma_groups_add(
    before: Seq<TileClassData>,
    after: Seq<TileClassData>,
    pre: Seq<(u32, [u8; 8])>,
    tile_index: u32,
    id: [u8; 8],
    k: int,
)
    requires
        groups(before, pre),
        0 <= k < before.len(),
        before[k].wang_id == id,
        after.len() == before.len(),
        after[k].wang_id == id,
        after[k].tiles@ == before[k].tiles@.push(tile_index),
        forall|j: int| 0 <= j < before.len() && j != k ==> after[j] == before[j],
    ensures
        groups(after, pre.push((tile_index, id))),
{
    let post = pre.push((tile_index, id));
    assert forall|i: int, j: int| 0 <= i < j < after.len() implies id_lt(#[trigger] after[i].wang_id, #[trigger] after[j].wang_id) by {
        assert(id_lt(before[i].wang_id, before[j].wang_id));
    }
    assert forall|x: [u8; 8]| #[trigger] has_id(post, x) implies exists|i: int| 0 <= i < after.len() && (#[trigger] after[i]).wang_id == x by {
        let t = choose|t: int| 0 <= t < post.len() && (#[trigger] post[t]).1 == x;
        if t < pre.len() {
            assert(pre[t] == post[t]);
            assert(has_id(pre, x));
            let i = choose|i: int| 0 <= i < before.len() && (#[trigger] before[i]).wang_id == x;
            assert(after[i].wang_id == x);
        } else {
            assert(after[k].wang_id == x);
        }
    }
    assert forall|i: int| 0 <= i < after.len() implies has_id(post, (#[trigger] after[i]).wang_id) by {
        assert(has_id(pre, before[i].wang_id));
        let t = choose|t: int| 0 <= t < pre.len() && (#[trigger] pre[t]).1 == before[i].wang_id;
        assert(post[t] == pre[t]);
    }
    assert forall|i: int| 0 <= i < after.len() implies (#[trigger] after[i]).tiles@ == tiles_with_id(post, after[i].wang_id) by {
        lemma_tiles_with_id_push(pre, tile_index, id, after[i].wang_id);
        if i != k {
            lemma_id_order(before[i].wang_id, id, id);
            assert(before[i].wang_id != id) by {
                if i < k {
                    assert(id_lt(before[i].wang_id, before[k].wang_id));
                } else {
                    assert(id_lt(before[k].wang_id, before[i].wang_id));
                }
            }
        }
    }
}

/// Adding a tile with new colours adds a class of that tile in its place.
proof fn lemma_groups_insert(
    before: Seq<TileClassData>,
    after: Seq<TileClassData>,
    pre: Seq<(u32, [u8; 8])>,
    tile_index: u32,
    id: [u8; 8],
    k: int,
)
    requires
        groups(before, pre),
        0 <= k <= before.len(),
        forall|j: int| 0 <= j < k ==> id_lt((#[trigger] before[j]).wang_id, id),
        k < before.len() ==> id_lt(id, before[k].wang_id),
        after.len() == before.len() + 1,
        after[k].wang_id == id,
        after[k].tiles@ == seq![tile_index],
        forall|j: int| 0 <= j < k ==> after[j] == before[j],
        forall|j: int| k < j < after.len() ==> after[j] == before[j - 1],
    ensures
        groups(after, pre.push((tile_index, id))),
{
    let post = pre.push((tile_index, id));
    // No earlier tile has these colours.
    assert(!has_id(pre, id)) by {
        if has_id(pre, id) {
            let i = choose|i: int| 0 <= i < before.len() && (#[trigger] before[i]).wang_id == id;
            lemma_id_order(id, id, id);
            if i >= k && k < before.len() {
                if i > k {
                    assert(id_lt(before[k].wang_id, before[i].wang_id));
                    lemma_id_order(id, before[k].wang_id, before[i].wang_id);
                }
            }
        }
    }
    assert forall|i: int, j: int| 0 <= i < j < after.len() implies id_lt(#[trigger] after[i].wang_id, #[trigger] after[j].wang_id) by {
        if j < k {
            assert(id_lt(before[i].wang_id, before[j].wang_id));
        } else if j == k {
        } else if i < k {
            assert(after[j] == before[j - 1]);
            if j - 1 > k {
                assert(id_lt(before[k].wang_id, before[j - 1].wang_id));
                lemma_id_order(id, before[k].wang_id, before[j - 1].wang_id);
            }
            lemma_id_order(before[i].wang_id, id, before[j - 1].wang_id);
        } else if i == k {
            assert(after[j] == before[j - 1]);
            if j - 1 > k {
                assert(id_lt(before[k].wang_id, before[j - 1].wang_id));
                lemma_id_order(id, before[k].wang_id, before[j - 1].wang_id);
            }
        } else {
            assert(after[i] == before[i - 1] && after[j] == before[j - 1]);
            assert(id_lt(before[i - 1].wang_id, before[j - 1].wang_id));
        }
    }
    assert forall|x: [u8; 8]| #[trigger] has_id(post, x) implies exists|i: int| 0 <= i < after.len() && (#[trigger] after[i]).wang_id == x by {
        let t = choose|t: int| 0 <= t < post.len() && (#[trigger] post[t]).1 == x;
        if t < pre.len() {
            assert(pre[t] == post[t]);
            assert(has_id(pre, x));
            let i = choose|i: int| 0 <= i < before.len() && (#[trigger] before[i]).wang_id == x;
            if i < k {
                assert(after[i].wang_id == x);
            } else {
                assert(after[i + 1].wang_id == x);
            }
        } else {
            assert(after[k].wang_id == x);
        }
    }
    assert forall|i: int| 0 <= i < after.len() implies has_id(post, (#[trigger] after[i]).wang_id) by {
        if i == k {
            assert(post[pre.len() as int].1 == id);
        } else {
            let bi = if i < k { i } else { i - 1 };
            assert(after[i] == before[bi]);
            assert(has_id(pre, before[bi].wang_id));
            let t = choose|t: int| 0 <= t < pre.len() && (#[trigger] pre[t]).1 == before[bi].wang_id;
            assert(post[t] == pre[t]);
        }
    }
    assert forall|i: int| 0 <= i < after.len() implies (#[trigger] after[i]).tiles@ == tiles_with_id(post, after[i].wang_id) by {
        lemma_tiles_with_id_push(pre, tile_index, id, after[i].wang_id);
        if i == k {
            let pred = colored(id);
            assert(pre.filter(pred).len() == 0) by {
                if pre.filter(pred).len() > 0 {
                    pre.lemma_filter_pred(pred, 0);
                    let x = pre.filter(pred)[0];
                    pre.lemma_filter_len(pred);
                    assert(pre.filter(pred).contains(x));
                    pre.lemma_filter_contains_rev(pred, x);
                    let t = choose|t: int| 0 <= t < pre.len() && pre[t] == x;
                    assert(pre[t].1 == id);
                }
            }
            assert(tiles_with_id(pre, id) =~= Seq::<u32>::empty());
            assert(after[k].tiles@ =~= Seq::<u32>::empty().push(tile_index));
        } else {
            let bi = if i < k { i } else { i - 1 };
            assert(after[i] == before[bi]);
            assert(has_id(pre, before[bi].wang_id));
            assert(before[bi].wang_id != id);
        }
    }
}

} // verus!
