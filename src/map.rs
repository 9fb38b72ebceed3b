//! The map, its tile-sets in the order of their first global ids, and the
//! dense index that resolves a global id to the tile-set that owns it.

use vstd::prelude::*;

use crate::data::{ObjectGroup, TileSet, Vector2};
use crate::grid::{Orientation, StaggerAxis};

verus! {

/// Whether the tile-set `ts` owns the global id `g`: `g` is a `u32` other
/// than 0, which means "no tile", and lies between the tile-set's first and
/// last gid.
pub open spec fn owns_gid(ts: TileSet, g: int) -> bool {
    0 < g <= u32::MAX && ts.firstgid <= g <= ts.spec_last_gid()
}

/// The position in `sets` of the first tile-set that owns `g`.
pub open spec fn owner_among(sets: Seq<TileSet>, g: int) -> Option<int>
    decreases sets.len(),
{
    if sets.len() == 0 {
        None
    } else {
        match owner_among(sets.drop_last(), g) {
            Some(i) => Some(i),
            None => if owns_gid(sets.last(), g) {
                Some(sets.len() - 1)
            } else {
                None
            },
        }
    }
}

/// The highest global id that `ts` owns, or 0 when it owns none.
pub open spec fn top_gid(ts: TileSet) -> int {
    if ts.spec_last_gid() <= u32::MAX {
        ts.spec_last_gid()
    } else {
        u32::MAX as int
    }
}

/// The highest global id that any of `sets` owns, or 0 when they own none.
pub open spec fn highest_gid(sets: Seq<TileSet>) -> int
    decreases sets.len(),
{
    if sets.len() == 0 {
        0
    } else {
        let h = highest_gid(sets.drop_last());
        if top_gid(sets.last()) > h {
            top_gid(sets.last())
        } else {
            h
        }
    }
}

/// The slot of the global id `g` in the gid index of `sets`: the position
/// of the first tile-set that owns `g`.
pub open spec fn gid_slot_of(sets: Seq<TileSet>, g: int) -> Option<usize> {
    match owner_among(sets, g) {
        Some(i) => Some(i as usize),
        None => None,
    }
}

/// The gid index of `sets`: a slot for each global id from 0 to the highest
/// one that `sets` own.
pub open spec fn gid_index_of(sets: Seq<TileSet>) -> Seq<Option<usize>> {
    Seq::new((highest_gid(sets) + 1) as nat, |g: int| gid_slot_of(sets, g))
}

/// `sets` are in the order of their first gids.
pub open spec fn sorted_by_first_gid(sets: Seq<TileSet>) -> bool {
    forall|i: int, j: int| 0 <= i < j < sets.len() ==> sets[i].firstgid <= sets[j].firstgid
}

/// How many tile-sets at the front of `sets` have a first gid not above
/// `key`.
pub open spec fn insertion_point(sets: Seq<TileSet>, key: u32) -> int
    decreases sets.len(),
{
    if sets.len() > 0 && sets[0].firstgid <= key {
        1 + insertion_point(sets.drop_first(), key)
    } else {
        0
    }
}

/// `sets` with `ts` put after the tile-sets at their front whose first gid
/// is not above its own.
pub open spec fn insert_by_first_gid(sets: Seq<TileSet>, ts: TileSet) -> Seq<TileSet> {
    sets.insert(insertion_point(sets, ts.firstgid), ts)
}

/// `sets` in the order of their first gids; tile-sets of equal first gids
/// keep their order.
pub open spec fn sort_by_first_gid(sets: Seq<TileSet>) -> Seq<TileSet>
    decreases sets.len(),
{
    if sets.len() == 0 {
        sets
    } else {
        insert_by_first_gid(sort_by_first_gid(sets.drop_last()), sets.last())
    }
}

proof fn lemma_insertion_point_bounds(sets: Seq<TileSet>, key: u32)
    ensures
        0 <= insertion_point(sets, key) <= sets.len(),
        forall|i: int| 0 <= i < insertion_point(sets, key) ==> sets[i].firstgid <= key,
        insertion_point(sets, key) < sets.len() ==> sets[insertion_point(sets, key)].firstgid
            > key,
    decreases sets.len(),
{
    if sets.len() > 0 && sets[0].firstgid <= key {
        lemma_insertion_point_bounds(sets.drop_first(), key);
        assert forall|i: int| 0 <= i < insertion_point(sets, key) implies sets[i].firstgid
            <= key by {
            if i > 0 {
                assert(sets[i] == sets.drop_first()[i - 1]);
            }
        }
    }
}

proof fn lemma_insert_sorted(sets: Seq<TileSet>, ts: TileSet)
    requires
        sorted_by_first_gid(sets),
    ensures
        sorted_by_first_gid(insert_by_first_gid(sets, ts)),
        insert_by_first_gid(sets, ts).to_multiset() == sets.to_multiset().insert(ts),
{
    let p = insertion_point(sets, ts.firstgid);
    lemma_insertion_point_bounds(sets, ts.firstgid);
    let r = insert_by_first_gid(sets, ts);
    assert forall|i: int, j: int| 0 <= i < j < r.len() implies r[i].firstgid <= r[j].firstgid by {
        if j < p {
        } else if j == p {
        } else if i < p {
        } else if i == p {
            assert(r[j] == sets[j - 1]);
            assert(sets[p].firstgid <= sets[j - 1].firstgid);
        } else {
            assert(r[i] == sets[i - 1]);
            assert(r[j] == sets[j - 1]);
        }
    }
    sets.to_multiset_ensures();
    vstd::seq_lib::to_multiset_insert(sets, p, ts);
}

/// Sorting by first gid gives tile-sets in that order, the same tile-sets
/// as before.
pub proof fn lemma_sort_by_first_gid(sets: Seq<TileSet>)
    ensures
        sorted_by_first_gid(sort_by_first_gid(sets)),
        sort_by_first_gid(sets).to_multiset() == sets.to_multiset(),
    decreases sets.len(),
{
    if sets.len() > 0 {
        lemma_sort_by_first_gid(sets.drop_last());
        lemma_insert_sorted(sort_by_first_gid(sets.drop_last()), sets.last());
        assert(sets.drop_last().push(sets.last()) == sets);
        vstd::seq_lib::to_multiset_build(sets.drop_last(), sets.last());
    }
}

/// Tile-sets already in the order of their first gids stay as they are.
pub proof fn lemma_sort_keeps_sorted(sets: Seq<TileSet>)
    requires
        sorted_by_first_gid(sets),
    ensures
        sort_by_first_gid(sets) == sets,
    decreases sets.len(),
{
    if sets.len() > 0 {
        let init = sets.drop_last();
        assert(sorted_by_first_gid(init));
        lemma_sort_keeps_sorted(init);
        lemma_insertion_point_bounds(init, sets.last().firstgid);
        let p = insertion_point(init, sets.last().firstgid);
        if p < init.len() {
            assert(init[p].firstgid <= sets.last().firstgid);
        }
        assert(init.insert(init.len() as int, sets.last()) == sets);
    }
}

/// Puts `ts` into `sorted`, after the tile-sets whose first gid is not above
/// its own.
fn insert_tileset(sorted: &mut Vec<TileSet>, ts: TileSet)
    ensures
        final(sorted)@ == insert_by_first_gid(old(sorted)@, ts),
{
    let key = ts.firstgid;
    let mut p: usize = 0;
    assert(sorted@.skip(0) == sorted@);
    while p < sorted.len() && sorted[p].firstgid <= key
        invariant
            p <= sorted@.len(),
            insertion_point(sorted@, key) == p + insertion_point(sorted@.skip(p as int), key),
        decreases sorted@.len() - p,
    {
        assert(sorted@.skip(p as int).drop_first() == sorted@.skip(p + 1));
        p = p + 1;
    }
    assert(insertion_point(sorted@.skip(p as int), key) == 0);
    sorted.insert(p, ts);
}

/// `sets` in the order of their first gids, equal first gids keeping their
/// order.
fn sort_tilesets(sets: Vec<TileSet>) -> (r: Vec<TileSet>)
    ensures
        r@ == sort_by_first_gid(sets@),
{
    let ghost all = sets@;
    let mut sorted: Vec<TileSet> = Vec::new();
    for ts in it: sets.into_iter()
        invariant
            it.seq() == all,
            sorted@ == sort_by_first_gid(all.take(it.index() as int)),
    {
        assert(all.take(it.index() + 1).drop_last() == all.take(it.index() as int));
        insert_tileset(&mut sorted, ts);
    }
    assert(all.take(all.len() as int) == all);
    sorted
}

proof fn lemma_owner_in_range(sets: Seq<TileSet>, g: int)
    ensures
        owner_among(sets, g) matches Some(i) ==> 0 <= i < sets.len() && owns_gid(sets[i], g),
    decreases sets.len(),
{
    if sets.len() > 0 {
        lemma_owner_in_range(sets.drop_last(), g);
    }
}

proof fn lemma_no_owner_above_highest(sets: Seq<TileSet>, g: int)
    requires
        g > highest_gid(sets),
    ensures
        owner_among(sets, g) is None,
    decreases sets.len(),
{
    if sets.len() > 0 {
        lemma_no_owner_above_highest(sets.drop_last(), g);
    }
}

/// The gid index of tile-sets in the order of their first gids.
#[verifier::loop_isolation(false)]
fn build_gid_index(sets: &Vec<TileSet>) -> (r: Vec<Option<usize>>)
    requires
        sorted_by_first_gid(sets@),
    ensures
        r@ == gid_index_of(sets@),
{
    let mut index: Vec<Option<usize>> = Vec::new();
    index.push(None);
    let n = sets.len();
    let mut i: usize = 0;
    assert(index@ == gid_index_of(sets@.take(0)));
    while i < n
        invariant
            i <= n,
            index@ == gid_index_of(sets@.take(i as int)),
            forall|g: int|
                0 < g < index@.len() && #[trigger] index@[g] is None ==> i > 0 && g < sets@[i
                    - 1].firstgid,
        decreases n - i,
    {
        let ghost prev = sets@.take(i as int);
        let ghost next = sets@.take(i + 1);
        let ghost l0: int = index@.len() as int;
        assert(next.drop_last() == prev);
        let ts = &sets[i];
        let first = ts.firstgid;
        proof {
            assert forall|g: int| 0 <= g < l0 implies index@[g] == gid_slot_of(next, g) by {
                if owner_among(prev, g) is None && g > 0 {
                    assert(index@[g] is None);
                    assert(sets@[i - 1].firstgid <= first);
                }
            }
        }
        {
            let last: u64 = first as u64 + ts.last_id() as u64;
            let top: u64 = if last <= u32::MAX as u64 {
                last
            } else {
                u32::MAX as u64
            };
            assert(top == top_gid(sets@[i as int]));
            while (index.len() as u64) < first as u64
                invariant
                    l0 <= index@.len() <= (if l0 > first {
                        l0
                    } else {
                        first as int
                    }),
                    forall|g: int| 0 <= g < index@.len() ==> index@[g] == gid_slot_of(next, g),
                    forall|g: int|
                        0 < g < index@.len() && #[trigger] index@[g] is None ==> g < first,
                decreases first - index@.len(),
            {
                proof {
                    let g = index@.len() as int;
                    lemma_no_owner_above_highest(prev, g);
                }
                index.push(None);
            }
            while (index.len() as u64) <= top
                invariant
                    l0 <= index@.len() <= (if l0 > top + 1 {
                        l0
                    } else {
                        top + 1
                    }),
                    index@.len() >= first,
                    forall|g: int| 0 <= g < index@.len() ==> index@[g] == gid_slot_of(next, g),
                    forall|g: int|
                        0 < g < index@.len() && #[trigger] index@[g] is None ==> g < first,
                decreases top + 1 - index@.len(),
            {
                proof {
                    let g = index@.len() as int;
                    lemma_no_owner_above_highest(prev, g);
                    assert(owns_gid(sets@[i as int], g));
                }
                index.push(Some(i));
            }
        }
        assert(index@ == gid_index_of(next));
        i = i + 1;
    }
    assert(sets@.take(n as int) == sets@);
    index
}

/// A map made of tiles: its grid, its tile-sets, its layer of tiles and its
/// layers of objects.
#[derive(Clone, Debug, PartialEq, Eq)]
pub struct TileMap {
    /// The tile-sets, in the order of their first gids once normalized.
    pub tilesets: Vec<TileSet>,
    /// For each global id, the position of the tile-set that owns it; kept
    /// up to date by `normalize`.
    pub tileset_indexes: Vec<Option<usize>>,
    /// Size of the map in tiles.
    pub size: Vector2,
    /// Size of the map's tiles in pixels.
    pub tile_size: Vector2,
    /// Global ids of the map's tiles, row after row.
    pub tiles: Vec<u32>,
    /// The layers of objects.
    pub object_groups: Vec<ObjectGroup>,
    /// Shape of the grid.
    pub orientation: Orientation,
    /// Axis along which rows or columns are shifted.
    pub stagger_axis: StaggerAxis,
}

impl TileMap {
    /// The position of the tile-set that the gid index gives for `g`.
    pub open spec fn gid_slot(&self, g: int) -> Option<int> {
        if 0 <= g < self.tileset_indexes@.len() {
            match self.tileset_indexes@[g] {
                Some(i) => if i < self.tilesets@.len() {
                    Some(i as int)
                } else {
                    None
                },
                None => None,
            }
        } else {
            None
        }
    }

    /// The tile-sets are in the order of their first gids and the gid index
    /// is theirs.
    pub open spec fn is_normalized(&self) -> bool {
        sorted_by_first_gid(self.tilesets@) && self.tileset_indexes@ == gid_index_of(
            self.tilesets@,
        )
    }

    /// `m` has the fields of `self` but for its tile-sets and gid index.
    pub open spec fn same_layers(&self, m: TileMap) -> bool {
        &&& m.size == self.size
        &&& m.tile_size == self.tile_size
        &&& m.tiles == self.tiles
        &&& m.object_groups == self.object_groups
        &&& m.orientation == self.orientation
        &&& m.stagger_axis == self.stagger_axis
    }

    /// Adds `tileset` after the others, leaving the gid index as it is.
    pub(crate) fn add_tileset_without_reordering(&mut self, tileset: TileSet)
        ensures
            final(self).tilesets@ == old(self).tilesets@.push(tileset),
            final(self).tileset_indexes == old(self).tileset_indexes,
            old(self).same_layers(*final(self)),
    {
        self.tilesets.push(tileset);
    }

    /// Puts the tile-sets in the order of their first gids, tile-sets of
    /// equal first gids keeping their order, and builds the gid index anew.
    pub fn normalize(&mut self)
        ensures
            final(self).tilesets@ == sort_by_first_gid(old(self).tilesets@),
            final(self).tilesets@.to_multiset() == old(self).tilesets@.to_multiset(),
            final(self).is_normalized(),
            old(self).same_layers(*final(self)),
    {
        let mut sets: Vec<TileSet> = Vec::new();
        std::mem::swap(&mut sets, &mut self.tilesets);
        let sorted = sort_tilesets(sets);
        proof {
            lemma_sort_by_first_gid(old(self).tilesets@);
        }
        self.tileset_indexes = build_gid_index(&sorted);
        self.tilesets = sorted;
    }

    /// The tile-sets of the map.
    pub fn tilesets(&self) -> (r: &[TileSet])
        ensures
            r@ == self.tilesets@,
    {
        self.tilesets.as_slice()
    }

    /// The tile-sets of the map, to be changed in place; the gid index is
    /// left as it is.
    pub fn tilesets_mut(&mut self) -> (r: &mut [TileSet])
        ensures
            r@ == old(self).tilesets@,
            final(self).tilesets@ == final(r)@,
            final(self).tileset_indexes == old(self).tileset_indexes,
            old(self).same_layers(*final(self)),
    {
        self.tilesets.as_mut_slice()
    }

    /// Adds `tileset` to the map and normalizes it.
    pub fn add_tileset(&mut self, tileset: TileSet)
        ensures
            final(self).tilesets@ == sort_by_first_gid(old(self).tilesets@.push(tileset)),
            final(self).is_normalized(),
            old(self).same_layers(*final(self)),
    {
        self.add_tileset_without_reordering(tileset);
        self.normalize();
    }

    /// Adds the tile-sets `tilesets` to the map and normalizes it.
    pub fn add_tilesets(&mut self, tilesets: Vec<TileSet>)
        ensures
            final(self).tilesets@ == sort_by_first_gid(old(self).tilesets@ + tilesets@),
            final(self).is_normalized(),
            old(self).same_layers(*final(self)),
    {
        let mut tilesets = tilesets;
        self.tilesets.append(&mut tilesets);
        self.normalize();
    }

    /// The tile-set that owns the global id `gid`.
    pub fn get_tileset(&self, gid: u32) -> (r: Option<&TileSet>)
        ensures
            match self.gid_slot(gid as int) {
                Some(i) => r matches Some(t) && *t == self.tilesets@[i],
                None => r is None,
            },
            self.is_normalized() ==> match owner_among(self.tilesets@, gid as int) {
                Some(i) => r matches Some(t) && *t == self.tilesets@[i],
                None => r is None,
            },
    {
        proof {
            lemma_normalized_slot(*self, gid as int);
        }
        let g = gid as usize;
        if g < self.tileset_indexes.len() {
            match self.tileset_indexes[g] {
                Some(i) => if i < self.tilesets.len() {
                    Some(&self.tilesets[i])
                } else {
                    None
                },
                None => None,
            }
        } else {
            None
        }
    }

    /// The tile-set that owns the global id `gid`, to be changed in place;
    /// the gid index is left as it is.
    pub fn get_tileset_mut(&mut self, gid: u32) -> (r: Option<&mut TileSet>)
        ensures
            match old(self).gid_slot(gid as int) {
                Some(i) => r is Some && *r.unwrap() == old(self).tilesets@[i]
                    && final(self).tilesets@ == old(self).tilesets@.update(i, *final(r.unwrap())),
                None => r is None && final(self).tilesets == old(self).tilesets,
            },
            final(self).tileset_indexes == old(self).tileset_indexes,
            old(self).same_layers(*final(self)),
    {
        let g = gid as usize;
        if g < self.tileset_indexes.len() {
            match self.tileset_indexes[g] {
                Some(i) => if i < self.tilesets.len() {
                    Some(&mut self.tilesets[i])
                } else {
                    None
                },
                None => None,
            }
        } else {
            None
        }
    }

    /// The tile-set with the highest first gid, once normalized.
    pub fn last_tileset(&self) -> (r: Option<&TileSet>)
        ensures
            self.tilesets@.len() == 0 ==> r is None,
            self.tilesets@.len() > 0 ==> (r matches Some(t) && *t
                == self.tilesets@.last()),
    {
        if self.tilesets.len() == 0 {
            None
        } else {
            Some(&self.tilesets[self.tilesets.len() - 1])
        }
    }
}

impl Default for TileMap {
    /// An empty orthogonal map without stagger axis, already normalized.
    fn default() -> (r: TileMap)
        ensures
            r.tilesets@.len() == 0,
            r.is_normalized(),
            r.size == (Vector2 { x: 0, y: 0 }),
            r.tile_size == (Vector2 { x: 0, y: 0 }),
            r.tiles@.len() == 0,
            r.object_groups@.len() == 0,
            r.orientation == Orientation::Orthogonal,
            r.stagger_axis == StaggerAxis::NoAxis,
    {
        let mut tileset_indexes: Vec<Option<usize>> = Vec::new();
        tileset_indexes.push(None);
        let r = TileMap {
            tilesets: Vec::new(),
            tileset_indexes,
            size: Vector2 { x: 0, y: 0 },
            tile_size: Vector2 { x: 0, y: 0 },
            tiles: Vec::new(),
            object_groups: Vec::new(),
            orientation: Orientation::Orthogonal,
            stagger_axis: StaggerAxis::NoAxis,
        };
        assert(r.tileset_indexes@ == gid_index_of(r.tilesets@));
        r
    }
}

/// In a normalized map the gid index gives, for every global id, the first
/// tile-set that owns it, or nothing when none does.
pub proof fn lemma_normalized_slot(m: TileMap, g: int)
    ensures
        m.is_normalized() ==> m.gid_slot(g) == owner_among(m.tilesets@, g),
{
    if m.is_normalized() {
        let sets = m.tilesets@;
        lemma_owner_in_range(sets, g);
        if g > highest_gid(sets) {
            lemma_no_owner_above_highest(sets, g);
        } else if 0 <= g {
            assert(m.tileset_indexes@[g] == gid_slot_of(sets, g));
            if let Some(i) = owner_among(sets, g) {
                assert(m.tilesets.len() == sets.len());
                assert((i as usize) as int == i);
            }
        }
    }
}

/// Ranges of gids of distinct tile-sets of `sets` do not meet.
pub open spec fn ranges_disjoint(sets: Seq<TileSet>) -> bool {
    forall|a: int, b: int, g: int|
        0 <= a < sets.len() && 0 <= b < sets.len() && a != b && #[trigger] owns_gid(sets[a], g)
            ==> !#[trigger] owns_gid(sets[b], g)
}

proof fn lemma_sole_owner(sets: Seq<TileSet>, i: int, g: int)
    requires
        ranges_disjoint(sets),
        0 <= i < sets.len(),
        owns_gid(sets[i], g),
    ensures
        owner_among(sets, g) == Some(i),
    decreases sets.len(),
{
    lemma_owner_in_range(sets, g);
    if i < sets.len() - 1 {
        let init = sets.drop_last();
        assert(ranges_disjoint(init)) by {
            assert forall|a: int, b: int, h: int|
                0 <= a < init.len() && 0 <= b < init.len() && a != b && #[trigger] owns_gid(
                    init[a],
                    h,
                ) implies !#[trigger] owns_gid(init[b], h) by {
                assert(init[a] == sets[a] && init[b] == sets[b]);
            }
        }
        lemma_sole_owner(init, i, g);
    } else {
        lemma_owner_in_range(sets.drop_last(), g);
        if let Some(j) = owner_among(sets.drop_last(), g) {
            assert(sets.drop_last()[j] == sets[j]);
        }
    }
}

/// In a normalized map whose tile-sets' ranges do not meet, every global id
/// other than 0 in the range of a tile-set resolves to that tile-set.
pub proof fn lemma_gid_in_range_resolves(m: TileMap, i: int, g: u32)
    requires
        m.is_normalized(),
        ranges_disjoint(m.tilesets@),
        0 <= i < m.tilesets@.len(),
        0 < g,
        m.tilesets@[i].firstgid <= g <= m.tilesets@[i].spec_last_gid(),
    ensures
        m.gid_slot(g as int) == Some(i),
{
    lemma_sole_owner(m.tilesets@, i, g as int);
    lemma_normalized_slot(m, g as int);
}

/// In a normalized map, a global id in the range of no tile-set resolves to
/// nothing.
pub proof fn lemma_gid_outside_ranges_resolves_to_nothing(m: TileMap, g: u32)
    requires
        m.is_normalized(),
        forall|i: int|
            0 <= i < m.tilesets@.len() ==> !(#[trigger] m.tilesets@[i].firstgid <= g
                <= m.tilesets@[i].spec_last_gid()),
    ensures
        m.gid_slot(g as int) is None,
{
    lemma_owner_in_range(m.tilesets@, g as int);
    lemma_normalized_slot(m, g as int);
}

/// Normalizing a normalized map changes neither the order of its tile-sets
/// nor its gid index.
pub proof fn lemma_normalize_idempotent(m: TileMap)
    requires
        m.is_normalized(),
    ensures
        sort_by_first_gid(m.tilesets@) == m.tilesets@,
        gid_index_of(sort_by_first_gid(m.tilesets@)) == m.tileset_indexes@,
{
    lemma_sort_keeps_sorted(m.tilesets@);
}

} // verus!
