//! The entities of a map: images, tiles, tile-sets and objects.

use std::collections::BTreeMap;
use vstd::prelude::*;
use vstd::std_specs::btree::spec_keys_iter;
use vstd::std_specs::iter::IteratorSpec;

verus! {

/// A pair of sizes, in tiles or in pixels.
#[derive(Clone, Copy, Debug, PartialEq, Eq, Structural)]
pub struct Vector2 {
    pub x: u32,
    pub y: u32,
}

/// A position, in tiles or in pixels.
#[derive(Clone, Copy, Debug, PartialEq, Eq, Structural)]
pub struct Point2 {
    pub x: u32,
    pub y: u32,
}

/// An image file and its size in pixels; an empty source means no image.
#[derive(Clone, Debug, PartialEq, Eq)]
pub struct Image {
    /// Relative path of the image file.
    pub source: String,
    /// Size of the image in pixels.
    pub size: Vector2,
}

impl Image {
    /// An image read from `source`, of `size` pixels.
    pub fn new(source: &str, size: Vector2) -> (r: Image)
        ensures
            r.source@ == source@,
            r.size == size,
    {
        Image { source: source.to_owned(), size }
    }
}

impl Default for Image {
    fn default() -> (r: Image)
        ensures
            r.source@.len() == 0,
            r.size == (Vector2 { x: 0, y: 0 }),
    {
        Image { source: String::new(), size: Vector2 { x: 0, y: 0 } }
    }
}

/// A tile of a tile-set.
#[derive(Clone, Debug, PartialEq, Eq)]
pub struct Tile {
    /// Identifier of the tile within its tile-set.
    pub id: u32,
    /// The tile's own image, if it has one.
    pub image: Image,
}

impl Tile {
    /// The tile `id` with its image.
    pub fn new(id: u32, image: Image) -> (r: Tile)
        ensures
            r.id == id,
            r.image == image,
    {
        Tile { id, image }
    }
}

impl Tile {
    /// The tile has id 0 and no image.
    pub open spec fn is_blank(&self) -> bool {
        &&& self.id == 0
        &&& self.image.source@.len() == 0
        &&& self.image.size == (Vector2 { x: 0, y: 0 })
    }
}

impl Default for Tile {
    fn default() -> (r: Tile)
        ensures
            r.is_blank(),
    {
        Tile::new(0, Image::default())
    }
}

/// Where the tiles of a tile-set take their pixels from.
#[derive(Clone, Debug, PartialEq, Eq)]
pub enum TilesOrigin {
    /// All the tiles are cut from one image.
    Image(Image),
    /// Each tile has an image of its own; the tiles are keyed by their id.
    Collection(BTreeMap<u32, Tile>),
    /// The tiles have no image.
    Empty,
}

/// The tiles `tiles` keyed by their ids, a later tile replacing an earlier
/// one of the same id.
pub open spec fn keyed_tiles(tiles: Seq<Tile>) -> Map<u32, Tile>
    decreases tiles.len(),
{
    if tiles.len() == 0 {
        Map::empty()
    } else {
        keyed_tiles(tiles.drop_last()).insert(tiles.last().id, tiles.last())
    }
}

impl TilesOrigin {
    /// A collection that holds `tile` alone.
    pub fn new_collection(tile: Tile) -> (r: Self)
        ensures
            r matches TilesOrigin::Collection(c) && c@ == map![tile.id => tile],
    {
        let mut collection = BTreeMap::new();
        collection.insert(tile.id, tile);
        TilesOrigin::Collection(collection)
    }

    /// A collection of the tiles `tiles`, keyed by their ids.
    pub fn new_collection_from(tiles: Vec<Tile>) -> (r: Self)
        ensures
            r matches TilesOrigin::Collection(c) && c@ == keyed_tiles(tiles@),
    {
        let mut collection = BTreeMap::new();
        let ghost all = tiles@;
        for tile in it: tiles.into_iter()
            invariant
                it.seq() == all,
                collection@ == keyed_tiles(all.take(it.index() as int)),
        {
            assert(all.take(it.index() + 1).drop_last() == all.take(it.index() as int));
            collection.insert(tile.id, tile);
        }
        assert(all.take(all.len() as int) == all);
        TilesOrigin::Collection(collection)
    }
}

/// The tiles of `origin` once `tile` has been put in: the collection with
/// `tile` added, or replacing the tile of the same id; any other origin gives
/// way to a collection of `tile` alone.
pub open spec fn tiles_after_insert(origin: TilesOrigin, tile: Tile) -> Map<u32, Tile> {
    match origin {
        TilesOrigin::Collection(c) => c@.insert(tile.id, tile),
        _ => map![tile.id => tile],
    }
}

impl TilesOrigin {
    /// Puts `tile` in the collection. An origin that is not a collection is
    /// replaced by a new collection of `tile` alone.
    pub fn insert_collection(&mut self, tile: Tile)
        ensures
            *final(self) matches TilesOrigin::Collection(c) && c@ == tiles_after_insert(
                *old(self),
                tile,
            ),
    {
        match self {
            TilesOrigin::Collection(tiles) => {
                tiles.insert(tile.id, tile);
            },
            _ => *self = Self::new_collection(tile),
        }
    }
}

/// The highest key of `m`, or 0 when `m` is empty.
pub open spec fn max_key(m: Map<u32, Tile>) -> u32 {
    if exists|k: u32| m.contains_key(k) {
        choose|k: u32| m.contains_key(k) && forall|j: u32| m.contains_key(j) ==> j <= k
    } else {
        0
    }
}

/// A set of tiles of one pixel size, which owns the global ids from
/// `firstgid` to its last gid.
#[derive(Clone, Debug, PartialEq, Eq)]
pub struct TileSet {
    /// The global id of the tile-set's first tile.
    pub firstgid: u32,
    /// Size in pixels of the tiles.
    pub size: Vector2,
    /// Number of tiles in the tile-set.
    pub count: u32,
    /// Number of columns of tiles in the tile-set.
    pub columns: u32,
    /// Name of the tile-set.
    pub name: String,
    /// Where the tiles take their pixels from.
    pub origin: TilesOrigin,
}

impl TileSet {
    /// The highest local id of the tile-set: the highest key of a
    /// collection, else `count - 1`, or 0 when `count` is below 2.
    pub open spec fn spec_last_id(&self) -> u32 {
        match self.origin {
            TilesOrigin::Collection(c) => max_key(c@),
            _ => if self.count > 1 {
                (self.count - 1) as u32
            } else {
                0
            },
        }
    }

    /// The highest global id of the tile-set.
    pub open spec fn spec_last_gid(&self) -> int {
        self.firstgid + self.spec_last_id()
    }

    /// Number of rows of tiles, `None` when the tile-set has no columns.
    pub fn rows(&self) -> (r: Option<u32>)
        ensures
            r == (if self.columns == 0 {
                None
            } else {
                Some((self.count / self.columns) as u32)
            }),
    {
        if self.columns == 0 {
            None
        } else {
            Some(self.count / self.columns)
        }
    }

    /// The highest global id of the tile-set.
    pub fn last_gid(&self) -> (r: u32)
        requires
            self.spec_last_gid() <= u32::MAX,
        ensures
            r == self.spec_last_gid(),
    {
        self.firstgid + self.last_id()
    }

    /// The highest local id of the tile-set.
    pub fn last_id(&self) -> (r: u32)
        ensures
            r == self.spec_last_id(),
    {
        match &self.origin {
            TilesOrigin::Collection(c) => {
                let mut best: u32 = 0;
                let mut seen = false;
                let ghost keys = spec_keys_iter(c).remaining();
                for k in it: c.keys()
                    invariant
                        it.seq() == keys,
                        seen == (it.index() > 0),
                        !seen ==> best == 0,
                        forall|i: int| 0 <= i < it.index() ==> *#[trigger] it.seq()[i] <= best,
                        seen ==> exists|i: int| 0 <= i < it.index() && *it.seq()[i] == best,
                {
                    if !seen || *k > best {
                        best = *k;
                    }
                    seen = true;
                }
                proof {
                    assert(keys.unref().to_set() == c@.dom());
                    if exists|k: u32| c@.contains_key(k) {
                        let k = choose|k: u32| c@.contains_key(k);
                        assert(keys.unref().to_set().contains(k));
                        let i = choose|i: int| 0 <= i < keys.len() && *keys[i] == best;
                        assert(keys.unref()[i] == best);
                        assert(keys.unref().to_set().contains(best));
                        assert forall|j: u32| c@.contains_key(j) implies j <= best by {
                            assert(keys.unref().to_set().contains(j));
                            let l = choose|l: int| 0 <= l < keys.len() && keys.unref()[l] == j;
                            assert(*keys[l] == j);
                        }
                        let m = max_key(c@);
                        assert(c@.contains_key(m) && forall|j: u32| c@.contains_key(j) ==> j <= m);
                        assert(m <= best && best <= m);
                    } else if seen {
                        let i = choose|i: int| 0 <= i < keys.len() && *keys[i] == best;
                        assert(keys.unref()[i] == best);
                        assert(keys.unref().to_set().contains(best));
                        assert(c@.contains_key(best));
                    }
                }
                best
            },
            _ => if self.count > 1 {
                self.count - 1
            } else {
                0
            },
        }
    }
}

impl TileSet {
    /// The tile-set has the values of a tile-set with nothing set.
    pub open spec fn is_unset(&self) -> bool {
        &&& self.firstgid == u32::MAX
        &&& self.size == (Vector2 { x: 0, y: 0 })
        &&& self.count == 0
        &&& self.columns == 0
        &&& self.name@ == "unnamed"@
        &&& self.origin is Empty
    }
}

impl TileSet {
    /// Gives the tile-set the origin `origin` unless it already has one; says
    /// whether it did.
    pub fn set_origin_if_unset(&mut self, origin: TilesOrigin) -> (r: bool)
        ensures
            r == (old(self).origin is Empty),
            r ==> final(self).origin == origin,
            !r ==> final(self).origin == old(self).origin,
            final(self).firstgid == old(self).firstgid,
            final(self).size == old(self).size,
            final(self).count == old(self).count,
            final(self).columns == old(self).columns,
            final(self).name == old(self).name,
    {
        if let TilesOrigin::Empty = self.origin {
            self.origin = origin;
            true
        } else {
            false
        }
    }
}

/// The last local id of a tile-set that is not a collection and holds at
/// most one tile is 0; the last local id of a non-empty collection is its
/// highest key, whatever the count says.
pub proof fn lemma_last_id_boundaries(ts: TileSet)
    ensures
        match ts.origin {
            TilesOrigin::Collection(c) => c@.dom().len() > 0 ==> {
                &&& c@.contains_key(ts.spec_last_id())
                &&& forall|k: u32| c@.contains_key(k) ==> k <= ts.spec_last_id()
            },
            _ => ts.count <= 1 ==> ts.spec_last_id() == 0,
        },
{
    if let TilesOrigin::Collection(c) = ts.origin {
        let keys = c@.dom();
        if keys.len() > 0 {
            let r = |a: u32, b: u32| a <= b;
            assert(vstd::relations::total_ordering(r));
            keys.find_unique_maximal_ensures(r);
            let top = keys.find_unique_maximal(r);
            keys.lemma_maximal_equivalent_greatest(r, top);
            assert(vstd::relations::is_greatest(r, top, keys));
            assert forall|j: u32| c@.contains_key(j) implies j <= top by {
                assert(keys.contains(j));
                assert(r(j, top));
            }
            assert(c@.contains_key(top));
        }
    }
}

impl Default for TileSet {
    /// A tile-set with nothing set: its first gid is `u32::MAX`, so that it
    /// comes after every tile-set whose first gid was set.
    fn default() -> (r: TileSet)
        ensures
            r.is_unset(),
    {
        TileSet {
            firstgid: u32::MAX,
            size: Vector2 { x: 0, y: 0 },
            count: 0,
            columns: 0,
            name: "unnamed".to_owned(),
            origin: TilesOrigin::Empty,
        }
    }
}

/// An object placed freely on the map, in pixels; it may show a tile.
#[derive(Clone, Copy, Debug, PartialEq, Eq, Structural)]
pub struct Object {
    /// Identifier of the object.
    pub id: u32,
    /// Global id of the tile that the object shows; 0 when it shows none.
    pub gid: u32,
    /// Position of the object in pixels.
    pub coords: Point2,
    /// Size of the object in pixels.
    pub size: Vector2,
}

impl Object {
    /// The global id of the object's tile, unless it is 0.
    pub fn valid_gid(&self) -> (r: Option<u32>)
        ensures
            r == (if self.gid == 0 {
                None
            } else {
                Some(self.gid)
            }),
    {
        if self.gid == 0 {
            None
        } else {
            Some(self.gid)
        }
    }
}

impl Default for Object {
    fn default() -> (r: Object)
        ensures
            r == (Object {
                id: 0,
                gid: 0,
                coords: Point2 { x: 0, y: 0 },
                size: Vector2 { x: 0, y: 0 },
            }),
    {
        Object { id: 0, gid: 0, coords: Point2 { x: 0, y: 0 }, size: Vector2 { x: 0, y: 0 } }
    }
}

/// A layer of objects, kept in the order of the document, which is the order
/// in which they are drawn.
#[derive(Clone, Debug, PartialEq, Eq)]
pub struct ObjectGroup {
    /// Identifier of the layer.
    pub id: u32,
    /// Name of the layer.
    pub name: String,
    /// The objects of the layer.
    pub objects: Vec<Object>,
}

impl ObjectGroup {
    /// The group has id 0, no name and no object.
    pub open spec fn is_blank(&self) -> bool {
        &&& self.id == 0
        &&& self.name@.len() == 0
        &&& self.objects@.len() == 0
    }
}

impl Default for ObjectGroup {
    fn default() -> (r: ObjectGroup)
        ensures
            r.is_blank(),
    {
        ObjectGroup { id: 0, name: String::new(), objects: Vec::new() }
    }
}

} // verus!
