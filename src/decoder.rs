//! The tag decoder: reads the attributes and the text of the document's tags
//! into the entities of the scope that is open.

use vstd::prelude::*;
use vstd::utf8::{decode_utf8, valid_utf8};

use crate::data::{Image, Object, ObjectGroup, Tile, TileSet, TilesOrigin};
use crate::map::TileMap;
use crate::text::{
    csv_gids, decimal_u32, decode_csv_data, lossy_utf8, register_data, spells, tag_spells, utf8_lossy,
    utf8_text, FieldValue,
};

verus! {

/// An attribute of a tag: its name and its raw value, as bytes.
#[derive(Clone, Debug, PartialEq, Eq)]
pub struct Attribute {
    pub key: Vec<u8>,
    pub value: Vec<u8>,
}

impl Attribute {
    /// The attribute `key="value"`.
    pub fn new(key: Vec<u8>, value: Vec<u8>) -> (r: Attribute)
        ensures
            r.key == key,
            r.value == value,
    {
        Attribute { key, value }
    }
}

/// The text of the value of `a`, when it is valid UTF-8.
pub open spec fn value_text(a: Attribute) -> Option<Seq<char>> {
    if valid_utf8(a.value@) {
        Some(decode_utf8(a.value@))
    } else {
        None
    }
}

/// The attribute `a` is named `key` and its value is a text that stands for
/// a value of `T`.
pub open spec fn gives_value<T: FieldValue>(a: Option<Attribute>, key: Seq<char>) -> bool {
    &&& a matches Some(a)
    &&& tag_spells(a.key@, key)
    &&& value_text(a) matches Some(s)
    &&& T::read(s) is Some
}

/// What the attributes `attrs` leave in a field of type `T` named `key` that
/// held `v`: the value of the last attribute named `key` whose text stands
/// for a value, or `v` when there is none. Attributes that could not be read
/// (`None`) are skipped.
pub open spec fn field_value<T: FieldValue>(
    attrs: Seq<Option<Attribute>>,
    key: Seq<char>,
    v: T,
) -> T
    decreases attrs.len(),
{
    if attrs.len() == 0 {
        v
    } else if gives_value::<T>(attrs.last(), key) {
        T::read(value_text(attrs.last()->0)->0)->0
    } else {
        field_value(attrs.drop_last(), key, v)
    }
}

/// What the attributes `attrs` leave in a text field named `key` that held
/// `v`: the text of the last attribute named `key` whose value is valid
/// UTF-8, or `v` when there is none.
pub open spec fn text_field(attrs: Seq<Option<Attribute>>, key: Seq<char>, v: Seq<char>) -> Seq<
    char,
>
    decreases attrs.len(),
{
    if attrs.len() == 0 {
        v
    } else if attrs.last() matches Some(a) && tag_spells(a.key@, key) && value_text(a) is Some {
        value_text(attrs.last()->0)->0
    } else {
        text_field(attrs.drop_last(), key, v)
    }
}

/// Sets `buffer` from the attribute `a` when it is named `key`.
fn register_field<T: FieldValue>(buffer: &mut T, a: &Attribute, text: &String, key: &str)
    requires
        text@ == decode_utf8(a.value@),
        valid_utf8(a.value@),
    ensures
        *final(buffer) == if gives_value::<T>(Some(*a), key@) {
            T::read(text@)->0
        } else {
            *old(buffer)
        },
{
    if spells(a.key.as_slice(), key) {
        register_data(buffer, text.as_str());
    }
}

/// `new` is `old` with the attributes `attrs` of the `<map>` tag read in.
pub open spec fn map_attributes_read(attrs: Seq<Option<Attribute>>, old: TileMap, new: TileMap) -> bool {
    &&& new.size.x == field_value(attrs, "width"@, old.size.x)
    &&& new.size.y == field_value(attrs, "height"@, old.size.y)
    &&& new.tile_size.x == field_value(attrs, "tilewidth"@, old.tile_size.x)
    &&& new.tile_size.y == field_value(attrs, "tileheight"@, old.tile_size.y)
    &&& new.orientation == field_value(attrs, "orientation"@, old.orientation)
    &&& new.stagger_axis == field_value(attrs, "staggeraxis"@, old.stagger_axis)
    &&& new.tilesets == old.tilesets
    &&& new.tileset_indexes == old.tileset_indexes
    &&& new.tiles == old.tiles
    &&& new.object_groups == old.object_groups
}

/// Reads the attributes of the `<map>` tag into `map`.
pub fn map_tag(attributes: &[Option<Attribute>], map: &mut TileMap)
    ensures
        map_attributes_read(attributes@, *old(map), *final(map)),
{
    let mut i: usize = 0;
    while i < attributes.len()
        invariant
            i <= attributes@.len(),
            map.size.x == field_value(attributes@.take(i as int), "width"@, old(map).size.x),
            map.size.y == field_value(attributes@.take(i as int), "height"@, old(map).size.y),
            map.tile_size.x == field_value(
                attributes@.take(i as int),
                "tilewidth"@,
                old(map).tile_size.x,
            ),
            map.tile_size.y == field_value(
                attributes@.take(i as int),
                "tileheight"@,
                old(map).tile_size.y,
            ),
            map.orientation == field_value(
                attributes@.take(i as int),
                "orientation"@,
                old(map).orientation,
            ),
            map.stagger_axis == field_value(
                attributes@.take(i as int),
                "staggeraxis"@,
                old(map).stagger_axis,
            ),
            map.tilesets == old(map).tilesets,
            map.tileset_indexes == old(map).tileset_indexes,
            map.tiles == old(map).tiles,
            map.object_groups == old(map).object_groups,
        decreases attributes@.len() - i,
    {
        let ghost before = attributes@.take(i as int);
        assert(attributes@.take(i + 1).drop_last() == before);
        if let Some(a) = &attributes[i] {
            if let Some(text) = utf8_text(a.value.as_slice()) {
                register_field(&mut map.size.x, a, &text, "width");
                register_field(&mut map.size.y, a, &text, "height");
                register_field(&mut map.tile_size.x, a, &text, "tilewidth");
                register_field(&mut map.tile_size.y, a, &text, "tileheight");
                register_field(&mut map.orientation, a, &text, "orientation");
                register_field(&mut map.stagger_axis, a, &text, "staggeraxis");
            }
        }
        i = i + 1;
    }
    assert(attributes@.take(attributes@.len() as int) == attributes@);
}

/// Sets the text `buffer` from the attribute `a` when it is named `key`.
fn register_text(buffer: &mut String, a: &Attribute, text: &String, key: &str)
    requires
        text@ == decode_utf8(a.value@),
        valid_utf8(a.value@),
    ensures
        final(buffer)@ == if tag_spells(a.key@, key@) {
            text@
        } else {
            old(buffer)@
        },
{
    if spells(a.key.as_slice(), key) {
        *buffer = text.clone();
    }
}

/// `image` is what the attributes `attrs` of an `<image>` tag describe.
pub open spec fn image_read(attrs: Seq<Option<Attribute>>, image: Image) -> bool {
    &&& image.source@ == text_field(attrs, "source"@, Seq::empty())
    &&& image.size.x == field_value(attrs, "width"@, 0u32)
    &&& image.size.y == field_value(attrs, "height"@, 0u32)
}

/// Reads the attributes of an `<image>` tag.
pub fn extract_image(attributes: &[Option<Attribute>]) -> (r: Image)
    ensures
        image_read(attributes@, r),
{
    let mut image = Image::default();
    let mut i: usize = 0;
    while i < attributes.len()
        invariant
            i <= attributes@.len(),
            image.source@ == text_field(attributes@.take(i as int), "source"@, Seq::empty()),
            image.size.x == field_value(attributes@.take(i as int), "width"@, 0u32),
            image.size.y == field_value(attributes@.take(i as int), "height"@, 0u32),
        decreases attributes@.len() - i,
    {
        assert(attributes@.take(i + 1).drop_last() == attributes@.take(i as int));
        if let Some(a) = &attributes[i] {
            if let Some(text) = utf8_text(a.value.as_slice()) {
                register_text(&mut image.source, a, &text, "source");
                register_field(&mut image.size.x, a, &text, "width");
                register_field(&mut image.size.y, a, &text, "height");
            }
        }
        i = i + 1;
    }
    assert(attributes@.take(attributes@.len() as int) == attributes@);
    image
}

/// `new` is `old` with the attributes `attrs` of a `<tileset>` tag read in.
pub open spec fn tileset_attributes_read(
    attrs: Seq<Option<Attribute>>,
    old: TileSet,
    new: TileSet,
) -> bool {
    &&& new.firstgid == field_value(attrs, "firstgid"@, old.firstgid)
    &&& new.size.x == field_value(attrs, "tilewidth"@, old.size.x)
    &&& new.size.y == field_value(attrs, "tileheight"@, old.size.y)
    &&& new.count == field_value(attrs, "tilecount"@, old.count)
    &&& new.columns == field_value(attrs, "columns"@, old.columns)
    &&& new.name@ == text_field(attrs, "name"@, old.name@)
    &&& new.origin == old.origin
}

/// Reads the attributes of a `<tileset>` tag into `tileset`.
pub fn tileset_tag(attributes: &[Option<Attribute>], tileset: &mut TileSet)
    ensures
        tileset_attributes_read(attributes@, *old(tileset), *final(tileset)),
{
    let mut i: usize = 0;
    while i < attributes.len()
        invariant
            i <= attributes@.len(),
            tileset.firstgid == field_value(
                attributes@.take(i as int),
                "firstgid"@,
                old(tileset).firstgid,
            ),
            tileset.size.x == field_value(
                attributes@.take(i as int),
                "tilewidth"@,
                old(tileset).size.x,
            ),
            tileset.size.y == field_value(
                attributes@.take(i as int),
                "tileheight"@,
                old(tileset).size.y,
            ),
            tileset.count == field_value(attributes@.take(i as int), "tilecount"@, old(tileset).count),
            tileset.columns == field_value(
                attributes@.take(i as int),
                "columns"@,
                old(tileset).columns,
            ),
            tileset.name@ == text_field(attributes@.take(i as int), "name"@, old(tileset).name@),
            tileset.origin == old(tileset).origin,
        decreases attributes@.len() - i,
    {
        assert(attributes@.take(i + 1).drop_last() == attributes@.take(i as int));
        if let Some(a) = &attributes[i] {
            if let Some(text) = utf8_text(a.value.as_slice()) {
                register_field(&mut tileset.firstgid, a, &text, "firstgid");
                register_field(&mut tileset.size.x, a, &text, "tilewidth");
                register_field(&mut tileset.size.y, a, &text, "tileheight");
                register_field(&mut tileset.count, a, &text, "tilecount");
                register_field(&mut tileset.columns, a, &text, "columns");
                register_text(&mut tileset.name, a, &text, "name");
            }
        }
        i = i + 1;
    }
    assert(attributes@.take(attributes@.len() as int) == attributes@);
}

/// `new` is `old` with its tiles cut from the image that the attributes
/// `attrs` describe.
pub open spec fn tileset_image_read(attrs: Seq<Option<Attribute>>, old: TileSet, new: TileSet) -> bool {
    &&& new.origin matches TilesOrigin::Image(image) && image_read(attrs, image)
    &&& new.firstgid == old.firstgid
    &&& new.size == old.size
    &&& new.count == old.count
    &&& new.columns == old.columns
    &&& new.name == old.name
}

/// Reads the attributes of the `<image>` of a `<tileset>`: the tiles are cut
/// from that image.
pub fn tileset_image_tag(attributes: &[Option<Attribute>], tileset: &mut TileSet)
    ensures
        tileset_image_read(attributes@, *old(tileset), *final(tileset)),
{
    tileset.origin = TilesOrigin::Image(extract_image(attributes));
}

/// The first attribute of `attrs` named `key`.
pub open spec fn first_named(attrs: Seq<Option<Attribute>>, key: Seq<char>) -> Option<Attribute>
    decreases attrs.len(),
{
    if attrs.len() == 0 {
        None
    } else if attrs[0] matches Some(a) && tag_spells(a.key@, key) {
        attrs[0]
    } else {
        first_named(attrs.drop_first(), key)
    }
}

/// `new` is `old` with the attributes `attrs` of a `<tile>` tag read in: the
/// id is read from the first attribute `id`, and kept when that one does not
/// write an unsigned number.
pub open spec fn tile_attributes_read(attrs: Seq<Option<Attribute>>, old: Tile, new: Tile) -> bool {
    &&& new.id == match first_named(attrs, "id"@) {
        Some(a) => match decimal_u32(lossy_utf8(a.value@)) {
            Some(v) => v,
            None => old.id,
        },
        None => old.id,
    }
    &&& match first_named(attrs, "id"@) {
        Some(a) => valid_utf8(a.value@) ==> new.id == match decimal_u32(decode_utf8(a.value@)) {
            Some(v) => v,
            None => old.id,
        },
        None => true,
    }
    &&& new.image == old.image
}

/// Reads the attributes of a `<tile>` tag into `tile`: its id is read from
/// the first attribute `id`, and left as it is when that one does not write
/// an unsigned number.
pub fn tile_tag(attributes: &[Option<Attribute>], tile: &mut Tile)
    ensures
        tile_attributes_read(attributes@, *old(tile), *final(tile)),
{
    let mut i: usize = 0;
    assert(attributes@.skip(0) == attributes@);
    while i < attributes.len()
        invariant
            i <= attributes@.len(),
            first_named(attributes@, "id"@) == first_named(attributes@.skip(i as int), "id"@),
            *tile == *old(tile),
        decreases attributes@.len() - i,
    {
        assert(attributes@.skip(i as int).drop_first() == attributes@.skip(i + 1));
        if let Some(a) = &attributes[i] {
            if spells(a.key.as_slice(), "id") {
                let text = utf8_lossy(a.value.as_slice());
                register_data(&mut tile.id, text.as_str());
                return;
            }
        }
        i = i + 1;
    }
}

/// Reads the attributes of the `<image>` of a `<tile>`: the tile's own image.
pub fn tile_image_tag(attributes: &[Option<Attribute>], tile: &mut Tile)
    ensures
        image_read(attributes@, final(tile).image),
        final(tile).id == old(tile).id,
{
    tile.image = extract_image(attributes);
}

/// `new` is `old` with the attributes `attrs` of an `<objectgroup>` tag read
/// in.
pub open spec fn group_attributes_read(
    attrs: Seq<Option<Attribute>>,
    old: ObjectGroup,
    new: ObjectGroup,
) -> bool {
    &&& new.id == field_value(attrs, "id"@, old.id)
    &&& new.name@ == text_field(attrs, "name"@, old.name@)
    &&& new.objects == old.objects
}

/// Reads the attributes of an `<objectgroup>` tag into `object_group`.
pub fn object_group_tag(attributes: &[Option<Attribute>], object_group: &mut ObjectGroup)
    ensures
        group_attributes_read(attributes@, *old(object_group), *final(object_group)),
{
    let mut i: usize = 0;
    while i < attributes.len()
        invariant
            i <= attributes@.len(),
            object_group.id == field_value(attributes@.take(i as int), "id"@, old(object_group).id),
            object_group.name@ == text_field(
                attributes@.take(i as int),
                "name"@,
                old(object_group).name@,
            ),
            object_group.objects == old(object_group).objects,
        decreases attributes@.len() - i,
    {
        assert(attributes@.take(i + 1).drop_last() == attributes@.take(i as int));
        if let Some(a) = &attributes[i] {
            if let Some(text) = utf8_text(a.value.as_slice()) {
                register_field(&mut object_group.id, a, &text, "id");
                register_text(&mut object_group.name, a, &text, "name");
            }
        }
        i = i + 1;
    }
    assert(attributes@.take(attributes@.len() as int) == attributes@);
}

/// `new` is `old` with the attributes `attrs` of an `<object>` tag read in.
pub open spec fn object_attributes_read(attrs: Seq<Option<Attribute>>, old: Object, new: Object) -> bool {
    &&& new.id == field_value(attrs, "id"@, old.id)
    &&& new.gid == field_value(attrs, "gid"@, old.gid)
    &&& new.coords.x == field_value(attrs, "x"@, old.coords.x)
    &&& new.coords.y == field_value(attrs, "y"@, old.coords.y)
    &&& new.size.x == field_value(attrs, "width"@, old.size.x)
    &&& new.size.y == field_value(attrs, "height"@, old.size.y)
}

/// Reads the attributes of an `<object>` tag into `object`.
pub fn object_tag(attributes: &[Option<Attribute>], object: &mut Object)
    ensures
        object_attributes_read(attributes@, *old(object), *final(object)),
{
    let mut i: usize = 0;
    while i < attributes.len()
        invariant
            i <= attributes@.len(),
            object.id == field_value(attributes@.take(i as int), "id"@, old(object).id),
            object.gid == field_value(attributes@.take(i as int), "gid"@, old(object).gid),
            object.coords.x == field_value(attributes@.take(i as int), "x"@, old(object).coords.x),
            object.coords.y == field_value(attributes@.take(i as int), "y"@, old(object).coords.y),
            object.size.x == field_value(attributes@.take(i as int), "width"@, old(object).size.x),
            object.size.y == field_value(attributes@.take(i as int), "height"@, old(object).size.y),
        decreases attributes@.len() - i,
    {
        assert(attributes@.take(i + 1).drop_last() == attributes@.take(i as int));
        if let Some(a) = &attributes[i] {
            if let Some(text) = utf8_text(a.value.as_slice()) {
                register_field(&mut object.id, a, &text, "id");
                register_field(&mut object.gid, a, &text, "gid");
                register_field(&mut object.coords.x, a, &text, "x");
                register_field(&mut object.coords.y, a, &text, "y");
                register_field(&mut object.size.x, a, &text, "width");
                register_field(&mut object.size.y, a, &text, "height");
            }
        }
        i = i + 1;
    }
    assert(attributes@.take(attributes@.len() as int) == attributes@);
}

/// `new` is `old` with its tiles read from the text `bytes` of a layer's
/// `<data>`.
pub open spec fn data_text_read(bytes: Seq<u8>, old: TileMap, new: TileMap) -> bool {
    &&& new.tiles@ == csv_gids(lossy_utf8(bytes))
    &&& valid_utf8(bytes) ==> new.tiles@ == csv_gids(decode_utf8(bytes))
    &&& new.tilesets == old.tilesets
    &&& new.tileset_indexes == old.tileset_indexes
    &&& new.object_groups == old.object_groups
    &&& new.size == old.size
    &&& new.tile_size == old.tile_size
    &&& new.orientation == old.orientation
    &&& new.stagger_axis == old.stagger_axis
}

/// Reads the text of a layer's `<data>` into the map's tiles; bytes that are
/// not valid UTF-8 become replacement characters first.
pub fn data_text(bytes: &[u8], map: &mut TileMap)
    ensures
        data_text_read(bytes@, *old(map), *final(map)),
{
    let text = utf8_lossy(bytes);
    map.tiles = decode_csv_data(text.as_str());
}

} // verus!
