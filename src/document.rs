//! The document driver: turns a map document into a stream of events, with
//! the help of the `quick_xml` tokenizer, and builds the map from them.

use quick_xml::events::Event::{End, Eof, Start, Text};
use quick_xml::Reader;
use vstd::prelude::*;

use crate::data::{tiles_after_insert, TilesOrigin};
use crate::decoder::{
    data_text, data_text_read, group_attributes_read, image_read, map_attributes_read,
    map_tag, object_attributes_read, object_group_tag, object_tag, tile_attributes_read,
    tile_image_tag, tile_tag, tileset_attributes_read, tileset_image_read, tileset_image_tag,
    tileset_tag, Attribute,
};
use crate::data::Vector2;
use crate::grid::{Orientation, StaggerAxis};
use crate::map::{sort_by_first_gid, TileMap};
use crate::state::{is_child_state, parent_state, TMXState};

verus! {

/// Why a document could not be read.
#[derive(Clone, Copy, Debug, PartialEq, Eq, Structural)]
pub enum DecodeError {
    /// The tokenizer stopped on malformed text at this byte position.
    Syntax { position: usize },
    /// A closing tag closes no open tag.
    UnexpectedEnd,
    /// The document ends with tags still open.
    Unclosed,
}

/// An event of a map document, as plain values.
#[derive(Clone, Debug, PartialEq, Eq)]
pub enum DocEvent {
    /// An opening tag, with its name and attributes.
    Start { name: Vec<u8>, attributes: Vec<Option<Attribute>> },
    /// A tag that closes itself, with its name and attributes.
    Empty { name: Vec<u8>, attributes: Vec<Option<Attribute>> },
    /// Text between tags, as raw bytes.
    Text(Vec<u8>),
    /// A closing tag.
    End,
}

/// Names the events that the `quick_xml` tokenizer reads from the document
/// `data`, a tag that closes itself given as an opening and a closing tag;
/// `None` when the tokenizer stops on an error.
pub uninterp spec fn xml_events(data: Seq<u8>) -> Option<Seq<DocEvent>>;

/// Relies on `quick_xml::Reader::read_event` over the whole of `data`, with
/// self-closing tags expanded (`Reader::expand_empty_elements`): its opening
/// tags with their raw names and attributes, its texts as raw bytes and its
/// closing tags, or the byte position at which it stops on an error. The
/// attributes of a tag stop at the first malformed or repeated one, which is
/// given as `None`.
#[verifier::external_body]
fn tokenize(data: &[u8]) -> (r: Result<Vec<DocEvent>, usize>)
    ensures
        r is Ok <==> xml_events(data@) is Some,
        r matches Ok(events) ==> xml_events(data@) == Some(events@),
{
    let mut reader = Reader::from_reader(data);
    reader.expand_empty_elements(true);
    let mut events = Vec::new();
    loop {
        events.push(match reader.read_event(&mut Vec::new()) {
            Ok(Start(e)) => DocEvent::Start { name: e.name().into(), attributes: e.attributes().map(|a| a.ok().map(|a| Attribute::new(a.key.into(), a.value.into()))).collect() },
            Ok(Text(t)) => DocEvent::Text(t.escaped().into()),
            Ok(End(_)) => DocEvent::End,
            Ok(Eof) => return Ok(events),
            Ok(_) => continue,
            Err(_) => return Err(reader.buffer_position()),
        });
    }
}

/// From scope `s` and map `m`, the attributes `attrs` of the tag that opened
/// `s` lead to scope `s2` and map `m2`: they are read into what the scope
/// builds.
pub open spec fn tag_step(
    s: TMXState,
    m: TileMap,
    attrs: Seq<Option<Attribute>>,
    s2: TMXState,
    m2: TileMap,
) -> bool {
    match s {
        TMXState::AtMap => s2 is AtMap && map_attributes_read(attrs, m, m2),
        TMXState::TileSet(ts) => s2 matches TMXState::TileSet(t) && tileset_attributes_read(
            attrs,
            ts,
            t,
        ) && m2 == m,
        TMXState::TileSetImage(ts) => s2 matches TMXState::TileSetImage(t) && tileset_image_read(
            attrs,
            ts,
            t,
        ) && m2 == m,
        TMXState::Tile(ts, tile) => s2 matches TMXState::Tile(t, u) && t == ts
            && tile_attributes_read(attrs, tile, u) && m2 == m,
        TMXState::TileImage(ts, tile) => s2 matches TMXState::TileImage(t, u) && t == ts
            && image_read(attrs, u.image) && u.id == tile.id && m2 == m,
        TMXState::ObjectGroup(g) => s2 matches TMXState::ObjectGroup(h) && group_attributes_read(
            attrs,
            g,
            h,
        ) && m2 == m,
        TMXState::Object(g, o) => s2 matches TMXState::Object(h, p) && h == g
            && object_attributes_read(attrs, o, p) && m2 == m,
        _ => s2 == s && m2 == m,
    }
}

/// In scope `s`, the text `bytes` turns map `m` into `m2`: only the text of a
/// layer's `<data>` means something.
pub open spec fn text_step(s: TMXState, m: TileMap, bytes: Seq<u8>, m2: TileMap) -> bool {
    if s is Data {
        data_text_read(bytes, m, m2)
    } else {
        m2 == m
    }
}

/// Leaving scope `s` with map `m` leads to scope `s2` and map `m2`: what the
/// scope built goes to the scope around it, a tile-set or a group to the map,
/// a tile to its tile-set, an object to its group.
pub open spec fn leave_step(s: TMXState, m: TileMap, s2: TMXState, m2: TileMap) -> bool {
    match s {
        TMXState::TileSet(ts) => {
            &&& s2 is AtMap
            &&& m2.tilesets@ == m.tilesets@.push(ts)
            &&& m2.tileset_indexes == m.tileset_indexes
            &&& m.same_layers(m2)
        },
        TMXState::Tile(ts, tile) => {
            &&& s2 matches TMXState::TileSet(t) && t.origin matches TilesOrigin::Collection(c) && c@
                == tiles_after_insert(ts.origin, tile) && t.firstgid == ts.firstgid && t.size
                == ts.size && t.count == ts.count && t.columns == ts.columns && t.name == ts.name
            &&& m2 == m
        },
        TMXState::ObjectGroup(g) => {
            &&& s2 is AtMap
            &&& m2.object_groups@ == m.object_groups@.push(g)
            &&& m2.tilesets == m.tilesets
            &&& m2.tileset_indexes == m.tileset_indexes
            &&& m2.tiles == m.tiles
            &&& m2.size == m.size
            &&& m2.tile_size == m.tile_size
            &&& m2.orientation == m.orientation
            &&& m2.stagger_axis == m.stagger_axis
        },
        TMXState::Object(g, o) => {
            &&& s2 matches TMXState::ObjectGroup(h) && h.id == g.id && h.name == g.name && h.objects@
                == g.objects@.push(o)
            &&& m2 == m
        },
        _ => s2 == parent_state(s) && m2 == m,
    }
}

/// The event `e` leads from scope `s`, map `m` and `d` open tags to scope
/// `s2`, map `m2` and `d2` open tags.
pub open spec fn event_step(
    s: TMXState,
    m: TileMap,
    d: nat,
    e: DocEvent,
    s2: TMXState,
    m2: TileMap,
    d2: nat,
) -> bool {
    match e {
        DocEvent::Start { name, attributes } => d2 == d + 1 && exists|s1: TMXState|
            is_child_state(s, name@, s1) && tag_step(s1, m, attributes@, s2, m2),
        DocEvent::Empty { name, attributes } => d2 == d && exists|
            s1: TMXState,
            s3: TMXState,
            m3: TileMap,
        |
            is_child_state(s, name@, s1) && tag_step(s1, m, attributes@, s3, m3) && leave_step(
                s3,
                m3,
                s2,
                m2,
            ),
        DocEvent::Text(bytes) => d2 == d && s2 == s && text_step(s, m, bytes@, m2),
        DocEvent::End => d > 0 && d2 == d - 1 && leave_step(s, m, s2, m2),
    }
}

/// `n` is the map `m` once normalized.
pub open spec fn normalizes_to(m: TileMap, n: TileMap) -> bool {
    &&& n.tilesets@ == sort_by_first_gid(m.tilesets@)
    &&& n.is_normalized()
    &&& m.same_layers(n)
}

/// `m` is the map that decoding starts from: empty, orthogonal, without
/// stagger axis.
pub open spec fn is_fresh_map(m: TileMap) -> bool {
    &&& m.tilesets@.len() == 0
    &&& m.is_normalized()
    &&& m.size == (Vector2 { x: 0, y: 0 })
    &&& m.tile_size == (Vector2 { x: 0, y: 0 })
    &&& m.tiles@.len() == 0
    &&& m.object_groups@.len() == 0
    &&& m.orientation == Orientation::Orthogonal
    &&& m.stagger_axis == StaggerAxis::NoAxis
}

/// A step of decoding: the open scope, the map so far and the number of
/// open tags.
pub type Stage = (TMXState, TileMap, nat);

/// The stages `t` are those of decoding the events `evs`, which ends in `r`.
/// Decoding starts at the root scope with a fresh map and no tag open; the
/// `i`-th event leads from stage `i` to stage `i + 1`. It stops with
/// `UnexpectedEnd` at the first closing tag met with no tag open; after the
/// last event it gives `Unclosed` when tags are still open, and else the map
/// so built, normalized.
pub open spec fn decoding_trace(evs: Seq<DocEvent>, t: Seq<Stage>, r: Result<TileMap, DecodeError>) -> bool {
    let k = t.len() - 1;
    &&& 1 <= t.len() <= evs.len() + 1
    &&& t[0].0 is AtMap && is_fresh_map(t[0].1) && t[0].2 == 0
    &&& forall|i: int|
        0 <= i < k ==> !(evs[i] is End && t[i].2 == 0) && event_step(
            t[i].0,
            t[i].1,
            t[i].2,
            #[trigger] evs[i],
            t[i + 1].0,
            t[i + 1].1,
            t[i + 1].2,
        )
    &&& if k < evs.len() {
        evs[k] is End && t[k].2 == 0 && r == Err::<TileMap, DecodeError>(DecodeError::UnexpectedEnd)
    } else if t[k].2 > 0 {
        r == Err::<TileMap, DecodeError>(DecodeError::Unclosed)
    } else {
        r matches Ok(n) && normalizes_to(t[k].1, n)
    }
}

/// The events `evs` of a whole document decode to `r`.
pub open spec fn decodes_to(evs: Seq<DocEvent>, r: Result<TileMap, DecodeError>) -> bool {
    exists|t: Seq<Stage>| decoding_trace(evs, t, r)
}

/// The opening of a tag that has no meaning where it stands: only the
/// unknown scope that it opens, holding the scope around it, changes.
pub proof fn lemma_unknown_start(
    s: TMXState,
    m: TileMap,
    d: nat,
    name: Vec<u8>,
    attributes: Vec<Option<Attribute>>,
    s2: TMXState,
    m2: TileMap,
    d2: nat,
)
    requires
        is_child_state(s, name@, TMXState::Unknown(Box::new(s))),
        event_step(s, m, d, DocEvent::Start { name, attributes }, s2, m2, d2),
    ensures
        s2 == TMXState::Unknown(Box::new(s)),
        m2 == m,
        d2 == d + 1,
{
    let s1 = choose|s1: TMXState| is_child_state(s, name@, s1) && tag_step(s1, m, attributes@, s2, m2);
    assert(s1 == TMXState::Unknown(Box::new(s)));
}

/// A tag that has no meaning where it stands and closes itself leaves the
/// decoding where it was.
pub proof fn lemma_unknown_empty_tag(
    s: TMXState,
    m: TileMap,
    d: nat,
    name: Vec<u8>,
    attributes: Vec<Option<Attribute>>,
    s2: TMXState,
    m2: TileMap,
    d2: nat,
)
    requires
        is_child_state(s, name@, TMXState::Unknown(Box::new(s))),
        event_step(s, m, d, DocEvent::Empty { name, attributes }, s2, m2, d2),
    ensures
        s2 == s,
        m2 == m,
        d2 == d,
{
    let (s1, s3, m3) = choose|s1: TMXState, s3: TMXState, m3: TileMap|
        is_child_state(s, name@, s1) && tag_step(s1, m, attributes@, s3, m3) && leave_step(
            s3,
            m3,
            s2,
            m2,
        );
    assert(s1 == TMXState::Unknown(Box::new(s)));
}

/// Inside an unknown scope every tag is unknown, and no event changes the
/// map: an opening tag nests one more unknown scope, text is ignored, and a
/// closing tag gives back the scope that the unknown one holds.
pub proof fn lemma_inside_unknown(
    b: Box<TMXState>,
    m: TileMap,
    d: nat,
    e: DocEvent,
    s2: TMXState,
    m2: TileMap,
    d2: nat,
)
    requires
        event_step(TMXState::Unknown(b), m, d, e, s2, m2, d2),
    ensures
        m2 == m,
        e is Start ==> s2 == TMXState::Unknown(Box::new(TMXState::Unknown(b))) && d2 == d + 1,
        e is Empty || e is Text ==> s2 == TMXState::Unknown(b) && d2 == d,
        e is End ==> s2 == *b && d2 == d - 1,
{
    let s = TMXState::Unknown(b);
    match e {
        DocEvent::Start { name, attributes } => {
            lemma_unknown_start(s, m, d, name, attributes, s2, m2, d2);
        },
        DocEvent::Empty { name, attributes } => {
            lemma_unknown_empty_tag(s, m, d, name, attributes, s2, m2, d2);
        },
        _ => {},
    }
}

/// An element that holds nothing and whose tag has no meaning where it
/// stands changes nothing: where the decoding of `evs` reaches stage `p`,
/// the events with the element's opening and closing tags put there decode
/// to the same result.
pub proof fn lemma_unknown_element_ignored(
    evs: Seq<DocEvent>,
    t: Seq<Stage>,
    r: Result<TileMap, DecodeError>,
    p: int,
    name: Vec<u8>,
    attributes: Vec<Option<Attribute>>,
)
    requires
        decoding_trace(evs, t, r),
        0 <= p < t.len(),
        is_child_state(t[p].0, name@, TMXState::Unknown(Box::new(t[p].0))),
    ensures
        decodes_to(
            evs.take(p) + seq![DocEvent::Start { name, attributes }, DocEvent::End] + evs.skip(p),
            r,
        ),
{
    let k = t.len() - 1;
    let (s, m, d) = t[p];
    let u = TMXState::Unknown(Box::new(s));
    let d1: nat = d + 1;
    let open = DocEvent::Start { name, attributes };
    let evs2 = evs.take(p) + seq![open, DocEvent::End] + evs.skip(p);
    let t2 = t.take(p + 1) + seq![(u, m, d1), t[p]] + t.skip(p + 1);
    assert(t2.len() == t.len() + 2);
    assert(evs2.len() == evs.len() + 2);
    assert(t2[0] == t[0]);
    assert(is_child_state(s, name@, u) && tag_step(u, m, attributes@, u, m));
    assert(exists|s1: TMXState| is_child_state(s, name@, s1) && tag_step(s1, m, attributes@, u, m));
    assert(open matches DocEvent::Start { name: n, attributes: a } && n == name && a == attributes);
    assert(event_step(s, m, d, open, u, m, d1));
    assert(event_step(u, m, d1, DocEvent::End, s, m, d));
    assert forall|i: int|
        0 <= i < t2.len() - 1 implies !(evs2[i] is End && t2[i].2 == 0) && event_step(
            t2[i].0,
            t2[i].1,
            t2[i].2,
            #[trigger] evs2[i],
            t2[i + 1].0,
            t2[i + 1].1,
            t2[i + 1].2,
        ) by {
        if i < p {
            assert(evs2[i] == evs[i] && t2[i] == t[i] && t2[i + 1] == t[i + 1]);
        } else if i == p {
            assert(evs2[i] == open && t2[i] == t[p] && t2[i + 1] == (u, m, d1));
        } else if i == p + 1 {
            assert(evs2[i] == DocEvent::End && t2[i] == (u, m, d1) && t2[i + 1] == t[p]);
        } else {
            assert(evs2[i] == evs[i - 2] && t2[i] == t[i - 2] && t2[i + 1] == t[i - 1]);
        }
    }
    assert(t2[k + 2] == t[k]);
    if k < evs.len() {
        assert(evs2[k + 2] == evs[k]);
    }
    assert(decoding_trace(evs2, t2, r));
}

/// Opens the scope of the tag `name`.
fn enter_scope(state: &mut TMXState, name: &[u8])
    ensures
        is_child_state(*old(state), name@, *final(state)),
{
    let mut s = TMXState::AtMap;
    std::mem::swap(&mut s, state);
    *state = s.into_child(name);
}

/// Reads the attributes of the tag that opened the current scope into what
/// the scope builds.
fn read_tag(state: &mut TMXState, attributes: &[Option<Attribute>], map: &mut TileMap)
    ensures
        tag_step(*old(state), *old(map), attributes@, *final(state), *final(map)),
{
    match state {
        TMXState::AtMap => map_tag(attributes, map),
        TMXState::TileSet(tileset) => tileset_tag(attributes, tileset),
        TMXState::TileSetImage(tileset) => tileset_image_tag(attributes, tileset),
        TMXState::Tile(_, tile) => tile_tag(attributes, tile),
        TMXState::TileImage(_, tile) => tile_image_tag(attributes, tile),
        TMXState::ObjectGroup(group) => object_group_tag(attributes, group),
        TMXState::Object(_, object) => object_tag(attributes, object),
        _ => {},
    }
}

/// Reads text of the document in the current scope.
fn read_text(state: &TMXState, bytes: &[u8], map: &mut TileMap)
    ensures
        text_step(*state, *old(map), bytes@, *final(map)),
{
    if let TMXState::Data = state {
        data_text(bytes, map);
    }
}

/// Leaves the current scope and hands what it built to the scope around it.
fn leave_scope(state: &mut TMXState, map: &mut TileMap)
    ensures
        leave_step(*old(state), *old(map), *final(state), *final(map)),
{
    let mut s = TMXState::AtMap;
    std::mem::swap(&mut s, state);
    *state = match s {
        TMXState::TileSet(tileset) => {
            map.add_tileset_without_reordering(tileset);
            TMXState::AtMap
        },
        TMXState::Tile(tileset, tile) => {
            let mut tileset = tileset;
            tileset.origin.insert_collection(tile);
            TMXState::TileSet(tileset)
        },
        TMXState::ObjectGroup(group) => {
            map.object_groups.push(group);
            TMXState::AtMap
        },
        TMXState::Object(group, object) => {
            let mut group = group;
            group.objects.push(object);
            TMXState::ObjectGroup(group)
        },
        other => other.into_parent(),
    };
}

/// Builds a map from the events of a whole document: each tag opens a scope
/// of the state machine and its attributes are read into what the scope
/// builds; the text of a layer's `<data>` gives the tiles; each closing tag
/// hands what its scope built to the scope around it. The map is normalized
/// at the end. Fails on a closing tag with no tag open, and when tags are
/// still open after the last event.
pub fn decode_events(events: &[DocEvent]) -> (r: Result<TileMap, DecodeError>)
    ensures
        decodes_to(events@, r),
        r matches Ok(m) ==> m.is_normalized(),
{
    let mut state = TMXState::AtMap;
    let mut map = TileMap::default();
    let mut depth: usize = 0;
    let ghost mut t: Seq<Stage> = seq![(state, map, 0nat)];
    let mut i: usize = 0;
    while i < events.len()
        invariant
            i <= events@.len(),
            depth <= i,
            t.len() == i + 1,
            t.last() == (state, map, depth as nat),
            t[0].0 is AtMap && is_fresh_map(t[0].1) && t[0].2 == 0,
            forall|j: int|
                0 <= j < i ==> !(events@[j] is End && t[j].2 == 0) && event_step(
                    t[j].0,
                    t[j].1,
                    t[j].2,
                    #[trigger] events@[j],
                    t[j + 1].0,
                    t[j + 1].1,
                    t[j + 1].2,
                ),
        decreases events@.len() - i,
    {
        let ghost s0 = state;
        let ghost mp0 = map;
        let ghost d0 = depth as nat;
        match &events[i] {
            DocEvent::Start { name, attributes } => {
                enter_scope(&mut state, name.as_slice());
                let ghost s1 = state;
                read_tag(&mut state, attributes.as_slice(), &mut map);
                depth = depth + 1;
                assert(is_child_state(s0, name@, s1) && tag_step(s1, mp0, attributes@, state, map));
            },
            DocEvent::Empty { name, attributes } => {
                enter_scope(&mut state, name.as_slice());
                let ghost s1 = state;
                read_tag(&mut state, attributes.as_slice(), &mut map);
                let ghost s3 = state;
                let ghost m3 = map;
                leave_scope(&mut state, &mut map);
                assert(is_child_state(s0, name@, s1) && tag_step(s1, mp0, attributes@, s3, m3)
                    && leave_step(s3, m3, state, map));
            },
            DocEvent::Text(bytes) => {
                read_text(&state, bytes.as_slice(), &mut map);
            },
            DocEvent::End => {
                if depth == 0 {
                    assert(decoding_trace(events@, t, Err(DecodeError::UnexpectedEnd)));
                    return Err(DecodeError::UnexpectedEnd);
                }
                leave_scope(&mut state, &mut map);
                depth = depth - 1;
            },
        }
        assert(event_step(s0, mp0, d0, events@[i as int], state, map, depth as nat));
        let ghost t2 = t.push((state, map, depth as nat));
        assert forall|j: int|
            0 <= j < i + 1 implies !(events@[j] is End && t2[j].2 == 0) && event_step(
                t2[j].0,
                t2[j].1,
                t2[j].2,
                #[trigger] events@[j],
                t2[j + 1].0,
                t2[j + 1].1,
                t2[j + 1].2,
            ) by {
            if j < i {
                assert(t2[j] == t[j] && t2[j + 1] == t[j + 1]);
            } else {
                assert(t2[j] == t.last());
            }
        }
        proof {
            t = t2;
        }
        i = i + 1;
    }
    if depth > 0 {
        assert(decoding_trace(events@, t, Err(DecodeError::Unclosed)));
        return Err(DecodeError::Unclosed);
    }
    map.normalize();
    assert(decoding_trace(events@, t, Ok::<TileMap, DecodeError>(map)));
    Ok(map)
}

/// Reads a map document.
pub struct TMXDecoder<'a> {
    data: &'a [u8],
}

impl<'a> TMXDecoder<'a> {
    /// A decoder of the document `data`.
    pub fn from(data: &'a [u8]) -> (r: Self)
        ensures
            r.document() == data@,
    {
        TMXDecoder { data }
    }

    /// The bytes of the document.
    pub closed spec fn document(&self) -> Seq<u8> {
        self.data@
    }

    /// Reads the whole document and builds the map with `decode_events`. A
    /// document that the tokenizer cannot read fails with `Syntax` at the
    /// position where the tokenizer stopped; otherwise the result is what
    /// `decode_events` gives for the tokenizer's events.
    pub fn load_map(self) -> (r: Result<TileMap, DecodeError>)
        ensures
            match xml_events(self.document()) {
                Some(events) => decodes_to(events, r),
                None => r is Err && r->Err_0 is Syntax,
            },
            r matches Ok(m) ==> m.is_normalized(),
    {
        match tokenize(self.data) {
            Ok(events) => decode_events(events.as_slice()),
            Err(position) => Err(DecodeError::Syntax { position }),
        }
    }
}

} // verus!
