//! Where in the document an event happens: a state machine over the scopes
//! of the document, which holds the entities being built.

use vstd::prelude::*;

use crate::data::{Object, ObjectGroup, Tile, TileSet};
use crate::text::{spells, tag_spells};

verus! {

/// The scope of the document that is open, with the entities it builds.
#[derive(Debug)]
pub enum TMXState {
    /// In the root `<map>`.
    AtMap,
    /// In a `<tileset>`.
    TileSet(TileSet),
    /// In the `<image>` of a `<tileset>`.
    TileSetImage(TileSet),
    /// In a `<tile>` of a `<tileset>`.
    Tile(TileSet, Tile),
    /// In the `<image>` of a `<tile>`.
    TileImage(TileSet, Tile),
    /// In the `<grid>` of a `<tileset>`.
    Grid(TileSet),
    /// In a `<layer>`.
    Layer,
    /// In the `<data>` of a `<layer>`.
    Data,
    /// In an `<objectgroup>`.
    ObjectGroup(ObjectGroup),
    /// In an `<object>` of an `<objectgroup>`.
    Object(ObjectGroup, Object),
    /// In a tag that has no meaning where it stands; holds the scope around
    /// it.
    Unknown(Box<TMXState>),
}

/// The scope that holds `s`, with what `s` built left behind.
pub open spec fn parent_state(s: TMXState) -> TMXState {
    match s {
        TMXState::AtMap => TMXState::AtMap,
        TMXState::TileSet(_) => TMXState::AtMap,
        TMXState::Layer => TMXState::AtMap,
        TMXState::ObjectGroup(_) => TMXState::AtMap,
        TMXState::TileSetImage(ts) => TMXState::TileSet(ts),
        TMXState::Tile(ts, _) => TMXState::TileSet(ts),
        TMXState::Grid(ts) => TMXState::TileSet(ts),
        TMXState::TileImage(ts, tile) => TMXState::Tile(ts, tile),
        TMXState::Data => TMXState::Layer,
        TMXState::Object(g, _) => TMXState::ObjectGroup(g),
        TMXState::Unknown(parent) => *parent,
    }
}

/// The scope that the tag `name` opens within `s`; a tag that has no meaning
/// there opens an unknown scope that holds `s`. A new tile-set, tile, group
/// or object starts with nothing set.
pub open spec fn is_child_state(s: TMXState, name: Seq<u8>, r: TMXState) -> bool {
    let unknown = r == TMXState::Unknown(Box::new(s));
    match s {
        TMXState::AtMap => if tag_spells(name, "map"@) {
            r is AtMap
        } else if tag_spells(name, "tileset"@) {
            r matches TMXState::TileSet(ts) && ts.is_unset()
        } else if tag_spells(name, "layer"@) {
            r is Layer
        } else if tag_spells(name, "objectgroup"@) {
            r matches TMXState::ObjectGroup(g) && g.is_blank()
        } else {
            unknown
        },
        TMXState::TileSet(ts) => if tag_spells(name, "image"@) {
            r == TMXState::TileSetImage(ts)
        } else if tag_spells(name, "tile"@) {
            r matches TMXState::Tile(t, tile) && t == ts && tile.is_blank()
        } else if tag_spells(name, "grid"@) {
            r == TMXState::Grid(ts)
        } else {
            unknown
        },
        TMXState::Tile(ts, tile) => if tag_spells(name, "image"@) {
            r == TMXState::TileImage(ts, tile)
        } else {
            unknown
        },
        TMXState::Layer => if tag_spells(name, "data"@) {
            r is Data
        } else {
            unknown
        },
        TMXState::ObjectGroup(g) => if tag_spells(name, "object"@) {
            r == TMXState::Object(
                g,
                Object {
                    id: 0,
                    gid: 0,
                    coords: crate::data::Point2 { x: 0, y: 0 },
                    size: crate::data::Vector2 { x: 0, y: 0 },
                },
            )
        } else {
            unknown
        },
        _ => unknown,
    }
}

impl TMXState {
    /// The scope that the tag `name` opens within this one.
    pub fn into_child(self, name: &[u8]) -> (r: Self)
        ensures
            is_child_state(self, name@, r),
    {
        match self {
            TMXState::AtMap => {
                if spells(name, "map") {
                    TMXState::AtMap
                } else if spells(name, "tileset") {
                    TMXState::TileSet(TileSet::default())
                } else if spells(name, "layer") {
                    TMXState::Layer
                } else if spells(name, "objectgroup") {
                    TMXState::ObjectGroup(ObjectGroup::default())
                } else {
                    TMXState::Unknown(Box::new(TMXState::AtMap))
                }
            },
            TMXState::TileSet(ts) => {
                if spells(name, "image") {
                    TMXState::TileSetImage(ts)
                } else if spells(name, "tile") {
                    TMXState::Tile(ts, Tile::default())
                } else if spells(name, "grid") {
                    TMXState::Grid(ts)
                } else {
                    TMXState::Unknown(Box::new(TMXState::TileSet(ts)))
                }
            },
            TMXState::Tile(ts, tile) => {
                if spells(name, "image") {
                    TMXState::TileImage(ts, tile)
                } else {
                    TMXState::Unknown(Box::new(TMXState::Tile(ts, tile)))
                }
            },
            TMXState::Layer => {
                if spells(name, "data") {
                    TMXState::Data
                } else {
                    TMXState::Unknown(Box::new(TMXState::Layer))
                }
            },
            TMXState::ObjectGroup(g) => {
                if spells(name, "object") {
                    TMXState::Object(g, Object::default())
                } else {
                    TMXState::Unknown(Box::new(TMXState::ObjectGroup(g)))
                }
            },
            other => TMXState::Unknown(Box::new(other)),
        }
    }

    /// The scope that holds this one.
    pub fn into_parent(self) -> (r: Self)
        ensures
            r == parent_state(self),
    {
        match self {
            TMXState::AtMap => TMXState::AtMap,
            TMXState::TileSet(_) | TMXState::Layer | TMXState::ObjectGroup(_) => TMXState::AtMap,
            TMXState::Tile(ts, _) | TMXState::TileSetImage(ts) | TMXState::Grid(ts) => {
                TMXState::TileSet(ts)
            },
            TMXState::TileImage(ts, tile) => TMXState::Tile(ts, tile),
            TMXState::Data => TMXState::Layer,
            TMXState::Object(g, _) => TMXState::ObjectGroup(g),
            TMXState::Unknown(parent) => *parent,
        }
    }
}

} // verus!
