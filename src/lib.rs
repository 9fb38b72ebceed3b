//! Tile maps as written by a map editor: a normalized, queryable model, the
//! scope state machine that rebuilds it from a stream of tag events, and the
//! geometry that places tiles in the world.

use vstd::prelude::*;

pub mod data;
pub mod decoder;
pub mod document;
pub mod grid;
pub mod map;
pub mod state;
pub mod text;
