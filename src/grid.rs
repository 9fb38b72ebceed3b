//! Grid geometry: orientations, stagger axes, and the places of tiles on the
//! grid and in the world.

use vstd::prelude::*;

use crate::data::{Point2, Vector2};
use crate::map::TileMap;
use crate::text::{
    ascii_lowered, chars_of, rejects, same_word_ignoring_case, FieldValue, ParsingError,
};

verus! {

/// The global id that stands for no tile.
pub const EMPTY_TILE: u32 = 0;

/// The shape of the grid's cells.
#[derive(Clone, Copy, Debug, PartialEq, Eq, Structural)]
pub enum Orientation {
    Orthogonal,
    Isometric,
    Staggered,
    Hexagonal,
}

/// The axis along which every other row or column of cells is shifted.
#[derive(Clone, Copy, Debug, PartialEq, Eq, Structural)]
pub enum StaggerAxis {
    XAxis,
    YAxis,
    NoAxis,
}

/// The orientation that `s` names, whatever the case of its ASCII letters.
pub open spec fn orientation_named(s: Seq<char>) -> Option<Orientation> {
    let w = ascii_lowered(s);
    if w == "orthogonal"@ {
        Some(Orientation::Orthogonal)
    } else if w == "isometric"@ {
        Some(Orientation::Isometric)
    } else if w == "staggered"@ {
        Some(Orientation::Staggered)
    } else if w == "hexagonal"@ {
        Some(Orientation::Hexagonal)
    } else {
        None
    }
}

/// The stagger axis that `s` names, whatever the case of its ASCII letters.
pub open spec fn stagger_axis_named(s: Seq<char>) -> Option<StaggerAxis> {
    let w = ascii_lowered(s);
    if w == "x"@ {
        Some(StaggerAxis::XAxis)
    } else if w == "y"@ {
        Some(StaggerAxis::YAxis)
    } else {
        None
    }
}

impl Orientation {
    /// The orientation that `s` names: `orthogonal`, `isometric`, `staggered`
    /// or `hexagonal`, whatever the case of its ASCII letters.
    pub fn parse(s: &str) -> (r: Result<Orientation, ParsingError>)
        ensures
            match orientation_named(s@) {
                Some(o) => r == Ok::<Orientation, ParsingError>(o),
                None => rejects(r, s@),
            },
    {
        let cs = chars_of(s);
        if same_word_ignoring_case(cs.as_slice(), chars_of("orthogonal").as_slice()) {
            Ok(Orientation::Orthogonal)
        } else if same_word_ignoring_case(cs.as_slice(), chars_of("isometric").as_slice()) {
            Ok(Orientation::Isometric)
        } else if same_word_ignoring_case(cs.as_slice(), chars_of("staggered").as_slice()) {
            Ok(Orientation::Staggered)
        } else if same_word_ignoring_case(cs.as_slice(), chars_of("hexagonal").as_slice()) {
            Ok(Orientation::Hexagonal)
        } else if cs.len() == 0 {
            Err(ParsingError::EmptyString)
        } else {
            Err(ParsingError::InvalidString(s.to_owned()))
        }
    }
}

impl FieldValue for Orientation {
    open spec fn read(s: Seq<char>) -> Option<Orientation> {
        orientation_named(s)
    }

    fn read_text(s: &str) -> (r: Result<Orientation, ParsingError>) {
        Orientation::parse(s)
    }
}

impl std::str::FromStr for Orientation {
    type Err = ParsingError;

    fn from_str(s: &str) -> (r: Result<Orientation, ParsingError>)
        ensures
            match orientation_named(s@) {
                Some(o) => r == Ok::<Orientation, ParsingError>(o),
                None => rejects(r, s@),
            },
    {
        Orientation::parse(s)
    }
}

impl StaggerAxis {
    /// The stagger axis that `s` names: `x` or `y`, in either case.
    pub fn parse(s: &str) -> (r: Result<StaggerAxis, ParsingError>)
        ensures
            match stagger_axis_named(s@) {
                Some(a) => r == Ok::<StaggerAxis, ParsingError>(a),
                None => rejects(r, s@),
            },
    {
        let cs = chars_of(s);
        if same_word_ignoring_case(cs.as_slice(), chars_of("x").as_slice()) {
            Ok(StaggerAxis::XAxis)
        } else if same_word_ignoring_case(cs.as_slice(), chars_of("y").as_slice()) {
            Ok(StaggerAxis::YAxis)
        } else if cs.len() == 0 {
            Err(ParsingError::EmptyString)
        } else {
            Err(ParsingError::InvalidString(s.to_owned()))
        }
    }
}

impl FieldValue for StaggerAxis {
    open spec fn read(s: Seq<char>) -> Option<StaggerAxis> {
        stagger_axis_named(s)
    }

    fn read_text(s: &str) -> (r: Result<StaggerAxis, ParsingError>) {
        StaggerAxis::parse(s)
    }
}

impl std::str::FromStr for StaggerAxis {
    type Err = ParsingError;

    fn from_str(s: &str) -> (r: Result<StaggerAxis, ParsingError>)
        ensures
            match stagger_axis_named(s@) {
                Some(a) => r == Ok::<StaggerAxis, ParsingError>(a),
                None => rejects(r, s@),
            },
    {
        StaggerAxis::parse(s)
    }
}

/// A position in the world, in quarters of a pixel: the world's `y` grows
/// upwards, the grid's rows grow downwards.
#[derive(Clone, Copy, Debug, PartialEq, Eq, Structural)]
pub struct WorldPoint {
    pub x: i128,
    pub y: i128,
}

/// The cell of the tile of index `tile` in a grid `width` tiles wide.
pub open spec fn grid_coords_of(tile: u32, width: u32) -> Point2 {
    Point2 { x: (tile % width) as u32, y: (tile / width) as u32 }
}

/// The stagger axis of the cell `c` of a map shifted along `axis`: `axis`
/// when the cell's column (for `XAxis`) or row (for `YAxis`) is odd, else
/// none.
pub open spec fn cell_stagger_axis(axis: StaggerAxis, c: Point2) -> StaggerAxis {
    if axis == StaggerAxis::XAxis && c.x % 2 == 1 {
        StaggerAxis::XAxis
    } else if axis == StaggerAxis::YAxis && c.y % 2 == 1 {
        StaggerAxis::YAxis
    } else {
        StaggerAxis::NoAxis
    }
}

/// The centre in the world, in quarter pixels, of the cell `c` of a map of
/// the given orientation, stagger axis and tile size. A hexagonal map
/// advances three quarters of a tile per cell along its stagger axis, any
/// other map a whole tile. A cell shifted along `x` moves half a tile right
/// and a whole tile down; one shifted along `y` a whole tile right and half
/// a tile down; any other cell half a tile right and down.
pub open spec fn world_point_of(
    orientation: Orientation,
    axis: StaggerAxis,
    tile_size: Vector2,
    c: Point2,
) -> WorldPoint {
    let w = tile_size.x as int;
    let h = tile_size.y as int;
    let step_x = if orientation == Orientation::Hexagonal && axis == StaggerAxis::XAxis {
        3 * w
    } else {
        4 * w
    };
    let step_y = if orientation == Orientation::Hexagonal && axis == StaggerAxis::YAxis {
        3 * h
    } else {
        4 * h
    };
    let x = c.x * step_x;
    let y = -(c.y * step_y);
    match cell_stagger_axis(axis, c) {
        StaggerAxis::YAxis => WorldPoint { x: (x + 4 * w) as i128, y: (y - 2 * h) as i128 },
        StaggerAxis::XAxis => WorldPoint { x: (x + 2 * w) as i128, y: (y - 4 * h) as i128 },
        StaggerAxis::NoAxis => WorldPoint { x: (x + 2 * w) as i128, y: (y - 2 * h) as i128 },
    }
}

impl TileMap {
    /// The column of the tile of index `tile`.
    pub fn tile_column(&self, tile: u32) -> (r: u32)
        requires
            self.size.x > 0,
        ensures
            r == tile % self.size.x,
    {
        tile % self.size.x
    }

    /// The row of the tile of index `tile`.
    pub fn tile_row(&self, tile: u32) -> (r: u32)
        requires
            self.size.x > 0,
        ensures
            r == tile / self.size.x,
    {
        tile / self.size.x
    }

    /// The index of the tile in the cell `coords`.
    pub fn tile_id(&self, coords: Point2) -> (r: u32)
        requires
            coords.x + coords.y * self.size.x <= u32::MAX,
        ensures
            r == coords.x + coords.y * self.size.x,
    {
        coords.x + coords.y * self.size.x
    }

    /// The global id of the tile in the cell `coords`; 0 where the map's tile
    /// data holds none.
    pub fn tile_gid(&self, coords: Point2) -> (r: u32)
        ensures
            ({
                let i = coords.x + coords.y * self.size.x;
                r == if i < self.tiles@.len() {
                    self.tiles@[i]
                } else {
                    EMPTY_TILE
                }
            }),
    {
        assert(coords.y * self.size.x <= u32::MAX * u32::MAX) by (nonlinear_arith);
        let i: u64 = coords.x as u64 + coords.y as u64 * self.size.x as u64;
        if i < self.tiles.len() as u64 {
            self.tiles[i as usize]
        } else {
            EMPTY_TILE
        }
    }

    /// The cell of the tile of index `tile`.
    pub fn coords(&self, tile: u32) -> (r: Point2)
        requires
            self.size.x > 0,
        ensures
            r == grid_coords_of(tile, self.size.x),
    {
        Point2 { x: self.tile_column(tile), y: self.tile_row(tile) }
    }

    /// The centre in the world of the tile of index `tile`, in quarter pixels.
    pub fn world_coords(&self, tile: u32) -> (r: WorldPoint)
        requires
            self.size.x > 0,
        ensures
            r == world_point_of(
                self.orientation,
                self.stagger_axis,
                self.tile_size,
                grid_coords_of(tile, self.size.x),
            ),
    {
        self.to_world_coords(self.coords(tile))
    }

    /// The centre in the world of the cell `map_coords`, in quarter pixels.
    pub fn to_world_coords(&self, map_coords: Point2) -> (r: WorldPoint)
        ensures
            r == world_point_of(self.orientation, self.stagger_axis, self.tile_size, map_coords),
    {
        let w = self.tile_size.x as i128;
        let h = self.tile_size.y as i128;
        let step_x: i128 = match (self.orientation, self.stagger_axis) {
            (Orientation::Hexagonal, StaggerAxis::XAxis) => 3 * w,
            _ => 4 * w,
        };
        let step_y: i128 = match (self.orientation, self.stagger_axis) {
            (Orientation::Hexagonal, StaggerAxis::YAxis) => 3 * h,
            _ => 4 * h,
        };
        let cx = map_coords.x as i128;
        let cy = map_coords.y as i128;
        assert(0 <= cx * step_x <= 0x1_0000_0000 * 0x4_0000_0000) by (nonlinear_arith)
            requires
                0 <= cx < 0x1_0000_0000,
                0 <= step_x <= 0x4_0000_0000,
        ;
        assert(0 <= cy * step_y <= 0x1_0000_0000 * 0x4_0000_0000) by (nonlinear_arith)
            requires
                0 <= cy < 0x1_0000_0000,
                0 <= step_y <= 0x4_0000_0000,
        ;
        let x = cx * step_x;
        let y = -(cy * step_y);
        match self.coords_stagger_axis(map_coords) {
            StaggerAxis::YAxis => WorldPoint { x: x + 4 * w, y: y - 2 * h },
            StaggerAxis::XAxis => WorldPoint { x: x + 2 * w, y: y - 4 * h },
            StaggerAxis::NoAxis => WorldPoint { x: x + 2 * w, y: y - 2 * h },
        }
    }

    /// The stagger axis of the tile of index `tile`.
    pub fn tile_stagger_axis(&self, tile: u32) -> (r: StaggerAxis)
        requires
            self.size.x > 0,
        ensures
            r == cell_stagger_axis(self.stagger_axis, grid_coords_of(tile, self.size.x)),
    {
        self.coords_stagger_axis(self.coords(tile))
    }

    /// The stagger axis of the cell `coords`: the map's axis when the cell's
    /// column (for `XAxis`) or row (for `YAxis`) is odd, else none.
    pub fn coords_stagger_axis(&self, coords: Point2) -> (r: StaggerAxis)
        ensures
            r == cell_stagger_axis(self.stagger_axis, coords),
    {
        match self.stagger_axis {
            StaggerAxis::XAxis if coords.x % 2 == 1 => StaggerAxis::XAxis,
            StaggerAxis::YAxis if coords.y % 2 == 1 => StaggerAxis::YAxis,
            _ => StaggerAxis::NoAxis,
        }
    }
}

/// The row and column of a tile give back its index: `row * width + column`.
pub proof fn lemma_grid_coords_linearize(tile: u32, width: u32)
    requires
        width > 0,
    ensures
        grid_coords_of(tile, width).y * width + grid_coords_of(tile, width).x == tile,
{
    let (t, w) = (tile as int, width as int);
    vstd::arithmetic::div_mod::lemma_fundamental_div_mod(t, w);
    vstd::arithmetic::div_mod::lemma_div_pos_is_pos(t, w);
    vstd::arithmetic::div_mod::lemma_div_is_ordered_by_denominator(t, 1, w);
    vstd::arithmetic::mul::lemma_mul_is_commutative(w, t / w);
    assert(grid_coords_of(tile, width).y == t / w);
    assert(grid_coords_of(tile, width).x == t % w);
}

} // verus!
