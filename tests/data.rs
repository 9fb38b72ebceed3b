use tmx::data::{Image, Object, Point2, Tile, TileSet, TilesOrigin, Vector2};
use tmx::grid::{Orientation, StaggerAxis, WorldPoint, EMPTY_TILE};
use tmx::map::TileMap;

const TEST_SIZE: Vector2 = Vector2 { x: 16, y: 16 };

/// Asserts that the tile-set owns each of its gids in the map.
fn tileset_gids_association(map: &TileMap, tileset: &TileSet) {
    for gid in tileset.firstgid..=tileset.last_gid() {
        assert_eq!(map.get_tileset(gid), Some(tileset));
    }
}

/// A world position in pixels.
fn pixels(p: WorldPoint) -> (f32, f32) {
    (p.x as f32 / 4.0, p.y as f32 / 4.0)
}

#[test]
fn tilesets_test() {
    let mut map = TileMap::default();

    let tileset_none = TileSet {
        firstgid: 1,
        count: 2,
        origin: TilesOrigin::Empty,
        ..Default::default()
    };
    let tileset_image = TileSet {
        firstgid: tileset_none.last_gid() + 1,
        count: 4,
        origin: TilesOrigin::Image(Image::new("", Vector2 { x: 0, y: 0 })),
        ..Default::default()
    };

    let tile = Tile::new(4, Image::new("", Vector2 { x: 0, y: 0 }));
    let tileset_collection = TileSet {
        firstgid: tileset_image.last_gid() + 1,
        count: 4,
        origin: TilesOrigin::new_collection(tile),
        ..Default::default()
    };

    map.add_tilesets(vec![
        tileset_none.clone(),
        tileset_image.clone(),
        tileset_collection.clone(),
    ]);

    assert_eq!(map.get_tileset(0), None);

    tileset_gids_association(&map, &tileset_none);
    tileset_gids_association(&map, &tileset_image);
    tileset_gids_association(&map, &tileset_collection);

    assert_eq!(map.get_tileset(12), None);
}

#[test]
fn tile_id_test() {
    let mut map = TileMap::default();
    map.size = TEST_SIZE;

    assert_eq!(map.tile_id(Point2 { x: 0, y: 0 }), 0);
    assert_eq!(map.tile_id(Point2 { x: 3, y: 0 }), 3);
    assert_eq!(map.tile_id(Point2 { x: 3, y: 1 }), 19);
}

#[test]
fn coords_test() {
    let mut map = TileMap::default();
    map.size = TEST_SIZE;

    assert_eq!(map.coords(0), Point2 { x: 0, y: 0 });
    assert_eq!(map.coords(3), Point2 { x: 3, y: 0 });
    assert_eq!(map.coords(19), Point2 { x: 3, y: 1 });
}

#[test]
fn orthogonal_to_world_coords_test() {
    let mut map = TileMap::default();
    map.tile_size = TEST_SIZE;

    assert_eq!(pixels(map.to_world_coords(Point2 { x: 3, y: 1 })), (56.0, -24.0));
}

#[test]
fn hexagonal_to_world_coords_test() {
    let mut map = TileMap::default();
    map.orientation = Orientation::Hexagonal;
    map.tile_size = TEST_SIZE;

    let even_coords = Point2 { x: 2, y: 2 };
    let x_odd_coords = Point2 { x: 3, y: 2 };
    let y_odd_coords = Point2 { x: 2, y: 3 };

    map.stagger_axis = StaggerAxis::XAxis;
    assert_eq!(pixels(map.to_world_coords(even_coords)), (32.0, -40.0));
    assert_eq!(pixels(map.to_world_coords(x_odd_coords)), (44.0, -48.0));

    map.stagger_axis = StaggerAxis::YAxis;
    assert_eq!(pixels(map.to_world_coords(even_coords)), (40.0, -32.0));
    assert_eq!(pixels(map.to_world_coords(y_odd_coords)), (48.0, -44.0));
}

#[test]
fn coords_stagger_axis_test() {
    let mut map = TileMap::default();

    assert_eq!(map.coords_stagger_axis(Point2 { x: 0, y: 0 }), StaggerAxis::NoAxis);
    assert_eq!(map.coords_stagger_axis(Point2 { x: 1, y: 0 }), StaggerAxis::NoAxis);
    assert_eq!(map.coords_stagger_axis(Point2 { x: 0, y: 1 }), StaggerAxis::NoAxis);

    map.stagger_axis = StaggerAxis::XAxis;
    assert_eq!(map.coords_stagger_axis(Point2 { x: 0, y: 0 }), StaggerAxis::NoAxis);
    assert_eq!(map.coords_stagger_axis(Point2 { x: 1, y: 0 }), StaggerAxis::XAxis);
    assert_eq!(map.coords_stagger_axis(Point2 { x: 0, y: 1 }), StaggerAxis::NoAxis);

    map.stagger_axis = StaggerAxis::YAxis;
    assert_eq!(map.coords_stagger_axis(Point2 { x: 0, y: 0 }), StaggerAxis::NoAxis);
    assert_eq!(map.coords_stagger_axis(Point2 { x: 1, y: 0 }), StaggerAxis::NoAxis);
    assert_eq!(map.coords_stagger_axis(Point2 { x: 0, y: 1 }), StaggerAxis::YAxis);
}

#[test]
fn tile_index_to_coords_example() {
    let mut map = TileMap::default();
    map.size = TEST_SIZE;
    let c = map.coords(19);
    assert_eq!((c.x, c.y), (3, 1));
    assert_eq!(c.y * map.size.x + c.x, 19);
    for i in 0..300u32 {
        let c = map.coords(i);
        assert_eq!(map.tile_id(c), i);
    }
}

#[test]
fn world_coords_of_tile_index() {
    let mut map = TileMap::default();
    map.size = TEST_SIZE;
    map.tile_size = TEST_SIZE;
    assert_eq!(pixels(map.world_coords(19)), (56.0, -24.0));
    assert_eq!(map.world_coords(19), WorldPoint { x: 224, y: -96 });
}

#[test]
fn world_coords_of_uneven_hexagons() {
    let mut map = TileMap::default();
    map.orientation = Orientation::Hexagonal;
    map.stagger_axis = StaggerAxis::XAxis;
    map.tile_size = Vector2 { x: 15, y: 10 };
    // 3 * 15 * 0.75 + 7.5 on x; -(1 * 10) - 10 on y, column 3 being odd.
    assert_eq!(pixels(map.to_world_coords(Point2 { x: 3, y: 1 })), (41.25, -20.0));
}

#[test]
fn staggered_isometric_keeps_whole_tile_steps() {
    let mut map = TileMap::default();
    map.orientation = Orientation::Staggered;
    map.stagger_axis = StaggerAxis::YAxis;
    map.tile_size = Vector2 { x: 32, y: 16 };
    assert_eq!(pixels(map.to_world_coords(Point2 { x: 1, y: 1 })), (64.0, -24.0));
    assert_eq!(pixels(map.to_world_coords(Point2 { x: 1, y: 2 })), (48.0, -40.0));
}

#[test]
fn tile_stagger_axis_of_index() {
    let mut map = TileMap::default();
    map.size = Vector2 { x: 4, y: 4 };
    map.stagger_axis = StaggerAxis::XAxis;
    assert_eq!(map.tile_stagger_axis(5), StaggerAxis::XAxis);
    assert_eq!(map.tile_stagger_axis(6), StaggerAxis::NoAxis);
}

#[test]
fn tile_gid_out_of_range_is_empty() {
    let mut map = TileMap::default();
    map.size = Vector2 { x: 3, y: 2 };
    map.tiles = vec![0, 0, 0, 3, 2, 1];
    assert_eq!(map.tile_gid(Point2 { x: 0, y: 1 }), 3);
    assert_eq!(map.tile_gid(Point2 { x: 2, y: 1 }), 1);
    assert_eq!(map.tile_gid(Point2 { x: 0, y: 2 }), EMPTY_TILE);
    assert_eq!(map.tile_gid(Point2 { x: u32::MAX, y: u32::MAX }), 0);
}

#[test]
fn tile_column_and_row() {
    let mut map = TileMap::default();
    map.size = Vector2 { x: 5, y: 5 };
    assert_eq!(map.tile_column(12), 2);
    assert_eq!(map.tile_row(12), 2);
}

#[test]
fn last_id_boundaries() {
    let single = TileSet { firstgid: 1, count: 1, ..Default::default() };
    assert_eq!(single.last_id(), 0);
    assert_eq!(single.last_gid(), 1);
    let empty = TileSet { firstgid: 1, count: 0, ..Default::default() };
    assert_eq!(empty.last_id(), 0);
    let mut collection = TileSet { firstgid: 5, count: 2, ..Default::default() };
    collection.origin = TilesOrigin::new_collection_from(vec![
        Tile::new(7, Image::default()),
        Tile::new(2, Image::default()),
        Tile::new(9, Image::default()),
    ]);
    assert_eq!(collection.last_id(), 9);
    assert_eq!(collection.last_gid(), 14);
    let plain = TileSet { firstgid: 10, count: 6, ..Default::default() };
    assert_eq!(plain.last_id(), 5);
    assert_eq!(plain.last_gid(), 15);
}

#[test]
fn rows_are_count_over_columns() {
    let ts = TileSet { count: 7, columns: 2, ..Default::default() };
    assert_eq!(ts.rows(), Some(3));
    let none = TileSet { count: 7, columns: 0, ..Default::default() };
    assert_eq!(none.rows(), None);
}

#[test]
fn unset_tileset_defaults() {
    let ts = TileSet::default();
    assert_eq!(ts.firstgid, u32::MAX);
    assert_eq!(ts.name, "unnamed");
    assert_eq!(ts.origin, TilesOrigin::Empty);
}

#[test]
fn insert_collection_replaces_other_origins() {
    let mut origin = TilesOrigin::Image(Image::new("sheet.png", Vector2 { x: 64, y: 64 }));
    origin.insert_collection(Tile::new(3, Image::default()));
    assert_eq!(origin, TilesOrigin::new_collection(Tile::new(3, Image::default())));
    origin.insert_collection(Tile::new(1, Image::new("a.png", Vector2 { x: 8, y: 8 })));
    origin.insert_collection(Tile::new(3, Image::new("b.png", Vector2 { x: 8, y: 8 })));
    match origin {
        TilesOrigin::Collection(c) => {
            assert_eq!(c.len(), 2);
            assert_eq!(c[&3].image.source, "b.png");
            assert_eq!(c[&1].image.source, "a.png");
        },
        _ => panic!("not a collection"),
    }
}

#[test]
fn new_collection_from_keeps_last_of_equal_ids() {
    let origin = TilesOrigin::new_collection_from(vec![
        Tile::new(1, Image::new("a.png", Vector2 { x: 1, y: 1 })),
        Tile::new(1, Image::new("b.png", Vector2 { x: 1, y: 1 })),
    ]);
    match origin {
        TilesOrigin::Collection(c) => {
            assert_eq!(c.len(), 1);
            assert_eq!(c[&1].image.source, "b.png");
        },
        _ => panic!("not a collection"),
    }
}

#[test]
fn valid_gid_skips_zero() {
    let mut object = Object::default();
    assert_eq!(object.valid_gid(), None);
    object.gid = 4;
    assert_eq!(object.valid_gid(), Some(4));
}

#[test]
fn tilesets_out_of_order_are_sorted_and_resolved() {
    let a = TileSet { firstgid: 1, count: 2, name: "a".to_string(), ..Default::default() };
    let b = TileSet { firstgid: 3, count: 4, name: "b".to_string(), ..Default::default() };
    let c = TileSet {
        firstgid: 7,
        count: 4,
        name: "c".to_string(),
        origin: TilesOrigin::Image(Image::default()),
        ..Default::default()
    };
    let mut map = TileMap::default();
    map.add_tileset(c.clone());
    map.add_tileset(a.clone());
    map.add_tileset(b.clone());
    let names: Vec<&str> = map.tilesets().iter().map(|t| t.name.as_str()).collect();
    assert_eq!(names, vec!["a", "b", "c"]);
    for (ts, range) in [(&a, 1..=2u32), (&b, 3..=6), (&c, 7..=10)] {
        for gid in range {
            assert_eq!(map.get_tileset(gid), Some(ts));
        }
    }
    assert_eq!(map.get_tileset(0), None);
    assert_eq!(map.get_tileset(11), None);
    assert_eq!(map.get_tileset(u32::MAX), None);
    assert_eq!(map.last_tileset(), Some(&c));
}

#[test]
fn gaps_between_tilesets_resolve_to_nothing() {
    let mut map = TileMap::default();
    map.add_tilesets(vec![
        TileSet { firstgid: 10, count: 2, ..Default::default() },
        TileSet { firstgid: 3, count: 2, ..Default::default() },
    ]);
    assert!(map.get_tileset(2).is_none());
    assert_eq!(map.get_tileset(3).map(|t| t.firstgid), Some(3));
    assert_eq!(map.get_tileset(4).map(|t| t.firstgid), Some(3));
    for gid in 5..10 {
        assert!(map.get_tileset(gid).is_none());
    }
    assert_eq!(map.get_tileset(11).map(|t| t.firstgid), Some(10));
    assert!(map.get_tileset(12).is_none());
}

#[test]
fn normalize_twice_changes_nothing() {
    let mut map = TileMap::default();
    map.add_tilesets(vec![
        TileSet { firstgid: 5, count: 3, name: "late".to_string(), ..Default::default() },
        TileSet { firstgid: 1, count: 4, name: "early".to_string(), ..Default::default() },
        TileSet { firstgid: 5, count: 1, name: "tie".to_string(), ..Default::default() },
    ]);
    let once = map.clone();
    map.normalize();
    assert_eq!(map, once);
    assert_eq!(map.tilesets[1].name, "late");
    assert_eq!(map.tilesets[2].name, "tie");
}

#[test]
fn tilesets_sort_by_first_gid_before_indexing() {
    let mut map = TileMap::default();
    map.add_tilesets(vec![
        TileSet { firstgid: 40, count: 1, ..Default::default() },
        TileSet { firstgid: 1, count: 2, ..Default::default() },
    ]);
    assert_eq!(map.tilesets[0].firstgid, 1);
    assert_eq!(map.tilesets[1].firstgid, 40);
    assert_eq!(map.tileset_indexes.len(), 41);
    assert_eq!(map.get_tileset(40).map(|t| t.firstgid), Some(40));
    assert!(map.get_tileset(41).is_none());
}

#[test]
fn tileset_mut_changes_in_place() {
    let mut map = TileMap::default();
    map.add_tileset(TileSet { firstgid: 1, count: 2, ..Default::default() });
    if let Some(ts) = map.get_tileset_mut(2) {
        ts.name = "renamed".to_string();
    }
    assert_eq!(map.get_tileset(1).map(|t| t.name.as_str()), Some("renamed"));
    assert!(map.get_tileset_mut(3).is_none());
    map.tilesets_mut()[0].columns = 2;
    assert_eq!(map.tilesets()[0].columns, 2);
}
