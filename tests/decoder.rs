use quick_xml::events::attributes::Attributes;
use tmx::data::{Image, Object, ObjectGroup, Point2, Tile, TileSet, TilesOrigin, Vector2};
use tmx::decoder::{
    data_text, extract_image, map_tag, object_group_tag, object_tag, tile_image_tag, tile_tag,
    tileset_image_tag, tileset_tag, Attribute,
};
use tmx::grid::{Orientation, StaggerAxis};
use tmx::map::TileMap;
use tmx::text::register_data;

/// The attributes that the tokenizer reads from `buf`.
fn attributes_of(buf: &[u8]) -> Vec<Option<Attribute>> {
    Attributes::new(buf, 0)
        .map(|a| a.ok().map(|a| Attribute::new(a.key.to_vec(), a.value.into_owned())))
        .collect()
}

#[test]
fn register_data_test() {
    let correct_nb = 16;
    let str = correct_nb.to_string();

    let mut nb: u32 = 0;

    register_data(&mut nb, &str);
    assert_eq!(nb, correct_nb);
}

#[test]
fn extract_image_test() {
    let correct_image = Image::new("path", Vector2 { x: 62, y: 31 });

    let buf = format!(
        r#"< source="{}" width="{}" height="{}" >"#,
        correct_image.source, correct_image.size.x, correct_image.size.y
    );

    let attributes = attributes_of(buf.as_bytes());

    let image = extract_image(&attributes);
    assert_eq!(image, correct_image);
}

#[test]
fn map_tag_test() {
    let mut correct_map = TileMap::default();
    correct_map.size = Vector2 { x: 10, y: 8 };
    correct_map.tile_size = Vector2 { x: 32, y: 16 };
    correct_map.orientation = Orientation::Orthogonal;
    correct_map.stagger_axis = StaggerAxis::XAxis;

    let buf = format!(
        "< width=\"{}\" height=\"{}\", tilewidth=\"{}\" tileheight=\"{}\" orientation=\"orthogonal\", staggeraxis=\"x\" >",
        correct_map.size.x, correct_map.size.y,
        correct_map.tile_size.x, correct_map.tile_size.y
    );

    let mut map = TileMap::default();
    let attributes = attributes_of(buf.as_bytes());

    map_tag(&attributes, &mut map);
    assert_eq!(map.size, correct_map.size);
    assert_eq!(map.tile_size, correct_map.tile_size);
    assert_eq!(map.orientation, correct_map.orientation);
    assert_eq!(map.stagger_axis, correct_map.stagger_axis);
}

#[test]
fn tileset_tag_test() {
    let correct_tileset = TileSet {
        firstgid: 1,
        size: Vector2 { x: 64, y: 32 },
        count: 6,
        columns: 2,
        name: String::from("correct tileset"),
        origin: TilesOrigin::Empty,
    };

    let buf = format!(
        "< firstgid=\"{}\" tilewidth=\"{}\" tileheight=\"{}\" tilecount=\"{}\", columns=\"{}\" name=\"{}\" >",
        correct_tileset.firstgid, correct_tileset.size.x,
        correct_tileset.size.y, correct_tileset.count,
        correct_tileset.columns, correct_tileset.name
    );

    let mut tileset = TileSet::default();
    let attributes = attributes_of(buf.as_bytes());

    tileset_tag(&attributes, &mut tileset);
    assert_eq!(tileset.firstgid, correct_tileset.firstgid);
    assert_eq!(tileset.size, correct_tileset.size);
    assert_eq!(tileset.count, correct_tileset.count);
    assert_eq!(tileset.columns, correct_tileset.columns);
    assert_eq!(tileset.name, correct_tileset.name);
}

#[test]
fn tileset_image_tag_test() {
    let correct_origin = TilesOrigin::Image(Image::default());
    let buf = b"< source=\"\" >";

    let mut tileset = TileSet::default();
    let attributes = attributes_of(buf);

    tileset_image_tag(&attributes, &mut tileset);
    assert_eq!(tileset.origin, correct_origin);
}

#[test]
fn tile_tag_test() {
    let correct_id = 2;
    let buf = b"< id=\"2\" >";

    let mut tile = Tile::default();
    let attributes = attributes_of(buf);

    tile_tag(&attributes, &mut tile);
    assert_eq!(tile.id, correct_id);
}

#[test]
fn tile_image_tag_test() {
    let correct_path = String::from("path");
    let buf = b"< source=\"path\" >";

    let mut tile = Tile::default();
    let attributes = attributes_of(buf);

    tile_image_tag(&attributes, &mut tile);
    assert_eq!(tile.image.source, correct_path);
}

#[test]
fn object_group_tag_test() {
    let correct_object_group = ObjectGroup {
        id: 3,
        name: String::from("object group"),
        objects: Vec::new(),
    };

    let buf = format!(
        "< id=\"{}\" name=\"{}\"  >",
        correct_object_group.id, correct_object_group.name,
    );

    let mut object_group = ObjectGroup::default();
    let attributes = attributes_of(buf.as_bytes());

    object_group_tag(&attributes, &mut object_group);
    assert_eq!(object_group, correct_object_group);
}

#[test]
fn object_tag_test() {
    let correct_object = Object {
        id: 3,
        gid: 4,
        coords: Point2 { x: 32, y: 64 },
        size: Vector2 { x: 16, y: 16 },
    };

    let buf = format!(
        "< id=\"{}\" gid=\"{}\" x=\"{}\" y=\"{}\" width=\"{}\" height=\"{}\"  >",
        correct_object.id, correct_object.gid, correct_object.coords.x,
        correct_object.coords.y, correct_object.size.x, correct_object.size.y
    );

    let mut object = Object::default();
    let attributes = attributes_of(buf.as_bytes());

    object_tag(&attributes, &mut object);
    assert_eq!(object, correct_object);
}

#[test]
fn data_text_test() {
    let mut correct_map = TileMap::default();
    correct_map.tiles = vec![0, 0, 0, 3, 2, 1];

    let mut map = TileMap::default();
    let bytes = b"0,0,0,\n3,2,1";

    data_text(bytes, &mut map);
    assert_eq!(map.tiles, correct_map.tiles);
}

fn attribute(key: &str, value: &[u8]) -> Option<Attribute> {
    Some(Attribute::new(key.as_bytes().to_vec(), value.to_vec()))
}

#[test]
fn unreadable_values_keep_the_field() {
    let mut map = TileMap::default();
    map.size = Vector2 { x: 5, y: 5 };
    let attributes = vec![
        attribute("width", b"7"),
        attribute("width", b"seven"),
        None,
        attribute("height", b"\xff9"),
        attribute("orientation", b"HEXAGONAL"),
        attribute("staggeraxis", b"Y"),
        attribute("unknown", b"1"),
    ];
    map_tag(&attributes, &mut map);
    assert_eq!(map.size, Vector2 { x: 7, y: 5 });
    assert_eq!(map.orientation, Orientation::Hexagonal);
    assert_eq!(map.stagger_axis, StaggerAxis::YAxis);
}

#[test]
fn invalid_utf8_name_is_skipped() {
    let mut tileset = TileSet::default();
    tileset_tag(&[attribute("name", b"ok"), attribute("name", b"bad\xff")], &mut tileset);
    assert_eq!(tileset.name, "ok");
}

#[test]
fn tile_id_comes_from_the_first_id_attribute() {
    let mut tile = Tile::default();
    tile_tag(&[attribute("id", b"x"), attribute("id", b"5")], &mut tile);
    assert_eq!(tile.id, 0);
    tile_tag(&[attribute("id", b"8"), attribute("id", b"5")], &mut tile);
    assert_eq!(tile.id, 8);
}

#[test]
fn data_text_with_invalid_bytes_keeps_the_numbers() {
    let mut map = TileMap::default();
    data_text(b"1,\xff,2\n3", &mut map);
    assert_eq!(map.tiles, vec![1, 2, 3]);
}

#[test]
fn orientation_and_axis_parse() {
    assert_eq!("Isometric".parse::<Orientation>(), Ok(Orientation::Isometric));
    assert_eq!(Orientation::parse("staggered"), Ok(Orientation::Staggered));
    assert_eq!(Orientation::parse(""), Err(tmx::text::ParsingError::EmptyString));
    assert_eq!(
        Orientation::parse("round"),
        Err(tmx::text::ParsingError::InvalidString("round".to_string()))
    );
    assert_eq!("x".parse::<StaggerAxis>(), Ok(StaggerAxis::XAxis));
    assert_eq!(
        StaggerAxis::parse("z"),
        Err(tmx::text::ParsingError::InvalidString("z".to_string()))
    );
}
