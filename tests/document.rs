use tmx::data::{Point2, TilesOrigin, Vector2};
use tmx::decoder::Attribute;
use tmx::document::{decode_events, DecodeError, DocEvent, TMXDecoder};
use tmx::grid::{Orientation, StaggerAxis};

const DOCUMENT: &str = r#"<?xml version="1.0" encoding="UTF-8"?>
<map version="1.2" orientation="hexagonal" width="3" height="2" tilewidth="16" tileheight="16" staggeraxis="x">
 <tileset firstgid="5" name="trees" tilewidth="16" tileheight="16" tilecount="2" columns="0">
  <grid orientation="orthogonal" width="1" height="1"/>
  <tile id="0"><image width="16" height="16" source="oak.png"/></tile>
  <tile id="3"><image width="16" height="16" source="pine.png"/></tile>
 </tileset>
 <tileset firstgid="1" name="ground" tilewidth="16" tileheight="16" tilecount="4" columns="2">
  <image source="ground.png" width="32" height="32"/>
 </tileset>
 <layer id="1" name="floor" width="3" height="2">
  <data encoding="csv">
1,2,3,
4,5,8
</data>
 </layer>
 <objectgroup id="2" name="things">
  <object id="1" gid="5" x="16" y="32" width="16" height="16"/>
  <object id="2" x="4" y="8"><properties/></object>
 </objectgroup>
 <unknown><map width="99"/></unknown>
</map>
"#;

#[test]
fn decodes_a_whole_document() {
    let map = TMXDecoder::from(DOCUMENT.as_bytes()).load_map().unwrap();
    assert_eq!(map.size, Vector2 { x: 3, y: 2 });
    assert_eq!(map.tile_size, Vector2 { x: 16, y: 16 });
    assert_eq!(map.orientation, Orientation::Hexagonal);
    assert_eq!(map.stagger_axis, StaggerAxis::XAxis);
    assert_eq!(map.tiles, vec![1, 2, 3, 4, 5, 8]);

    let names: Vec<&str> = map.tilesets().iter().map(|t| t.name.as_str()).collect();
    assert_eq!(names, vec!["ground", "trees"]);
    match &map.tilesets()[0].origin {
        TilesOrigin::Image(image) => {
            assert_eq!(image.source, "ground.png");
            assert_eq!(image.size, Vector2 { x: 32, y: 32 });
        },
        other => panic!("unexpected origin {:?}", other),
    }
    match &map.tilesets()[1].origin {
        TilesOrigin::Collection(tiles) => {
            assert_eq!(tiles.len(), 2);
            assert_eq!(tiles[&3].image.source, "pine.png");
        },
        other => panic!("unexpected origin {:?}", other),
    }
    assert_eq!(map.get_tileset(4).map(|t| t.name.as_str()), Some("ground"));
    assert_eq!(map.get_tileset(8).map(|t| t.name.as_str()), Some("trees"));
    assert!(map.get_tileset(9).is_none());

    assert_eq!(map.object_groups.len(), 1);
    let group = &map.object_groups[0];
    assert_eq!((group.id, group.name.as_str()), (2, "things"));
    assert_eq!(group.objects.len(), 2);
    assert_eq!(group.objects[0].coords, Point2 { x: 16, y: 32 });
    assert_eq!(group.objects[0].valid_gid(), Some(5));
    assert_eq!(group.objects[1].valid_gid(), None);
}

#[test]
fn unclosed_document_fails() {
    let r = TMXDecoder::from(b"<map width=\"2\"><layer>".as_ref()).load_map();
    assert_eq!(r, Err(DecodeError::Unclosed));
}

#[test]
fn stray_closing_tag_fails() {
    let r = TMXDecoder::from(b"<map></map></map>".as_ref()).load_map();
    assert!(matches!(r, Err(DecodeError::Syntax { .. })));
}

#[test]
fn malformed_text_fails() {
    let r = TMXDecoder::from(b"<map></layer>".as_ref()).load_map();
    assert!(matches!(r, Err(DecodeError::Syntax { .. })));
}

#[test]
fn empty_document_gives_an_empty_map() {
    let map = TMXDecoder::from(b"".as_ref()).load_map().unwrap();
    assert_eq!(map.tiles, Vec::<u32>::new());
    assert!(map.get_tileset(1).is_none());
}

fn start(name: &str, attributes: &[(&str, &str)]) -> DocEvent {
    DocEvent::Start {
        name: name.as_bytes().to_vec(),
        attributes: attributes
            .iter()
            .map(|(k, v)| Some(Attribute::new(k.as_bytes().to_vec(), v.as_bytes().to_vec())))
            .collect(),
    }
}

fn empty(name: &str, attributes: &[(&str, &str)]) -> DocEvent {
    match start(name, attributes) {
        DocEvent::Start { name, attributes } => DocEvent::Empty { name, attributes },
        _ => unreachable!(),
    }
}

fn sample_events() -> Vec<DocEvent> {
    vec![
        start("map", &[("width", "2"), ("height", "1"), ("tilewidth", "8")]),
        start("tileset", &[("firstgid", "3"), ("tilecount", "2"), ("name", "b")]),
        DocEvent::End,
        empty("tileset", &[("firstgid", "1"), ("tilecount", "2"), ("name", "a")]),
        start("layer", &[]),
        start("data", &[]),
        DocEvent::Text(b"4, 1".to_vec()),
        DocEvent::End,
        DocEvent::End,
        start("objectgroup", &[("id", "7")]),
        empty("object", &[("id", "1"), ("gid", "2")]),
        empty("object", &[("id", "2")]),
        DocEvent::End,
        DocEvent::End,
    ]
}

#[test]
fn decode_events_builds_the_map() {
    let map = decode_events(&sample_events()).unwrap();
    assert_eq!(map.size, Vector2 { x: 2, y: 1 });
    assert_eq!(map.tile_size.x, 8);
    assert_eq!(map.tiles, vec![4, 1]);
    let names: Vec<&str> = map.tilesets().iter().map(|t| t.name.as_str()).collect();
    assert_eq!(names, vec!["a", "b"]);
    assert_eq!(map.get_tileset(4).map(|t| t.name.as_str()), Some("b"));
    assert_eq!(map.object_groups.len(), 1);
    assert_eq!(map.object_groups[0].id, 7);
    let ids: Vec<u32> = map.object_groups[0].objects.iter().map(|o| o.id).collect();
    assert_eq!(ids, vec![1, 2]);
}

#[test]
fn decode_events_ignores_unknown_subtrees() {
    let plain = decode_events(&sample_events()).unwrap();
    let mut events = sample_events();
    events.insert(9, start("properties", &[("width", "99")]));
    events.insert(10, empty("tileset", &[("firstgid", "50")]));
    events.insert(11, DocEvent::Text(b"5,5".to_vec()));
    events.insert(12, DocEvent::End);
    events.insert(13, empty("layer", &[]));
    assert_eq!(decode_events(&events), Ok(plain));
}

#[test]
fn decode_events_rejects_a_stray_end() {
    let mut events = sample_events();
    events.push(DocEvent::End);
    assert_eq!(decode_events(&events), Err(DecodeError::UnexpectedEnd));
}

#[test]
fn decode_events_rejects_open_tags() {
    let mut events = sample_events();
    events.pop();
    assert_eq!(decode_events(&events), Err(DecodeError::Unclosed));
    assert_eq!(decode_events(&[]).map(|m| m.tiles.len()), Ok(0));
}
