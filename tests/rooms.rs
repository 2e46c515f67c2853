use tiraic_levels::current::CurrentRoom;
use tiraic_levels::room::{load_room_from_text, room_file_path, RoomLoadError};
use tiraic_levels::schema::{LayerKind, TileInstance};
use tiraic_levels::spawn::{spawn_commands, SpawnCommand};
use tiraic_levels::world::{find_room, load_world_index_from_text};

const GRID: &str = r#"{"__type":"IntGrid","__cWid":2,"__cHei":2,"intGridCsv":[0,1,1,0]}"#;
const DECO: &str = r#"{"__type":"AutoLayer","__cWid":2,"__cHei":2,"__tilesetDefUid":7,"autoLayerTiles":[{"src":[0,0],"px":[16,16]}]}"#;
const ENTS: &str = r#"{"__type":"Entities","__cWid":2,"__cHei":2,"entityInstances":[{"__grid":[1,1],"__identifier":"torch","__tags":["light"],"__worldX":16,"__worldY":16}]}"#;

fn room_text(layers: &[&str]) -> String {
    format!(r#"{{"uid":3,"worldX":-32,"worldY":64,"layerInstances":[{}]}}"#, layers.join(","))
}

#[test]
fn fixture_room_loads() {
    let room = load_room_from_text(&room_text(&[GRID, DECO, ENTS])).unwrap();
    assert_eq!(room.uid, 3);
    assert_eq!(room.world_offset, (-32, 64));
    assert_eq!(room.collision_grid.width, 2);
    assert_eq!(room.collision_grid.height, 2);
    assert_eq!(room.collision_grid.cells, vec![0, 1, 1, 0]);
    assert_eq!(room.decoration.tileset_id, 7);
    assert_eq!(room.decoration.tiles.len(), 1);
    assert_eq!(room.decoration.tiles[0], TileInstance { source_px: (0, 0), dest_px: (16, 16), id: None });
    assert_eq!(room.entities.entities.len(), 1);
    let e = &room.entities.entities[0];
    assert_eq!(e.grid_cell, (1, 1));
    assert_eq!(e.kind, "torch");
    assert_eq!(e.tags, vec!["light".to_string()]);
    assert_eq!(e.world_px, (16, 16));
    assert_eq!(e.width, None);
    assert_eq!(e.height, None);
}

#[test]
fn layer_order_does_not_matter() {
    let a = load_room_from_text(&room_text(&[GRID, DECO, ENTS])).unwrap();
    let b = load_room_from_text(&room_text(&[ENTS, GRID, DECO])).unwrap();
    let c = load_room_from_text(&room_text(&[DECO, ENTS, GRID])).unwrap();
    assert_eq!(a, b);
    assert_eq!(a, c);
}

#[test]
fn grid_with_wrong_cell_count_is_malformed() {
    let short = r#"{"__type":"IntGrid","__cWid":2,"__cHei":2,"intGridCsv":[0,1,1]}"#;
    let long = r#"{"__type":"IntGrid","__cWid":2,"__cHei":2,"intGridCsv":[0,1,1,0,1]}"#;
    assert_eq!(load_room_from_text(&room_text(&[short, DECO, ENTS])), Err(RoomLoadError::MalformedData));
    assert_eq!(load_room_from_text(&room_text(&[long, DECO, ENTS])), Err(RoomLoadError::MalformedData));
}

#[test]
fn missing_entity_layer_is_reported() {
    let r = load_room_from_text(&room_text(&[GRID, DECO]));
    assert_eq!(r, Err(RoomLoadError::MissingLayer(LayerKind::Entities)));
}

#[test]
fn missing_collision_and_decoration_layers_are_reported() {
    assert_eq!(
        load_room_from_text(&room_text(&[DECO, ENTS])),
        Err(RoomLoadError::MissingLayer(LayerKind::IntGrid))
    );
    assert_eq!(
        load_room_from_text(&room_text(&[GRID, ENTS])),
        Err(RoomLoadError::MissingLayer(LayerKind::AutoLayer))
    );
    assert_eq!(
        load_room_from_text(&room_text(&[])),
        Err(RoomLoadError::MissingLayer(LayerKind::IntGrid))
    );
}

#[test]
fn default_room_is_level_0_and_loads() {
    let current = CurrentRoom::default();
    assert_eq!(current.get(), "level_0");
    assert_eq!(CurrentRoom::new().get(), "level_0");
    let path = room_file_path("./assets/level-data/tiraic", &current.get());
    assert_eq!(path, "./assets/level-data/tiraic/level_0.ldtkl");
    assert!(load_room_from_text(&room_text(&[GRID, DECO, ENTS])).is_ok());
}

#[test]
fn current_room_can_change() {
    let mut current = CurrentRoom::new();
    current.set("level_3".to_string());
    assert_eq!(current.get(), "level_3");
}

#[test]
fn unknown_layer_tag_is_malformed() {
    let odd = r#"{"__type":"Tiles","__cWid":2,"__cHei":2,"gridTiles":[]}"#;
    assert_eq!(load_room_from_text(&room_text(&[GRID, DECO, ENTS, odd])), Err(RoomLoadError::MalformedData));
}

#[test]
fn reloading_gives_equal_rooms() {
    let text = room_text(&[GRID, DECO, ENTS]);
    let a = load_room_from_text(&text);
    let b = load_room_from_text(&text);
    assert!(a.is_ok());
    assert_eq!(a, b);
}

#[test]
fn text_that_is_not_json_is_malformed() {
    assert_eq!(load_room_from_text("{\"uid\": 3,"), Err(RoomLoadError::MalformedData));
    assert_eq!(load_room_from_text(""), Err(RoomLoadError::MalformedData));
}

#[test]
fn missing_or_ill_typed_member_is_malformed() {
    let no_uid = format!(r#"{{"worldX":0,"worldY":0,"layerInstances":[{},{},{}]}}"#, GRID, DECO, ENTS);
    assert_eq!(load_room_from_text(&no_uid), Err(RoomLoadError::MalformedData));
    let negative_uid = format!(r#"{{"uid":-1,"worldX":0,"worldY":0,"layerInstances":[{},{},{}]}}"#, GRID, DECO, ENTS);
    assert_eq!(load_room_from_text(&negative_uid), Err(RoomLoadError::MalformedData));
    let fraction = format!(r#"{{"uid":1.5,"worldX":0,"worldY":0,"layerInstances":[{},{},{}]}}"#, GRID, DECO, ENTS);
    assert_eq!(load_room_from_text(&fraction), Err(RoomLoadError::MalformedData));
    let big_cell = r#"{"__type":"IntGrid","__cWid":1,"__cHei":1,"intGridCsv":[256]}"#;
    assert_eq!(load_room_from_text(&room_text(&[big_cell, DECO, ENTS])), Err(RoomLoadError::MalformedData));
    let bad_pair = r#"{"__type":"AutoLayer","__cWid":2,"__cHei":2,"__tilesetDefUid":7,"autoLayerTiles":[{"src":[0,0,0],"px":[16,16]}]}"#;
    assert_eq!(load_room_from_text(&room_text(&[GRID, bad_pair, ENTS])), Err(RoomLoadError::MalformedData));
    let not_an_object = "[1, 2, 3]";
    assert_eq!(load_room_from_text(not_an_object), Err(RoomLoadError::MalformedData));
}

#[test]
fn optional_members_are_read_when_present() {
    let deco = r#"{"__type":"AutoLayer","__cWid":2,"__cHei":2,"__tilesetDefUid":7,"autoLayerTiles":[{"src":[8,0],"px":[0,16],"id":42},{"src":[0,8],"px":[16,0],"id":null}]}"#;
    let ents = r#"{"__type":"Entities","__cWid":2,"__cHei":2,"entityInstances":[{"__grid":[0,1],"__identifier":"door","__tags":[],"__worldX":-8,"__worldY":24,"width":16,"height":32}]}"#;
    let room = load_room_from_text(&room_text(&[GRID, deco, ents])).unwrap();
    assert_eq!(room.decoration.tiles[0], TileInstance { source_px: (8, 0), dest_px: (0, 16), id: Some(42) });
    assert_eq!(room.decoration.tiles[1].id, None);
    let e = &room.entities.entities[0];
    assert_eq!(e.kind, "door");
    assert!(e.tags.is_empty());
    assert_eq!(e.world_px, (-8, 24));
    assert_eq!(e.width, Some(16));
    assert_eq!(e.height, Some(32));
}

#[test]
fn first_layer_of_a_kind_is_used() {
    let other = r#"{"__type":"IntGrid","__cWid":1,"__cHei":1,"intGridCsv":[5]}"#;
    let room = load_room_from_text(&room_text(&[GRID, other, DECO, ENTS])).unwrap();
    assert_eq!(room.collision_grid.cells, vec![0, 1, 1, 0]);
    let room = load_room_from_text(&room_text(&[other, GRID, DECO, ENTS])).unwrap();
    assert_eq!(room.collision_grid.cells, vec![5]);
    assert_eq!(room.collision_grid.width, 1);
}

#[test]
fn spawn_commands_cover_tiles_cells_and_entities() {
    let room = load_room_from_text(&room_text(&[GRID, DECO, ENTS])).unwrap();
    let cmds = spawn_commands(&room);
    assert_eq!(
        cmds,
        vec![
            SpawnCommand::SpawnTile { tileset_id: 7, source_px: (0, 0), dest_px: (16, 16) },
            SpawnCommand::SpawnCollider { cell: (1, 0), code: 1 },
            SpawnCommand::SpawnCollider { cell: (0, 1), code: 1 },
            SpawnCommand::SpawnEntity {
                kind: "torch".to_string(),
                world_px: (16, 16),
                width: None,
                height: None,
                tags: vec!["light".to_string()],
            },
        ]
    );
}

#[test]
fn colliders_use_row_major_positions() {
    let grid = r#"{"__type":"IntGrid","__cWid":3,"__cHei":2,"intGridCsv":[2,0,0,0,0,9]}"#;
    let room = load_room_from_text(&room_text(&[grid, DECO, ENTS])).unwrap();
    let cmds = spawn_commands(&room);
    assert_eq!(cmds[1], SpawnCommand::SpawnCollider { cell: (0, 0), code: 2 });
    assert_eq!(cmds[2], SpawnCommand::SpawnCollider { cell: (2, 1), code: 9 });
    assert_eq!(cmds.len(), 4);
}

const WORLD: &str = r#"{
  "defs": {"layers": [{}, {"uid": 1}], "entities": [{}], "tilesets": []},
  "levels": [
    {"identifier": "level_0", "uid": 0, "worldX": 0, "worldY": 0, "pxWid": 256, "pxHei": 256},
    {"identifier": "level_1", "uid": 12, "worldX": 256, "worldY": -16, "pxWid": 128, "pxHei": 64}
  ]
}"#;

#[test]
fn world_index_lists_rooms() {
    let w = load_world_index_from_text(WORLD).unwrap();
    assert_eq!(w.definitions.layers, 2);
    assert_eq!(w.definitions.entities, 1);
    assert_eq!(w.definitions.tilesets, 0);
    assert_eq!(w.rooms.len(), 2);
    assert_eq!(w.rooms[1].identifier, "level_1");
    assert_eq!(w.rooms[1].uid, 12);
    assert_eq!(w.rooms[1].world_offset, (256, -16));
    assert_eq!(w.rooms[1].pixel_size, (128, 64));
}

#[test]
fn world_index_lookup() {
    let w = load_world_index_from_text(WORLD).unwrap();
    assert_eq!(find_room(&w, "level_1"), Ok(1));
    assert_eq!(find_room(&w, "level_0"), Ok(0));
    assert_eq!(find_room(&w, "level_9"), Err(RoomLoadError::NotFound));
}

#[test]
fn malformed_world_index_is_refused() {
    assert_eq!(load_world_index_from_text("not json"), Err(RoomLoadError::MalformedData));
    let no_defs = r#"{"levels": []}"#;
    assert_eq!(load_world_index_from_text(no_defs), Err(RoomLoadError::MalformedData));
    let bad_level = r#"{"defs": {"layers": [], "entities": [], "tilesets": []}, "levels": [{"identifier": "a", "uid": 0}]}"#;
    assert_eq!(load_world_index_from_text(bad_level), Err(RoomLoadError::MalformedData));
}
