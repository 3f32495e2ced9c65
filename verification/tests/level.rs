use bevy_ecs_ldtk::components::{TileEnumTags, TileMetadata};
use bevy_ecs_ldtk::level::{
    filter_tiles_in_bounds, layer_grid_tiles, tile_enum_tags_map, tile_in_layer_bounds,
    tile_metadata_for, tile_metadata_map,
};
use bevy_ecs_ldtk::ldtk::{
    EnumTagValue, IVec2, LayerInstance, TileCustomMetadata, TileInstance, TilesetDefinition,
};

fn tile(x: i32, y: i32, t: i32) -> TileInstance {
    let mut tile = TileInstance::default();
    tile.px = IVec2::new(x, y);
    tile.t = t;
    tile
}

#[test]
fn tiles_at_distinct_positions_stay_in_one_layer() {
    let tiles = vec![tile(0, 0, 1), tile(16, 0, 2), tile(0, 16, 3)];
    assert_eq!(layer_grid_tiles(tiles.clone()), vec![tiles]);
}

#[test]
fn stacked_tiles_are_split_into_layers() {
    let tiles = vec![
        tile(0, 0, 1),
        tile(0, 0, 2),
        tile(16, 0, 3),
        tile(0, 0, 4),
        tile(16, 0, 5),
    ];
    assert_eq!(
        layer_grid_tiles(tiles),
        vec![
            vec![tile(0, 0, 1), tile(16, 0, 3)],
            vec![tile(0, 0, 2), tile(16, 0, 5)],
            vec![tile(0, 0, 4)],
        ]
    );
}

#[test]
fn no_tiles_give_one_empty_layer() {
    assert_eq!(layer_grid_tiles(vec![]), vec![Vec::<TileInstance>::new()]);
}

fn layer(c_wid: i32, c_hei: i32, grid_size: i32) -> LayerInstance {
    let mut layer = LayerInstance::default();
    layer.c_wid = c_wid;
    layer.c_hei = c_hei;
    layer.grid_size = grid_size;
    layer
}

#[test]
fn tiles_out_of_the_layer_are_not_in_bounds() {
    let layer = layer(4, 2, 16);
    assert!(tile_in_layer_bounds(&tile(0, 0, 0), &layer));
    assert!(tile_in_layer_bounds(&tile(63, 31, 0), &layer));
    assert!(!tile_in_layer_bounds(&tile(64, 0, 0), &layer));
    assert!(!tile_in_layer_bounds(&tile(0, 32, 0), &layer));
    assert!(!tile_in_layer_bounds(&tile(-1, 0, 0), &layer));
    assert!(!tile_in_layer_bounds(&tile(0, -16, 0), &layer));

    assert_eq!(
        filter_tiles_in_bounds(
            vec![tile(0, 0, 1), tile(64, 0, 2), tile(48, 16, 3)],
            &layer
        ),
        vec![tile(0, 0, 1), tile(48, 16, 3)]
    );
}

fn tileset() -> TilesetDefinition {
    let mut tileset = TilesetDefinition::default();
    tileset.custom_data = vec![
        TileCustomMetadata {
            data: "grass".to_string(),
            tile_id: 1,
        },
        TileCustomMetadata {
            data: "stone".to_string(),
            tile_id: 2,
        },
        TileCustomMetadata {
            data: "mossy stone".to_string(),
            tile_id: 2,
        },
    ];
    tileset.enum_tags = vec![
        EnumTagValue {
            enum_value_id: "Solid".to_string(),
            tile_ids: vec![2, 3],
        },
        EnumTagValue {
            enum_value_id: "Slippery".to_string(),
            tile_ids: vec![3, 4, 3],
        },
    ];
    tileset.tags_source_enum_uid = Some(12);
    tileset
}

#[test]
fn tile_metadata_comes_from_custom_data() {
    let tileset = tileset();
    let metadata_map = tile_metadata_map(Some(&tileset));
    assert_eq!(metadata_map.len(), 2);
    assert_eq!(metadata_map[&1].data, "grass".to_string());
    assert_eq!(metadata_map[&2].data, "mossy stone".to_string());
    assert!(tile_metadata_map(None).is_empty());
}

#[test]
fn tile_enum_tags_collect_each_tagging() {
    let tileset = tileset();
    let enum_tags_map = tile_enum_tags_map(Some(&tileset));
    assert_eq!(enum_tags_map.len(), 3);
    assert_eq!(
        enum_tags_map[&2],
        TileEnumTags {
            tags: vec!["Solid".to_string()],
            source_enum_uid: Some(12),
        }
    );
    assert_eq!(
        enum_tags_map[&3].tags,
        vec![
            "Solid".to_string(),
            "Slippery".to_string(),
            "Slippery".to_string()
        ]
    );
    assert_eq!(enum_tags_map[&4].tags, vec!["Slippery".to_string()]);
    assert!(tile_enum_tags_map(None).is_empty());
}

#[test]
fn tiles_get_the_metadata_they_have() {
    let tileset = tileset();
    let metadata_map = tile_metadata_map(Some(&tileset));
    let enum_tags_map = tile_enum_tags_map(Some(&tileset));

    let (metadata, tags) = tile_metadata_for(&tile(0, 0, 1), &metadata_map, &enum_tags_map);
    assert_eq!(
        metadata,
        Some(&TileMetadata {
            data: "grass".to_string()
        })
    );
    assert_eq!(tags, None);

    let (metadata, tags) = tile_metadata_for(&tile(0, 0, 4), &metadata_map, &enum_tags_map);
    assert_eq!(metadata, None);
    assert_eq!(tags.unwrap().tags, vec!["Slippery".to_string()]);

    let (metadata, tags) = tile_metadata_for(&tile(0, 0, 9), &metadata_map, &enum_tags_map);
    assert_eq!((metadata, tags), (None, None));
}
