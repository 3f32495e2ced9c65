use bevy_ecs_ldtk::components::{GridCoords, Worldly};
use bevy_ecs_ldtk::ldtk::{
    EntityInstance, IVec2, LayerInstance, TileInstance, TilesetDefinition, TilesetRectangle, Type,
};
use bevy_ecs_ldtk::level::spawn_plan::{
    atlas_index, entities_to_spawn, int_grid_cells, layer_sublayer_count, level_spawn_plan,
    LayerTexture, SpawnStep,
};
use bevy_ecs_ldtk::{LdtkSettings, LevelBackground};

fn tile(x: i32, y: i32) -> TileInstance {
    let mut tile = TileInstance::default();
    tile.px = IVec2::new(x, y);
    tile
}

fn layer(identifier: &str, layer_type: Type, tileset: Option<i32>) -> LayerInstance {
    let mut layer = LayerInstance::default();
    layer.identifier = identifier.to_string();
    layer.layer_instance_type = layer_type;
    layer.tileset_def_uid = tileset;
    layer
}

#[test]
fn background_comes_first_and_layers_last_first() {
    let mut tiles = layer("Tiles", Type::Tiles, Some(7));
    tiles.grid_tiles = vec![tile(0, 0), tile(0, 0)];
    tiles.auto_layer_tiles = vec![tile(0, 0), tile(16, 0)];
    let layers = vec![layer("Entities", Type::Entities, None), tiles];
    let plan = level_spawn_plan(&layers, &LdtkSettings::default(), &vec![], true, false);
    assert_eq!(
        plan,
        vec![
            SpawnStep::Background,
            SpawnStep::BackgroundImage,
            SpawnStep::TileLayer {
                layer: 1,
                sublayer: 0,
                texture: LayerTexture::Tileset(7),
                int_grid_cells: false,
            },
            SpawnStep::TileLayer {
                layer: 1,
                sublayer: 1,
                texture: LayerTexture::Tileset(7),
                int_grid_cells: false,
            },
            SpawnStep::TileLayer {
                layer: 1,
                sublayer: 2,
                texture: LayerTexture::Tileset(7),
                int_grid_cells: false,
            },
            SpawnStep::EntityLayer { layer: 0 },
        ]
    );
}

#[test]
fn no_background_without_rendered_backgrounds() {
    let mut settings = LdtkSettings::default();
    settings.level_background = LevelBackground::Nonexistent;
    let layers = vec![layer("Entities", Type::Entities, None)];
    let plan = level_spawn_plan(&layers, &settings, &vec![], true, false);
    assert_eq!(plan, vec![SpawnStep::EntityLayer { layer: 0 }]);
}

#[test]
fn no_background_image_step_without_an_image() {
    let plan = level_spawn_plan(&vec![], &LdtkSettings::default(), &vec![], false, false);
    assert_eq!(plan, vec![SpawnStep::Background]);
}

#[test]
fn excluded_and_untextured_layers_are_skipped() {
    let layers = vec![
        layer("Walls", Type::IntGrid, None),
        layer("Hidden", Type::Entities, None),
        layer("Ground", Type::IntGrid, None),
    ];
    let mut settings = LdtkSettings::default();
    settings.level_background = LevelBackground::Nonexistent;
    let excluded = vec!["Hidden".to_string()];
    assert_eq!(level_spawn_plan(&layers, &settings, &excluded, false, false), vec![]);
    assert_eq!(
        level_spawn_plan(&layers, &settings, &excluded, false, true),
        vec![
            SpawnStep::TileLayer {
                layer: 2,
                sublayer: 0,
                texture: LayerTexture::IntGridImage,
                int_grid_cells: true,
            },
            SpawnStep::TileLayer {
                layer: 0,
                sublayer: 0,
                texture: LayerTexture::IntGridImage,
                int_grid_cells: true,
            },
        ]
    );
}

#[test]
fn sublayers_count_the_most_stacked_tiles() {
    let mut tiles = layer("Tiles", Type::AutoLayer, Some(1));
    assert_eq!(layer_sublayer_count(&tiles), 1);
    tiles.grid_tiles = vec![tile(0, 0), tile(8, 0), tile(8, 0)];
    tiles.auto_layer_tiles = vec![tile(8, 0), tile(0, 0)];
    assert_eq!(layer_sublayer_count(&tiles), 3);
}

#[test]
fn int_grid_cells_are_the_nonzero_values_counted_from_the_bottom() {
    let mut walls = layer("Walls", Type::IntGrid, None);
    walls.c_wid = 3;
    walls.c_hei = 2;
    walls.int_grid_csv = vec![0, 1, 0, 2, 0, 3];
    assert_eq!(
        int_grid_cells(&walls),
        vec![
            (GridCoords::new(1, 1), 1),
            (GridCoords::new(0, 0), 2),
            (GridCoords::new(2, 0), 3),
        ]
    );
}

#[test]
fn worldly_entities_are_not_spawned_again() {
    let mut entities = layer("Entities", Type::Entities, None);
    for iid in ["a", "b", "c"] {
        let mut entity = EntityInstance::default();
        entity.iid = iid.to_string();
        entities.entity_instances.push(entity);
    }
    let worldly = vec![Worldly { entity_iid: "b".to_string() }];
    assert_eq!(entities_to_spawn(&entities, &worldly), vec![0, 2]);
    assert_eq!(entities_to_spawn(&entities, &vec![]), vec![0, 1, 2]);
}

#[test]
fn atlas_index_counts_cells_row_by_row() {
    let mut tileset = TilesetDefinition::default();
    tileset.c_wid = 5;
    tileset.spacing = 2;
    let mut rect = TilesetRectangle::default();
    rect.w = 16;
    rect.h = 16;
    rect.x = 36;
    rect.y = 18;
    assert_eq!(atlas_index(&rect, &tileset), 7);
}
