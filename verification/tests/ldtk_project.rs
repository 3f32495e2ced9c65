use bevy_ecs_ldtk::assets::ldtk_project::{asset_path_in_dir, ldtk_path_to_asset_path};
use bevy_ecs_ldtk::assets::level_metadata_accessor::LevelMetadataAccessor;
use bevy_ecs_ldtk::assets::{LdtkProject, LdtkProjectData, LdtkProjectLoaderError};
use bevy_ecs_ldtk::ldtk::raw_level_accessor::RawLevelAccessor;
use bevy_ecs_ldtk::{LevelIid, LevelSelection};
use bevy_ecs_ldtk::ldtk::{
    LdtkJson, LayerDefinition, LayerInstance, Level, TilesetDefinition, Type, World,
};

fn sample_level(n: usize, loaded: bool) -> Level {
    let mut level = Level::default();
    level.iid = format!("00000000-0000-4000-8000-{n:012}");
    level.uid = n as i32;
    level.identifier = format!("Level_{n}");
    if loaded {
        let mut layer = LayerInstance::default();
        layer.identifier = "Ground".to_string();
        level.layer_instances = Some(vec![layer]);
    }
    level
}

fn internal_levels_json() -> LdtkJson {
    let mut json = LdtkJson::default();
    json.levels = (0..4).map(|n| sample_level(n, true)).collect();
    json.worlds = (0..2)
        .map(|w| {
            let mut world = World::default();
            world.levels = (0..3).map(|n| sample_level(100 * (w + 1) + n, true)).collect();
            world
        })
        .collect();
    json
}

fn external_levels_json() -> LdtkJson {
    let mut json = internal_levels_json();
    json.external_levels = true;
    for level in json.levels.iter_mut() {
        level.layer_instances = None;
        level.external_rel_path = Some(format!("project/{}.ldtkl", level.identifier));
    }
    for world in json.worlds.iter_mut() {
        for level in world.levels.iter_mut() {
            level.layer_instances = None;
            level.external_rel_path = Some(format!("project/{}.ldtkl", level.identifier));
        }
    }
    json
}

#[test]
fn normalizes_asset_paths() {
    let resolve_path =
        |project_path: &str, rel_path: &str| ldtk_path_to_asset_path(project_path, rel_path);

    assert_eq!(
        resolve_path("project.ldtk", "images/tiles.png"),
        Some("images/tiles.png".to_string())
    );
    assert_eq!(
        resolve_path("projects/sub/project.ldtk", "../images/tiles.png"),
        Some("projects/images/tiles.png".to_string())
    );
    assert_eq!(
        resolve_path("projects/sub/project.ldtk", "../../tiles.png"),
        Some("tiles.png".to_string())
    );
}

#[test]
fn asset_paths_are_joined_onto_the_directory() {
    assert_eq!(
        asset_path_in_dir("assets/maps", "./tilesets/../tiles.png"),
        "assets/maps/tiles.png".to_string()
    );
    assert_eq!(ldtk_path_to_asset_path("", "tiles.png"), None);
}

#[test]
fn ldtk_project_json_data_accessor_is_transparent() {
    let project = LdtkProject::load_from_dir("", internal_levels_json()).unwrap();
    assert_eq!(project.json_data(), project.data().json_data());

    let project = LdtkProject::load_from_dir("", external_levels_json()).unwrap();
    assert_eq!(project.json_data(), project.data().json_data());
}

#[test]
fn ldtk_project_raw_level_accessor_implementation_is_transparent() {
    let project = LdtkProject::load_from_dir("", internal_levels_json()).unwrap();
    assert_eq!(project.root_levels(), project.json_data().root_levels());
    assert_eq!(project.worlds(), project.json_data().worlds());

    let project = LdtkProject::load_from_dir("", external_levels_json()).unwrap();
    assert_eq!(project.root_levels(), project.json_data().root_levels());
    assert_eq!(project.worlds(), project.json_data().worlds());
}

#[test]
fn ldtk_project_level_metadata_accessor_implementation_is_transparent() {
    for json in [internal_levels_json(), external_levels_json()] {
        let project = LdtkProject::load_from_dir("", json).unwrap();

        for level in &project.json_data().levels {
            assert_eq!(
                project.get_level_metadata_by_iid(&level.iid),
                project.data().get_level_metadata_by_iid(&level.iid),
            );
        }

        assert_eq!(
            project.get_level_metadata_by_iid(&"This_level_doesnt_exist".to_string()),
            None
        );
    }
}

#[test]
fn internal_levels_project_is_standalone() {
    let project = LdtkProject::load_from_dir("", internal_levels_json()).unwrap();
    assert!(matches!(project.data(), LdtkProjectData::Standalone(_)));
}

#[test]
fn external_levels_project_is_parent_with_external_paths() {
    let project = LdtkProject::load_from_dir("maps", external_levels_json()).unwrap();
    let parent = project.as_parent();
    let metadata = parent
        .level_map()
        .get(&project.json_data().levels[1].iid)
        .unwrap();
    assert_eq!(
        metadata.external_handle(),
        &"maps/project/Level_1.ldtkl".to_string()
    );
    assert_eq!(metadata.metadata().indices().level, 1);
}

#[test]
fn internal_level_with_null_layers_is_refused() {
    let mut json = internal_levels_json();
    json.worlds[1].levels[2].layer_instances = None;
    assert_eq!(
        LdtkProject::load_from_dir("", json),
        Err(LdtkProjectLoaderError::InternalLevelWithNullLayers)
    );
}

#[test]
fn external_level_without_path_is_refused() {
    let mut json = external_levels_json();
    json.levels[3].external_rel_path = None;
    assert_eq!(
        LdtkProject::load_from_dir("", json),
        Err(LdtkProjectLoaderError::ExternalLevelWithNullPath)
    );
}

#[test]
fn background_images_and_tilesets_get_asset_paths() {
    let mut json = internal_levels_json();
    json.levels[0].bg_rel_path = Some("../bg/sky.png".to_string());
    let mut tileset = TilesetDefinition::default();
    tileset.uid = 7;
    tileset.rel_path = Some("tiles/ground.png".to_string());
    let mut icons = TilesetDefinition::default();
    icons.uid = 8;
    json.defs.tilesets = vec![tileset, icons];
    let mut int_grid = LayerDefinition::default();
    int_grid.purple_type = Type::IntGrid;
    int_grid.grid_size = 8;
    json.defs.layers = vec![int_grid];

    let project = LdtkProject::load("maps/world.ldtk", json).unwrap().unwrap();

    let metadata = project
        .get_level_metadata_by_iid(&project.json_data().levels[0].iid)
        .unwrap();
    assert_eq!(metadata.bg_image(), &Some("bg/sky.png".to_string()));
    assert_eq!(
        project.tileset_map().get(&7),
        Some(&"maps/tiles/ground.png".to_string())
    );
    assert_eq!(project.tileset_map().get(&8), None);
    let image = project.int_grid_image_handle().unwrap();
    assert_eq!((image.width, image.height), (8, 8));
}

#[test]
fn loading_needs_a_project_directory_only_to_resolve_paths() {
    // nothing to resolve: the project loads
    let project = LdtkProject::load("", internal_levels_json()).unwrap().unwrap();
    assert_eq!(project.json_data(), &internal_levels_json());

    // a tileset image path must be resolved first
    let mut json = internal_levels_json();
    let mut tileset = TilesetDefinition::default();
    tileset.rel_path = Some("tiles.png".to_string());
    json.defs.tilesets = vec![tileset];
    assert!(LdtkProject::load("", json).is_none());

    // a level fails before any path is resolved: the failure is reported
    let mut json = internal_levels_json();
    json.levels[0].layer_instances = None;
    json.levels[1].bg_rel_path = Some("bg.png".to_string());
    assert_eq!(
        LdtkProject::load("", json),
        Some(Err(LdtkProjectLoaderError::InternalLevelWithNullLayers))
    );

    // external levels resolve the path of their file
    assert!(LdtkProject::load("", external_levels_json()).is_none());
}

#[test]
fn every_level_of_a_loaded_project_is_found_by_its_iid() {
    for json in [internal_levels_json(), external_levels_json()] {
        let project = LdtkProject::load_from_dir("", json).unwrap();
        for level in project.iter_raw_levels() {
            assert_eq!(project.get_raw_level_by_iid(&level.iid), Some(level));
        }
    }
}

#[test]
fn every_matching_selection_selects_its_level() {
    let project = LdtkProject::load_from_dir("", internal_levels_json()).unwrap();
    for (indices, level) in project.iter_raw_levels_with_indices() {
        let selections = [
            LevelSelection::Iid(LevelIid::new(level.iid.clone())),
            LevelSelection::Indices(indices),
            LevelSelection::Identifier(level.identifier.clone()),
            LevelSelection::Uid(level.uid),
        ];
        for selection in selections {
            assert!(selection.is_match(&indices, level));
            assert_eq!(
                project.find_raw_level_by_level_selection(&selection),
                Some(level)
            );
        }
    }
}
