use bevy_ecs_ldtk::assets::{
    LdtkAsset, LdtkParentProject, LdtkParentProjectLoaderError, LevelAsset, LevelIndices,
};
use bevy_ecs_ldtk::ldtk::{EntityInstance, LayerInstance, LdtkJson, Level, TilesetDefinition, World};
use bevy_ecs_ldtk::{EntityIid, LevelSelection};

fn level(iid: &str, identifier: &str, world_y: i32, px_hei: i32) -> Level {
    let mut level = Level::default();
    level.iid = iid.to_string();
    level.identifier = identifier.to_string();
    level.world_y = world_y;
    level.px_hei = px_hei;
    level
}

fn project() -> LdtkJson {
    let mut project = LdtkJson::default();
    let mut first = level("a", "First", 0, 256);
    first.bg_rel_path = Some("bg.png".to_string());
    let mut layer = LayerInstance::default();
    let mut entity = EntityInstance::default();
    entity.iid = "e".to_string();
    layer.entity_instances = vec![entity];
    first.layer_instances = Some(vec![layer]);
    project.levels = vec![first, level("b", "Second", 256, 128)];
    let mut tileset = TilesetDefinition::default();
    tileset.uid = 3;
    tileset.rel_path = Some("tiles.png".to_string());
    project.defs.tilesets = vec![tileset];
    project
}

#[test]
fn internal_levels_are_labeled_assets_of_the_project() {
    let asset = LdtkAsset::load_from_dir("maps", project());
    assert_eq!(
        asset.level_map.get(&"a".to_string()),
        Some(&LevelAsset::Labeled {
            label: "First".to_string(),
            background_image: Some("maps/bg.png".to_string()),
        })
    );
    assert_eq!(
        asset.level_map.get(&"b".to_string()),
        Some(&LevelAsset::Labeled { label: "Second".to_string(), background_image: None })
    );
    assert_eq!(asset.tileset_map.get(&3), Some(&"maps/tiles.png".to_string()));
    assert_eq!(asset.world_height(), 384);
    assert_eq!(
        asset.get_entity_instance(&EntityIid::new("e".to_string())).map(|e| e.iid.clone()),
        Some("e".to_string())
    );
    assert_eq!(asset.get_entity_instance(&EntityIid::new("x".to_string())), None);
}

#[test]
fn external_levels_without_a_path_get_no_asset() {
    let mut project = project();
    project.external_levels = true;
    project.levels[1].external_rel_path = Some("levels/b.ldtkl".to_string());
    let asset = LdtkAsset::load_from_dir("maps", project);
    assert!(!asset.level_map.contains_key(&"a".to_string()));
    assert_eq!(
        asset.level_map.get(&"b".to_string()),
        Some(&LevelAsset::External("maps/levels/b.ldtkl".to_string()))
    );
}

#[test]
fn get_level_finds_the_first_selected_level() {
    let mut project = project();
    let mut world = World::default();
    world.levels = vec![level("c", "Second", 0, 0)];
    project.worlds = vec![world];
    let asset = LdtkAsset::load_from_dir("maps", project);
    let found = asset.get_level(&LevelSelection::Identifier("Second".to_string()));
    assert_eq!(found.map(|l| l.iid.clone()), Some("b".to_string()));
    let found = asset.get_level(&LevelSelection::Indices(LevelIndices::in_world(0, 0)));
    assert_eq!(found.map(|l| l.iid.clone()), Some("c".to_string()));
    assert!(asset.get_level(&LevelSelection::Uid(99)).is_none());
    assert_eq!(asset.iter_levels().len(), 3);
}

#[test]
fn world_height_is_at_least_zero() {
    let mut project = LdtkJson::default();
    project.levels = vec![level("a", "A", -64, 32)];
    assert_eq!(LdtkAsset::load_from_dir("maps", project).world_height(), 0);
}

#[test]
fn parent_projects_refuse_internal_levels() {
    assert!(matches!(
        LdtkParentProject::load_from_dir("maps", project()),
        Err(LdtkParentProjectLoaderError::InternalLevelProject)
    ));
    let mut project = project();
    project.external_levels = true;
    project.levels[1].external_rel_path = Some("levels/b.ldtkl".to_string());
    assert!(matches!(
        LdtkParentProject::load_from_dir("maps", project.clone()),
        Err(LdtkParentProjectLoaderError::ExternalLevelWithNullPath)
    ));
    project.levels[0].external_rel_path = Some("levels/a.ldtkl".to_string());
    let parent = LdtkParentProject::load_from_dir("maps", project).ok().unwrap();
    let metadata = parent.level_map().get(&"b".to_string()).unwrap();
    assert_eq!(metadata.external_handle(), &"maps/levels/b.ldtkl".to_string());
    assert_eq!(parent.get_indices_for_iid(&"b".to_string()), Some(&LevelIndices::in_root(1)));
    assert_eq!(parent.tileset_map().get(&3), Some(&"maps/tiles.png".to_string()));
    assert!(parent.int_grid_image_handle().is_none());
    assert_eq!(parent.data().levels.len(), 2);
}

#[test]
fn level_files_resolve_background_images_two_directories_up() {
    let mut with_bg = level("a", "A", 0, 0);
    with_bg.bg_rel_path = Some("bg.png".to_string());
    let loaded = bevy_ecs_ldtk::assets::LdtkLevel::load("maps/levels/a.ldtkl", with_bg.clone());
    let loaded = loaded.unwrap();
    assert_eq!(loaded.background_image, Some("maps/bg.png".to_string()));
    assert_eq!(loaded.level, with_bg);
    assert!(bevy_ecs_ldtk::assets::LdtkLevel::load("a.ldtkl", with_bg).is_none());
    let plain = bevy_ecs_ldtk::assets::LdtkLevel::load("a.ldtkl", level("b", "B", 0, 0)).unwrap();
    assert_eq!(plain.background_image, None);
}
