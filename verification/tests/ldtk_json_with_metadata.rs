use bevy_ecs_ldtk::assets::level_metadata_accessor::LevelMetadataAccessor;
use bevy_ecs_ldtk::assets::{
    ExternalLevelAssets, LdtkExternalLevel, LdtkProject, LevelIndices, LevelMetadata,
};
use bevy_ecs_ldtk::ldtk::raw_level_accessor::RawLevelAccessor;
use bevy_ecs_ldtk::ldtk::{LdtkJson, LayerInstance, Level, World};
use bevy_ecs_ldtk::{LevelIid, LevelSelection};

fn sample_level(n: usize, loaded: bool) -> Level {
    let mut level = Level::default();
    level.iid = format!("00000000-0000-4000-8000-{n:012}");
    level.uid = n as i32;
    level.identifier = format!("Level_{n}");
    if loaded {
        let mut layer = LayerInstance::default();
        layer.identifier = "Ground".to_string();
        layer.iid = format!("10000000-0000-4000-8000-{n:012}");
        level.layer_instances = Some(vec![layer]);
    }
    level
}

fn loaded_root_levels_json(count: usize) -> LdtkJson {
    let mut json = LdtkJson::default();
    json.levels = (0..count).map(|n| sample_level(n, true)).collect();
    json
}

fn loaded_mixed_levels_json(root: usize, worlds: usize) -> LdtkJson {
    let mut json = loaded_root_levels_json(root);
    json.worlds = (0..worlds)
        .map(|w| {
            let mut world = World::default();
            world.levels = (0..4).map(|n| sample_level(100 * (w + 1) + n, true)).collect();
            world
        })
        .collect();
    json
}

/// An external-levels project whose levels' data lives in external files, together with the
/// complete levels.
fn external_root_levels_json(count: usize) -> (LdtkJson, Vec<Level>) {
    let levels: Vec<Level> = (0..count).map(|n| sample_level(n, true)).collect();
    let mut json = LdtkJson::default();
    json.external_levels = true;
    json.levels = levels
        .iter()
        .map(|level| {
            let mut stub = level.clone();
            stub.layer_instances = None;
            stub.external_rel_path = Some(format!("levels/{}.ldtkl", level.identifier));
            stub
        })
        .collect();
    (json, levels)
}

fn loaded_external_assets(levels: &[Level]) -> ExternalLevelAssets {
    let mut assets = ExternalLevelAssets::new();
    for level in levels {
        assets.insert(
            format!("levels/{}.ldtkl", level.identifier),
            LdtkExternalLevel::try_new(level.clone()).unwrap(),
        );
    }
    assets
}

#[test]
fn ldtk_json_with_metadata_raw_level_accessor_implementation_is_transparent() {
    let project = LdtkProject::load_from_dir("", loaded_mixed_levels_json(6, 5)).unwrap();
    let standalone = project.as_standalone();
    assert_eq!(standalone.root_levels(), standalone.json_data().root_levels());
    assert_eq!(standalone.worlds(), standalone.json_data().worlds());

    let mut json = loaded_mixed_levels_json(6, 5);
    json.external_levels = true;
    for level in json.levels.iter_mut() {
        level.external_rel_path = Some(format!("{}.ldtkl", level.identifier));
    }
    for world in json.worlds.iter_mut() {
        for level in world.levels.iter_mut() {
            level.external_rel_path = Some(format!("{}.ldtkl", level.identifier));
        }
    }
    let project = LdtkProject::load_from_dir("", json).unwrap();
    let parent = project.as_parent();
    assert_eq!(parent.root_levels(), parent.json_data().root_levels());
    assert_eq!(parent.worlds(), parent.json_data().worlds());
}

#[test]
fn ldtk_json_with_metadata_level_metadata_accessor_implementation_is_transparent() {
    let json = loaded_root_levels_json(4);
    let project = LdtkProject::load_from_dir("", json.clone()).unwrap();
    let standalone = project.as_standalone();

    for (indices, level) in json.iter_raw_levels_with_indices() {
        assert_eq!(
            standalone.get_level_metadata_by_iid(&level.iid),
            Some(&LevelMetadata::new(None, indices)),
        );
    }

    assert_eq!(
        standalone.get_level_metadata_by_iid(&"This_level_doesnt_exist".to_string()),
        None
    );
}

#[test]
fn loaded_level_iteration() {
    let json = loaded_root_levels_json(6);
    let project = LdtkProject::load_from_dir("", json).unwrap();
    let standalone = project.as_standalone();

    assert_eq!(
        standalone.iter_loaded_levels().len(),
        standalone.json_data().levels.len()
    );

    for (loaded_level, expected_level) in standalone
        .iter_loaded_levels()
        .into_iter()
        .zip(standalone.json_data().levels.iter())
    {
        assert_eq!(loaded_level.raw(), expected_level)
    }
}

#[test]
fn indices_lookup_returns_expected_loaded_levels() {
    let project = LdtkProject::load_from_dir("", loaded_root_levels_json(6)).unwrap();
    let standalone = project.as_standalone();

    for (i, expected_level) in standalone.json_data().levels.iter().enumerate() {
        assert_eq!(
            standalone
                .get_loaded_level_at_indices(&LevelIndices::in_root(i))
                .unwrap()
                .raw(),
            expected_level
        );
    }

    assert_eq!(
        standalone.get_loaded_level_at_indices(&LevelIndices::in_root(10)),
        None
    );
    assert_eq!(
        standalone.get_loaded_level_at_indices(&LevelIndices::in_world(0, 0)),
        None
    );
}

#[test]
fn iid_lookup_returns_expected_loaded_levels() {
    let project = LdtkProject::load_from_dir("", loaded_root_levels_json(6)).unwrap();
    let standalone = project.as_standalone();

    for expected_level in &standalone.json_data().levels {
        assert_eq!(
            standalone
                .get_loaded_level_by_iid(&expected_level.iid)
                .unwrap()
                .raw(),
            expected_level
        );
    }

    assert_eq!(
        standalone.get_loaded_level_by_iid(&"cd51071d-5224-4628-ae0d-abbe28090521".to_string()),
        None
    )
}

#[test]
fn find_by_level_selection_returns_expected_loaded_levels() {
    let project = LdtkProject::load_from_dir("", loaded_root_levels_json(6)).unwrap();
    let standalone = project.as_standalone();

    for (i, expected_level) in standalone.json_data().levels.iter().enumerate() {
        assert_eq!(
            standalone
                .find_loaded_level_by_level_selection(&LevelSelection::index(i))
                .unwrap()
                .raw(),
            expected_level
        );
        assert_eq!(
            standalone
                .find_loaded_level_by_level_selection(&LevelSelection::Identifier(
                    expected_level.identifier.clone()
                ))
                .unwrap()
                .raw(),
            expected_level
        );
        assert_eq!(
            standalone
                .find_loaded_level_by_level_selection(&LevelSelection::Iid(LevelIid::new(
                    expected_level.iid.clone()
                )))
                .unwrap()
                .raw(),
            expected_level
        );
        assert_eq!(
            standalone
                .find_loaded_level_by_level_selection(&LevelSelection::Uid(expected_level.uid))
                .unwrap()
                .raw(),
            expected_level
        );
    }

    assert_eq!(
        standalone.find_loaded_level_by_level_selection(&LevelSelection::index(10)),
        None
    );
    assert_eq!(
        standalone.find_loaded_level_by_level_selection(&LevelSelection::Identifier(
            "Back_Rooms".to_string()
        )),
        None
    );
    assert_eq!(
        standalone.find_loaded_level_by_level_selection(&LevelSelection::Iid(LevelIid::new(
            "cd51071d-5224-4628-ae0d-abbe28090521".to_string()
        ))),
        None
    );
    assert_eq!(
        standalone.find_loaded_level_by_level_selection(&LevelSelection::Uid(2023)),
        None,
    );
}

#[test]
fn external_level_metadata_accessor_is_transparent() {
    let (json, _) = external_root_levels_json(4);
    let project = LdtkProject::load_from_dir("", json.clone()).unwrap();
    let parent = project.as_parent();

    for (indices, level) in json.iter_raw_levels_with_indices() {
        assert_eq!(
            parent.get_level_metadata_by_iid(&level.iid),
            Some(&LevelMetadata::new(None, indices)),
        );
    }

    assert_eq!(
        parent.get_level_metadata_by_iid(&"This_level_doesnt_exist".to_string()),
        None
    );
}

#[test]
fn external_level_iteration() {
    let (json, levels) = external_root_levels_json(6);
    let project = LdtkProject::load_from_dir("", json).unwrap();
    let parent = project.as_parent();
    let assets = loaded_external_assets(&levels);

    assert_eq!(
        parent.iter_external_levels(&assets).len(),
        parent.json_data().levels.len()
    );

    for (external_level, expected_level) in parent
        .iter_external_levels(&assets)
        .into_iter()
        .zip(parent.json_data().levels.iter())
    {
        assert_eq!(external_level.iid(), &expected_level.iid)
    }
}

#[test]
fn indices_lookup_returns_expected_external_levels() {
    let (json, levels) = external_root_levels_json(6);
    let project = LdtkProject::load_from_dir("", json).unwrap();
    let parent = project.as_parent();
    let assets = loaded_external_assets(&levels);

    for (i, expected_level) in parent.json_data().levels.iter().enumerate() {
        assert_eq!(
            parent
                .get_external_level_at_indices(&assets, &LevelIndices::in_root(i))
                .unwrap()
                .iid(),
            &expected_level.iid
        );
    }

    assert_eq!(
        parent.get_external_level_at_indices(&assets, &LevelIndices::in_root(10)),
        None
    );
    assert_eq!(
        parent.get_external_level_at_indices(&assets, &LevelIndices::in_world(0, 0)),
        None
    );
}

#[test]
fn iid_lookup_returns_expected_external_levels() {
    let (json, levels) = external_root_levels_json(6);
    let project = LdtkProject::load_from_dir("", json).unwrap();
    let parent = project.as_parent();
    let assets = loaded_external_assets(&levels);

    for expected_level in &parent.json_data().levels {
        assert_eq!(
            parent
                .get_external_level_by_iid(&assets, &expected_level.iid)
                .unwrap()
                .iid(),
            &expected_level.iid
        );
    }

    assert_eq!(
        parent.get_external_level_by_iid(
            &assets,
            &"cd51071d-5224-4628-ae0d-abbe28090521".to_string()
        ),
        None
    )
}

#[test]
fn find_by_level_selection_returns_expected_external_levels() {
    let (json, levels) = external_root_levels_json(6);
    let project = LdtkProject::load_from_dir("", json).unwrap();
    let parent = project.as_parent();
    let assets = loaded_external_assets(&levels);

    for (i, expected_level) in parent.json_data().levels.iter().enumerate() {
        assert_eq!(
            parent
                .find_external_level_by_level_selection(&assets, &LevelSelection::index(i))
                .unwrap()
                .iid(),
            &expected_level.iid
        );
        assert_eq!(
            parent
                .find_external_level_by_level_selection(
                    &assets,
                    &LevelSelection::Identifier(expected_level.identifier.clone())
                )
                .unwrap()
                .iid(),
            &expected_level.iid
        );
        assert_eq!(
            parent
                .find_external_level_by_level_selection(
                    &assets,
                    &LevelSelection::Iid(LevelIid::new(expected_level.iid.clone()))
                )
                .unwrap()
                .iid(),
            &expected_level.iid
        );
        assert_eq!(
            parent
                .find_external_level_by_level_selection(
                    &assets,
                    &LevelSelection::Uid(expected_level.uid)
                )
                .unwrap()
                .iid(),
            &expected_level.iid
        );
    }

    assert_eq!(
        parent.find_external_level_by_level_selection(&assets, &LevelSelection::index(10)),
        None
    );
    assert_eq!(
        parent.find_external_level_by_level_selection(
            &assets,
            &LevelSelection::Identifier("Back_Rooms".to_string())
        ),
        None
    );
    assert_eq!(
        parent.find_external_level_by_level_selection(
            &assets,
            &LevelSelection::Iid(LevelIid::new(
                "cd51071d-5224-4628-ae0d-abbe28090521".to_string()
            ))
        ),
        None
    );
    assert_eq!(
        parent.find_external_level_by_level_selection(&assets, &LevelSelection::Uid(2023)),
        None,
    );
}

#[test]
fn external_levels_that_are_not_loaded_are_skipped() {
    let (json, levels) = external_root_levels_json(4);
    let project = LdtkProject::load_from_dir("", json).unwrap();
    let parent = project.as_parent();
    let assets = loaded_external_assets(&levels[1..3]);

    let found: Vec<&String> = parent
        .iter_external_levels(&assets)
        .into_iter()
        .map(|level| level.iid())
        .collect();
    assert_eq!(found, vec![&levels[1].iid, &levels[2].iid]);
    assert_eq!(
        parent.get_external_level_by_iid(&assets, &levels[0].iid),
        None
    );
}
