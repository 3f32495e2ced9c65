use bevy_ecs_ldtk::assets::level_metadata_accessor::LevelMetadataAccessor;
use bevy_ecs_ldtk::assets::LdtkProject;
use bevy_ecs_ldtk::ldtk::{LdtkJson, LayerInstance, Level, World};
use bevy_ecs_ldtk::{LevelIid, LevelSelection};

fn sample_level(n: usize) -> Level {
    let mut level = Level::default();
    level.iid = format!("00000000-0000-4000-8000-{n:012}");
    level.uid = n as i32;
    level.identifier = format!("Level_{n}");
    let mut layer = LayerInstance::default();
    layer.identifier = "Ground".to_string();
    level.layer_instances = Some(vec![layer]);
    level
}

/// A project with 4 root levels and the level metadata that loading it gives.
fn sample_with_root_levels() -> LdtkProject {
    let mut data = LdtkJson::default();
    data.levels = (0..4).map(sample_level).collect();
    LdtkProject::load_from_dir("", data).unwrap()
}

/// A project with 4 worlds of 4 levels each and the level metadata that loading it gives.
fn sample_with_world_levels() -> LdtkProject {
    let mut data = LdtkJson::default();
    data.worlds = (0..4)
        .map(|w| {
            let mut world = World::default();
            world.levels = (0..4).map(|n| sample_level(100 * (w + 1) + n)).collect();
            world
        })
        .collect();
    LdtkProject::load_from_dir("", data).unwrap()
}

#[test]
fn iid_lookup_returns_expected_root_levels() {
    let accessor = sample_with_root_levels();

    for expected_level in &accessor.json_data().levels {
        assert_eq!(
            accessor.get_raw_level_by_iid(&expected_level.iid),
            Some(expected_level)
        );
    }
    assert_eq!(
        accessor.get_raw_level_by_iid(&"cd51071d-5224-4628-ae0d-abbe28090521".to_string()),
        None,
    );
}

#[test]
fn iid_lookup_returns_expected_world_levels() {
    let accessor = sample_with_world_levels();

    for expected_level in accessor
        .json_data()
        .worlds
        .iter()
        .flat_map(|world| world.levels.iter())
    {
        assert_eq!(
            accessor.get_raw_level_by_iid(&expected_level.iid),
            Some(expected_level)
        );
    }
    assert_eq!(
        accessor.get_raw_level_by_iid(&"cd51071d-5224-4628-ae0d-abbe28090521".to_string()),
        None,
    );
}

#[test]
fn find_by_level_selection_returns_expected_root_levels() {
    let accessor = sample_with_root_levels();

    for (i, expected_level) in accessor.json_data().levels.iter().enumerate() {
        assert_eq!(
            accessor.find_raw_level_by_level_selection(&LevelSelection::index(i)),
            Some(expected_level)
        );
        assert_eq!(
            accessor.find_raw_level_by_level_selection(&LevelSelection::Identifier(
                expected_level.identifier.clone()
            )),
            Some(expected_level)
        );
        assert_eq!(
            accessor.find_raw_level_by_level_selection(&LevelSelection::Iid(LevelIid::new(
                expected_level.iid.clone()
            ))),
            Some(expected_level)
        );
        assert_eq!(
            accessor.find_raw_level_by_level_selection(&LevelSelection::Uid(expected_level.uid)),
            Some(expected_level)
        );
    }

    assert_eq!(
        accessor.find_raw_level_by_level_selection(&LevelSelection::index(4)),
        None
    );
    assert_eq!(
        accessor.find_raw_level_by_level_selection(&LevelSelection::Identifier(
            "Back_Rooms".to_string()
        )),
        None
    );
    assert_eq!(
        accessor.find_raw_level_by_level_selection(&LevelSelection::Iid(LevelIid::new(
            "cd51071d-5224-4628-ae0d-abbe28090521".to_string()
        ))),
        None
    );
    assert_eq!(
        accessor.find_raw_level_by_level_selection(&LevelSelection::Uid(2023)),
        None,
    );
}

#[test]
fn find_by_level_selection_returns_expected_world_levels() {
    let accessor = sample_with_world_levels();

    for (world_index, world) in accessor.json_data().worlds.iter().enumerate() {
        for (level_index, expected_level) in world.levels.iter().enumerate() {
            assert_eq!(
                accessor.find_raw_level_by_level_selection(&LevelSelection::indices(
                    world_index,
                    level_index
                )),
                Some(expected_level)
            );
            assert_eq!(
                accessor.find_raw_level_by_level_selection(&LevelSelection::Identifier(
                    expected_level.identifier.clone()
                )),
                Some(expected_level)
            );
            assert_eq!(
                accessor.find_raw_level_by_level_selection(&LevelSelection::Iid(LevelIid::new(
                    expected_level.iid.clone()
                ))),
                Some(expected_level)
            );
            assert_eq!(
                accessor
                    .find_raw_level_by_level_selection(&LevelSelection::Uid(expected_level.uid)),
                Some(expected_level)
            );
        }
    }

    assert_eq!(
        accessor.find_raw_level_by_level_selection(&LevelSelection::index(4)),
        None
    );
    assert_eq!(
        accessor.find_raw_level_by_level_selection(&LevelSelection::Identifier(
            "Back_Rooms".to_string()
        )),
        None
    );
    assert_eq!(
        accessor.find_raw_level_by_level_selection(&LevelSelection::Iid(LevelIid::new(
            "cd51071d-5224-4628-ae0d-abbe28090521".to_string()
        ))),
        None
    );
    assert_eq!(
        accessor.find_raw_level_by_level_selection(&LevelSelection::Uid(2023)),
        None,
    );
}

#[test]
fn identifier_selection_finds_the_first_level_with_the_identifier() {
    let mut data = LdtkJson::default();
    let mut first = sample_level(1);
    first.identifier = "Shared".to_string();
    let mut second = sample_level(2);
    second.identifier = "Shared".to_string();
    data.levels = vec![sample_level(0), first.clone(), second];
    let project = LdtkProject::load_from_dir("", data).unwrap();

    assert_eq!(
        project.find_raw_level_by_level_selection(&LevelSelection::Identifier(
            "Shared".to_string()
        )),
        Some(&first)
    );
}
