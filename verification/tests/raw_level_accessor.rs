use bevy_ecs_ldtk::assets::LevelIndices;
use bevy_ecs_ldtk::ldtk::raw_level_accessor::RawLevelAccessor;
use bevy_ecs_ldtk::ldtk::{LdtkJson, LayerInstance, Level, World};

fn sample_level(n: usize, loaded: bool) -> Level {
    let mut level = Level::default();
    level.iid = format!("00000000-0000-4000-8000-{n:012}");
    level.uid = n as i32;
    level.identifier = format!("Level_{n}");
    if loaded {
        let mut layer = LayerInstance::default();
        layer.identifier = "Ground".to_string();
        layer.iid = format!("10000000-0000-4000-8000-{n:012}");
        level.layer_instances = Some(vec![layer]);
    }
    level
}

fn sample_levels(first: usize, count: usize, loaded: bool) -> Vec<Level> {
    (first..first + count).map(|n| sample_level(n, loaded)).collect()
}

fn root_levels_project(count: usize, loaded: bool) -> LdtkJson {
    let mut project = LdtkJson::default();
    project.levels = sample_levels(0, count, loaded);
    project
}

fn world_levels_project(worlds: usize, per_world: usize, loaded: bool) -> LdtkJson {
    let mut project = LdtkJson::default();
    project.worlds = (0..worlds)
        .map(|w| {
            let mut world = World::default();
            world.identifier = format!("World_{w}");
            world.levels = sample_levels(100 * (w + 1), per_world, loaded);
            world
        })
        .collect();
    project
}

fn mixed_levels_project(root: usize, worlds: usize, per_world: usize) -> LdtkJson {
    let mut project = world_levels_project(worlds, per_world, false);
    project.levels = sample_levels(0, root, false);
    project
}

#[test]
fn iter_levels_in_root() {
    let project = root_levels_project(6, true);

    let iter_raw_levels_with_indices = project.iter_raw_levels_with_indices();

    for (i, (indices, level)) in iter_raw_levels_with_indices.iter().enumerate() {
        assert_eq!(indices, &LevelIndices::in_root(i));
        assert_eq!(*level, &project.levels[i]);
    }

    // same results from root_levels iterator
    assert_eq!(
        iter_raw_levels_with_indices,
        project.iter_root_levels_with_indices(),
    );

    // same results as without-indices iterators
    let iter_raw_levels_without_indices = project
        .iter_raw_levels_with_indices()
        .into_iter()
        .map(|(_, level)| level)
        .collect::<Vec<_>>();
    assert_eq!(project.iter_raw_levels(), iter_raw_levels_without_indices);
    assert_eq!(project.iter_root_levels(), iter_raw_levels_without_indices);

    // world_levels iterators are empty
    assert_eq!(project.iter_world_levels_with_indices().len(), 0);
    assert_eq!(project.iter_world_levels().len(), 0);
}

#[test]
fn iter_levels_in_worlds() {
    let project = world_levels_project(4, 4, false);

    let iter_raw_levels_with_indices = project.iter_raw_levels_with_indices();

    for (i, (indices, level)) in iter_raw_levels_with_indices.iter().enumerate() {
        assert_eq!(indices, &LevelIndices::in_world(i / 4, i % 4));
        assert_eq!(*level, &project.worlds[i / 4].levels[i % 4]);
    }

    // same results from world_levels iterator
    assert_eq!(
        iter_raw_levels_with_indices,
        project.iter_world_levels_with_indices(),
    );

    // same results as without-indices iterators
    let iter_raw_levels_without_indices = project
        .iter_raw_levels_with_indices()
        .into_iter()
        .map(|(_, level)| level)
        .collect::<Vec<_>>();
    assert_eq!(project.iter_raw_levels(), iter_raw_levels_without_indices);
    assert_eq!(project.iter_world_levels(), iter_raw_levels_without_indices);

    // root_levels iterators are empty
    assert_eq!(project.iter_root_levels_with_indices().len(), 0);
    assert_eq!(project.iter_root_levels().len(), 0);
}

#[test]
fn iter_raw_levels_iterates_through_root_levels_first() {
    let project = mixed_levels_project(4, 4, 4);

    let iter_raw_levels_with_indices = project.iter_raw_levels_with_indices();
    assert_eq!(iter_raw_levels_with_indices.len(), 20);

    for (i, (indices, level)) in iter_raw_levels_with_indices.iter().enumerate() {
        if i < 4 {
            assert_eq!(indices, &LevelIndices::in_root(i));
            assert_eq!(*level, &project.levels[i]);
        } else {
            let i = i - 4;
            assert_eq!(indices, &LevelIndices::in_world(i / 4, i % 4));
            assert_eq!(*level, &project.worlds[i / 4].levels[i % 4]);
        }
    }

    // same results from root_levels and world_levels iterators
    assert_eq!(
        iter_raw_levels_with_indices[0..4],
        project.iter_root_levels_with_indices(),
    );
    assert_eq!(
        iter_raw_levels_with_indices[4..20],
        project.iter_world_levels_with_indices(),
    );

    // same results as without-indices iterators
    let iter_raw_levels_without_indices = project
        .iter_raw_levels_with_indices()
        .into_iter()
        .map(|(_, level)| level)
        .collect::<Vec<_>>();
    assert_eq!(project.iter_raw_levels(), iter_raw_levels_without_indices);
    assert_eq!(
        project.iter_root_levels(),
        iter_raw_levels_without_indices[0..4]
    );
    assert_eq!(
        project.iter_world_levels(),
        iter_raw_levels_without_indices[4..20]
    );
}

#[test]
fn level_iterators_empty_if_there_are_no_levels() {
    let project = LdtkJson::default();
    assert_eq!(project.iter_raw_levels_with_indices().len(), 0);
    assert_eq!(project.iter_root_levels_with_indices().len(), 0);
    assert_eq!(project.iter_world_levels_with_indices().len(), 0);
    assert_eq!(project.iter_raw_levels().len(), 0);
    assert_eq!(project.iter_root_levels().len(), 0);
    assert_eq!(project.iter_world_levels().len(), 0);
}

#[test]
fn raw_level_accessor_get_root_levels_by_indices() {
    let project = root_levels_project(4, false);

    for (i, level) in project.levels.iter().enumerate() {
        assert_eq!(
            project.get_raw_level_at_indices(&LevelIndices::in_root(i)),
            Some(level)
        );
    }

    // negative cases
    assert_eq!(
        project.get_raw_level_at_indices(&LevelIndices::in_root(4)),
        None
    );
    assert_eq!(
        project.get_raw_level_at_indices(&LevelIndices::in_world(0, 0)),
        None
    );
}

#[test]
fn raw_level_accessor_get_world_levels_by_indices() {
    let project = world_levels_project(4, 4, false);

    for (world_index, world) in project.worlds.iter().enumerate() {
        for (level_index, level) in world.levels.iter().enumerate() {
            assert_eq!(
                project.get_raw_level_at_indices(&LevelIndices::in_world(world_index, level_index)),
                Some(level)
            );
        }
    }

    // negative cases
    assert_eq!(
        project.get_raw_level_at_indices(&LevelIndices::in_world(0, 5)),
        None
    );
    assert_eq!(
        project.get_raw_level_at_indices(&LevelIndices::in_world(1, 5)),
        None
    );
    assert_eq!(
        project.get_raw_level_at_indices(&LevelIndices::in_world(2, 5)),
        None
    );
    assert_eq!(
        project.get_raw_level_at_indices(&LevelIndices::in_world(3, 5)),
        None
    );
    assert_eq!(
        project.get_raw_level_at_indices(&LevelIndices::in_world(4, 0)),
        None
    );
    assert_eq!(
        project.get_raw_level_at_indices(&LevelIndices::in_root(0)),
        None
    );
}

#[test]
fn every_listed_level_is_found_at_its_indices() {
    let project = mixed_levels_project(3, 2, 5);
    for (indices, level) in project.iter_raw_levels_with_indices() {
        assert_eq!(project.get_raw_level_at_indices(&indices), Some(level));
    }
}
