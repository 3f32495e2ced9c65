use bevy_ecs_ldtk::assets::{build_entity_index, find_entity_instance, EntityIndexes};
use bevy_ecs_ldtk::ldtk::{EntityInstance, LayerInstance, LdtkJson, Level, World};
use bevy_ecs_ldtk::EntityIid;

fn entity(iid: &str) -> EntityInstance {
    let mut entity = EntityInstance::default();
    entity.iid = iid.to_string();
    entity
}

fn level(layers: Option<Vec<Vec<&str>>>) -> Level {
    let mut level = Level::default();
    level.layer_instances = layers.map(|layers| {
        layers
            .into_iter()
            .map(|iids| {
                let mut layer = LayerInstance::default();
                layer.entity_instances = iids.into_iter().map(entity).collect();
                layer
            })
            .collect()
    });
    level
}

#[test]
fn root_levels_are_indexed_without_a_world() {
    let mut project = LdtkJson::default();
    project.levels = vec![level(Some(vec![vec!["a"], vec!["b", "c"]])), level(None)];
    let index = build_entity_index(&project);
    assert_eq!(
        index.get(&"c".to_string()),
        Some(&EntityIndexes { world_index: None, level_index: 0, layer_index: 1, entity_index: 1 })
    );
    assert_eq!(
        find_entity_instance(&project, &index, &EntityIid::new("b".to_string())),
        Some(&entity("b"))
    );
    assert_eq!(find_entity_instance(&project, &index, &EntityIid::new("z".to_string())), None);
}

#[test]
fn world_levels_are_indexed_with_their_world() {
    let mut project = LdtkJson::default();
    project.levels = vec![level(Some(vec![vec!["root"]]))];
    let mut first = World::default();
    first.levels = vec![level(Some(vec![vec!["a"]]))];
    let mut second = World::default();
    second.levels = vec![level(None), level(Some(vec![vec![], vec!["b"]]))];
    project.worlds = vec![first, second];
    let index = build_entity_index(&project);
    assert!(!index.contains_key(&"root".to_string()));
    assert_eq!(
        index.get(&"b".to_string()),
        Some(&EntityIndexes {
            world_index: Some(1),
            level_index: 1,
            layer_index: 1,
            entity_index: 0,
        })
    );
    assert_eq!(
        find_entity_instance(&project, &index, &EntityIid::new("a".to_string())),
        Some(&entity("a"))
    );
}

#[test]
fn a_repeated_iid_indexes_its_last_entity() {
    let mut project = LdtkJson::default();
    project.levels = vec![level(Some(vec![vec!["a", "a"]]))];
    let index = build_entity_index(&project);
    assert_eq!(index.get(&"a".to_string()).map(|i| i.entity_index), Some(1));
}
