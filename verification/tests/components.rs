use std::collections::HashSet;

use bevy_ecs_ldtk::components::{GridCoords, LayerMetadata, LevelSet, Worldly};
use bevy_ecs_ldtk::ldtk::{EntityInstance, IVec2, LayerInstance, Type};
use bevy_ecs_ldtk::{EntityIid, LevelIid};

#[test]
fn string_converts_to_and_from_level_iid() {
    let iid_string = "level-iid".to_string();
    let level_iid = LevelIid::new(iid_string.clone());

    assert_eq!(level_iid, LevelIid::from(iid_string.clone()));
    assert_eq!(level_iid.get(), &iid_string);
    assert_eq!(level_iid.as_str(), iid_string.as_str());
    assert_eq!(LevelIid::from(iid_string.clone()), level_iid);
    assert_eq!(String::from(level_iid.clone()), iid_string);
    assert_eq!(level_iid.as_str(), iid_string.as_str());
    assert_eq!(
        format!("display: {}", level_iid.as_str()),
        format!("display: {iid_string}")
    );
}

#[test]
fn string_converts_to_and_from_entity_iid() {
    let iid_string = "entity-iid".to_string();
    let entity_iid = EntityIid::new(iid_string.clone());

    assert_eq!(entity_iid.as_str(), iid_string.as_str());
    assert_eq!(EntityIid::from(iid_string.clone()), entity_iid);
    assert_eq!(String::from(entity_iid), iid_string);
}

#[test]
fn level_set_converts_to_and_from_iterator() {
    let iids = [
        "fa26aa50-fd0f-4dac-a076-3edfb0afd358",
        "9ae9ecf0-ef64-4d96-bc68-cead527efe90",
        "57b26336-8f4e-41ee-8a1b-7af708e4a338",
    ]
    .into_iter()
    .map(|iid| LevelIid::new(iid.to_string()))
    .collect::<HashSet<_>>();

    let level_set = LevelSet::from_iter(iids.clone().into_iter().collect());

    assert_eq!(
        level_set.into_iter().into_iter().collect::<HashSet<_>>(),
        iids
    );
}

#[test]
fn level_set_holds_each_iid_once() {
    let level_set = LevelSet::from_iids(vec![
        "a".to_string(),
        "b".to_string(),
        "a".to_string(),
    ]);
    assert!(level_set.contains(&LevelIid::new("a".to_string())));
    assert!(level_set.contains(&LevelIid::new("b".to_string())));
    assert!(!level_set.contains(&LevelIid::new("c".to_string())));
    assert_eq!(level_set.into_iter().len(), 2);

    let mut level_set = LevelSet::default();
    assert!(level_set.insert(LevelIid::new("a".to_string())));
    assert!(!level_set.insert(LevelIid::new("a".to_string())));
}

#[test]
fn grid_coords_arithmetic() {
    let a = GridCoords::new(3, -4);
    let b = GridCoords::new(5, 2);
    assert_eq!(a + b, GridCoords::new(8, -2));
    assert_eq!(a - b, GridCoords::new(-2, -6));
    assert_eq!(a * b, GridCoords::new(15, -8));
}

#[test]
fn grid_coords_convert_to_and_from_ivec2() {
    let coords = GridCoords::from(IVec2::new(7, 9));
    assert_eq!(coords, GridCoords::new(7, 9));
    assert_eq!(IVec2::from(coords), IVec2::new(7, 9));
}

#[test]
fn worldly_takes_the_entity_iid() {
    let mut entity = EntityInstance::default();
    entity.iid = "e-1".to_string();
    assert_eq!(Worldly::from_entity_info(&entity).entity_iid, "e-1".to_string());
}

#[test]
fn layer_metadata_copies_the_layer_data() {
    let mut layer = LayerInstance::default();
    layer.c_hei = 3;
    layer.c_wid = 4;
    layer.grid_size = 16;
    layer.identifier = "Walls".to_string();
    layer.tileset_rel_path = Some("tiles.png".to_string());
    layer.layer_instance_type = Type::Tiles;
    layer.iid = "layer-iid".to_string();
    layer.optional_rules = vec![1, 2];
    layer.seed = 99;
    layer.visible = true;

    let metadata = LayerMetadata::from(&layer);
    assert_eq!(metadata.c_hei, 3);
    assert_eq!(metadata.c_wid, 4);
    assert_eq!(metadata.grid_size, 16);
    assert_eq!(metadata.identifier, "Walls".to_string());
    assert_eq!(metadata.tileset_rel_path, Some("tiles.png".to_string()));
    assert_eq!(metadata.layer_instance_type, Type::Tiles);
    assert_eq!(metadata.iid, "layer-iid".to_string());
    assert_eq!(metadata.optional_rules, vec![1, 2]);
    assert_eq!(metadata.seed, 99);
    assert!(metadata.visible);
}

#[test]
fn level_sets_clone_and_compare_by_their_iids() {
    let level_set = LevelSet::from_iids(vec!["a".to_string(), "b".to_string()]);
    let copy = level_set.clone();
    assert!(copy == level_set);
    assert!(copy.contains(&LevelIid::new("b".to_string())));
    let reordered = LevelSet::from_iids(vec!["b".to_string(), "a".to_string(), "a".to_string()]);
    assert!(reordered == level_set);
    assert!(LevelSet::from_iids(vec!["a".to_string()]) != level_set);
    assert!(LevelSet::default() == LevelSet::new());
}

#[test]
fn level_iids_give_their_string() {
    let level_iid = LevelIid::new("some-iid".to_string());
    assert_eq!(level_iid.to_string(), "some-iid".to_string());
    let as_ref: &str = level_iid.as_ref();
    assert_eq!(as_ref, "some-iid");
}
