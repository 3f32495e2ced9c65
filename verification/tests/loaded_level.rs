use bevy_ecs_ldtk::assets::LdtkExternalLevel;
use bevy_ecs_ldtk::assets::LdtkExternalLevelLoaderError;
use bevy_ecs_ldtk::ldtk::loaded_level::{LevelNotLoaded, LoadedLevel};
use bevy_ecs_ldtk::ldtk::{BgPos, LayerInstance, Level, NeighbourLevel};

fn valid_level() -> Level {
    let mut level = Level::default();
    level.bg_color = "#f0ffff".to_string();
    level.neighbours = vec![NeighbourLevel::default()];
    level.smart_color = "#f5f5dc".to_string();
    level.level_bg_color = Some("#00ffff".to_string());
    level.level_bg_pos = Some(BgPos::Cover);
    level.bg_rel_path = Some("path/to/bg.png".to_string());
    level.external_rel_path = Some("path/to/external.ldtkl".to_string());
    level.field_instances = vec![];
    level.identifier = "level_identifier".to_string();
    level.iid = "level_iid".to_string();
    level.layer_instances = Some(vec![LayerInstance::default()]);
    level.px_hei = 2;
    level.px_wid = 3;
    level.uid = 4;
    level.use_auto_identifier = true;
    level.world_depth = 5;
    level.world_x = 6;
    level.world_y = 7;
    level
}

#[test]
fn getter_methods_return_correct_values() {
    // This test mostly exists to easily warn us if the `Level` type has changed.
    let raw = valid_level();

    let loaded = LoadedLevel::try_from(&raw).unwrap();

    // layer instances isn't optional
    assert_eq!(*loaded.layer_instances(), vec![LayerInstance::default()]);

    // all other getters
    assert_eq!(*loaded.bg_color(), "#f0ffff".to_string());
    assert_eq!(*loaded.neighbours(), vec![NeighbourLevel::default()]);
    assert_eq!(*loaded.smart_color(), "#f5f5dc".to_string());
    assert_eq!(*loaded.level_bg_color(), Some("#00ffff".to_string()));
    assert_eq!(*loaded.level_bg_pos(), Some(BgPos::Cover));
    assert_eq!(*loaded.bg_rel_path(), Some("path/to/bg.png".to_string()));
    assert_eq!(
        *loaded.external_rel_path(),
        Some("path/to/external.ldtkl".to_string())
    );
    assert_eq!(*loaded.field_instances(), vec![]);
    assert_eq!(*loaded.identifier(), "level_identifier".to_string());
    assert_eq!(*loaded.iid(), "level_iid".to_string());
    assert_eq!(*loaded.px_hei(), 2);
    assert_eq!(*loaded.px_wid(), 3);
    assert_eq!(*loaded.uid(), 4);
    assert!(*loaded.use_auto_identifier());
    assert_eq!(*loaded.world_depth(), 5);
    assert_eq!(*loaded.world_x(), 6);
    assert_eq!(*loaded.world_y(), 7);
    assert_eq!(loaded.raw(), &raw);
}

#[test]
fn cannot_create_from_unloaded_level() {
    let mut raw = valid_level();

    raw.layer_instances = None;

    assert!(matches!(LoadedLevel::try_from(&raw), Err(LevelNotLoaded)));
    assert!(matches!(LoadedLevel::try_from_level(&raw), Err(LevelNotLoaded)));
    assert_eq!(
        LevelNotLoaded.message(),
        "loaded levels must have non-null layer instances"
    );
}

#[test]
fn data_accessor_for_loaded_level_succeeds() {
    let level = valid_level();

    let ldtk_external_level = LdtkExternalLevel::try_new(level.clone()).unwrap();

    assert_eq!(ldtk_external_level.data().raw(), &level);
}

#[test]
fn external_level_with_null_layers_is_refused() {
    let mut level = valid_level();
    level.layer_instances = None;

    assert_eq!(
        LdtkExternalLevel::try_new(level),
        Err(LdtkExternalLevelLoaderError::NullLayers)
    );
}
