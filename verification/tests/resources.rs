use bevy_ecs_ldtk::assets::LevelIndices;
use bevy_ecs_ldtk::ldtk::Level;
use bevy_ecs_ldtk::{
    IntGridRendering, LdtkSettings, LevelBackground, LevelIid, LevelSelection,
    LevelSpawnBehavior, SetClearColor,
};

fn level() -> Level {
    let mut level = Level::default();
    level.identifier = "Cave".to_string();
    level.iid = "cave-iid".to_string();
    level.uid = 42;
    level
}

#[test]
fn level_selection_matches_by_each_key() {
    let level = level();
    let indices = LevelIndices::in_world(1, 2);
    assert!(LevelSelection::Identifier("Cave".to_string()).is_match(&indices, &level));
    assert!(!LevelSelection::Identifier("Sky".to_string()).is_match(&indices, &level));
    assert!(LevelSelection::indices(1, 2).is_match(&indices, &level));
    assert!(!LevelSelection::index(2).is_match(&indices, &level));
    assert!(LevelSelection::iid("cave-iid".to_string()).is_match(&indices, &level));
    assert!(!LevelSelection::Iid(LevelIid::new("other".to_string())).is_match(&indices, &level));
    assert!(LevelSelection::Uid(42).is_match(&indices, &level));
    assert!(!LevelSelection::Uid(43).is_match(&indices, &level));
}

#[test]
fn defaults() {
    assert_eq!(LevelSelection::default(), LevelSelection::index(0));
    let settings = LdtkSettings::default();
    assert_eq!(
        settings.level_spawn_behavior,
        LevelSpawnBehavior::UseZeroTranslation
    );
    assert_eq!(settings.set_clear_color, SetClearColor::No);
    assert_eq!(settings.int_grid_rendering, IntGridRendering::Colorful);
    assert_eq!(settings.level_background, LevelBackground::Rendered);
}
