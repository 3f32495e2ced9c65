//! Resources and events used by the plugin.
use vstd::prelude::*;

mod level_event;
pub use level_event::LevelEvent;
mod level_selection;
pub use level_selection::LevelSelection;

verus! {

/// Option for how the clear color is set.
#[derive(Copy, Clone, Eq, PartialEq, Debug, Structural)]
pub enum SetClearColor {
    No,
    FromLevelBackground,
    FromEditorBackground,
}

impl Default for SetClearColor {
    fn default() -> (res: Self)
        ensures
            res == SetClearColor::No,
    {
        Self::No
    }
}

/// Option for spawning levels with world translation and loading level neighbours.
#[derive(Copy, Clone, Eq, PartialEq, Debug, Structural)]
pub enum LevelSpawnBehavior {
    /// Newly spawned levels are placed at the origin.
    UseZeroTranslation,
    /// Newly spawned levels are placed at their location in the LDtk world.
    UseWorldTranslation {
        /// When true, the neighbours of the selected level are spawned as well.
        load_level_neighbors: bool,
    },
}

impl Default for LevelSpawnBehavior {
    fn default() -> (res: Self)
        ensures
            res == LevelSpawnBehavior::UseZeroTranslation,
    {
        LevelSpawnBehavior::UseZeroTranslation
    }
}

/// Specify the rendering of IntGrid layers without a tileset.
#[derive(Copy, Clone, Eq, PartialEq, Debug, Structural)]
pub enum IntGridRendering {
    Colorful,
    Invisible,
}

impl Default for IntGridRendering {
    fn default() -> (res: Self)
        ensures
            res == IntGridRendering::Colorful,
    {
        IntGridRendering::Colorful
    }
}

/// Specify the level background.
#[derive(Copy, Clone, Eq, PartialEq, Debug, Structural)]
pub enum LevelBackground {
    Rendered,
    Nonexistent,
}

impl Default for LevelBackground {
    fn default() -> (res: Self)
        ensures
            res == LevelBackground::Rendered,
    {
        LevelBackground::Rendered
    }
}

/// Specify how invisible tiles of auto-tile layers are treated.
#[derive(Copy, Clone, Eq, PartialEq, Debug, Structural)]
pub enum AutoTileInvisibleTiles {
    Nonexistent,
    Active,
}

impl Default for AutoTileInvisibleTiles {
    fn default() -> (res: Self)
        ensures
            res == AutoTileInvisibleTiles::Nonexistent,
    {
        AutoTileInvisibleTiles::Nonexistent
    }
}

/// Settings for the plugin's level spawning.
#[derive(Copy, Clone, Eq, PartialEq, Debug, Structural)]
pub struct LdtkSettings {
    pub level_spawn_behavior: LevelSpawnBehavior,
    pub set_clear_color: SetClearColor,
    pub int_grid_rendering: IntGridRendering,
    pub level_background: LevelBackground,
    pub auto_tile_invisible_tiles: AutoTileInvisibleTiles,
}

impl Default for LdtkSettings {
    fn default() -> (res: Self)
        ensures
            res == (LdtkSettings {
                level_spawn_behavior: LevelSpawnBehavior::UseZeroTranslation,
                set_clear_color: SetClearColor::No,
                int_grid_rendering: IntGridRendering::Colorful,
                level_background: LevelBackground::Rendered,
                auto_tile_invisible_tiles: AutoTileInvisibleTiles::Nonexistent,
            }),
    {
        LdtkSettings {
            level_spawn_behavior: LevelSpawnBehavior::default(),
            set_clear_color: SetClearColor::default(),
            int_grid_rendering: IntGridRendering::default(),
            level_background: LevelBackground::default(),
            auto_tile_invisible_tiles: AutoTileInvisibleTiles::default(),
        }
    }
}

} // verus!
