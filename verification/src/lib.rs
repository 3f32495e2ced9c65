//! An LDtk project model and the logic that loads, selects and spawns its levels.
pub mod assets;
pub mod components;
pub mod ldtk;
pub mod level;
pub mod refs;
pub mod registrations;
pub mod resources;
pub mod string_map;

pub use components::{EntityIid, LevelIid};
pub use resources::{
    AutoTileInvisibleTiles, IntGridRendering, LdtkSettings, LevelBackground, LevelEvent,
    LevelSelection, LevelSpawnBehavior, SetClearColor,
};

