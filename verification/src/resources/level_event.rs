use vstd::prelude::*;

use crate::components::LevelIid;

verus! {

/// Events fired by the plugin related to level spawning/despawning.
///
/// Each variant stores the level's `iid`.
#[derive(Clone, Eq, PartialEq, Debug, Hash)]
pub enum LevelEvent {
    /// Indicates that a level has been triggered to spawn, but hasn't been spawned yet.
    SpawnTriggered(LevelIid),
    /// The level, with all of its layers, entities, etc., has spawned.
    Spawned(LevelIid),
    /// Occurs during the frame after the level has been spawned, when its transform is
    /// calculated.
    Transformed(LevelIid),
    /// Indicates that a level has despawned.
    Despawned(LevelIid),
}

} // verus!
