use vstd::prelude::*;

use crate::assets::LevelIndices;
use crate::components::LevelIid;
use crate::ldtk::Level;

verus! {

/// Resource for choosing which level(s) to spawn.
#[derive(Clone, Eq, PartialEq, Debug)]
pub enum LevelSelection {
    /// Spawn level with the given identifier.
    Identifier(String),
    /// Spawn level from its indices in the LDtk file's worlds/levels.
    Indices(LevelIndices),
    /// Spawn level with the given level `iid`.
    Iid(LevelIid),
    /// Spawn level with the given level `uid`.
    Uid(i32),
}

impl Default for LevelSelection {
    fn default() -> (selection: Self)
        ensures
            selection == LevelSelection::Indices(LevelIndices { world: None, level: 0 }),
    {
        LevelSelection::index(0)
    }
}

impl LevelSelection {
    /// Whether the level at `indices` matches this selection.
    pub open spec fn matches_level(self, indices: LevelIndices, level: Level) -> bool {
        match self {
            LevelSelection::Identifier(s) => s@ == level.identifier@,
            LevelSelection::Indices(i) => i == indices,
            LevelSelection::Iid(i) => i@ == level.iid@,
            LevelSelection::Uid(u) => u == level.uid,
        }
    }

    /// Construct a [`LevelSelection::Iid`] using the given iid.
    pub fn iid(iid: String) -> (selection: Self)
        ensures
            selection matches LevelSelection::Iid(i) && i@ == iid@,
    {
        LevelSelection::Iid(LevelIid::new(iid))
    }

    /// Construct a [`LevelSelection::Indices`] pointing to the level with the given index in
    /// the project root.
    pub fn index(level_index: usize) -> (selection: Self)
        ensures
            selection == LevelSelection::Indices(LevelIndices { world: None, level: level_index }),
    {
        LevelSelection::Indices(LevelIndices::in_root(level_index))
    }

    /// Construct a [`LevelSelection::Indices`] pointing to the level with the given world and
    /// level indices.
    pub fn indices(world_index: usize, level_index: usize) -> (selection: Self)
        ensures
            selection == LevelSelection::Indices(
                LevelIndices { world: Some(world_index), level: level_index },
            ),
    {
        LevelSelection::Indices(LevelIndices::in_world(world_index, level_index))
    }

    /// Returns true if the given level matches this [`LevelSelection`].
    ///
    /// Since levels don't inherently store their index, it needs to be provided separately.
    pub fn is_match(&self, indices: &LevelIndices, level: &Level) -> (matched: bool)
        ensures
            matched == self.matches_level(*indices, *level),
    {
        match self {
            LevelSelection::Identifier(s) => *s == level.identifier,
            LevelSelection::Indices(i) => *i == *indices,
            LevelSelection::Iid(i) => *i.get() == level.iid,
            LevelSelection::Uid(u) => *u == level.uid,
        }
    }
}

} // verus!
