use vstd::prelude::*;

use crate::assets::LevelIndices;
use crate::ldtk::raw_level_accessor::{
    indexed_refs_match, level_at_indices, lengths_bounded, raw_levels, raw_levels_with_indices,
    RawLevelAccessor,
};
use crate::ldtk::{LdtkJson, Level};
use crate::refs::{points_to_each, points_to_option};

verus! {

impl LdtkJson {
    /// All the levels in the LDtk file: those of the root first, then those of each world.
    ///
    /// This abstraction avoids compatibility issues between pre-multi-world and post-multi-world
    /// LDtk projects.
    pub fn iter_levels(&self) -> (levels: Vec<&Level>)
        ensures
            points_to_each(levels@, raw_levels(self.levels@, self.worlds@)),
    {
        self.iter_raw_levels()
    }

    /// All levels in the project paired with their [`LevelIndices`].
    ///
    /// This works for multi-world and single-world projects agnostically.
    /// It lists levels in the root first, then levels in the worlds.
    pub fn iter_levels_with_indices(&self) -> (levels: Vec<(LevelIndices, &Level)>)
        ensures
            indexed_refs_match(levels@, raw_levels_with_indices(self.levels@, self.worlds@)),
            lengths_bounded(self.levels@, self.worlds@),
    {
        self.iter_raw_levels_with_indices()
    }

    /// Immutable access to a level at the given [`LevelIndices`].
    pub fn get_level_at_indices(&self, indices: &LevelIndices) -> (level: Option<&Level>)
        ensures
            points_to_option(level, level_at_indices(self.levels@, self.worlds@, *indices)),
    {
        self.get_raw_level_at_indices(indices)
    }
}

} // verus!
