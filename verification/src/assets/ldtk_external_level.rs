use vstd::prelude::*;

use crate::ldtk::loaded_level::{level_is_loaded, LoadedLevel};
use crate::ldtk::Level;
use crate::refs::points_to_option;
use crate::string_map::StrMap;

verus! {

/// Secondary asset for loading external-levels ldtk files, specific to level data.
///
/// Its level always holds complete level data.
#[derive(Debug, PartialEq)]
pub struct LdtkExternalLevel {
    /// Raw ldtk level data.
    data: Level,
}

/// Errors that can occur when loading an [`LdtkExternalLevel`] asset.
#[derive(Clone, Debug, PartialEq, Eq)]
pub enum LdtkExternalLevelLoaderError {
    /// Encountered IO error reading LDtk level (with the error's message).
    Io(String),
    /// Unable to deserialize LDtk level (with the error's message).
    Deserialize(String),
    /// External LDtk level should contain all level data, but some level has null layers.
    NullLayers,
}

impl LdtkExternalLevel {
    #[verifier::type_invariant]
    spec fn loaded(self) -> bool {
        level_is_loaded(self.data)
    }

    /// The level data of this asset.
    pub closed spec fn spec_data(self) -> Level {
        self.data
    }

    /// Construct the asset from deserialized level data, as the asset loader does.
    ///
    /// Fails with [`LdtkExternalLevelLoaderError::NullLayers`] exactly when the level's layer
    /// instances are null.
    pub fn try_new(data: Level) -> (level: Result<LdtkExternalLevel, LdtkExternalLevelLoaderError>)
        ensures
            level is Ok <==> level_is_loaded(data),
            level matches Ok(l) ==> l.spec_data() == data,
            level matches Err(e) ==> e == LdtkExternalLevelLoaderError::NullLayers,
    {
        if data.layer_instances.is_none() {
            Err(LdtkExternalLevelLoaderError::NullLayers)
        } else {
            Ok(LdtkExternalLevel { data })
        }
    }

    /// Access the level data of this asset as a [`LoadedLevel`].
    pub fn data(&self) -> (level: LoadedLevel<'_>)
        ensures
            level.spec_raw() == self.spec_data(),
    {
        proof {
            use_type_invariant(self);
        }
        match LoadedLevel::try_from_level(&self.data) {
            Ok(level) => level,
            Err(_) => vstd::pervasive::unreached(),
        }
    }
}

/// The collection of loaded [`LdtkExternalLevel`] assets, by asset path.
#[derive(Debug, PartialEq)]
pub struct ExternalLevelAssets {
    levels: StrMap<LdtkExternalLevel>,
}

impl ExternalLevelAssets {
    /// The loaded external levels, by asset path.
    pub closed spec fn spec_levels(self) -> Map<Seq<char>, LdtkExternalLevel> {
        self.levels@
    }

    /// An empty collection.
    pub fn new() -> (assets: ExternalLevelAssets)
        ensures
            assets.spec_levels() == Map::<Seq<char>, LdtkExternalLevel>::empty(),
    {
        ExternalLevelAssets { levels: StrMap::new() }
    }

    /// Add the asset loaded from `path`, replacing the one that path had.
    pub fn insert(&mut self, path: String, level: LdtkExternalLevel)
        ensures
            final(self).spec_levels() == old(self).spec_levels().insert(path@, level),
    {
        self.levels.insert(path, level);
    }

    /// The asset loaded from `path`, if any.
    pub fn get(&self, path: &String) -> (level: Option<&LdtkExternalLevel>)
        ensures
            points_to_option(level, self.spec_levels().get(path@)),
    {
        self.levels.get(path)
    }
}

} // verus!
