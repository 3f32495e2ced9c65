//! [`LdtkLevel`]: the level of a level file, with the asset path of its background image.
use vstd::prelude::*;

use crate::assets::ldtk_project::{
    asset_path_in, ldtk_path_to_asset_path, parent_of, path_parent,
};
use crate::ldtk::Level;

verus! {

/// A level loaded from its own file, with the asset path of its background image.
pub struct LdtkLevel {
    pub level: Level,
    pub background_image: Option<String>,
}

impl LdtkLevel {
    /// Load the level of the level file at `level_path`.
    ///
    /// The background image path is resolved against the directory that holds the directory of
    /// the level file. There is no level when it has a background image and either directory
    /// is missing.
    pub fn load(level_path: &str, level: Level) -> (loaded: Option<LdtkLevel>)
        ensures
            match level.bg_rel_path {
                None => loaded matches Some(l) && l.level == level && l.background_image is None,
                Some(rel) => match path_parent(level_path@) {
                    Some(dir) => match path_parent(dir) {
                        Some(base) => loaded matches Some(l) && l.level == level
                            && l.background_image.deep_view() == Some(asset_path_in(base, rel@)),
                        None => loaded is None,
                    },
                    None => loaded is None,
                },
            },
    {
        let background_image = match &level.bg_rel_path {
            Some(rel_path) => {
                let dir = match parent_of(level_path) {
                    Some(dir) => dir,
                    None => return None,
                };
                match ldtk_path_to_asset_path(dir.as_str(), rel_path.as_str()) {
                    Some(path) => Some(path),
                    None => return None,
                }
            },
            None => None,
        };
        Some(LdtkLevel { level, background_image })
    }
}

} // verus!
