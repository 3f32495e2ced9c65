//! The parent project of an external-levels LDtk project: the project file without its
//! levels' layers, which live in a file per level.
use vstd::prelude::*;

use std::collections::HashMap;

use crate::assets::ldtk_project::{
    all_levels_have_external_path, external_level_map, load_external_level_map, load_tileset_map,
    tileset_paths,
};
use crate::assets::{ExternalLevelMetadata, LevelIndices};
use crate::ldtk::impl_definitions::{int_grid_image_size, IntGridImage};
use crate::ldtk::raw_level_accessor::{raw_levels, raw_levels_with_indices};
use crate::ldtk::LdtkJson;
use crate::refs::points_to_option;
use crate::string_map::StrMap;

verus! {

broadcast use vstd::std_specs::hash::group_hash_axioms;

/// Errors that can occur when loading an [`LdtkParentProject`].
#[derive(Clone, Copy, Debug, PartialEq, Eq, Structural)]
pub enum LdtkParentProjectLoaderError {
    /// The project keeps its levels in the project file; load it as an `LdtkProject`.
    InternalLevelProject,
    /// The project uses external levels, but some level's `external_rel_path` is null.
    ExternalLevelWithNullPath,
}

/// The parent project of an external-levels project: its json data, the asset paths of its
/// tilesets, the metadata of its levels by iid and the image for IntGrid colours.
pub struct LdtkParentProject {
    data: LdtkJson,
    tileset_map: HashMap<i32, String>,
    level_map: StrMap<ExternalLevelMetadata>,
    int_grid_image_handle: Option<IntGridImage>,
}

impl LdtkParentProject {
    /// The raw project data.
    pub closed spec fn spec_data(&self) -> LdtkJson {
        self.data
    }

    /// The asset paths of the tilesets' images, by tileset uid.
    pub closed spec fn spec_tileset_map(&self) -> Map<i32, Seq<char>> {
        self.tileset_map@.map_values(|p: String| p@)
    }

    /// The metadata of the levels, by level iid.
    pub closed spec fn spec_level_map(&self) -> Map<Seq<char>, ExternalLevelMetadata> {
        self.level_map@
    }

    /// The image for IntGrid colours.
    pub closed spec fn spec_int_grid_image(&self) -> Option<IntGridImage> {
        self.int_grid_image_handle
    }

    /// Raw ldtk project data.
    pub fn data(&self) -> (data: &LdtkJson)
        ensures
            *data == self.spec_data(),
    {
        &self.data
    }

    /// Map from tileset uids to the asset paths of their images.
    pub fn tileset_map(&self) -> (tileset_map: &HashMap<i32, String>)
        ensures
            tileset_map@.map_values(|p: String| p@) == self.spec_tileset_map(),
    {
        &self.tileset_map
    }

    /// Map from level iids to level metadata.
    pub fn level_map(&self) -> (level_map: &StrMap<ExternalLevelMetadata>)
        ensures
            level_map@ == self.spec_level_map(),
    {
        &self.level_map
    }

    /// Image used for rendering IntGrid colours.
    pub fn int_grid_image_handle(&self) -> (image: &Option<IntGridImage>)
        ensures
            *image == self.spec_int_grid_image(),
    {
        &self.int_grid_image_handle
    }

    /// The indices of the level with iid `iid`, from the level map.
    pub fn get_indices_for_iid(&self, iid: &String) -> (indices: Option<&LevelIndices>)
        ensures
            points_to_option(
                indices,
                match self.spec_level_map().get(iid@) {
                    Some(metadata) => Some(metadata.spec_metadata().spec_indices()),
                    None => None,
                },
            ),
    {
        match self.level_map.get(iid) {
            Some(metadata) => Some(metadata.metadata().indices()),
            None => None,
        }
    }

    /// Load a parent project from its json data, resolving asset paths against the project's
    /// directory.
    ///
    /// A project that keeps its levels in the project file is refused, and so is one with a
    /// level without a path to its file.
    pub fn load_from_dir(project_dir: &str, data: LdtkJson) -> (project: Result<
        LdtkParentProject,
        LdtkParentProjectLoaderError,
    >)
        ensures
            project is Ok <==> data.external_levels && all_levels_have_external_path(
                raw_levels(data.levels@, data.worlds@),
            ),
            project matches Err(e) ==> (e == LdtkParentProjectLoaderError::InternalLevelProject
                <==> !data.external_levels),
            project matches Ok(p) ==> p.spec_data() == data && p.spec_level_map().map_values(
                |v: ExternalLevelMetadata| v@,
            ) == external_level_map(
                project_dir@,
                raw_levels_with_indices(data.levels@, data.worlds@),
            ) && p.spec_tileset_map() == tileset_paths(project_dir@, data.defs.tilesets@),
            project matches Ok(p) ==> match int_grid_image_size(data.defs.layers@) {
                Some(size) => p.spec_int_grid_image() matches Some(i) && i.width == size as u32
                    && i.height == size as u32 && i.pixel == [255u8, 255u8, 255u8, 255u8],
                None => p.spec_int_grid_image() is None,
            },
    {
        if !data.external_levels {
            return Err(LdtkParentProjectLoaderError::InternalLevelProject);
        }
        let level_map = match load_external_level_map(project_dir, &data) {
            Ok(m) => m,
            Err(_) => return Err(LdtkParentProjectLoaderError::ExternalLevelWithNullPath),
        };
        let tileset_map = load_tileset_map(project_dir, &data.defs.tilesets);
        let int_grid_image_handle = data.defs.create_int_grid_image();
        Ok(LdtkParentProject { data, tileset_map, level_map, int_grid_image_handle })
    }
}

} // verus!
