use vstd::prelude::*;

use std::collections::HashMap;

use crate::assets::level_metadata_accessor::{
    has_identifier, has_uid, lemma_first_level_where_unique, level_by_iid, level_by_selection,
    LevelMetadataAccessor,
};
use crate::assets::ldtk_json_with_metadata::{external_level_by_iid, project_levels_loaded};
use crate::assets::{
    ExternalLevelMetadata, ExternalLevels, InternalLevels, LdtkExternalLevel, LdtkJsonWithMetadata,
    LdtkProjectData,
    LevelIndices, LevelMetadata,
};
use crate::ldtk::impl_definitions::{int_grid_image_size, IntGridImage};
use crate::ldtk::loaded_level::{all_levels_loaded, level_is_loaded};
use crate::ldtk::raw_level_accessor::{
    indexed_refs_match, lemma_indexed_levels, lemma_world_level_listed, lengths_bounded,
    level_at_indices, raw_levels, raw_levels_with_indices, RawLevelAccessor,
};
use crate::ldtk::{LdtkJson, Level, TilesetDefinition, World};
use crate::refs::points_to_each;
use crate::resources::LevelSelection;
use crate::string_map::StrMap;

verus! {

broadcast use vstd::std_specs::hash::group_hash_axioms;

/// The parent directory of `path`, as `std::path::Path::parent` gives it on the platform the
/// crate is built for.
pub uninterp spec fn path_parent(path: Seq<char>) -> Option<Seq<char>>;

/// `rel` joined onto `base`, as `std::path::Path::join` gives it on the platform the crate is
/// built for.
pub uninterp spec fn path_join(base: Seq<char>, rel: Seq<char>) -> Seq<char>;

/// `path` normalized by `path_clean::clean` on the platform the crate is built for.
pub uninterp spec fn cleaned_path(path: Seq<char>) -> Seq<char>;

/// Calls `std::path::Path::parent`; the result is named [`path_parent`].
#[verifier::external_body]
pub(crate) fn parent_of(path: &str) -> (parent: Option<String>)
    ensures
        parent.deep_view() == path_parent(path@),
{
    match std::path::Path::new(path).parent() {
        Some(parent) => Some(parent.to_string_lossy().into_owned()),
        None => None,
    }
}

/// Calls `std::path::Path::join`; the result is named [`path_join`].
#[verifier::external_body]
fn join_path(base: &str, rel: &str) -> (joined: String)
    ensures
        joined@ == path_join(base@, rel@),
{
    std::path::Path::new(base).join(rel).to_string_lossy().into_owned()
}

/// Calls `path_clean::clean`; the result is named [`cleaned_path`].
#[verifier::external_body]
fn clean_path(path: &str) -> (cleaned: String)
    ensures
        cleaned@ == cleaned_path(path@),
{
    path_clean::clean(path).to_string_lossy().into_owned()
}

/// The asset path of a file at `rel_path` relative to the directory `dir`.
pub open spec fn asset_path_in(dir: Seq<char>, rel_path: Seq<char>) -> Seq<char> {
    cleaned_path(path_join(dir, rel_path))
}

/// The asset path of a file at `rel_path` relative to the directory `project_dir`: the
/// joined path, normalized.
pub fn asset_path_in_dir(project_dir: &str, rel_path: &str) -> (asset_path: String)
    ensures
        asset_path@ == asset_path_in(project_dir@, rel_path@),
{
    let joined = join_path(project_dir, rel_path);
    clean_path(joined.as_str())
}

/// The asset path of a file at `rel_path` relative to the LDtk file at `ldtk_path`.
///
/// There is none when `ldtk_path` has no parent directory.
pub fn ldtk_path_to_asset_path(ldtk_path: &str, rel_path: &str) -> (asset_path: Option<String>)
    ensures
        match path_parent(ldtk_path@) {
            Some(dir) => asset_path matches Some(p) && p@ == asset_path_in(dir, rel_path@),
            None => asset_path is None,
        },
{
    match parent_of(ldtk_path) {
        Some(dir) => Some(asset_path_in_dir(dir.as_str(), rel_path)),
        None => None,
    }
}

/// Errors that can occur when loading an [`LdtkProject`] asset.
#[derive(Clone, Debug, PartialEq, Eq)]
pub enum LdtkProjectLoaderError {
    /// Encountered IO error reading LDtk project (with the error's message).
    Io(String),
    /// Unable to deserialize LDtk project (with the error's message).
    Deserialize(String),
    /// LDtk project uses internal levels, but the `internal_levels` feature is disabled.
    InternalLevelsDisabled,
    /// LDtk project uses external levels, but the `external_levels` feature is disabled.
    ExternalLevelsDisabled,
    /// LDtk project uses internal levels, but some level's `layer_instances` is null.
    InternalLevelWithNullLayers,
    /// LDtk project uses external levels, but some level's `external_rel_path` is null.
    ExternalLevelWithNullPath,
}

/// The background image asset path of `level`, if it has a background image.
pub open spec fn bg_image_path(dir: Seq<char>, level: Level) -> Option<Seq<char>> {
    match level.bg_rel_path {
        Some(rel) => Some(asset_path_in(dir, rel@)),
        None => None,
    }
}

/// The metadata, as viewed, that loading gives the level at `indices`.
pub open spec fn level_metadata_of(dir: Seq<char>, indices: LevelIndices, level: Level) -> (
    Option<Seq<char>>,
    LevelIndices,
) {
    (bg_image_path(dir, level), indices)
}

/// The level map, as viewed, that loading an internal-levels project with the given indexed
/// levels gives: each level's iid bound to its metadata, later levels replacing earlier ones.
pub open spec fn internal_level_map(dir: Seq<char>, entries: Seq<(LevelIndices, Level)>) -> Map<
    Seq<char>,
    (Option<Seq<char>>, LevelIndices),
>
    decreases entries.len(),
{
    if entries.len() == 0 {
        Map::empty()
    } else {
        let (indices, level) = entries.last();
        internal_level_map(dir, entries.drop_last()).insert(
            level.iid@,
            level_metadata_of(dir, indices, level),
        )
    }
}

/// The level map, as viewed, that loading an external-levels project with the given indexed
/// levels gives: each level's iid bound to its metadata and the asset path of its external
/// file, later levels replacing earlier ones.
pub open spec fn external_level_map(dir: Seq<char>, entries: Seq<(LevelIndices, Level)>) -> Map<
    Seq<char>,
    ((Option<Seq<char>>, LevelIndices), Seq<char>),
>
    decreases entries.len(),
{
    if entries.len() == 0 {
        Map::empty()
    } else {
        let (indices, level) = entries.last();
        external_level_map(dir, entries.drop_last()).insert(
            level.iid@,
            (
                level_metadata_of(dir, indices, level),
                asset_path_in(dir, level.external_rel_path->0@),
            ),
        )
    }
}

/// Every level has a path to its external file.
pub open spec fn all_levels_have_external_path(levels: Seq<Level>) -> bool {
    forall|i: int| 0 <= i < levels.len() ==> (#[trigger] levels[i]).external_rel_path is Some
}

/// The map from tileset uids to tileset image asset paths, for tilesets with a path.
pub open spec fn tileset_paths(dir: Seq<char>, tilesets: Seq<TilesetDefinition>) -> Map<
    i32,
    Seq<char>,
>
    decreases tilesets.len(),
{
    if tilesets.len() == 0 {
        Map::empty()
    } else {
        let rest = tileset_paths(dir, tilesets.drop_last());
        let tileset = tilesets.last();
        match tileset.rel_path {
            Some(rel) => rest.insert(tileset.uid, asset_path_in(dir, rel@)),
            None => rest,
        }
    }
}

/// Load the metadata of a level at `level_indices`.
///
/// When `expect_level_loaded` is set, a level with null layer instances is an error.
pub fn load_level_metadata(
    project_dir: &str,
    level_indices: LevelIndices,
    level: &Level,
    expect_level_loaded: bool,
) -> (metadata: Result<LevelMetadata, LdtkProjectLoaderError>)
    ensures
        metadata is Err <==> expect_level_loaded && !level_is_loaded(*level),
        metadata matches Err(e) ==> e == LdtkProjectLoaderError::InternalLevelWithNullLayers,
        metadata matches Ok(m) ==> m@ == level_metadata_of(project_dir@, level_indices, *level),
{
    let bg_image = match &level.bg_rel_path {
        Some(rel_path) => Some(asset_path_in_dir(project_dir, rel_path.as_str())),
        None => None,
    };
    if expect_level_loaded && level.layer_instances.is_none() {
        return Err(LdtkProjectLoaderError::InternalLevelWithNullLayers);
    }
    Ok(LevelMetadata::new(bg_image, level_indices))
}

/// Load the metadata of a level at `level_indices` of an external-levels project.
///
/// A level without a path to its external file is an error.
pub fn load_external_level_metadata(
    project_dir: &str,
    level_indices: LevelIndices,
    level: &Level,
) -> (metadata: Result<ExternalLevelMetadata, LdtkProjectLoaderError>)
    ensures
        metadata is Err <==> level.external_rel_path is None,
        metadata matches Err(e) ==> e == LdtkProjectLoaderError::ExternalLevelWithNullPath,
        metadata matches Ok(m) ==> m@ == (
            level_metadata_of(project_dir@, level_indices, *level),
            asset_path_in(project_dir@, level.external_rel_path->0@),
        ),
{
    let level_metadata = match load_level_metadata(project_dir, level_indices, level, false) {
        Ok(m) => m,
        Err(e) => return Err(e),
    };
    let external_rel_path = match &level.external_rel_path {
        Some(path) => path,
        None => return Err(LdtkProjectLoaderError::ExternalLevelWithNullPath),
    };
    let external_level_path = asset_path_in_dir(project_dir, external_rel_path.as_str());
    Ok(ExternalLevelMetadata::new(level_metadata, external_level_path))
}

/// Every level of a project being loaded is loaded exactly when all its root levels and all
/// its world levels are.
proof fn lemma_all_loaded_project(root: Seq<Level>, worlds: Seq<World>)
    requires
        all_levels_loaded(raw_levels(root, worlds)),
    ensures
        project_levels_loaded(root, worlds),
{
    let all = raw_levels(root, worlds);
    assert forall|i: int| 0 <= i < root.len() implies level_is_loaded(#[trigger] root[i]) by {
        assert(all[i] == root[i]);
    }
    assert forall|w: int, j: int|
        0 <= w < worlds.len() && 0 <= j < worlds[w].levels@.len() implies level_is_loaded(
        #[trigger] worlds[w].levels@[j],
    ) by {
        lemma_world_level_listed(worlds, w, j);
        let k = choose|k: int|
            0 <= k < crate::ldtk::raw_level_accessor::world_levels(worlds).len()
                && #[trigger] crate::ldtk::raw_level_accessor::world_levels(worlds)[k]
                == worlds[w].levels@[j];
        assert(all[root.len() + k] == worlds[w].levels@[j]);
    }
}

/// Build the level map of an internal-levels project.
///
/// Fails exactly when some level has null layer instances.
pub fn load_internal_level_map(project_dir: &str, data: &LdtkJson) -> (level_map: Result<
    StrMap<LevelMetadata>,
    LdtkProjectLoaderError,
>)
    ensures
        lengths_bounded(data.levels@, data.worlds@),
        level_map is Ok <==> all_levels_loaded(raw_levels(data.levels@, data.worlds@)),
        level_map matches Err(e) ==> e == LdtkProjectLoaderError::InternalLevelWithNullLayers,
        level_map matches Ok(m) ==> m@.map_values(|v: LevelMetadata| v@) == internal_level_map(
            project_dir@,
            raw_levels_with_indices(data.levels@, data.worlds@),
        ),
{
    let entries = data.iter_raw_levels_with_indices();
    let ghost spec_entries = raw_levels_with_indices(data.levels@, data.worlds@);
    let ghost all = raw_levels(data.levels@, data.worlds@);
    proof {
        lemma_indexed_levels(data.levels@, data.worlds@);
    }
    let mut level_map: StrMap<LevelMetadata> = StrMap::new();
    let mut i: usize = 0;
    assert(level_map@.map_values(|v: LevelMetadata| v@) =~= internal_level_map(
        project_dir@,
        spec_entries.take(0),
    ));
    while i < entries.len()
        invariant
            i <= entries@.len(),
            indexed_refs_match(entries@, spec_entries),
            spec_entries == raw_levels_with_indices(data.levels@, data.worlds@),
            all == raw_levels(data.levels@, data.worlds@),
            lengths_bounded(data.levels@, data.worlds@),
            spec_entries.len() == all.len(),
            forall|k: int| 0 <= k < all.len() ==> (#[trigger] spec_entries[k]).1 == all[k],
            all_levels_loaded(all.take(i as int)),
            level_map@.map_values(|v: LevelMetadata| v@) == internal_level_map(
                project_dir@,
                spec_entries.take(i as int),
            ),
        decreases entries@.len() - i,
    {
        let (level_indices, level) = entries[i];
        let level_metadata = match load_level_metadata(project_dir, level_indices, level, true) {
            Ok(m) => m,
            Err(e) => {
                assert(!level_is_loaded(all[i as int]));
                return Err(e);
            },
        };
        let ghost old_map = level_map@;
        level_map.insert(level.iid.clone(), level_metadata);
        proof {
            assert(spec_entries.take(i + 1).drop_last() =~= spec_entries.take(i as int));
            assert(level_map@.map_values(|v: LevelMetadata| v@) =~= old_map.map_values(
                |v: LevelMetadata| v@,
            ).insert(level.iid@, level_metadata@));
            assert forall|k: int| 0 <= k < i + 1 implies level_is_loaded(
                #[trigger] all.take(i + 1)[k],
            ) by {
                if k < i {
                    assert(all.take(i + 1)[k] == all.take(i as int)[k]);
                }
            }
        }
        i = i + 1;
    }
    assert(all.take(i as int) =~= all);
    assert(spec_entries.take(i as int) =~= spec_entries);
    Ok(level_map)
}

/// Build the level map of an external-levels project.
///
/// Fails exactly when some level has no path to its external file.
pub fn load_external_level_map(project_dir: &str, data: &LdtkJson) -> (level_map: Result<
    StrMap<ExternalLevelMetadata>,
    LdtkProjectLoaderError,
>)
    ensures
        lengths_bounded(data.levels@, data.worlds@),
        level_map is Ok <==> all_levels_have_external_path(raw_levels(data.levels@, data.worlds@)),
        level_map matches Err(e) ==> e == LdtkProjectLoaderError::ExternalLevelWithNullPath,
        level_map matches Ok(m) ==> m@.map_values(|v: ExternalLevelMetadata| v@)
            == external_level_map(
            project_dir@,
            raw_levels_with_indices(data.levels@, data.worlds@),
        ),
{
    let entries = data.iter_raw_levels_with_indices();
    let ghost spec_entries = raw_levels_with_indices(data.levels@, data.worlds@);
    let ghost all = raw_levels(data.levels@, data.worlds@);
    proof {
        lemma_indexed_levels(data.levels@, data.worlds@);
    }
    let mut level_map: StrMap<ExternalLevelMetadata> = StrMap::new();
    let mut i: usize = 0;
    assert(level_map@.map_values(|v: ExternalLevelMetadata| v@) =~= external_level_map(
        project_dir@,
        spec_entries.take(0),
    ));
    while i < entries.len()
        invariant
            i <= entries@.len(),
            indexed_refs_match(entries@, spec_entries),
            spec_entries == raw_levels_with_indices(data.levels@, data.worlds@),
            all == raw_levels(data.levels@, data.worlds@),
            lengths_bounded(data.levels@, data.worlds@),
            spec_entries.len() == all.len(),
            forall|k: int| 0 <= k < all.len() ==> (#[trigger] spec_entries[k]).1 == all[k],
            all_levels_have_external_path(all.take(i as int)),
            level_map@.map_values(|v: ExternalLevelMetadata| v@) == external_level_map(
                project_dir@,
                spec_entries.take(i as int),
            ),
        decreases entries@.len() - i,
    {
        let (level_indices, level) = entries[i];
        let level_metadata = match load_external_level_metadata(project_dir, level_indices, level) {
            Ok(m) => m,
            Err(e) => {
                assert(all[i as int].external_rel_path is None);
                return Err(e);
            },
        };
        let ghost old_map = level_map@;
        level_map.insert(level.iid.clone(), level_metadata);
        proof {
            assert(spec_entries.take(i + 1).drop_last() =~= spec_entries.take(i as int));
            assert(level_map@.map_values(|v: ExternalLevelMetadata| v@) =~= old_map.map_values(
                |v: ExternalLevelMetadata| v@,
            ).insert(level.iid@, level_metadata@));
            assert forall|k: int| 0 <= k < i + 1 implies (#[trigger] all.take(
                i + 1,
            )[k]).external_rel_path is Some by {
                if k < i {
                    assert(all.take(i + 1)[k] == all.take(i as int)[k]);
                }
            }
        }
        i = i + 1;
    }
    assert(all.take(i as int) =~= all);
    assert(spec_entries.take(i as int) =~= spec_entries);
    Ok(level_map)
}

/// Build the map from tileset uids to the asset paths of their images.
///
/// Tilesets without a relative path (LDtk's internal icons, or tilesets whose path is null)
/// are left out.
pub fn load_tileset_map(project_dir: &str, tilesets: &Vec<TilesetDefinition>) -> (tileset_map:
    HashMap<i32, String>)
    ensures
        tileset_map@.map_values(|p: String| p@) == tileset_paths(project_dir@, tilesets@),
{
    let mut tileset_map: HashMap<i32, String> = HashMap::new();
    let mut i: usize = 0;
    assert(tilesets@.take(0) =~= Seq::<TilesetDefinition>::empty());
    assert(tileset_map@.map_values(|p: String| p@) =~= Map::<i32, Seq<char>>::empty());
    while i < tilesets.len()
        invariant
            i <= tilesets@.len(),
            tileset_map@.map_values(|p: String| p@) == tileset_paths(
                project_dir@,
                tilesets@.take(i as int),
            ),
        decreases tilesets@.len() - i,
    {
        assert(tilesets@.take(i + 1).drop_last() =~= tilesets@.take(i as int));
        let tileset = &tilesets[i];
        match &tileset.rel_path {
            Some(tileset_path) => {
                let ghost old_map = tileset_map@;
                let asset_path = asset_path_in_dir(project_dir, tileset_path.as_str());
                tileset_map.insert(tileset.uid, asset_path);
                assert(tileset_map@.map_values(|p: String| p@) =~= old_map.map_values(
                    |p: String| p@,
                ).insert(tileset.uid, asset_path@));
            },
            None => {},
        }
        i = i + 1;
    }
    assert(tilesets@.take(i as int) =~= tilesets@);
    tileset_map
}

/// What loading the json data `data` of a project in the directory `dir` gives.
///
/// Projects that store levels externally get external level metadata, the others level
/// metadata, and loading fails exactly when a level lacks what its kind of project needs.
/// A loaded project keeps the json data, maps each tileset with an image to the image's asset
/// path, and has an int grid image exactly when some int grid layer has no tileset.
pub open spec fn loaded_project_from(
    dir: Seq<char>,
    data: LdtkJson,
    project: Result<LdtkProject, LdtkProjectLoaderError>,
) -> bool {
    let all = raw_levels(data.levels@, data.worlds@);
    let entries = raw_levels_with_indices(data.levels@, data.worlds@);
    &&& project is Ok ==> lengths_bounded(data.levels@, data.worlds@)
    &&& if data.external_levels {
        &&& project is Ok <==> all_levels_have_external_path(all)
        &&& project matches Err(e) ==> e == LdtkProjectLoaderError::ExternalLevelWithNullPath
        &&& project matches Ok(p) ==> p.spec_data() matches LdtkProjectData::Parent(parent)
            && parent.spec_json_data() == data && parent.spec_level_map().map_values(
            |v: ExternalLevelMetadata| v@,
        ) == external_level_map(dir, entries)
    } else {
        &&& project is Ok <==> all_levels_loaded(all)
        &&& project matches Err(e) ==> e == LdtkProjectLoaderError::InternalLevelWithNullLayers
        &&& project matches Ok(p) ==> p.spec_data() matches LdtkProjectData::Standalone(
            standalone,
        ) && standalone.spec_json_data() == data && standalone.spec_level_map().map_values(
            |v: LevelMetadata| v@,
        ) == internal_level_map(dir, entries)
    }
    &&& project matches Ok(p) ==> p.spec_tileset_map() == tileset_paths(dir, data.defs.tilesets@)
    &&& project matches Ok(p) ==> match int_grid_image_size(data.defs.layers@) {
        Some(size) => p.spec_int_grid_image() matches Some(i) && i.width == size as u32
            && i.height == size as u32 && i.pixel == [255u8, 255u8, 255u8, 255u8],
        None => p.spec_int_grid_image() is None,
    }
}
/// Some tileset has a path to its image.
pub open spec fn some_tileset_has_path(tilesets: Seq<TilesetDefinition>) -> bool {
    exists|i: int| 0 <= i < tilesets.len() && (#[trigger] tilesets[i]).rel_path is Some
}

/// Going through `levels` in order, loading resolves an asset path of some level before it
/// meets a level that fails to load: a background image path, or for external levels the
/// path of the level's file.
pub open spec fn levels_resolve_path_first(levels: Seq<Level>, external_levels: bool) -> bool
    decreases levels.len(),
{
    if levels.len() == 0 {
        false
    } else if levels[0].bg_rel_path is Some {
        true
    } else if external_levels {
        levels[0].external_rel_path is Some
    } else if levels[0].layer_instances is None {
        false
    } else {
        levels_resolve_path_first(levels.drop_first(), external_levels)
    }
}

/// Loading `data` resolves an asset path before it fails: tileset image paths are resolved
/// first, then the paths of each level, root levels first.
pub open spec fn resolves_path_before_failing(data: LdtkJson) -> bool {
    some_tileset_has_path(data.defs.tilesets@) || levels_resolve_path_first(
        raw_levels(data.levels@, data.worlds@),
        data.external_levels,
    )
}

/// Whether loading `data` resolves an asset path before it fails.
fn project_resolves_path_before_failing(data: &LdtkJson) -> (resolves: bool)
    ensures
        resolves == resolves_path_before_failing(*data),
{
    let tilesets = &data.defs.tilesets;
    let mut i: usize = 0;
    while i < tilesets.len()
        invariant
            i <= tilesets@.len(),
            tilesets@ == data.defs.tilesets@,
            forall|j: int| 0 <= j < i ==> (#[trigger] tilesets@[j]).rel_path is None,
        decreases tilesets@.len() - i,
    {
        if tilesets[i].rel_path.is_some() {
            assert(tilesets@[i as int].rel_path is Some);
            return true;
        }
        i = i + 1;
    }
    let levels = data.iter_raw_levels();
    let ghost all = raw_levels(data.levels@, data.worlds@);
    let mut k: usize = 0;
    assert(all.skip(0) =~= all);
    while k < levels.len()
        invariant
            k <= levels@.len(),
            points_to_each(levels@, all),
            !some_tileset_has_path(data.defs.tilesets@),
            resolves_path_before_failing(*data) == levels_resolve_path_first(
                all.skip(k as int),
                data.external_levels,
            ),
        decreases levels@.len() - k,
    {
        let level = levels[k];
        assert(all.skip(k as int)[0] == all[k as int]);
        assert(all.skip(k as int).drop_first() =~= all.skip(k + 1));
        if level.bg_rel_path.is_some() {
            return true;
        }
        if data.external_levels {
            return level.external_rel_path.is_some();
        }
        if level.layer_instances.is_none() {
            return false;
        }
        k = k + 1;
    }
    false
}

/// Main asset for loading LDtk project data.
///
/// Tileset images are identified by the asset paths they are loaded from, and the int grid
/// image by the fill that makes it.
#[derive(Debug, PartialEq)]
pub struct LdtkProject {
    /// LDtk json data and level metadata.
    data: LdtkProjectData,
    /// Map from tileset uids to the asset paths of the tileset images.
    tileset_map: HashMap<i32, String>,
    /// Image used for rendering int grid colors.
    int_grid_image_handle: Option<IntGridImage>,
}

impl LdtkProject {
    /// LDtk json data and level metadata.
    pub closed spec fn spec_data(self) -> LdtkProjectData {
        self.data
    }

    /// Map from tileset uids to the asset paths of the tileset images.
    pub closed spec fn spec_tileset_map(self) -> Map<i32, Seq<char>> {
        self.tileset_map@.map_values(|p: String| p@)
    }

    /// Image used for rendering int grid colors.
    pub closed spec fn spec_int_grid_image(self) -> Option<IntGridImage> {
        self.int_grid_image_handle
    }

    /// LDtk json data and level metadata.
    pub fn data(&self) -> (data: &LdtkProjectData)
        ensures
            *data == self.spec_data(),
    {
        &self.data
    }

    /// Map from tileset uids to the asset paths of the tileset images.
    pub fn tileset_map(&self) -> (tileset_map: &HashMap<i32, String>)
        ensures
            tileset_map@.map_values(|p: String| p@) == self.spec_tileset_map(),
    {
        &self.tileset_map
    }

    /// Image used for rendering int grid colors.
    pub fn int_grid_image_handle(&self) -> (image: &Option<IntGridImage>)
        ensures
            *image == self.spec_int_grid_image(),
    {
        &self.int_grid_image_handle
    }

    /// Raw ldtk json data.
    pub fn json_data(&self) -> (json_data: &LdtkJson)
        ensures
            *json_data == self.spec_data().spec_json_data(),
    {
        self.data.json_data()
    }

    /// Unwrap as a [`LdtkJsonWithMetadata<InternalLevels>`], for internal-levels projects.
    pub fn as_standalone(&self) -> (project: &LdtkJsonWithMetadata<InternalLevels>)
        requires
            self.spec_data() is Standalone,
        ensures
            *project == self.spec_data()->Standalone_0,
    {
        self.data.as_standalone()
    }

    /// Unwrap as a [`LdtkJsonWithMetadata<ExternalLevels>`], for external-levels projects.
    pub fn as_parent(&self) -> (project: &LdtkJsonWithMetadata<ExternalLevels>)
        requires
            self.spec_data() is Parent,
        ensures
            *project == self.spec_data()->Parent_0,
    {
        self.data.as_parent()
    }

    /// Load a project from its deserialized json data, as the asset loader does.
    ///
    /// `project_dir` is the directory of the project file: asset paths are relative to it.
    pub fn load_from_dir(project_dir: &str, data: LdtkJson) -> (project: Result<
        LdtkProject,
        LdtkProjectLoaderError,
    >)
        ensures
            loaded_project_from(project_dir@, data, project),
    {
        let tileset_map = load_tileset_map(project_dir, &data.defs.tilesets);
        let int_grid_image_handle = data.defs.create_int_grid_image();
        if data.external_levels {
            let level_map = match load_external_level_map(project_dir, &data) {
                Ok(m) => m,
                Err(e) => return Err(e),
            };
            let project = LdtkJsonWithMetadata::<ExternalLevels>::new(data, level_map);
            Ok(LdtkProject {
                data: LdtkProjectData::Parent(project),
                tileset_map,
                int_grid_image_handle,
            })
        } else {
            let level_map = match load_internal_level_map(project_dir, &data) {
                Ok(m) => m,
                Err(e) => return Err(e),
            };
            proof {
                lemma_all_loaded_project(data.levels@, data.worlds@);
            }
            let project = LdtkJsonWithMetadata::<InternalLevels>::new(data, level_map);
            Ok(LdtkProject {
                data: LdtkProjectData::Standalone(project),
                tileset_map,
                int_grid_image_handle,
            })
        }
    }

    /// Load a project from its deserialized json data and the path of the project file.
    ///
    /// Asset paths are resolved against the directory of `project_path`, as
    /// [`LdtkProject::load_from_dir`] does. A path without a parent directory has none to
    /// resolve them against: then there is no project exactly when loading would resolve an
    /// asset path before it fails, and otherwise the project loads as from an empty directory,
    /// which no asset path then goes through.
    pub fn load(project_path: &str, data: LdtkJson) -> (project: Option<
        Result<LdtkProject, LdtkProjectLoaderError>,
    >)
        ensures
            match path_parent(project_path@) {
                Some(dir) => project matches Some(p) && loaded_project_from(dir, data, p),
                None => if resolves_path_before_failing(data) {
                    project is None
                } else {
                    project matches Some(p) && loaded_project_from(Seq::empty(), data, p)
                },
            },
    {
        match parent_of(project_path) {
            Some(dir) => Some(LdtkProject::load_from_dir(dir.as_str(), data)),
            None => {
                if project_resolves_path_before_failing(&data) {
                    None
                } else {
                    proof {
                        reveal_strlit("");
                    }
                    assert(""@ =~= Seq::<char>::empty());
                    Some(LdtkProject::load_from_dir("", data))
                }
            },
        }
    }
}

impl RawLevelAccessor for LdtkProject {
    open spec fn root_levels_view(&self) -> Seq<Level> {
        self.spec_data().spec_json_data().levels@
    }

    open spec fn worlds_view(&self) -> Seq<World> {
        self.spec_data().spec_json_data().worlds@
    }

    fn root_levels(&self) -> (levels: &[Level]) {
        self.data.root_levels()
    }

    fn worlds(&self) -> (worlds: &[World]) {
        self.data.worlds()
    }
}

impl LevelMetadataAccessor for LdtkProject {
    open spec fn level_metadata_view(&self) -> Map<Seq<char>, LevelMetadata> {
        self.spec_data().level_metadata_view()
    }

    fn get_level_metadata_by_iid(&self, iid: &String) -> (metadata: Option<&LevelMetadata>) {
        self.data.get_level_metadata_by_iid(iid)
    }
}

/// The level iids of `levels` are pairwise distinct.
pub open spec fn iids_distinct(levels: Seq<Level>) -> bool {
    forall|i: int, j: int| 0 <= i < j < levels.len() ==> levels[i].iid@ != levels[j].iid@
}

/// The levels of indexed `entries` have pairwise distinct iids.
spec fn entry_iids_distinct(entries: Seq<(LevelIndices, Level)>) -> bool {
    forall|i: int, j: int|
        0 <= i < j < entries.len() ==> (#[trigger] entries[i]).1.iid@ != (#[trigger] entries[
            j]).1.iid@
}

/// Where iids are distinct, the internal level map binds each level's iid to its metadata.
proof fn lemma_internal_level_map_binds(dir: Seq<char>, entries: Seq<(LevelIndices, Level)>)
    requires
        entry_iids_distinct(entries),
    ensures
        forall|k: int|
            0 <= k < entries.len() ==> internal_level_map(dir, entries).contains_key(
                (#[trigger] entries[k]).1.iid@,
            ) && internal_level_map(dir, entries)[entries[k].1.iid@] == level_metadata_of(
                dir,
                entries[k].0,
                entries[k].1,
            ),
    decreases entries.len(),
{
    if entries.len() > 0 {
        let rest = entries.drop_last();
        assert forall|i: int, j: int| 0 <= i < j < rest.len() implies (#[trigger] rest[i]).1.iid@
            != (#[trigger] rest[j]).1.iid@ by {
            assert(rest[i] == entries[i] && rest[j] == entries[j]);
        }
        lemma_internal_level_map_binds(dir, rest);
        assert forall|k: int| 0 <= k < entries.len() implies internal_level_map(
            dir,
            entries,
        ).contains_key((#[trigger] entries[k]).1.iid@) && internal_level_map(dir, entries)[entries[
            k].1.iid@] == level_metadata_of(dir, entries[k].0, entries[k].1) by {
            if k < entries.len() - 1 {
                assert(rest[k] == entries[k]);
                assert(entries[k].1.iid@ != entries[entries.len() - 1].1.iid@);
            }
        }
    }
}

/// Where iids are distinct, the external level map binds each level's iid to its metadata and
/// to the asset path of its external file.
proof fn lemma_external_level_map_binds(dir: Seq<char>, entries: Seq<(LevelIndices, Level)>)
    requires
        entry_iids_distinct(entries),
    ensures
        forall|k: int|
            0 <= k < entries.len() ==> external_level_map(dir, entries).contains_key(
                (#[trigger] entries[k]).1.iid@,
            ) && external_level_map(dir, entries)[entries[k].1.iid@] == (
                level_metadata_of(dir, entries[k].0, entries[k].1),
                asset_path_in(dir, entries[k].1.external_rel_path->0@),
            ),
    decreases entries.len(),
{
    if entries.len() > 0 {
        let rest = entries.drop_last();
        assert forall|i: int, j: int| 0 <= i < j < rest.len() implies (#[trigger] rest[i]).1.iid@
            != (#[trigger] rest[j]).1.iid@ by {
            assert(rest[i] == entries[i] && rest[j] == entries[j]);
        }
        lemma_external_level_map_binds(dir, rest);
        assert forall|k: int| 0 <= k < entries.len() implies external_level_map(
            dir,
            entries,
        ).contains_key((#[trigger] entries[k]).1.iid@) && external_level_map(dir, entries)[entries[
            k].1.iid@] == (
            level_metadata_of(dir, entries[k].0, entries[k].1),
            asset_path_in(dir, entries[k].1.external_rel_path->0@),
        ) by {
            if k < entries.len() - 1 {
                assert(rest[k] == entries[k]);
                assert(entries[k].1.iid@ != entries[entries.len() - 1].1.iid@);
            }
        }
    }
}

/// In a project loaded from json data whose levels have distinct iids, the level metadata of
/// each level's iid holds that level's indices, and looking up the iid of any of its levels,
/// root or world, gives that very level.
pub proof fn lemma_loaded_project_finds_levels_by_iid(
    dir: Seq<char>,
    data: LdtkJson,
    project: LdtkProject,
)
    requires
        loaded_project_from(dir, data, Ok(project)),
        iids_distinct(raw_levels(data.levels@, data.worlds@)),
    ensures
        forall|k: int|
            0 <= k < raw_levels(data.levels@, data.worlds@).len() ==> level_by_iid(
                project.root_levels_view(),
                project.worlds_view(),
                project.level_metadata_view(),
                (#[trigger] raw_levels(data.levels@, data.worlds@)[k]).iid@,
            ) == Some(raw_levels(data.levels@, data.worlds@)[k]),
        forall|k: int|
            0 <= k < raw_levels(data.levels@, data.worlds@).len() ==> {
                let iid = (#[trigger] raw_levels_with_indices(data.levels@, data.worlds@)[k]).1.iid@;
                &&& project.level_metadata_view().contains_key(iid)
                &&& project.level_metadata_view()[iid].spec_indices() == raw_levels_with_indices(
                    data.levels@,
                    data.worlds@,
                )[k].0
            },
{
    broadcast use LevelMetadata::lemma_view_indices, ExternalLevelMetadata::lemma_view_metadata;

    let root = data.levels@;
    let worlds = data.worlds@;
    let all = raw_levels(root, worlds);
    let entries = raw_levels_with_indices(root, worlds);
    lemma_indexed_levels(root, worlds);
    assert forall|i: int, j: int| 0 <= i < j < entries.len() implies (#[trigger] entries[i]).1.iid@
        != (#[trigger] entries[j]).1.iid@ by {
        assert(entries[i].1 == all[i] && entries[j].1 == all[j]);
    }
    assert(project.root_levels_view() == root);
    assert(project.worlds_view() == worlds);
    if data.external_levels {
        lemma_external_level_map_binds(dir, entries);
        let parent = project.spec_data()->Parent_0;
        assert forall|k: int| 0 <= k < all.len() implies {
            let iid = (#[trigger] entries[k]).1.iid@;
            &&& project.level_metadata_view().contains_key(iid)
            &&& project.level_metadata_view()[iid].spec_indices() == entries[k].0
        } by {
            let iid = entries[k].1.iid@;
            let views = parent.spec_level_map().map_values(|v: ExternalLevelMetadata| v@);
            assert(views.contains_key(iid));
            let m = parent.spec_level_map()[iid];
            assert(views[iid] == m@);
            assert(m@ == external_level_map(dir, entries)[iid]);
            assert(m@.0 == level_metadata_of(dir, entries[k].0, entries[k].1));
            assert(project.level_metadata_view()[iid] == m.spec_metadata());
            assert(m.spec_metadata()@.1 == entries[k].0);
        }
    } else {
        lemma_internal_level_map_binds(dir, entries);
        let standalone = project.spec_data()->Standalone_0;
        assert forall|k: int| 0 <= k < all.len() implies {
            let iid = (#[trigger] entries[k]).1.iid@;
            &&& project.level_metadata_view().contains_key(iid)
            &&& project.level_metadata_view()[iid].spec_indices() == entries[k].0
        } by {
            let iid = entries[k].1.iid@;
            let views = standalone.spec_level_map().map_values(|v: LevelMetadata| v@);
            assert(views.contains_key(iid));
            let m = standalone.spec_level_map()[iid];
            assert(views[iid] == m@);
            assert(m@.1 == entries[k].0);
        }
    }
    assert forall|k: int| 0 <= k < all.len() implies level_by_iid(
        root,
        worlds,
        project.level_metadata_view(),
        (#[trigger] all[k]).iid@,
    ) == Some(all[k]) by {
        assert(entries[k].1 == all[k]);
    }
}

/// The identifiers of `levels` are pairwise distinct.
pub open spec fn identifiers_distinct(levels: Seq<Level>) -> bool {
    forall|i: int, j: int|
        0 <= i < j < levels.len() ==> levels[i].identifier@ != levels[j].identifier@
}

/// The uids of `levels` are pairwise distinct.
pub open spec fn uids_distinct(levels: Seq<Level>) -> bool {
    forall|i: int, j: int| 0 <= i < j < levels.len() ==> levels[i].uid != levels[j].uid
}

/// In a project loaded from json data whose levels have distinct iids, identifiers and uids,
/// every level selection that matches a level at its indices selects that level: a level is
/// found by its iid, by its indices, by its identifier and by its uid.
pub proof fn lemma_loaded_project_selects_matching_levels(
    dir: Seq<char>,
    data: LdtkJson,
    project: LdtkProject,
)
    requires
        loaded_project_from(dir, data, Ok(project)),
        iids_distinct(raw_levels(data.levels@, data.worlds@)),
        identifiers_distinct(raw_levels(data.levels@, data.worlds@)),
        uids_distinct(raw_levels(data.levels@, data.worlds@)),
    ensures
        forall|k: int, selection: LevelSelection|
            0 <= k < raw_levels(data.levels@, data.worlds@).len() && #[trigger] selection.matches_level(
                raw_levels_with_indices(data.levels@, data.worlds@)[k].0,
                raw_levels(data.levels@, data.worlds@)[k],
            ) ==> level_by_selection(
                project.root_levels_view(),
                project.worlds_view(),
                project.level_metadata_view(),
                selection,
            ) == Some(raw_levels(data.levels@, data.worlds@)[k]),
{
    let root = data.levels@;
    let worlds = data.worlds@;
    let all = raw_levels(root, worlds);
    let entries = raw_levels_with_indices(root, worlds);
    lemma_indexed_levels(root, worlds);
    lemma_loaded_project_finds_levels_by_iid(dir, data, project);
    assert(project.root_levels_view() == root);
    assert(project.worlds_view() == worlds);
    assert forall|k: int, selection: LevelSelection|
        0 <= k < all.len() && #[trigger] selection.matches_level(entries[k].0, all[k]) implies level_by_selection(root, worlds, project.level_metadata_view(), selection)
        == Some(all[k]) by {
        assert(entries[k].1 == all[k]);
        match selection {
            LevelSelection::Iid(iid) => {
                assert(level_by_iid(root, worlds, project.level_metadata_view(), all[k].iid@)
                    == Some(all[k]));
            },
            LevelSelection::Indices(indices) => {},
            LevelSelection::Identifier(identifier) => {
                let pred = has_identifier(identifier@);
                assert forall|j: int| 0 <= j < all.len() && j != k implies !pred(
                    #[trigger] all[j],
                ) by {
                    if j < k {
                        assert(all[j].identifier@ != all[k].identifier@);
                    } else {
                        assert(all[k].identifier@ != all[j].identifier@);
                    }
                }
                lemma_first_level_where_unique(all, pred, k);
            },
            LevelSelection::Uid(uid) => {
                let pred = has_uid(uid);
                assert forall|j: int| 0 <= j < all.len() && j != k implies !pred(
                    #[trigger] all[j],
                ) by {
                    if j < k {
                        assert(all[j].uid != all[k].uid);
                    } else {
                        assert(all[k].uid != all[j].uid);
                    }
                }
                lemma_first_level_where_unique(all, pred, k);
            },
        }
    }
}

/// In an external-levels project loaded from json data whose levels have distinct iids,
/// looking up the iid of any of its levels among loaded external levels gives the level loaded
/// from that level's external file, if that file is loaded.
pub proof fn lemma_loaded_parent_finds_external_levels(
    dir: Seq<char>,
    data: LdtkJson,
    project: LdtkProject,
    assets: Map<Seq<char>, LdtkExternalLevel>,
)
    requires
        loaded_project_from(dir, data, Ok(project)),
        data.external_levels,
        iids_distinct(raw_levels(data.levels@, data.worlds@)),
    ensures
        project.spec_data() is Parent,
        forall|k: int|
            0 <= k < raw_levels(data.levels@, data.worlds@).len() ==> external_level_by_iid(
                project.spec_data()->Parent_0.spec_level_map(),
                assets,
                (#[trigger] raw_levels(data.levels@, data.worlds@)[k]).iid@,
            ) == match assets.get(
                asset_path_in(dir, raw_levels(data.levels@, data.worlds@)[k].external_rel_path->0@),
            ) {
                Some(external) => Some(external.spec_data()),
                None => None,
            },
{
    broadcast use ExternalLevelMetadata::lemma_view_external_handle;

    let root = data.levels@;
    let worlds = data.worlds@;
    let all = raw_levels(root, worlds);
    let entries = raw_levels_with_indices(root, worlds);
    lemma_indexed_levels(root, worlds);
    assert forall|i: int, j: int| 0 <= i < j < entries.len() implies (#[trigger] entries[i]).1.iid@
        != (#[trigger] entries[j]).1.iid@ by {
        assert(entries[i].1 == all[i] && entries[j].1 == all[j]);
    }
    lemma_external_level_map_binds(dir, entries);
    let parent = project.spec_data()->Parent_0;
    assert forall|k: int| 0 <= k < all.len() implies external_level_by_iid(
        parent.spec_level_map(),
        assets,
        (#[trigger] all[k]).iid@,
    ) == match assets.get(asset_path_in(dir, all[k].external_rel_path->0@)) {
        Some(external) => Some(external.spec_data()),
        None => None,
    } by {
        assert(entries[k].1 == all[k]);
        let views = parent.spec_level_map().map_values(|v: ExternalLevelMetadata| v@);
        assert(views.contains_key(all[k].iid@));
        let m = parent.spec_level_map()[all[k].iid@];
        assert(views[all[k].iid@] == m@);
        assert(m@ == external_level_map(dir, entries)[entries[k].1.iid@]);
        assert(m@.1 == asset_path_in(dir, all[k].external_rel_path->0@));
        assert(m.spec_external_handle() == asset_path_in(dir, all[k].external_rel_path->0@));
    }
}

/// Every iid that the external level map binds is the iid of one of its levels.
proof fn lemma_external_level_map_keys(dir: Seq<char>, entries: Seq<(LevelIndices, Level)>)
    ensures
        forall|key: Seq<char>|
            #[trigger] external_level_map(dir, entries).contains_key(key) ==> exists|k: int|
                0 <= k < entries.len() && (#[trigger] entries[k]).1.iid@ == key,
    decreases entries.len(),
{
    if entries.len() > 0 {
        let rest = entries.drop_last();
        lemma_external_level_map_keys(dir, rest);
        assert forall|key: Seq<char>| #[trigger]
            external_level_map(dir, entries).contains_key(key) implies exists|k: int|
            0 <= k < entries.len() && (#[trigger] entries[k]).1.iid@ == key by {
            if key == entries.last().1.iid@ {
                assert(entries[entries.len() - 1].1.iid@ == key);
            } else {
                assert(external_level_map(dir, rest).contains_key(key));
                let k = choose|k: int| 0 <= k < rest.len() && (#[trigger] rest[k]).1.iid@ == key;
                assert(entries[k] == rest[k]);
            }
        }
    }
}

/// In an external-levels project loaded from json data whose levels have distinct iids,
/// finding an external level by a level selection is finding the level that the selection
/// selects and then looking up that level's iid among the loaded external levels: the level
/// map binds no iid but those of the project's levels.
pub proof fn lemma_loaded_parent_selects_external_levels(
    dir: Seq<char>,
    data: LdtkJson,
    project: LdtkProject,
    assets: Map<Seq<char>, LdtkExternalLevel>,
)
    requires
        loaded_project_from(dir, data, Ok(project)),
        data.external_levels,
        iids_distinct(raw_levels(data.levels@, data.worlds@)),
    ensures
        project.spec_data() is Parent,
        forall|selection: LevelSelection|
            #![trigger level_by_selection(
                project.spec_data()->Parent_0.root_levels_view(),
                project.spec_data()->Parent_0.worlds_view(),
                project.spec_data()->Parent_0.level_metadata_view(),
                selection,
            )]
            ({
                let parent = project.spec_data()->Parent_0;
                let selected = level_by_selection(
                    parent.root_levels_view(),
                    parent.worlds_view(),
                    parent.level_metadata_view(),
                    selection,
                );
                (match selection {
                    LevelSelection::Iid(iid) => external_level_by_iid(
                        parent.spec_level_map(),
                        assets,
                        iid@,
                    ),
                    _ => match selected {
                        Some(raw) => external_level_by_iid(parent.spec_level_map(), assets, raw.iid@),
                        None => None,
                    },
                }) == match selected {
                    Some(raw) => external_level_by_iid(parent.spec_level_map(), assets, raw.iid@),
                    None => None,
                }
            }),
{
    broadcast use ExternalLevelMetadata::lemma_view_metadata;

    let root = data.levels@;
    let worlds = data.worlds@;
    let all = raw_levels(root, worlds);
    let entries = raw_levels_with_indices(root, worlds);
    lemma_indexed_levels(root, worlds);
    lemma_loaded_project_finds_levels_by_iid(dir, data, project);
    lemma_external_level_map_keys(dir, entries);
    let parent = project.spec_data()->Parent_0;
    assert(parent.root_levels_view() == root);
    assert(parent.worlds_view() == worlds);
    assert(parent.level_metadata_view() == project.level_metadata_view());
    let views = parent.spec_level_map().map_values(|v: ExternalLevelMetadata| v@);
    assert forall|selection: LevelSelection|
        #![trigger level_by_selection(root, worlds, parent.level_metadata_view(), selection)]
        (match selection {
            LevelSelection::Iid(iid) => external_level_by_iid(parent.spec_level_map(), assets, iid@),
            _ => match level_by_selection(root, worlds, parent.level_metadata_view(), selection) {
                Some(raw) => external_level_by_iid(parent.spec_level_map(), assets, raw.iid@),
                None => None,
            },
        }) == match level_by_selection(root, worlds, parent.level_metadata_view(), selection) {
            Some(raw) => external_level_by_iid(parent.spec_level_map(), assets, raw.iid@),
            None => None,
        } by {
        match selection {
            LevelSelection::Iid(iid) => {
                let key = iid@;
                if parent.spec_level_map().contains_key(key) {
                    assert(views.contains_key(key));
                    assert(external_level_map(dir, entries).contains_key(key));
                    let k = choose|k: int| 0 <= k < entries.len() && (#[trigger] entries[k]).1.iid@
                        == key;
                    assert(entries[k].1 == all[k]);
                    assert(level_by_iid(root, worlds, project.level_metadata_view(), all[k].iid@)
                        == Some(all[k]));
                } else {
                    assert(!parent.level_metadata_view().contains_key(key));
                }
            },
            _ => {},
        }
    }
}

} // verus!
