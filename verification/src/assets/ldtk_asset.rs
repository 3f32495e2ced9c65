//! [`LdtkAsset`]: a loaded LDtk project with its tileset map, level map and entity index.
use vstd::prelude::*;

use std::collections::HashMap;

use crate::assets::entity_index::{
    build_entity_index, entity_at, entity_index_of, find_entity_instance, EntityIndexes,
};
use crate::assets::ldtk_project::{asset_path_in, asset_path_in_dir, load_tileset_map, tileset_paths};
use crate::assets::LevelIndices;
use crate::components::EntityIid;
use crate::ldtk::impl_definitions::{int_grid_image_size, IntGridImage};
use crate::ldtk::raw_level_accessor::{indexed_refs_match, raw_levels, raw_levels_with_indices};
use crate::ldtk::{EntityInstance, LdtkJson, Level};
use crate::refs::{points_to_each, points_to_option};
use crate::resources::LevelSelection;
use crate::string_map::StrMap;

verus! {

broadcast use vstd::std_specs::hash::group_hash_axioms;

/// Where the data of a level of an [`LdtkAsset`] comes from.
#[derive(Clone, Debug, PartialEq, Eq)]
pub enum LevelAsset {
    /// The level's own file, by asset path (projects with external levels).
    External(String),
    /// A labeled asset of the project file, labeled with the level's identifier, with the
    /// asset path of the level's background image.
    Labeled { label: String, background_image: Option<String> },
}

/// `asset` is where loading the project in `dir` takes the data of `level` from.
pub open spec fn level_asset_for(
    dir: Seq<char>,
    asset: LevelAsset,
    level: Level,
    external_levels: bool,
) -> bool {
    match asset {
        LevelAsset::External(path) => external_levels && match level.external_rel_path {
            Some(rel) => path@ == asset_path_in(dir, rel@),
            None => false,
        },
        LevelAsset::Labeled { label, background_image } => !external_levels && label@
            == level.identifier@ && match (background_image, level.bg_rel_path) {
            (Some(path), Some(rel)) => path@ == asset_path_in(dir, rel@),
            (None, None) => true,
            _ => false,
        },
    }
}

/// The level that each level iid of `levels` stands for in the level map: the last level with
/// that iid that gets an asset; with external levels only levels with a path to their file
/// get one.
pub open spec fn asset_levels(levels: Seq<Level>, external_levels: bool) -> Map<Seq<char>, Level>
    decreases levels.len(),
{
    if levels.len() == 0 {
        Map::empty()
    } else {
        let before = asset_levels(levels.drop_last(), external_levels);
        let level = levels.last();
        if external_levels && level.external_rel_path is None {
            before
        } else {
            before.insert(level.iid@, level)
        }
    }
}

/// The level map holds an asset for exactly the iids of `levels`, each for its level.
pub open spec fn level_map_for(
    dir: Seq<char>,
    level_map: Map<Seq<char>, LevelAsset>,
    levels: Seq<Level>,
    external_levels: bool,
) -> bool {
    &&& level_map.dom() == asset_levels(levels, external_levels).dom()
    &&& forall|iid: Seq<char>| #[trigger]
        level_map.contains_key(iid) ==> level_asset_for(
            dir,
            level_map[iid],
            asset_levels(levels, external_levels)[iid],
            external_levels,
        )
}

/// The first level, going through `entries` in order, that `selection` matches.
pub open spec fn first_selected(entries: Seq<(LevelIndices, Level)>, selection: LevelSelection) -> Option<
    Level,
>
    decreases entries.len(),
{
    if entries.len() == 0 {
        None
    } else if selection.matches_level(entries[0].0, entries[0].1) {
        Some(entries[0].1)
    } else {
        first_selected(entries.drop_first(), selection)
    }
}

/// The height of the world: the lowest bottom edge of the levels, and at least zero.
pub open spec fn world_height_of(levels: Seq<Level>) -> int
    decreases levels.len(),
{
    if levels.len() == 0 {
        0
    } else {
        let before = world_height_of(levels.drop_last());
        let bottom = levels.last().world_y + levels.last().px_hei;
        if bottom > before {
            bottom
        } else {
            before
        }
    }
}

/// The level gets a level asset: with external levels only a level with a path to its file
/// does.
pub open spec fn gets_level_asset(level: Level, external_levels: bool) -> bool {
    !(external_levels && level.external_rel_path is None)
}

/// The level map binds the iid of every level that gets an asset, and only those: each iid to
/// the last level with that iid that gets one.
pub proof fn lemma_level_map_binds_last_level(levels: Seq<Level>, external_levels: bool)
    ensures
        forall|i: int|
            0 <= i < levels.len() && gets_level_asset(levels[i], external_levels) ==> asset_levels(
                levels,
                external_levels,
            ).contains_key((#[trigger] levels[i]).iid@),
        forall|iid: Seq<char>| #[trigger]
            asset_levels(levels, external_levels).contains_key(iid) ==> exists|i: int|
                0 <= i < levels.len() && #[trigger] levels[i] == asset_levels(
                    levels,
                    external_levels,
                )[iid] && levels[i].iid@ == iid && gets_level_asset(levels[i], external_levels)
                    && forall|j: int|
                    i < j < levels.len() && levels[j].iid@ == iid ==> !gets_level_asset(
                        #[trigger] levels[j],
                        external_levels,
                    ),
    decreases levels.len(),
{
    if levels.len() > 0 {
        let rest = levels.drop_last();
        let n = levels.len() - 1;
        let last = levels.last();
        lemma_level_map_binds_last_level(rest, external_levels);
        let map = asset_levels(levels, external_levels);
        let before = asset_levels(rest, external_levels);
        assert(levels[n] == last);
        assert forall|i: int|
            0 <= i < levels.len() && gets_level_asset(levels[i], external_levels) implies map.contains_key(
            (#[trigger] levels[i]).iid@,
        ) by {
            if i < n {
                assert(levels[i] == rest[i]);
                assert(before.contains_key(rest[i].iid@));
            }
        }
        assert forall|iid: Seq<char>| #[trigger] map.contains_key(iid) implies exists|i: int|
            0 <= i < levels.len() && #[trigger] levels[i] == map[iid] && levels[i].iid@ == iid
                && gets_level_asset(levels[i], external_levels) && forall|j: int|
                i < j < levels.len() && levels[j].iid@ == iid ==> !gets_level_asset(
                    #[trigger] levels[j],
                    external_levels,
                ) by {
            if gets_level_asset(last, external_levels) && iid == last.iid@ {
                assert(levels[n] == map[iid]);
            } else {
                assert(before.contains_key(iid));
                let i = choose|i: int|
                    0 <= i < rest.len() && #[trigger] rest[i] == before[iid] && rest[i].iid@ == iid
                        && gets_level_asset(rest[i], external_levels) && forall|j: int|
                        i < j < rest.len() && rest[j].iid@ == iid ==> !gets_level_asset(
                            #[trigger] rest[j],
                            external_levels,
                        );
                assert(levels[i] == rest[i]);
                assert forall|j: int| i < j < levels.len() && levels[j].iid@ == iid implies !gets_level_asset(
                    #[trigger] levels[j],
                    external_levels,
                ) by {
                    if j < n {
                        assert(levels[j] == rest[j]);
                    }
                }
            }
        }
    }
}

/// `get_level` finds the first level that the selection matches: a level it finds is matched,
/// and comes before any other matched level; it finds none only when no level is matched.
pub proof fn lemma_first_selected_is_first_match(
    entries: Seq<(LevelIndices, Level)>,
    selection: LevelSelection,
)
    ensures
        match first_selected(entries, selection) {
            Some(level) => exists|i: int|
                0 <= i < entries.len() && #[trigger] entries[i].1 == level
                    && selection.matches_level(entries[i].0, entries[i].1) && forall|j: int|
                    0 <= j < i ==> !selection.matches_level(
                        (#[trigger] entries[j]).0,
                        entries[j].1,
                    ),
            None => forall|i: int|
                0 <= i < entries.len() ==> !selection.matches_level(
                    (#[trigger] entries[i]).0,
                    entries[i].1,
                ),
        },
    decreases entries.len(),
{
    if entries.len() > 0 && !selection.matches_level(entries[0].0, entries[0].1) {
        let rest = entries.drop_first();
        lemma_first_selected_is_first_match(rest, selection);
        match first_selected(rest, selection) {
            Some(level) => {
                let i = choose|i: int|
                    0 <= i < rest.len() && #[trigger] rest[i].1 == level
                        && selection.matches_level(rest[i].0, rest[i].1) && forall|j: int|
                        0 <= j < i ==> !selection.matches_level(
                            (#[trigger] rest[j]).0,
                            rest[j].1,
                        );
                assert(entries[i + 1] == rest[i]);
                assert forall|j: int| 0 <= j < i + 1 implies !selection.matches_level(
                    (#[trigger] entries[j]).0,
                    entries[j].1,
                ) by {
                    if j > 0 {
                        assert(entries[j] == rest[j - 1]);
                    }
                }
            },
            None => {
                assert forall|i: int| 0 <= i < entries.len() implies !selection.matches_level(
                    (#[trigger] entries[i]).0,
                    entries[i].1,
                ) by {
                    if i > 0 {
                        assert(entries[i] == rest[i - 1]);
                    }
                }
            },
        }
    } else if entries.len() > 0 {
        assert(entries[0].1 == entries[0].1);
    }
}

/// The world height is the lowest bottom edge among the levels, or zero if that is higher: it
/// is at least zero and at least the bottom edge (`world_y + px_hei`) of every level, and it is
/// zero or the bottom edge of some level.
pub proof fn lemma_world_height_is_lowest_bottom(levels: Seq<Level>)
    ensures
        world_height_of(levels) >= 0,
        forall|i: int|
            0 <= i < levels.len() ==> world_height_of(levels) >= (#[trigger] levels[i]).world_y
                + levels[i].px_hei,
        world_height_of(levels) == 0 || exists|i: int|
            0 <= i < levels.len() && world_height_of(levels) == (#[trigger] levels[i]).world_y
                + levels[i].px_hei,
    decreases levels.len(),
{
    if levels.len() > 0 {
        let rest = levels.drop_last();
        lemma_world_height_is_lowest_bottom(rest);
        assert forall|i: int| 0 <= i < levels.len() implies world_height_of(levels) >= (
        #[trigger] levels[i]).world_y + levels[i].px_hei by {
            if i < rest.len() {
                assert(levels[i] == rest[i]);
            }
        }
        let h = world_height_of(levels);
        if h != 0 {
            if h == levels.last().world_y + levels.last().px_hei {
                assert(levels[levels.len() - 1] == levels.last());
            } else {
                let i = choose|i: int|
                    0 <= i < rest.len() && world_height_of(rest) == (#[trigger] rest[i]).world_y
                        + rest[i].px_hei;
                assert(levels[i] == rest[i]);
            }
        }
    }
}

/// An LDtk project as loaded: its json data, the asset paths of its tilesets' images, where its
/// levels' data comes from, its entity index and the image for IntGrid colours.
pub struct LdtkAsset {
    pub project: LdtkJson,
    pub tileset_map: HashMap<i32, String>,
    pub level_map: StrMap<LevelAsset>,
    pub entity_index: StrMap<EntityIndexes>,
    pub int_grid_image_handle: Option<IntGridImage>,
}

/// Add the asset of one level to the level map.
fn add_level_asset(
    project_dir: &str,
    level_map: &mut StrMap<LevelAsset>,
    level: &Level,
    external_levels: bool,
)
    ensures
        external_levels && level.external_rel_path is None ==> final(level_map)@ == old(
            level_map,
        )@,
        !(external_levels && level.external_rel_path is None) ==> final(level_map)@.dom() == old(
            level_map,
        )@.dom().insert(level.iid@),
        !(external_levels && level.external_rel_path is None) ==> final(level_map)@
            == old(level_map)@.insert(level.iid@, final(level_map)@[level.iid@]),
        !(external_levels && level.external_rel_path is None) ==> level_asset_for(
            project_dir@,
            final(level_map)@[level.iid@],
            *level,
            external_levels,
        ),
{
    if external_levels {
        if let Some(rel_path) = &level.external_rel_path {
            let path = asset_path_in_dir(project_dir, rel_path.as_str());
            level_map.insert(level.iid.clone(), LevelAsset::External(path));
        }
    } else {
        let background_image = match &level.bg_rel_path {
            Some(rel_path) => Some(asset_path_in_dir(project_dir, rel_path.as_str())),
            None => None,
        };
        level_map.insert(
            level.iid.clone(),
            LevelAsset::Labeled { label: level.identifier.clone(), background_image },
        );
    }
}

impl LdtkAsset {
    /// Load a project from its json data, resolving asset paths against the project's
    /// directory.
    ///
    /// With external levels each level that has a path to its file is loaded from that file;
    /// otherwise each level is a labeled asset of the project file. The entity index covers
    /// the root levels of a project without worlds, else the levels of its worlds.
    pub fn load_from_dir(project_dir: &str, project: LdtkJson) -> (asset: LdtkAsset)
        ensures
            asset.project == project,
            asset.tileset_map@.map_values(|p: String| p@) == tileset_paths(
                project_dir@,
                project.defs.tilesets@,
            ),
            level_map_for(
                project_dir@,
                asset.level_map@,
                raw_levels(project.levels@, project.worlds@),
                project.external_levels,
            ),
            asset.entity_index@ == entity_index_of(project),
            match int_grid_image_size(project.defs.layers@) {
                Some(size) => asset.int_grid_image_handle matches Some(i) && i.width == size as u32
                    && i.height == size as u32 && i.pixel == [255u8, 255u8, 255u8, 255u8],
                None => asset.int_grid_image_handle is None,
            },
    {
        let levels = project.iter_levels();
        let ghost all = raw_levels(project.levels@, project.worlds@);
        let external_levels = project.external_levels;
        let mut level_map: StrMap<LevelAsset> = StrMap::new();
        let mut i: usize = 0;
        assert(all.take(0) =~= Seq::<Level>::empty());
        while i < levels.len()
            invariant
                i <= levels@.len(),
                points_to_each(levels@, all),
                external_levels == project.external_levels,
                level_map_for(project_dir@, level_map@, all.take(i as int), external_levels),
            decreases levels@.len() - i,
        {
            let level = levels[i];
            let ghost before = level_map@;
            let ghost prefix = all.take(i as int);
            add_level_asset(project_dir, &mut level_map, level, external_levels);
            proof {
                let next = all.take(i + 1);
                assert(next.drop_last() =~= prefix);
                assert(next.last() == *level);
                let spec_map = asset_levels(next, external_levels);
                if !(external_levels && level.external_rel_path is None) {
                    assert(level_map@.dom() =~= spec_map.dom());
                    assert forall|iid: Seq<char>| #[trigger]
                        level_map@.contains_key(iid) implies level_asset_for(
                        project_dir@,
                        level_map@[iid],
                        spec_map[iid],
                        external_levels,
                    ) by {
                        if iid != level.iid@ {
                            assert(before.contains_key(iid));
                        }
                    }
                }
            }
            i = i + 1;
        }
        assert(all.take(levels@.len() as int) =~= all);
        let tileset_map = load_tileset_map(project_dir, &project.defs.tilesets);
        let entity_index = build_entity_index(&project);
        let int_grid_image_handle = project.defs.create_int_grid_image();
        LdtkAsset { project, tileset_map, level_map, entity_index, int_grid_image_handle }
    }

    /// All levels of the project: the root levels, then the levels of each world.
    pub fn iter_levels(&self) -> (levels: Vec<&Level>)
        ensures
            points_to_each(levels@, raw_levels(self.project.levels@, self.project.worlds@)),
    {
        self.project.iter_levels()
    }

    /// The height of the world: the lowest bottom edge among the levels, and at least zero.
    pub fn world_height(&self) -> (world_height: i32)
        requires
            forall|i: int|
                0 <= i < raw_levels(self.project.levels@, self.project.worlds@).len()
                    ==> i32::MIN <= (#[trigger] raw_levels(
                    self.project.levels@,
                    self.project.worlds@,
                )[i]).world_y + raw_levels(self.project.levels@, self.project.worlds@)[i].px_hei
                    <= i32::MAX,
        ensures
            world_height == world_height_of(raw_levels(self.project.levels@, self.project.worlds@)),
    {
        let levels = self.iter_levels();
        let ghost all = raw_levels(self.project.levels@, self.project.worlds@);
        let mut world_height: i32 = 0;
        let mut i: usize = 0;
        while i < levels.len()
            invariant
                i <= levels@.len(),
                points_to_each(levels@, all),
                all == raw_levels(self.project.levels@, self.project.worlds@),
                forall|k: int|
                    0 <= k < all.len() ==> i32::MIN <= (#[trigger] all[k]).world_y + all[k].px_hei
                        <= i32::MAX,
                world_height == world_height_of(all.take(i as int)),
            decreases levels@.len() - i,
        {
            let level = levels[i];
            assert(all.take(i + 1).drop_last() =~= all.take(i as int));
            assert(all.take(i + 1).last() == all[i as int]);
            let bottom = level.world_y + level.px_hei;
            if bottom > world_height {
                world_height = bottom;
            }
            i = i + 1;
        }
        assert(all.take(levels@.len() as int) =~= all);
        world_height
    }

    /// The first level, root levels first, that the level selection matches.
    pub fn get_level(&self, level_selection: &LevelSelection) -> (level: Option<&Level>)
        ensures
            points_to_option(
                level,
                first_selected(
                    raw_levels_with_indices(self.project.levels@, self.project.worlds@),
                    *level_selection,
                ),
            ),
    {
        let entries = self.project.iter_levels_with_indices();
        let ghost all = raw_levels_with_indices(self.project.levels@, self.project.worlds@);
        let mut i: usize = 0;
        assert(all.skip(0) =~= all);
        while i < entries.len()
            invariant
                i <= entries@.len(),
                indexed_refs_match(entries@, all),
                all == raw_levels_with_indices(self.project.levels@, self.project.worlds@),
                first_selected(all, *level_selection) == first_selected(
                    all.skip(i as int),
                    *level_selection,
                ),
            decreases entries@.len() - i,
        {
            let (indices, level) = entries[i];
            assert(all.skip(i as int).drop_first() =~= all.skip(i + 1));
            assert(all.skip(i as int)[0] == all[i as int]);
            assert(indices == all[i as int].0 && *level == all[i as int].1);
            if level_selection.is_match(&indices, level) {
                assert(first_selected(all.skip(i as int), *level_selection) == Some(*level));
                return Some(level);
            }
            i = i + 1;
        }
        None
    }

    /// Find an entity instance of the project by its iid, through the entity index.
    pub fn get_entity_instance(&self, entity_iid: &EntityIid) -> (entity: Option<&EntityInstance>)
        ensures
            match self.entity_index@.get(entity_iid@) {
                Some(indexes) => points_to_option(entity, entity_at(self.project, indexes)),
                None => entity is None,
            },
    {
        find_entity_instance(&self.project, &self.entity_index, entity_iid)
    }
}

} // verus!
