use vstd::prelude::*;

use crate::assets::level_metadata_accessor::{
    first_level_where, level_by_iid, level_by_selection, LevelMetadataAccessor,
};
use crate::assets::{
    ExternalLevelAssets, ExternalLevelMetadata, ExternalLevels, InternalLevels, LdtkExternalLevel,
    LevelIndices, LevelLocale, LevelMetadata,
};
use crate::ldtk::loaded_level::{
    all_levels_loaded, level_is_loaded, loaded_levels_are, loaded_option_is, LoadedLevel,
};
use crate::ldtk::raw_level_accessor::{
    level_at_indices, raw_levels, world_levels, RawLevelAccessor,
};
use crate::ldtk::{LdtkJson, Level, World};
use crate::refs::{points_to_each, points_to_option};
use crate::resources::LevelSelection;
use crate::string_map::StrMap;

verus! {

/// Every root level and every world level holds complete level data.
pub open spec fn project_levels_loaded(root: Seq<Level>, worlds: Seq<World>) -> bool {
    &&& all_levels_loaded(root)
    &&& forall|w: int, j: int|
        0 <= w < worlds.len() && 0 <= j < worlds[w].levels@.len() ==> level_is_loaded(
            #[trigger] worlds[w].levels@[j],
        )
}

/// The levels of worlds whose levels are all loaded are all loaded.
pub proof fn lemma_world_levels_loaded(worlds: Seq<World>)
    requires
        forall|w: int, j: int|
            0 <= w < worlds.len() && 0 <= j < worlds[w].levels@.len() ==> level_is_loaded(
                #[trigger] worlds[w].levels@[j],
            ),
    ensures
        all_levels_loaded(world_levels(worlds)),
    decreases worlds.len(),
{
    if worlds.len() > 0 {
        let rest = worlds.drop_last();
        assert forall|w: int, j: int|
            0 <= w < rest.len() && 0 <= j < rest[w].levels@.len() implies level_is_loaded(
            #[trigger] rest[w].levels@[j],
        ) by {
            assert(rest[w] == worlds[w]);
        }
        lemma_world_levels_loaded(rest);
        let last = worlds.last().levels@;
        assert forall|i: int| 0 <= i < world_levels(worlds).len() implies level_is_loaded(
            #[trigger] world_levels(worlds)[i],
        ) by {
            if i >= world_levels(rest).len() {
                assert(world_levels(worlds)[i] == last[i - world_levels(rest).len()]);
                assert(worlds[worlds.len() - 1].levels@[i - world_levels(rest).len()] == last[i
                    - world_levels(rest).len()]);
            }
        }
    }
}

/// In a project whose levels are all loaded, every level that indices point to is loaded,
/// and so is every level of the project.
pub proof fn lemma_project_levels_loaded(root: Seq<Level>, worlds: Seq<World>)
    requires
        project_levels_loaded(root, worlds),
    ensures
        all_levels_loaded(raw_levels(root, worlds)),
        forall|indices: LevelIndices| #[trigger]
            level_at_indices(root, worlds, indices) matches Some(l) ==> level_is_loaded(l),
{
    lemma_world_levels_loaded(worlds);
    let all = raw_levels(root, worlds);
    assert forall|i: int| 0 <= i < all.len() implies level_is_loaded(#[trigger] all[i]) by {
        if i < root.len() {
            assert(all[i] == root[i]);
        } else {
            assert(all[i] == world_levels(worlds)[i - root.len()]);
        }
    }
}

/// Whatever `first_level_where` finds among loaded levels is loaded.
pub proof fn lemma_first_level_where_loaded(levels: Seq<Level>, pred: spec_fn(Level) -> bool)
    requires
        all_levels_loaded(levels),
    ensures
        first_level_where(levels, pred) matches Some(l) ==> level_is_loaded(l),
    decreases levels.len(),
{
    if levels.len() > 0 {
        assert(level_is_loaded(levels[0]));
        let rest = levels.drop_first();
        assert forall|i: int| 0 <= i < rest.len() implies level_is_loaded(#[trigger] rest[i]) by {
            assert(rest[i] == levels[i + 1]);
        }
        lemma_first_level_where_loaded(rest, pred);
    }
}

/// The external level that the metadata of `iid` refers to, if it is loaded.
pub open spec fn external_level_by_iid(
    level_map: Map<Seq<char>, ExternalLevelMetadata>,
    assets: Map<Seq<char>, LdtkExternalLevel>,
    iid: Seq<char>,
) -> Option<Level> {
    match level_map.get(iid) {
        Some(metadata) => match assets.get(metadata.spec_external_handle()) {
            Some(external) => Some(external.spec_data()),
            None => None,
        },
        None => None,
    }
}

/// The loaded external levels of `levels`, in order, skipping those not loaded.
pub open spec fn external_levels_of(
    levels: Seq<Level>,
    level_map: Map<Seq<char>, ExternalLevelMetadata>,
    assets: Map<Seq<char>, LdtkExternalLevel>,
) -> Seq<Level>
    decreases levels.len(),
{
    if levels.len() == 0 {
        Seq::empty()
    } else {
        let rest = external_levels_of(levels.drop_last(), level_map, assets);
        match external_level_by_iid(level_map, assets, levels.last().iid@) {
            Some(level) => rest.push(level),
            None => rest,
        }
    }
}

/// LDtk json data and level metadata produced when loading an [`LdtkProject`] asset.
///
/// Generic over a level-locale marker type, `L`: [`InternalLevels`] or [`ExternalLevels`].
/// For internal-levels projects, every level holds complete level data.
///
/// [`LdtkProject`]: crate::assets::LdtkProject
#[derive(Debug, PartialEq)]
pub struct LdtkJsonWithMetadata<L: LevelLocale> {
    /// Raw ldtk json data.
    json_data: LdtkJson,
    /// Map from level iids to level metadata.
    level_map: StrMap<L::Metadata>,
}

impl<L: LevelLocale> LdtkJsonWithMetadata<L> {
    #[verifier::type_invariant]
    spec fn internal_levels_loaded(self) -> bool {
        L::stores_loaded_levels() ==> project_levels_loaded(
            self.json_data.levels@,
            self.json_data.worlds@,
        )
    }

    /// Raw ldtk json data.
    pub closed spec fn spec_json_data(self) -> LdtkJson {
        self.json_data
    }

    /// Map from level iids to level metadata.
    pub closed spec fn spec_level_map(self) -> Map<Seq<char>, L::Metadata> {
        self.level_map@
    }

    /// Construct a new [`LdtkJsonWithMetadata`].
    ///
    /// For internal-levels projects, every level must hold complete level data.
    pub(crate) fn new(json_data: LdtkJson, level_map: StrMap<L::Metadata>) -> (project: Self)
        requires
            L::stores_loaded_levels() ==> project_levels_loaded(
                json_data.levels@,
                json_data.worlds@,
            ),
        ensures
            project.spec_json_data() == json_data,
            project.spec_level_map() == level_map@,
    {
        LdtkJsonWithMetadata { json_data, level_map }
    }

    /// Raw ldtk json data.
    pub fn json_data(&self) -> (json_data: &LdtkJson)
        ensures
            *json_data == self.spec_json_data(),
    {
        &self.json_data
    }

    /// Map from level iids to level metadata.
    pub fn level_map(&self) -> (level_map: &StrMap<L::Metadata>)
        ensures
            level_map@ == self.spec_level_map(),
    {
        &self.level_map
    }
}

impl<L: LevelLocale> RawLevelAccessor for LdtkJsonWithMetadata<L> {
    open spec fn root_levels_view(&self) -> Seq<Level> {
        self.spec_json_data().levels@
    }

    open spec fn worlds_view(&self) -> Seq<World> {
        self.spec_json_data().worlds@
    }

    fn root_levels(&self) -> (levels: &[Level]) {
        self.json_data.levels.as_slice()
    }

    fn worlds(&self) -> (worlds: &[World]) {
        self.json_data.worlds.as_slice()
    }
}

impl LevelMetadataAccessor for LdtkJsonWithMetadata<InternalLevels> {
    open spec fn level_metadata_view(&self) -> Map<Seq<char>, LevelMetadata> {
        self.spec_level_map()
    }

    fn get_level_metadata_by_iid(&self, iid: &String) -> (metadata: Option<&LevelMetadata>) {
        self.level_map.get(iid)
    }
}

/// View a level that is known to hold complete level data as a [`LoadedLevel`].
fn expect_level_loaded(level: &Level) -> (loaded: LoadedLevel<'_>)
    requires
        level_is_loaded(*level),
    ensures
        loaded.spec_raw() == *level,
{
    match LoadedLevel::try_from_level(level) {
        Ok(loaded) => loaded,
        Err(_) => vstd::pervasive::unreached(),
    }
}

/// View an optional level that is loaded if present as an optional [`LoadedLevel`].
fn expect_option_loaded<'a>(level: Option<&'a Level>, spec_level: Ghost<Option<Level>>) -> (loaded:
    Option<LoadedLevel<'a>>)
    requires
        points_to_option(level, spec_level@),
        spec_level@ matches Some(l) ==> level_is_loaded(l),
    ensures
        loaded_option_is(loaded, spec_level@),
{
    match level {
        Some(level) => Some(expect_level_loaded(level)),
        None => None,
    }
}

impl LdtkJsonWithMetadata<InternalLevels> {
    /// Iterate through this project's loaded levels: root levels first, then world levels.
    pub fn iter_loaded_levels(&self) -> (levels: Vec<LoadedLevel<'_>>)
        ensures
            loaded_levels_are(levels@, raw_levels(self.root_levels_view(), self.worlds_view())),
    {
        proof {
            use_type_invariant(self);
            lemma_project_levels_loaded(self.root_levels_view(), self.worlds_view());
        }
        let raw = self.iter_raw_levels();
        let ghost all = raw_levels(self.root_levels_view(), self.worlds_view());
        let mut levels: Vec<LoadedLevel<'_>> = Vec::new();
        let mut i: usize = 0;
        while i < raw.len()
            invariant
                i <= raw@.len(),
                points_to_each(raw@, all),
                all_levels_loaded(all),
                loaded_levels_are(levels@, all.take(i as int)),
            decreases raw@.len() - i,
        {
            assert(level_is_loaded(all[i as int]));
            levels.push(expect_level_loaded(raw[i]));
            i = i + 1;
        }
        assert(all.take(all.len() as int) =~= all);
        levels
    }

    /// Immutable access to a loaded level at the given [`LevelIndices`].
    pub fn get_loaded_level_at_indices(&self, indices: &LevelIndices) -> (level: Option<
        LoadedLevel<'_>,
    >)
        ensures
            loaded_option_is(
                level,
                level_at_indices(self.root_levels_view(), self.worlds_view(), *indices),
            ),
    {
        proof {
            use_type_invariant(self);
            lemma_project_levels_loaded(self.root_levels_view(), self.worlds_view());
        }
        let raw = self.get_raw_level_at_indices(indices);
        expect_option_loaded(
            raw,
            Ghost(level_at_indices(self.root_levels_view(), self.worlds_view(), *indices)),
        )
    }

    /// Returns the loaded level corresponding to the given level iid.
    pub fn get_loaded_level_by_iid(&self, iid: &String) -> (level: Option<LoadedLevel<'_>>)
        ensures
            loaded_option_is(
                level,
                level_by_iid(
                    self.root_levels_view(),
                    self.worlds_view(),
                    self.level_metadata_view(),
                    iid@,
                ),
            ),
    {
        proof {
            use_type_invariant(self);
            lemma_project_levels_loaded(self.root_levels_view(), self.worlds_view());
        }
        let raw = self.get_raw_level_by_iid(iid);
        expect_option_loaded(
            raw,
            Ghost(
                level_by_iid(
                    self.root_levels_view(),
                    self.worlds_view(),
                    self.level_metadata_view(),
                    iid@,
                ),
            ),
        )
    }

    /// Find the loaded level matching the given [`LevelSelection`].
    pub fn find_loaded_level_by_level_selection(&self, level_selection: &LevelSelection) -> (level:
        Option<LoadedLevel<'_>>)
        ensures
            loaded_option_is(
                level,
                level_by_selection(
                    self.root_levels_view(),
                    self.worlds_view(),
                    self.level_metadata_view(),
                    *level_selection,
                ),
            ),
    {
        let ghost root = self.root_levels_view();
        let ghost worlds = self.worlds_view();
        proof {
            use_type_invariant(self);
            lemma_project_levels_loaded(root, worlds);
            match level_selection {
                LevelSelection::Identifier(s) => {
                    lemma_first_level_where_loaded(
                        raw_levels(root, worlds),
                        crate::assets::level_metadata_accessor::has_identifier(s@),
                    );
                },
                LevelSelection::Uid(u) => {
                    lemma_first_level_where_loaded(
                        raw_levels(root, worlds),
                        crate::assets::level_metadata_accessor::has_uid(*u),
                    );
                },
                _ => {},
            }
        }
        let raw = self.find_raw_level_by_level_selection(level_selection);
        expect_option_loaded(
            raw,
            Ghost(level_by_selection(root, worlds, self.level_metadata_view(), *level_selection)),
        )
    }
}

impl LevelMetadataAccessor for LdtkJsonWithMetadata<ExternalLevels> {
    open spec fn level_metadata_view(&self) -> Map<Seq<char>, LevelMetadata> {
        self.spec_level_map().map_values(|m: ExternalLevelMetadata| m.spec_metadata())
    }

    fn get_level_metadata_by_iid(&self, iid: &String) -> (metadata: Option<&LevelMetadata>) {
        match self.level_map.get(iid) {
            Some(external) => Some(external.metadata()),
            None => None,
        }
    }
}

impl LdtkJsonWithMetadata<ExternalLevels> {
    /// Iterate through this project's loaded external levels: for each level, root levels
    /// first, the external level asset its metadata refers to, if that asset is loaded.
    pub fn iter_external_levels<'a>(&'a self, external_level_assets: &'a ExternalLevelAssets) -> (levels:
        Vec<LoadedLevel<'a>>)
        ensures
            loaded_levels_are(
                levels@,
                external_levels_of(
                    raw_levels(self.root_levels_view(), self.worlds_view()),
                    self.spec_level_map(),
                    external_level_assets.spec_levels(),
                ),
            ),
    {
        let raw = self.iter_raw_levels();
        let ghost all = raw_levels(self.root_levels_view(), self.worlds_view());
        let mut levels: Vec<LoadedLevel<'a>> = Vec::new();
        let mut i: usize = 0;
        while i < raw.len()
            invariant
                i <= raw@.len(),
                points_to_each(raw@, all),
                loaded_levels_are(
                    levels@,
                    external_levels_of(
                        all.take(i as int),
                        self.spec_level_map(),
                        external_level_assets.spec_levels(),
                    ),
                ),
            decreases raw@.len() - i,
        {
            assert(all.take(i + 1).drop_last() =~= all.take(i as int));
            let found = self.get_external_level_by_iid(external_level_assets, &raw[i].iid);
            match found {
                Some(level) => levels.push(level),
                None => {},
            }
            i = i + 1;
        }
        assert(all.take(all.len() as int) =~= all);
        levels
    }

    /// Immutable access to the loaded external level at the given [`LevelIndices`].
    pub fn get_external_level_at_indices<'a>(
        &'a self,
        external_level_assets: &'a ExternalLevelAssets,
        indices: &LevelIndices,
    ) -> (level: Option<LoadedLevel<'a>>)
        ensures
            loaded_option_is(
                level,
                match level_at_indices(self.root_levels_view(), self.worlds_view(), *indices) {
                    Some(raw) => external_level_by_iid(
                        self.spec_level_map(),
                        external_level_assets.spec_levels(),
                        raw.iid@,
                    ),
                    None => None,
                },
            ),
    {
        match self.get_raw_level_at_indices(indices) {
            Some(raw) => self.get_external_level_by_iid(external_level_assets, &raw.iid),
            None => None,
        }
    }

    /// Returns the loaded external level corresponding to the given level iid.
    pub fn get_external_level_by_iid<'a>(
        &'a self,
        external_level_assets: &'a ExternalLevelAssets,
        iid: &String,
    ) -> (level: Option<LoadedLevel<'a>>)
        ensures
            loaded_option_is(
                level,
                external_level_by_iid(
                    self.spec_level_map(),
                    external_level_assets.spec_levels(),
                    iid@,
                ),
            ),
    {
        match self.level_map.get(iid) {
            Some(metadata) => match external_level_assets.get(metadata.external_handle()) {
                Some(external) => Some(external.data()),
                None => None,
            },
            None => None,
        }
    }

    /// Find the loaded external level matching the given [`LevelSelection`].
    ///
    /// Iids are looked up in the level map directly; other selections first find the level
    /// they select.
    pub fn find_external_level_by_level_selection<'a>(
        &'a self,
        external_level_assets: &'a ExternalLevelAssets,
        level_selection: &LevelSelection,
    ) -> (level: Option<LoadedLevel<'a>>)
        ensures
            loaded_option_is(
                level,
                match *level_selection {
                    LevelSelection::Iid(iid) => external_level_by_iid(
                        self.spec_level_map(),
                        external_level_assets.spec_levels(),
                        iid@,
                    ),
                    _ => match level_by_selection(
                        self.root_levels_view(),
                        self.worlds_view(),
                        self.level_metadata_view(),
                        *level_selection,
                    ) {
                        Some(raw) => external_level_by_iid(
                            self.spec_level_map(),
                            external_level_assets.spec_levels(),
                            raw.iid@,
                        ),
                        None => None,
                    },
                },
            ),
    {
        match level_selection {
            LevelSelection::Iid(iid) => {
                self.get_external_level_by_iid(external_level_assets, iid.get())
            },
            LevelSelection::Indices(indices) => {
                self.get_external_level_at_indices(external_level_assets, indices)
            },
            _ => match self.find_raw_level_by_level_selection(level_selection) {
                Some(raw) => self.get_external_level_by_iid(external_level_assets, &raw.iid),
                None => None,
            },
        }
    }
}

} // verus!
