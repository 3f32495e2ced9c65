use vstd::prelude::*;

use crate::assets::level_metadata_accessor::LevelMetadataAccessor;
use crate::assets::{ExternalLevels, InternalLevels, LdtkJsonWithMetadata, LevelMetadata};
use crate::ldtk::raw_level_accessor::RawLevelAccessor;
use crate::ldtk::{LdtkJson, Level, World};

verus! {

/// LDtk json data and level metadata for both internal- and external-level projects.
///
/// We need to abstract over these cases to allow them in the same asset type: [`LdtkProject`].
/// All methods that are available in both cases are available here.
///
/// [`LdtkProject`]: crate::assets::LdtkProject
#[derive(Debug, PartialEq)]
pub enum LdtkProjectData {
    /// LDtk data for a standalone project (uses internal levels).
    Standalone(LdtkJsonWithMetadata<InternalLevels>),
    /// LDtk data for a parent project (uses external levels).
    Parent(LdtkJsonWithMetadata<ExternalLevels>),
}

impl LdtkProjectData {
    /// The raw ldtk json data of either project kind.
    pub open spec fn spec_json_data(self) -> LdtkJson {
        match self {
            LdtkProjectData::Standalone(project) => project.spec_json_data(),
            LdtkProjectData::Parent(project) => project.spec_json_data(),
        }
    }

    /// Raw ldtk json data.
    pub fn json_data(&self) -> (json_data: &LdtkJson)
        ensures
            *json_data == self.spec_json_data(),
    {
        match self {
            LdtkProjectData::Standalone(project) => project.json_data(),
            LdtkProjectData::Parent(project) => project.json_data(),
        }
    }

    /// Unwrap as a [`LdtkJsonWithMetadata<InternalLevels>`], for internal-levels projects.
    pub fn as_standalone(&self) -> (project: &LdtkJsonWithMetadata<InternalLevels>)
        requires
            self is Standalone,
        ensures
            *project == self->Standalone_0,
    {
        match self {
            LdtkProjectData::Standalone(project) => project,
            LdtkProjectData::Parent(_) => vstd::pervasive::unreached(),
        }
    }

    /// Unwrap as a [`LdtkJsonWithMetadata<ExternalLevels>`], for external-levels projects.
    pub fn as_parent(&self) -> (project: &LdtkJsonWithMetadata<ExternalLevels>)
        requires
            self is Parent,
        ensures
            *project == self->Parent_0,
    {
        match self {
            LdtkProjectData::Parent(project) => project,
            LdtkProjectData::Standalone(_) => vstd::pervasive::unreached(),
        }
    }
}

impl RawLevelAccessor for LdtkProjectData {
    open spec fn root_levels_view(&self) -> Seq<Level> {
        self.spec_json_data().levels@
    }

    open spec fn worlds_view(&self) -> Seq<World> {
        self.spec_json_data().worlds@
    }

    fn root_levels(&self) -> (levels: &[Level]) {
        match self {
            LdtkProjectData::Standalone(project) => {
                assert(project.root_levels_view() == self.root_levels_view());
                project.root_levels()
            },
            LdtkProjectData::Parent(project) => {
                assert(project.root_levels_view() == self.root_levels_view());
                project.root_levels()
            },
        }
    }

    fn worlds(&self) -> (worlds: &[World]) {
        match self {
            LdtkProjectData::Standalone(project) => project.worlds(),
            LdtkProjectData::Parent(project) => project.worlds(),
        }
    }
}

impl LevelMetadataAccessor for LdtkProjectData {
    open spec fn level_metadata_view(&self) -> Map<Seq<char>, LevelMetadata> {
        match self {
            LdtkProjectData::Standalone(project) => project.level_metadata_view(),
            LdtkProjectData::Parent(project) => project.level_metadata_view(),
        }
    }

    fn get_level_metadata_by_iid(&self, iid: &String) -> (metadata: Option<&LevelMetadata>) {
        match self {
            LdtkProjectData::Standalone(project) => project.get_level_metadata_by_iid(iid),
            LdtkProjectData::Parent(project) => project.get_level_metadata_by_iid(iid),
        }
    }
}

} // verus!
