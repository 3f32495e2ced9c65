use vstd::prelude::*;

use crate::assets::LevelIndices;

verus! {

/// Metadata produced for every level during [`LdtkProject`] loading.
///
/// The background image is identified by the asset path it is loaded from.
///
/// [`LdtkProject`]: crate::assets::LdtkProject
#[derive(Clone, Debug, Default, Eq, PartialEq)]
pub struct LevelMetadata {
    /// Asset path of the background image of this level, if it has one.
    bg_image: Option<String>,
    /// Indices of this level in the project.
    indices: LevelIndices,
}

impl View for LevelMetadata {
    /// The asset path of the background image, if any, and the level's indices.
    type V = (Option<Seq<char>>, LevelIndices);

    closed spec fn view(&self) -> (Option<Seq<char>>, LevelIndices) {
        (self.bg_image.deep_view(), self.indices)
    }
}

impl LevelMetadata {

    /// The indices of this level in the project.
    pub closed spec fn spec_indices(self) -> LevelIndices {
        self.indices
    }

    /// The indices in the view are the level's indices.
    pub broadcast proof fn lemma_view_indices(self)
        ensures
            #[trigger] self@.1 == self.spec_indices(),
    {
    }

    /// Construct a new [`LevelMetadata`].
    pub fn new(bg_image: Option<String>, indices: LevelIndices) -> (metadata: Self)
        ensures
            metadata@ == (bg_image.deep_view(), indices),
            metadata.spec_indices() == indices,
    {
        LevelMetadata { bg_image, indices }
    }

    /// Asset path of the background image of this level, if it has one.
    pub fn bg_image(&self) -> (bg_image: &Option<String>)
        ensures
            bg_image.deep_view() == self@.0,
    {
        &self.bg_image
    }

    /// Indices of this level in the project.
    pub fn indices(&self) -> (indices: &LevelIndices)
        ensures
            *indices == self.spec_indices(),
    {
        &self.indices
    }
}

/// Metadata produced for every level during [`LdtkProject`] loading for external-levels
/// projects.
///
/// The external level's asset is identified by the asset path it is loaded from.
///
/// [`LdtkProject`]: crate::assets::LdtkProject
#[derive(Clone, Debug, Default, Eq, PartialEq)]
pub struct ExternalLevelMetadata {
    /// Common metadata for this level.
    metadata: LevelMetadata,
    /// Asset path of this external level's asset data.
    external_handle: String,
}

impl View for ExternalLevelMetadata {
    /// The common metadata's view and the asset path of the external level.
    type V = ((Option<Seq<char>>, LevelIndices), Seq<char>);

    closed spec fn view(&self) -> ((Option<Seq<char>>, LevelIndices), Seq<char>) {
        (self.metadata@, self.external_handle@)
    }
}

impl ExternalLevelMetadata {
    /// Common metadata for this level.
    pub closed spec fn spec_metadata(self) -> LevelMetadata {
        self.metadata
    }

    /// Asset path of this external level's asset data.
    pub closed spec fn spec_external_handle(self) -> Seq<char> {
        self.external_handle@
    }

    /// The common metadata in the view is the level's common metadata.
    pub broadcast proof fn lemma_view_metadata(self)
        ensures
            #[trigger] self@.0 == self.spec_metadata()@,
    {
    }

    /// The asset path in the view is the external level's asset path.
    pub broadcast proof fn lemma_view_external_handle(self)
        ensures
            #[trigger] self@.1 == self.spec_external_handle(),
    {
    }

    /// Construct a new [`ExternalLevelMetadata`].
    pub fn new(metadata: LevelMetadata, external_handle: String) -> (external: Self)
        ensures
            external.spec_metadata() == metadata,
            external.spec_external_handle() == external_handle@,
            external@ == (metadata@, external_handle@),
    {
        ExternalLevelMetadata { metadata, external_handle }
    }

    /// Common metadata for this level.
    pub fn metadata(&self) -> (metadata: &LevelMetadata)
        ensures
            *metadata == self.spec_metadata(),
    {
        &self.metadata
    }

    /// Asset path of this external level's asset data.
    pub fn external_handle(&self) -> (external_handle: &String)
        ensures
            external_handle@ == self.spec_external_handle(),
    {
        &self.external_handle
    }
}

} // verus!
