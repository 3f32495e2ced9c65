//! Assets and related items for loading LDtk files.
pub mod entity_index;
pub use entity_index::{build_entity_index, find_entity_instance, EntityIndexes};
pub mod ldtk_parent_project;
pub use ldtk_parent_project::{LdtkParentProject, LdtkParentProjectLoaderError};
pub mod ldtk_asset;
pub use ldtk_asset::{LdtkAsset, LevelAsset};
pub mod ldtk_level;
pub use ldtk_level::LdtkLevel;
pub mod ldtk_json_with_metadata;
pub use ldtk_json_with_metadata::LdtkJsonWithMetadata;
pub mod ldtk_project;
pub use ldtk_project::{LdtkProject, LdtkProjectLoaderError};
mod ldtk_project_data;
pub use ldtk_project_data::LdtkProjectData;
mod ldtk_external_level;
pub use ldtk_external_level::{
    ExternalLevelAssets, LdtkExternalLevel, LdtkExternalLevelLoaderError,
};
mod level_indices;
pub use level_indices::LevelIndices;
mod level_locale;
pub use level_locale::{ExternalLevels, InternalLevels, LevelLocale};
mod level_metadata;
pub use level_metadata::{ExternalLevelMetadata, LevelMetadata};
pub mod level_metadata_accessor;
pub use level_metadata_accessor::LevelMetadataAccessor;

