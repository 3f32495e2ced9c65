use vstd::prelude::*;

use crate::assets::{ExternalLevelMetadata, LevelMetadata};

verus! {

/// Trait for marker types describing the location of levels.
///
/// Used as a trait bound to parameterize [`LdtkJsonWithMetadata`].
/// Also provides an associated type defining the level metadata type for the locale.
///
/// Only implemented by [`InternalLevels`] and [`ExternalLevels`].
///
/// [`LdtkJsonWithMetadata`]: crate::assets::LdtkJsonWithMetadata
pub trait LevelLocale {
    /// Level metadata type used for this locale.
    type Metadata;

    /// Whether projects of this locale store complete level data in the project itself.
    spec fn stores_loaded_levels() -> bool;
}

/// Marker type for indicating an internal-levels LDtk project.
#[derive(Copy, Clone, Debug, Default, PartialEq, Eq)]
pub struct InternalLevels;

impl LevelLocale for InternalLevels {
    type Metadata = LevelMetadata;

    open spec fn stores_loaded_levels() -> bool {
        true
    }
}

/// Marker type for indicating an external-levels LDtk projects.
#[derive(Copy, Clone, Debug, Default, PartialEq, Eq)]
pub struct ExternalLevels;

impl LevelLocale for ExternalLevels {
    type Metadata = ExternalLevelMetadata;

    open spec fn stores_loaded_levels() -> bool {
        false
    }
}

} // verus!
