//! Contains [`LoadedLevel`] and related types/implementaions.
use vstd::prelude::*;

use crate::ldtk::{BgPos, FieldInstance, LayerInstance, Level, NeighbourLevel};

verus! {

/// Error for attempting to construct a [`LoadedLevel`] from a level whose layer instances are
/// null.
#[derive(Copy, Clone, Debug, PartialEq, Eq, Structural)]
pub struct LevelNotLoaded;

impl LevelNotLoaded {
    /// The error's message.
    pub fn message(&self) -> (message: &'static str)
        ensures
            message@ == "loaded levels must have non-null layer instances"@,
    {
        "loaded levels must have non-null layer instances"
    }
}

/// Whether a level holds complete level data: its layer instances are not null.
pub open spec fn level_is_loaded(level: Level) -> bool {
    level.layer_instances is Some
}

/// A reference to a level that is guaranteed to hold complete level data.
///
/// Its layer instances are not null.
#[derive(Copy, Clone, Debug, PartialEq)]
pub struct LoadedLevel<'a> {
    level: &'a Level,
}

impl<'a> LoadedLevel<'a> {
    #[verifier::type_invariant]
    spec fn loaded(self) -> bool {
        level_is_loaded(*self.level)
    }

    /// The level this refers to.
    pub closed spec fn spec_raw(self) -> Level {
        *self.level
    }

    /// Construct a [`LoadedLevel`] from a level, if the level is loaded.
    pub fn try_from_level(level: &'a Level) -> (loaded: Result<LoadedLevel<'a>, LevelNotLoaded>)
        ensures
            loaded is Ok <==> level_is_loaded(*level),
            loaded matches Ok(l) ==> l.spec_raw() == *level,
    {
        if level.layer_instances.is_some() {
            Ok(LoadedLevel { level })
        } else {
            Err(LevelNotLoaded)
        }
    }

    /// Immutable access to the raw level data.
    pub fn raw(&self) -> (level: &'a Level)
        ensures
            *level == self.spec_raw(),
            level_is_loaded(*level),
    {
        proof {
            use_type_invariant(self);
        }
        self.level
    }

    /// Background color of the level (`#rrggbb`).
    pub fn bg_color(&self) -> (color: &'a String)
        ensures
            *color == self.spec_raw().bg_color,
    {
        &self.level.bg_color
    }

    /// An array listing all other levels touching this one on the world map.
    pub fn neighbours(&self) -> (neighbours: &'a Vec<NeighbourLevel>)
        ensures
            *neighbours == self.spec_raw().neighbours,
    {
        &self.level.neighbours
    }

    /// The "guessed" color for this level in the editor (`#rrggbb`).
    pub fn smart_color(&self) -> (color: &'a String)
        ensures
            *color == self.spec_raw().smart_color,
    {
        &self.level.smart_color
    }

    /// Background color of the level, if it differs from the project default (`#rrggbb`).
    pub fn level_bg_color(&self) -> (color: &'a Option<String>)
        ensures
            *color == self.spec_raw().level_bg_color,
    {
        &self.level.level_bg_color
    }

    /// An enum defining the way the background image (if any) is positioned on the level.
    pub fn level_bg_pos(&self) -> (pos: &'a Option<BgPos>)
        ensures
            *pos == self.spec_raw().level_bg_pos,
    {
        &self.level.level_bg_pos
    }

    /// The *optional* relative path to the level background image.
    pub fn bg_rel_path(&self) -> (path: &'a Option<String>)
        ensures
            *path == self.spec_raw().bg_rel_path,
    {
        &self.level.bg_rel_path
    }

    /// This value is not null if the project option "*Save levels separately*" is enabled.
    pub fn external_rel_path(&self) -> (path: &'a Option<String>)
        ensures
            *path == self.spec_raw().external_rel_path,
    {
        &self.level.external_rel_path
    }

    /// An array containing this level custom field values.
    pub fn field_instances(&self) -> (fields: &'a Vec<FieldInstance>)
        ensures
            *fields == self.spec_raw().field_instances,
    {
        &self.level.field_instances
    }

    /// User defined unique identifier
    pub fn identifier(&self) -> (identifier: &'a String)
        ensures
            *identifier == self.spec_raw().identifier,
    {
        &self.level.identifier
    }

    /// Unique instance identifier
    pub fn iid(&self) -> (iid: &'a String)
        ensures
            *iid == self.spec_raw().iid,
    {
        &self.level.iid
    }

    /// An array containing all Layer instances, which loaded levels always have.
    pub fn layer_instances(&self) -> (layers: &'a Vec<LayerInstance>)
        ensures
            self.spec_raw().layer_instances == Some(*layers),
    {
        proof {
            use_type_invariant(self);
        }
        match &self.level.layer_instances {
            Some(layers) => layers,
            None => vstd::pervasive::unreached(),
        }
    }

    /// Height of the level in pixels
    pub fn px_hei(&self) -> (px_hei: &'a i32)
        ensures
            *px_hei == self.spec_raw().px_hei,
    {
        &self.level.px_hei
    }

    /// Width of the level in pixels
    pub fn px_wid(&self) -> (px_wid: &'a i32)
        ensures
            *px_wid == self.spec_raw().px_wid,
    {
        &self.level.px_wid
    }

    /// Unique Int identifier
    pub fn uid(&self) -> (uid: &'a i32)
        ensures
            *uid == self.spec_raw().uid,
    {
        &self.level.uid
    }

    /// If TRUE, the level identifier will always automatically use the naming pattern.
    pub fn use_auto_identifier(&self) -> (flag: &'a bool)
        ensures
            *flag == self.spec_raw().use_auto_identifier,
    {
        &self.level.use_auto_identifier
    }

    /// Index that represents the "depth" of the level in the world.
    pub fn world_depth(&self) -> (depth: &'a i32)
        ensures
            *depth == self.spec_raw().world_depth,
    {
        &self.level.world_depth
    }

    /// World X coordinate in pixels.
    pub fn world_x(&self) -> (x: &'a i32)
        ensures
            *x == self.spec_raw().world_x,
    {
        &self.level.world_x
    }

    /// World Y coordinate in pixels.
    pub fn world_y(&self) -> (y: &'a i32)
        ensures
            *y == self.spec_raw().world_y,
    {
        &self.level.world_y
    }
}

impl<'a> TryFrom<&'a Level> for LoadedLevel<'a> {
    type Error = LevelNotLoaded;

    fn try_from(level: &'a Level) -> (loaded: Result<LoadedLevel<'a>, LevelNotLoaded>)
        ensures
            loaded is Ok <==> level_is_loaded(*level),
            loaded matches Ok(l) ==> l.spec_raw() == *level,
    {
        if level.layer_instances.is_some() {
            Ok(LoadedLevel { level })
        } else {
            Err(LevelNotLoaded)
        }
    }
}

impl<'a> vstd::std_specs::convert::TryFromSpecImpl<&'a Level> for LoadedLevel<'a> {
    open spec fn obeys_try_from_spec() -> bool {
        true
    }

    closed spec fn try_from_spec(level: &'a Level) -> Result<LoadedLevel<'a>, LevelNotLoaded> {
        if level.layer_instances is Some {
            Ok(LoadedLevel { level })
        } else {
            Err(LevelNotLoaded)
        }
    }
}

/// `loaded` is `None` exactly when `level` is, and otherwise refers to the level in `level`.
pub open spec fn loaded_option_is(loaded: Option<LoadedLevel>, level: Option<Level>) -> bool {
    match (loaded, level) {
        (Some(l), Some(v)) => l.spec_raw() == v,
        (None, None) => true,
        _ => false,
    }
}

/// `loaded` refers, in order, to the levels of `levels`.
pub open spec fn loaded_levels_are(loaded: Seq<LoadedLevel>, levels: Seq<Level>) -> bool {
    &&& loaded.len() == levels.len()
    &&& forall|i: int| 0 <= i < loaded.len() ==> (#[trigger] loaded[i]).spec_raw() == levels[i]
}

/// All of `levels` hold complete level data.
pub open spec fn all_levels_loaded(levels: Seq<Level>) -> bool {
    forall|i: int| 0 <= i < levels.len() ==> level_is_loaded(#[trigger] levels[i])
}

} // verus!
