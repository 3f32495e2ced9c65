//! Components of the spawned LDtk world.
use vstd::prelude::*;

mod entity_iid;
pub use entity_iid::EntityIid;
mod level_iid;
pub use level_iid::LevelIid;
mod level_set;
pub use level_set::LevelSet;

use crate::ldtk::{EntityInstance, IVec2, LayerInstance, Type};

verus! {

/// Component added to any IntGrid tile by default.
///
/// When IntGrid tiles have this component, they are spawned with the value of the IntGrid cell.
#[derive(Copy, Clone, Eq, PartialEq, Debug, Default, Hash, Structural)]
pub struct IntGridCell {
    pub value: i32,
}

/// Component that indicates that an ldtk entity should be a child of the world, not its layer.
///
/// Worldly entities are not despawned when their level is, and are identified by their
/// entity iid.
#[derive(Clone, Eq, PartialEq, Debug, Default, Hash)]
pub struct Worldly {
    pub entity_iid: String,
}

impl Worldly {
    /// Creates a [`Worldly`] from the entity information available to entity bundles.
    pub fn from_entity_info(entity_instance: &EntityInstance) -> (worldly: Worldly)
        ensures
            worldly.entity_iid@ == entity_instance.iid@,
    {
        Worldly { entity_iid: entity_instance.iid.clone() }
    }
}

/// Component that stores grid-based coordinate information.
///
/// For Tile, AutoTile, and IntGrid layers, all tiles have this component by default.
#[derive(Copy, Clone, Eq, PartialEq, Debug, Default, Hash, Structural)]
pub struct GridCoords {
    pub x: i32,
    pub y: i32,
}

impl GridCoords {
    /// Construct new [`GridCoords`].
    pub fn new(x: i32, y: i32) -> (coords: GridCoords)
        ensures
            coords == (GridCoords { x, y }),
    {
        GridCoords { x, y }
    }
}

impl From<IVec2> for GridCoords {
    fn from(i_vec_2: IVec2) -> (coords: GridCoords) {
        GridCoords { x: i_vec_2.x, y: i_vec_2.y }
    }
}

impl vstd::std_specs::convert::FromSpecImpl<IVec2> for GridCoords {
    open spec fn obeys_from_spec() -> bool {
        true
    }

    open spec fn from_spec(v: IVec2) -> GridCoords {
        GridCoords { x: v.x, y: v.y }
    }
}

impl From<GridCoords> for IVec2 {
    fn from(grid_coords: GridCoords) -> (v: IVec2) {
        IVec2::new(grid_coords.x, grid_coords.y)
    }
}

impl vstd::std_specs::convert::FromSpecImpl<GridCoords> for IVec2 {
    open spec fn obeys_from_spec() -> bool {
        true
    }

    open spec fn from_spec(v: GridCoords) -> IVec2 {
        IVec2 { x: v.x, y: v.y }
    }
}

/// `value` is within the range of `i32`.
pub open spec fn fits_i32(value: int) -> bool {
    i32::MIN <= value <= i32::MAX
}

impl core::ops::Add<GridCoords> for GridCoords {
    type Output = GridCoords;

    fn add(self, rhs: GridCoords) -> (sum: GridCoords) {
        GridCoords { x: self.x + rhs.x, y: self.y + rhs.y }
    }
}

impl vstd::std_specs::ops::AddSpecImpl<GridCoords> for GridCoords {
    open spec fn obeys_add_spec() -> bool {
        true
    }

    open spec fn add_req(self, rhs: GridCoords) -> bool {
        fits_i32(self.x + rhs.x) && fits_i32(self.y + rhs.y)
    }

    open spec fn add_spec(self, rhs: GridCoords) -> GridCoords {
        GridCoords { x: (self.x + rhs.x) as i32, y: (self.y + rhs.y) as i32 }
    }
}

impl core::ops::Sub<GridCoords> for GridCoords {
    type Output = GridCoords;

    fn sub(self, rhs: GridCoords) -> (difference: GridCoords) {
        GridCoords { x: self.x - rhs.x, y: self.y - rhs.y }
    }
}

impl vstd::std_specs::ops::SubSpecImpl<GridCoords> for GridCoords {
    open spec fn obeys_sub_spec() -> bool {
        true
    }

    open spec fn sub_req(self, rhs: GridCoords) -> bool {
        fits_i32(self.x - rhs.x) && fits_i32(self.y - rhs.y)
    }

    open spec fn sub_spec(self, rhs: GridCoords) -> GridCoords {
        GridCoords { x: (self.x - rhs.x) as i32, y: (self.y - rhs.y) as i32 }
    }
}

impl core::ops::Mul<GridCoords> for GridCoords {
    type Output = GridCoords;

    fn mul(self, rhs: GridCoords) -> (product: GridCoords) {
        GridCoords { x: self.x * rhs.x, y: self.y * rhs.y }
    }
}

impl vstd::std_specs::ops::MulSpecImpl<GridCoords> for GridCoords {
    open spec fn obeys_mul_spec() -> bool {
        true
    }

    open spec fn mul_req(self, rhs: GridCoords) -> bool {
        fits_i32(self.x * rhs.x) && fits_i32(self.y * rhs.y)
    }

    open spec fn mul_spec(self, rhs: GridCoords) -> GridCoords {
        GridCoords { x: (self.x * rhs.x) as i32, y: (self.y * rhs.y) as i32 }
    }
}

/// Component that stores the custom data that a tileset attaches to a tile.
#[derive(Clone, Eq, PartialEq, Debug, Default, Hash)]
pub struct TileMetadata {
    pub data: String,
}

/// Component that stores the enum values that a tileset tags a tile with.
#[derive(Clone, Eq, PartialEq, Debug, Default, Hash)]
pub struct TileEnumTags {
    pub tags: Vec<String>,
    pub source_enum_uid: Option<i32>,
}

impl TileEnumTags {
    /// The names of the enum values, in order.
    pub open spec fn tag_names(self) -> Seq<Seq<char>> {
        self.tags@.map_values(|tag: String| tag@)
    }
}

/// Component that stores a layer's metadata: the layer instance's data without its tiles,
/// entities or int grid values.
///
/// The layer's opacity is not part of this model.
#[derive(Clone, PartialEq, Debug, Default)]
pub struct LayerMetadata {
    /// Grid-based height
    pub c_hei: i32,
    /// Grid-based width
    pub c_wid: i32,
    /// Grid size
    pub grid_size: i32,
    /// Layer definition identifier
    pub identifier: String,
    /// Total layer X pixel offset, including both instance and definition offsets.
    pub px_total_offset_x: i32,
    /// Total layer Y pixel offset, including both instance and definition offsets.
    pub px_total_offset_y: i32,
    /// The definition UID of corresponding Tileset, if any.
    pub tileset_def_uid: Option<i32>,
    /// The relative path to corresponding Tileset, if any.
    pub tileset_rel_path: Option<String>,
    /// Layer type
    pub layer_instance_type: Type,
    /// Unique layer instance identifier
    pub iid: String,
    /// Reference the Layer definition UID
    pub layer_def_uid: i32,
    /// Reference to the UID of the level containing this layer instance
    pub level_id: i32,
    /// The UIDs of optional rules that were enabled in this specific layer instance.
    pub optional_rules: Vec<i32>,
    /// This layer can use another tileset by overriding the tileset UID here.
    pub override_tileset_uid: Option<i32>,
    /// X offset in pixels to render this layer.
    pub px_offset_x: i32,
    /// Y offset in pixels to render this layer.
    pub px_offset_y: i32,
    /// Random seed used for Auto-Layers rendering
    pub seed: i32,
    /// Layer instance visibility
    pub visible: bool,
}

impl LayerMetadata {
    /// The metadata of the layer instance `instance`.
    pub fn from(instance: &LayerInstance) -> (metadata: LayerMetadata)
        ensures
            metadata.c_hei == instance.c_hei,
            metadata.c_wid == instance.c_wid,
            metadata.grid_size == instance.grid_size,
            metadata.identifier@ == instance.identifier@,
            metadata.px_total_offset_x == instance.px_total_offset_x,
            metadata.px_total_offset_y == instance.px_total_offset_y,
            metadata.tileset_def_uid == instance.tileset_def_uid,
            metadata.tileset_rel_path.deep_view() == instance.tileset_rel_path.deep_view(),
            metadata.layer_instance_type == instance.layer_instance_type,
            metadata.iid@ == instance.iid@,
            metadata.layer_def_uid == instance.layer_def_uid,
            metadata.level_id == instance.level_id,
            metadata.optional_rules@ == instance.optional_rules@,
            metadata.override_tileset_uid == instance.override_tileset_uid,
            metadata.px_offset_x == instance.px_offset_x,
            metadata.px_offset_y == instance.px_offset_y,
            metadata.seed == instance.seed,
            metadata.visible == instance.visible,
    {
        let tileset_rel_path = match &instance.tileset_rel_path {
            Some(path) => Some(path.clone()),
            None => None,
        };
        LayerMetadata {
            c_hei: instance.c_hei,
            c_wid: instance.c_wid,
            grid_size: instance.grid_size,
            identifier: instance.identifier.clone(),
            px_total_offset_x: instance.px_total_offset_x,
            px_total_offset_y: instance.px_total_offset_y,
            tileset_def_uid: instance.tileset_def_uid,
            tileset_rel_path,
            layer_instance_type: instance.layer_instance_type,
            iid: instance.iid.clone(),
            layer_def_uid: instance.layer_def_uid,
            level_id: instance.level_id,
            optional_rules: instance.optional_rules.clone(),
            override_tileset_uid: instance.override_tileset_uid,
            px_offset_x: instance.px_offset_x,
            px_offset_y: instance.px_offset_y,
            seed: instance.seed,
            visible: instance.visible,
        }
    }
}

/// Component that indicates that an LDtk level or world should respawn.
#[derive(Copy, Clone, Eq, PartialEq, Debug, Default, Hash, Structural)]
pub struct Respawn;

} // verus!
