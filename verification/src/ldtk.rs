//! Types describing the contents of an LDtk project file.
//!
//! These types hold the data that the plugin's logic reads.
//! Colors are kept in the `#rrggbb` hexadecimal form LDtk writes, and positions as [`IVec2`].
//! Values that LDtk stores as floating point numbers are not part of this model.
use vstd::prelude::*;

pub mod all_some_iter;
pub mod field_instance;
pub mod impl_definitions;
pub mod impl_ldtk_json;
pub mod ldtk_fields;
pub mod loaded_level;
pub mod raw_level_accessor;

pub use field_instance::{FieldInstance, FieldValue};

verus! {

/// A two-dimensional integer vector, used for pixel and grid positions.
#[derive(Copy, Clone, Debug, Default, PartialEq, Eq, Hash, Structural)]
pub struct IVec2 {
    pub x: i32,
    pub y: i32,
}

impl IVec2 {
    /// Construct a new [`IVec2`].
    pub fn new(x: i32, y: i32) -> (v: IVec2)
        ensures
            v == (IVec2 { x, y }),
    {
        IVec2 { x, y }
    }

    /// Construct an [`IVec2`] with both components equal to `v`.
    pub fn splat(v: i32) -> (res: IVec2)
        ensures
            res == (IVec2 { x: v, y: v }),
    {
        IVec2 { x: v, y: v }
    }
}

/// The root of an LDtk project file: project settings, levels, worlds and definitions.
#[derive(PartialEq, Debug, Clone, Default)]
pub struct LdtkJson {
    /// Number of backup files to keep, if the `backupOnSave` is TRUE
    pub backup_limit: i32,
    /// If TRUE, an extra copy of the project will be created in a sub folder, when saving.
    pub backup_on_save: bool,
    /// Project background color (`#rrggbb`)
    pub bg_color: String,
    /// Default grid size for new layers
    pub default_grid_size: i32,
    /// Default background color of levels (`#rrggbb`)
    pub default_level_bg_color: String,
    /// Default new level height
    pub default_level_height: Option<i32>,
    /// Default new level width
    pub default_level_width: Option<i32>,
    /// A structure containing all the definitions of this project
    pub defs: Definitions,
    /// Deprecated export flag, replaced by `image_export_mode`
    pub export_png: Option<bool>,
    /// If TRUE, a Tiled compatible file will also be generated along with the LDtk JSON file
    pub export_tiled: bool,
    /// If TRUE, one file will be saved for the project and one file for each level.
    pub external_levels: bool,
    /// Advanced flags (options or other states).
    pub flags: Vec<Flag>,
    /// Naming convention for Identifiers.
    pub identifier_style: IdentifierStyle,
    /// "Image export" option when saving project.
    pub image_export_mode: ImageExportMode,
    /// File format version
    pub json_version: String,
    /// The default naming convention for level identifiers.
    pub level_name_pattern: String,
    /// All levels stored in the root of the project.
    pub levels: Vec<Level>,
    /// If TRUE, the Json is partially minified
    pub minify_json: bool,
    /// Next Unique integer ID available
    pub next_uid: i32,
    /// File naming pattern for exported PNGs
    pub png_file_pattern: Option<String>,
    /// If TRUE, a very simplified export will be generated on saving.
    pub simplified_export: bool,
    /// Description used by LDtk samples.
    pub tutorial_desc: Option<String>,
    /// Height of the world grid in pixels.
    pub world_grid_height: Option<i32>,
    /// Width of the world grid in pixels.
    pub world_grid_width: Option<i32>,
    /// How levels are organized in this project.
    pub world_layout: Option<WorldLayout>,
    /// The worlds of a multi-worlds project, each containing levels.
    pub worlds: Vec<World>,
}

/// All the definitions of a project.
#[derive(PartialEq, Debug, Default, Clone)]
pub struct Definitions {
    /// All internal enums
    pub enums: Vec<EnumDefinition>,
    /// External enums: the same as `enums`, with a `relPath` to an external source file.
    pub external_enums: Vec<EnumDefinition>,
    /// All layer definitions
    pub layers: Vec<LayerDefinition>,
    /// All tilesets
    pub tilesets: Vec<TilesetDefinition>,
}

/// A rectangle of tiles in a tileset.
#[derive(Eq, PartialEq, Debug, Default, Clone, Copy, Structural)]
pub struct TilesetRectangle {
    /// Height in pixels
    pub h: i32,
    /// UID of the tileset
    pub tileset_uid: i32,
    /// Width in pixels
    pub w: i32,
    /// X pixels coordinate of the top-left corner in the Tileset image
    pub x: i32,
    /// Y pixels coordinate of the top-left corner in the Tileset image
    pub y: i32,
}

/// An enum definition.
#[derive(Eq, PartialEq, Debug, Default, Clone)]
pub struct EnumDefinition {
    pub external_file_checksum: Option<String>,
    /// Relative path to the external file providing this Enum
    pub external_rel_path: Option<String>,
    /// Tileset UID if provided
    pub icon_tileset_uid: Option<i32>,
    /// User defined unique identifier
    pub identifier: String,
    /// An array of user-defined tags to organize the Enums
    pub tags: Vec<String>,
    /// Unique Int identifier
    pub uid: i32,
    /// All possible enum values, with their optional Tile infos.
    pub values: Vec<EnumValueDefinition>,
}

/// A value of an enum definition.
#[derive(Eq, PartialEq, Debug, Default, Clone)]
pub struct EnumValueDefinition {
    /// An array of 4 Int values that refers to the tile in the tileset image
    pub tile_src_rect: Option<Vec<i32>>,
    /// Optional color
    pub color: i32,
    /// Enum value
    pub id: String,
    /// The optional ID of the tile
    pub tile_id: Option<i32>,
}

/// A layer definition.
#[derive(PartialEq, Debug, Clone, Default)]
pub struct LayerDefinition {
    /// Type of the layer (*IntGrid, Entities, Tiles or AutoLayer*)
    pub layer_definition_type: String,
    pub auto_source_layer_def_uid: Option<i32>,
    /// Reference to the default Tileset UID being used by this layer definition.
    pub auto_tileset_def_uid: Option<i32>,
    /// Entities with these tags are excluded from this layer.
    pub excluded_tags: Vec<String>,
    /// Width and height of the grid in pixels
    pub grid_size: i32,
    /// Height of the optional "guide" grid in pixels
    pub guide_grid_hei: i32,
    /// Width of the optional "guide" grid in pixels
    pub guide_grid_wid: i32,
    pub hide_fields_when_inactive: bool,
    /// Hide the layer from the list on the side of the editor view.
    pub hide_in_list: bool,
    /// User defined unique identifier
    pub identifier: String,
    /// An array that defines extra optional info for each IntGrid value.
    pub int_grid_values: Vec<IntGridValueDefinition>,
    /// If true, the layer is scaled along with the parallax.
    pub parallax_scaling: bool,
    /// X offset of the layer, in pixels
    pub px_offset_x: i32,
    /// Y offset of the layer, in pixels
    pub px_offset_y: i32,
    /// Only entities with these tags are allowed in this layer.
    pub required_tags: Vec<String>,
    /// Reference to the default Tileset UID being used by this layer definition.
    pub tileset_def_uid: Option<i32>,
    /// Type of the layer as an enum
    pub purple_type: Type,
    /// Unique Int identifier
    pub uid: i32,
}

/// Extra information about an IntGrid value.
#[derive(PartialEq, Debug, Default, Clone)]
pub struct IntGridValueDefinition {
    /// Color (`#rrggbb`)
    pub color: String,
    /// User defined unique identifier
    pub identifier: Option<String>,
    /// The IntGrid value itself
    pub value: i32,
}

/// A tileset definition.
#[derive(Eq, PartialEq, Debug, Default, Clone)]
pub struct TilesetDefinition {
    /// Grid-based height
    pub c_hei: i32,
    /// Grid-based width
    pub c_wid: i32,
    /// An array of custom tile metadata
    pub custom_data: Vec<TileCustomMetadata>,
    /// If this value is set, then it means that this atlas uses an internal LDtk atlas image.
    pub embed_atlas: Option<EmbedAtlas>,
    /// Tileset tags using Enum values specified by `tagsSourceEnumId`.
    pub enum_tags: Vec<EnumTagValue>,
    /// User defined unique identifier
    pub identifier: String,
    /// Distance in pixels from image borders
    pub padding: i32,
    /// Image height in pixels
    pub px_hei: i32,
    /// Image width in pixels
    pub px_wid: i32,
    /// Path to the source file, relative to the current project JSON file.
    pub rel_path: Option<String>,
    /// Space in pixels between all tiles
    pub spacing: i32,
    /// An array of user-defined tags to organize the Tilesets
    pub tags: Vec<String>,
    /// Optional Enum definition UID used for this tileset meta-data
    pub tags_source_enum_uid: Option<i32>,
    pub tile_grid_size: i32,
    /// Unique Intidentifier
    pub uid: i32,
}

/// Custom data attached to a tile of a tileset.
#[derive(Eq, PartialEq, Debug, Default, Clone)]
pub struct TileCustomMetadata {
    pub data: String,
    pub tile_id: i32,
}

/// Enum value tagged on tiles of a tileset.
#[derive(Eq, PartialEq, Debug, Default, Clone)]
pub struct EnumTagValue {
    pub enum_value_id: String,
    pub tile_ids: Vec<i32>,
}

/// An entity instance placed in a level.
#[derive(PartialEq, Debug, Default, Clone)]
pub struct EntityInstance {
    /// Grid-based coordinates
    pub grid: IVec2,
    /// Entity definition identifier
    pub identifier: String,
    /// The entity "smart" color, guessed from either Entity definition, or one its field
    /// instances (`#rrggbb`).
    pub smart_color: String,
    /// Array of tags defined in this Entity definition
    pub tags: Vec<String>,
    /// Optional TilesetRect used to display this entity.
    pub tile: Option<TilesetRectangle>,
    /// Reference of the **Entity definition** UID
    pub def_uid: i32,
    /// An array of all custom fields and their values.
    pub field_instances: Vec<FieldInstance>,
    /// Entity height in pixels.
    pub height: i32,
    /// Unique instance identifier
    pub iid: String,
    /// Pixel coordinates in current level coordinate space.
    pub px: IVec2,
    /// Entity width in pixels.
    pub width: i32,
}

/// The value of an entity reference field.
#[derive(Eq, PartialEq, Debug, Default, Clone)]
pub struct FieldInstanceEntityReference {
    /// IID of the refered EntityInstance
    pub entity_iid: String,
    /// IID of the LayerInstance containing the refered EntityInstance
    pub layer_iid: String,
    /// IID of the Level containing the refered EntityInstance
    pub level_iid: String,
    /// IID of the World containing the refered EntityInstance
    pub world_iid: String,
}

/// The value of a point field.
#[derive(Eq, PartialEq, Debug, Default, Clone, Copy, Structural)]
pub struct FieldInstanceGridPoint {
    /// X grid-based coordinate
    pub cx: i32,
    /// Y grid-based coordinate
    pub cy: i32,
}

/// An IntGrid value instance.
#[derive(Eq, PartialEq, Debug, Default, Clone, Copy, Structural)]
pub struct IntGridValueInstance {
    /// Coordinate ID in the layer grid
    pub coord_id: i32,
    /// IntGrid value
    pub v: i32,
}

/// A layer instance of a level.
#[derive(PartialEq, Debug, Clone, Default)]
pub struct LayerInstance {
    /// Grid-based height
    pub c_hei: i32,
    /// Grid-based width
    pub c_wid: i32,
    /// Grid size
    pub grid_size: i32,
    /// Layer definition identifier
    pub identifier: String,
    /// Total layer X pixel offset, including both instance and definition offsets.
    pub px_total_offset_x: i32,
    /// Total layer Y pixel offset, including both instance and definition offsets.
    pub px_total_offset_y: i32,
    /// The definition UID of corresponding Tileset, if any.
    pub tileset_def_uid: Option<i32>,
    /// The relative path to corresponding Tileset, if any.
    pub tileset_rel_path: Option<String>,
    /// Layer type
    pub layer_instance_type: Type,
    /// An array containing all tiles generated by Auto-layer rules.
    pub auto_layer_tiles: Vec<TileInstance>,
    pub entity_instances: Vec<EntityInstance>,
    pub grid_tiles: Vec<TileInstance>,
    /// Unique layer instance identifier
    pub iid: String,
    /// Deprecated IntGrid values.
    pub int_grid: Option<Vec<IntGridValueInstance>>,
    /// A list of all values in the IntGrid layer, stored in CSV format.
    pub int_grid_csv: Vec<i32>,
    /// Reference the Layer definition UID
    pub layer_def_uid: i32,
    /// Reference to the UID of the level containing this layer instance
    pub level_id: i32,
    /// An Array containing the UIDs of optional rules that were enabled in this specific layer
    /// instance.
    pub optional_rules: Vec<i32>,
    /// This layer can use another tileset by overriding the tileset UID here.
    pub override_tileset_uid: Option<i32>,
    /// X offset in pixels to render this layer.
    pub px_offset_x: i32,
    /// Y offset in pixels to render this layer.
    pub px_offset_y: i32,
    /// Random seed used for Auto-Layers rendering
    pub seed: i32,
    /// Layer instance visibility
    pub visible: bool,
}

/// A tile of a tile or auto layer.
#[derive(Eq, PartialEq, Debug, Default, Clone)]
pub struct TileInstance {
    /// Internal data used by the editor.
    pub d: Vec<i32>,
    /// "Flip bits", a 2-bits integer to represent the mirror transformations of the tile.
    pub f: i32,
    /// Pixel coordinates of the tile in the **layer**.
    pub px: IVec2,
    /// Pixel coordinates of the tile in the **tileset**.
    pub src: IVec2,
    /// The *Tile ID* in the corresponding tileset.
    pub t: i32,
}

/// A level of a project.
#[derive(PartialEq, Debug, Default, Clone)]
pub struct Level {
    /// Background color of the level (`#rrggbb`).
    pub bg_color: String,
    /// An array listing all other levels touching this one on the world map.
    pub neighbours: Vec<NeighbourLevel>,
    /// The "guessed" color for this level in the editor (`#rrggbb`).
    pub smart_color: String,
    /// Background color of the level, if it differs from the project default (`#rrggbb`).
    pub level_bg_color: Option<String>,
    /// An enum defining the way the background image (if any) is positioned on the level.
    pub level_bg_pos: Option<BgPos>,
    /// The *optional* relative path to the level background image.
    pub bg_rel_path: Option<String>,
    /// This value is not null if the project option "*Save levels separately*" is enabled.
    pub external_rel_path: Option<String>,
    /// An array containing this level custom field values.
    pub field_instances: Vec<FieldInstance>,
    /// User defined unique identifier
    pub identifier: String,
    /// Unique instance identifier
    pub iid: String,
    /// An array containing all Layer instances. Null when levels are saved separately.
    pub layer_instances: Option<Vec<LayerInstance>>,
    /// Height of the level in pixels
    pub px_hei: i32,
    /// Width of the level in pixels
    pub px_wid: i32,
    /// Unique Int identifier
    pub uid: i32,
    /// If TRUE, the level identifier will always automatically use the naming pattern.
    pub use_auto_identifier: bool,
    /// Index that represents the "depth" of the level in the world.
    pub world_depth: i32,
    /// World X coordinate in pixels.
    pub world_x: i32,
    /// World Y coordinate in pixels.
    pub world_y: i32,
}

/// Another level touching a level on the world map.
#[derive(Eq, PartialEq, Debug, Default, Clone)]
pub struct NeighbourLevel {
    /// A single lowercase character tipping on the level location.
    pub dir: String,
    /// Neighbour Instance Identifier
    pub level_iid: String,
    pub level_uid: Option<i32>,
}

/// A world of a multi-worlds project.
#[derive(PartialEq, Debug, Default, Clone)]
pub struct World {
    /// Default new level height
    pub default_level_height: i32,
    /// Default new level width
    pub default_level_width: i32,
    /// User defined unique identifier
    pub identifier: String,
    /// Unique instance identifer
    pub iid: String,
    /// All levels from this world.
    pub levels: Vec<Level>,
    /// Height of the world grid in pixels.
    pub world_grid_height: i32,
    /// Width of the world grid in pixels.
    pub world_grid_width: i32,
    /// An enum that describes how levels are organized in this project.
    pub world_layout: Option<WorldLayout>,
}

#[derive(Eq, PartialEq, Debug, Clone, Copy, Structural)]
pub enum AllowedRefs {
    Any,
    OnlySame,
    OnlyTags,
}

#[derive(Eq, PartialEq, Debug, Clone, Copy, Structural)]
pub enum EditorDisplayMode {
    ArrayCountNoLabel,
    ArrayCountWithLabel,
    EntityTile,
    Hidden,
    NameAndValue,
    PointPath,
    PointPathLoop,
    PointStar,
    Points,
    RadiusGrid,
    RadiusPx,
    RefLinkBetweenCenters,
    RefLinkBetweenPivots,
    ValueOnly,
}

#[derive(Eq, PartialEq, Debug, Clone, Copy, Structural)]
pub enum EditorDisplayPos {
    Above,
    Beneath,
    Center,
}

#[derive(Eq, PartialEq, Debug, Clone, Copy, Structural)]
pub enum TextLanguageMode {
    LangC,
    LangHaxe,
    LangJs,
    LangJson,
    LangLog,
    LangLua,
    LangMarkdown,
    LangPython,
    LangRuby,
    LangXml,
}

/// Possible values: `DiscardOldOnes`, `PreventAdding`, `MoveLastOne`
#[derive(Eq, PartialEq, Debug, Clone, Copy, Structural)]
pub enum LimitBehavior {
    DiscardOldOnes,
    MoveLastOne,
    PreventAdding,
}

impl Default for LimitBehavior {
    fn default() -> (res: Self)
        ensures
            res == LimitBehavior::MoveLastOne,
    {
        Self::MoveLastOne
    }
}

/// Possible values: `PerLayer`, `PerLevel`, `PerWorld`
#[derive(Eq, PartialEq, Debug, Clone, Copy, Structural)]
pub enum LimitScope {
    PerLayer,
    PerLevel,
    PerWorld,
}

impl Default for LimitScope {
    fn default() -> (res: Self)
        ensures
            res == LimitScope::PerLevel,
    {
        Self::PerLevel
    }
}

/// Possible values: `Rectangle`, `Ellipse`, `Tile`, `Cross`
#[derive(Eq, PartialEq, Debug, Clone, Copy, Structural)]
pub enum RenderMode {
    Cross,
    Ellipse,
    Rectangle,
    Tile,
}

impl Default for RenderMode {
    fn default() -> (res: Self)
        ensures
            res == RenderMode::Rectangle,
    {
        Self::Rectangle
    }
}

/// Possible values: `Cover`, `FitInside`, `Repeat`, `Stretch`, `FullSizeCropped`,
/// `FullSizeUncropped`, `NineSlice`
#[derive(Eq, PartialEq, Debug, Clone, Copy, Structural)]
pub enum TileRenderMode {
    Cover,
    FitInside,
    FullSizeCropped,
    FullSizeUncropped,
    NineSlice,
    Repeat,
    Stretch,
}

impl Default for TileRenderMode {
    fn default() -> (res: Self)
        ensures
            res == TileRenderMode::FitInside,
    {
        Self::FitInside
    }
}

/// Checker mode Possible values: `None` (as `NoChecker`), `Horizontal`, `Vertical`
#[derive(Eq, PartialEq, Debug, Clone, Copy, Structural)]
pub enum Checker {
    Horizontal,
    /// LDtk's `None` checker mode.
    NoChecker,
    Vertical,
}

/// Defines how tileIds array is used Possible values: `Single`, `Stamp`
#[derive(Eq, PartialEq, Debug, Clone, Copy, Structural)]
pub enum TileMode {
    Single,
    Stamp,
}

/// Type of the layer as Haxe Enum Possible values: `IntGrid`, `Entities`, `Tiles`,
/// `AutoLayer`
#[derive(Eq, PartialEq, Debug, Clone, Copy, Structural)]
pub enum Type {
    AutoLayer,
    Entities,
    IntGrid,
    Tiles,
}

impl Default for Type {
    fn default() -> (res: Self)
        ensures
            res == Type::Tiles,
    {
        Self::Tiles
    }
}

#[derive(Eq, PartialEq, Debug, Clone, Copy, Structural)]
pub enum EmbedAtlas {
    LdtkIcons,
}

#[derive(Eq, PartialEq, Debug, Clone, Copy, Structural)]
pub enum Flag {
    DiscardPreCsvIntGrid,
    ExportPreCsvIntGridFormat,
    IgnoreBackupSuggest,
    MultiWorlds,
    PrependIndexToLevelFileNames,
    UseMultilinesType,
}

#[derive(Eq, PartialEq, Debug, Clone, Copy, Structural)]
pub enum BgPos {
    Contain,
    Cover,
    CoverDirty,
    Unscaled,
}

#[derive(Eq, PartialEq, Debug, Clone, Copy, Structural)]
pub enum WorldLayout {
    Free,
    GridVania,
    LinearHorizontal,
    LinearVertical,
}

/// Naming convention for Identifiers (first-letter uppercase, full uppercase etc.) Possible
/// values: `Capitalize`, `Uppercase`, `Lowercase`, `Free`
#[derive(Eq, PartialEq, Debug, Clone, Copy, Default, Structural)]
pub enum IdentifierStyle {
    #[default]
    Capitalize,
    Free,
    Lowercase,
    Uppercase,
}

/// "Image export" option when saving project. Possible values: `None` (as `NoExport`), `OneImagePerLayer`,
/// `OneImagePerLevel`, `LayersAndLevels`
#[derive(Eq, PartialEq, Debug, Clone, Copy, Default, Structural)]
pub enum ImageExportMode {
    LayersAndLevels,
    /// LDtk's `None` export mode.
    #[default]
    NoExport,
    OneImagePerLayer,
    OneImagePerLevel,
}

} // verus!
