//! Field instances: the custom field values of levels and entities.
use vstd::prelude::*;

use crate::ldtk::{FieldInstanceEntityReference, IVec2, TilesetRectangle};

verus! {

/// A custom field value of a level or an entity.
#[derive(Debug, Clone, PartialEq, Default)]
pub struct FieldInstance {
    /// Field definition identifier
    pub identifier: String,
    /// Optional TilesetRect used to display this field.
    pub tile: Option<TilesetRectangle>,
    /// Type of the field, such as `Int`, `Float`, `String`, `Enum(my_enum_name)`, `Bool`, etc.
    pub field_instance_type: String,
    /// Actual value of the field instance.
    pub value: FieldValue,
    /// Reference of the **Field definition** UID
    pub def_uid: i32,
}

/// The actual value of a field instance on a level or an entity.
///
/// Floating point values are held as their IEEE 754 bit pattern (`f32::to_bits`), and colors
/// in the `#rrggbb` form LDtk writes.
#[derive(PartialEq, Debug, Clone)]
pub enum FieldValue {
    Int(Option<i32>),
    Float(Option<u32>),
    Bool(bool),
    /// Represents either a String or a Multilines
    String(Option<String>),
    Color(String),
    FilePath(Option<String>),
    Enum(Option<String>),
    Tile(Option<TilesetRectangle>),
    EntityRef(Option<FieldInstanceEntityReference>),
    Point(Option<IVec2>),
    Ints(Vec<Option<i32>>),
    Floats(Vec<Option<u32>>),
    Bools(Vec<bool>),
    /// Represents either Strings or Multilines
    Strings(Vec<Option<String>>),
    Colors(Vec<String>),
    FilePaths(Vec<Option<String>>),
    Enums(Vec<Option<String>>),
    Tiles(Vec<Option<TilesetRectangle>>),
    EntityRefs(Vec<Option<FieldInstanceEntityReference>>),
    Points(Vec<Option<IVec2>>),
}

impl Default for FieldValue {
    fn default() -> (res: Self)
        ensures
            res == FieldValue::Int(None),
    {
        FieldValue::Int(None)
    }
}

/// The kind of value that a field instance holds, as named by its type.
#[derive(Copy, Clone, Debug, PartialEq, Eq, Structural)]
pub enum FieldValueKind {
    Int,
    Float,
    Bool,
    /// A String or a Multilines field.
    String,
    Color,
    FilePath,
    Enum,
    Tile,
    EntityRef,
    Point,
    Ints,
    Floats,
    Bools,
    /// An array of Strings or of Multilines.
    Strings,
    Colors,
    FilePaths,
    Enums,
    Tiles,
    EntityRefs,
    Points,
}

/// The pattern of the types of enum fields.
pub const ENUM_FIELD_TYPE_PATTERN: &'static str = r"^(LocalEnum|ExternEnum)\.";

/// The pattern of the types of enum array fields.
pub const ENUMS_FIELD_TYPE_PATTERN: &'static str = r"^Array<(LocalEnum|ExternEnum)\.";

/// The kind of value named by the field type `t`, given whether `t` matches the enum and the
/// enum array patterns.
pub open spec fn field_value_kind_of(t: Seq<char>, enum_match: bool, enums_match: bool) -> Option<
    FieldValueKind,
> {
    if t == "Int"@ {
        Some(FieldValueKind::Int)
    } else if t == "Float"@ {
        Some(FieldValueKind::Float)
    } else if t == "Bool"@ {
        Some(FieldValueKind::Bool)
    } else if t == "String"@ {
        Some(FieldValueKind::String)
    } else if t == "Color"@ {
        Some(FieldValueKind::Color)
    } else if t == "FilePath"@ {
        Some(FieldValueKind::FilePath)
    } else if t == "Tile"@ {
        Some(FieldValueKind::Tile)
    } else if t == "EntityRef"@ {
        Some(FieldValueKind::EntityRef)
    } else if t == "Point"@ {
        Some(FieldValueKind::Point)
    } else if t == "Multilines"@ {
        Some(FieldValueKind::String)
    } else if t == "Array<Multilines>"@ {
        Some(FieldValueKind::Strings)
    } else if t == "Array<Int>"@ {
        Some(FieldValueKind::Ints)
    } else if t == "Array<Float>"@ {
        Some(FieldValueKind::Floats)
    } else if t == "Array<Bool>"@ {
        Some(FieldValueKind::Bools)
    } else if t == "Array<String>"@ {
        Some(FieldValueKind::Strings)
    } else if t == "Array<Color>"@ {
        Some(FieldValueKind::Colors)
    } else if t == "Array<FilePath>"@ {
        Some(FieldValueKind::FilePaths)
    } else if t == "Array<Tile>"@ {
        Some(FieldValueKind::Tiles)
    } else if t == "Array<EntityRef>"@ {
        Some(FieldValueKind::EntityRefs)
    } else if t == "Array<Point>"@ {
        Some(FieldValueKind::Points)
    } else if enum_match {
        Some(FieldValueKind::Enum)
    } else if enums_match {
        Some(FieldValueKind::Enums)
    } else {
        None
    }
}

/// The field type names an enum: it starts with `LocalEnum.` or `ExternEnum.`.
pub open spec fn is_enum_field_type(t: Seq<char>) -> bool {
    "LocalEnum."@.is_prefix_of(t) || "ExternEnum."@.is_prefix_of(t)
}

/// The field type names an array of enums: it starts with `Array<LocalEnum.` or
/// `Array<ExternEnum.`.
pub open spec fn is_enum_array_field_type(t: Seq<char>) -> bool {
    "Array<LocalEnum."@.is_prefix_of(t) || "Array<ExternEnum."@.is_prefix_of(t)
}

/// What [`regex::Regex::new`] followed by [`regex::Regex::is_match`] give for a pattern and a
/// text: `None` where the pattern does not compile.
pub uninterp spec fn regex_match(pattern: Seq<char>, text: Seq<char>) -> Option<bool>;

/// Compiles `pattern` with [`regex::Regex::new`] and tests `text` against it with
/// [`regex::Regex::is_match`]; `None` where the pattern does not compile.
///
/// The contract names the result for every pattern. For the two enum type patterns it also
/// states what the regex crate's syntax gives them: `^` anchors the match at the start of the
/// text, `(a|b)` is an alternation and `\.` a literal dot, so each pattern matches exactly the
/// texts that start with one of its two prefixes, and both compile. Regular expression matching
/// in general is left to the regex crate.
#[verifier::external_body]
fn regex_is_match(pattern: &str, text: &str) -> (matched: Option<bool>)
    ensures
        matched == regex_match(pattern@, text@),
        pattern@ == ENUM_FIELD_TYPE_PATTERN@ ==> matched == Some(is_enum_field_type(text@)),
        pattern@ == ENUMS_FIELD_TYPE_PATTERN@ ==> matched == Some(
            is_enum_array_field_type(text@),
        ),
{
    match regex::Regex::new(pattern) {
        Ok(re) => Some(re.is_match(text)),
        Err(_) => None,
    }
}

/// Whether `a` holds the text `b`.
fn str_is(a: &String, b: &str) -> (same: bool)
    ensures
        same == (a@ == b@),
{
    *a == b.to_owned()
}

/// The kind of value named by the field type `field_type`, given whether it matches
/// [`ENUM_FIELD_TYPE_PATTERN`] and [`ENUMS_FIELD_TYPE_PATTERN`].
///
/// Exact type names are recognized first; the patterns only decide for other types.
pub fn field_value_kind_from_matches(field_type: &str, enum_match: bool, enums_match: bool) -> (kind:
    Option<FieldValueKind>)
    ensures
        kind == field_value_kind_of(field_type@, enum_match, enums_match),
{
    let t = field_type.to_owned();
    if str_is(&t, "Int") {
        Some(FieldValueKind::Int)
    } else if str_is(&t, "Float") {
        Some(FieldValueKind::Float)
    } else if str_is(&t, "Bool") {
        Some(FieldValueKind::Bool)
    } else if str_is(&t, "String") {
        Some(FieldValueKind::String)
    } else if str_is(&t, "Color") {
        Some(FieldValueKind::Color)
    } else if str_is(&t, "FilePath") {
        Some(FieldValueKind::FilePath)
    } else if str_is(&t, "Tile") {
        Some(FieldValueKind::Tile)
    } else if str_is(&t, "EntityRef") {
        Some(FieldValueKind::EntityRef)
    } else if str_is(&t, "Point") {
        Some(FieldValueKind::Point)
    } else if str_is(&t, "Multilines") {
        Some(FieldValueKind::String)
    } else if str_is(&t, "Array<Multilines>") {
        Some(FieldValueKind::Strings)
    } else if str_is(&t, "Array<Int>") {
        Some(FieldValueKind::Ints)
    } else if str_is(&t, "Array<Float>") {
        Some(FieldValueKind::Floats)
    } else if str_is(&t, "Array<Bool>") {
        Some(FieldValueKind::Bools)
    } else if str_is(&t, "Array<String>") {
        Some(FieldValueKind::Strings)
    } else if str_is(&t, "Array<Color>") {
        Some(FieldValueKind::Colors)
    } else if str_is(&t, "Array<FilePath>") {
        Some(FieldValueKind::FilePaths)
    } else if str_is(&t, "Array<Tile>") {
        Some(FieldValueKind::Tiles)
    } else if str_is(&t, "Array<EntityRef>") {
        Some(FieldValueKind::EntityRefs)
    } else if str_is(&t, "Array<Point>") {
        Some(FieldValueKind::Points)
    } else if enum_match {
        Some(FieldValueKind::Enum)
    } else if enums_match {
        Some(FieldValueKind::Enums)
    } else {
        None
    }
}

/// The kind of value named by the field type `field_type`, or `None` for an unknown type.
///
/// Enum and enum array types are recognized by [`ENUM_FIELD_TYPE_PATTERN`] and
/// [`ENUMS_FIELD_TYPE_PATTERN`]: by their prefixes `LocalEnum.`, `ExternEnum.`,
/// `Array<LocalEnum.` and `Array<ExternEnum.`.
pub fn field_value_kind(field_type: &str) -> (kind: Option<FieldValueKind>)
    ensures
        kind == field_value_kind_of(
            field_type@,
            is_enum_field_type(field_type@),
            is_enum_array_field_type(field_type@),
        ),
{
    let exact = field_value_kind_from_matches(field_type, false, false);
    if exact.is_some() {
        return exact;
    }
    let enum_match = regex_is_match(ENUM_FIELD_TYPE_PATTERN, field_type);
    let enums_match = regex_is_match(ENUMS_FIELD_TYPE_PATTERN, field_type);
    field_value_kind_from_matches(
        field_type,
        enum_match == Some(true),
        enums_match == Some(true),
    )
}

} // verus!
