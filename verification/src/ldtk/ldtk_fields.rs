//! Contains [`LdtkFields`] trait, providing convenience methods for accessing field instances.
use vstd::prelude::*;

use crate::ldtk::all_some_iter::{all_some, unwrap_all, AllSomeIter};
use crate::ldtk::{
    EntityInstance, FieldInstance, FieldInstanceEntityReference, FieldValue, IVec2, Level,
    TilesetRectangle,
};

verus! {

/// Errors that can occur when accessing field instances.
#[derive(Debug, PartialEq, Eq, Clone)]
pub enum LdtkFieldsError {
    /// No field has the identifier.
    FieldNotFound { identifier: String },
    /// The field was found, but its type is not correct.
    WrongFieldType { identifier: String },
    /// The field of the correct type was found, but the value is null.
    UnexpectedNull { identifier: String },
}

/// `e` says that no field has the identifier `identifier`.
pub open spec fn not_found(e: LdtkFieldsError, identifier: Seq<char>) -> bool {
    e matches LdtkFieldsError::FieldNotFound { identifier: i } && i@ == identifier
}

/// `e` says that the field `identifier` does not have the type asked for.
pub open spec fn wrong_type(e: LdtkFieldsError, identifier: Seq<char>) -> bool {
    e matches LdtkFieldsError::WrongFieldType { identifier: i } && i@ == identifier
}

/// `e` says that the field `identifier` holds a null where a value was asked for.
pub open spec fn unexpected_null(e: LdtkFieldsError, identifier: Seq<char>) -> bool {
    e matches LdtkFieldsError::UnexpectedNull { identifier: i } && i@ == identifier
}

/// The first of `fields` with the identifier `identifier`, if any.
pub open spec fn field_by_identifier(fields: Seq<FieldInstance>, identifier: Seq<char>) -> Option<
    FieldInstance,
>
    decreases fields.len(),
{
    if fields.len() == 0 {
        None
    } else if fields[0].identifier@ == identifier {
        Some(fields[0])
    } else {
        field_by_identifier(fields.drop_first(), identifier)
    }
}

/// The value of the first of `fields` with the identifier `identifier`, if any.
pub open spec fn field_value_of(fields: Seq<FieldInstance>, identifier: Seq<char>) -> Option<
    FieldValue,
> {
    match field_by_identifier(fields, identifier) {
        Some(f) => Some(f.value),
        None => None,
    }
}

/// Convenience methods for accessing field instances.
///
/// Each method looks up the first field instance with the given identifier.
pub trait LdtkFields {
    /// The field instances of this item.
    spec fn field_instances_view(&self) -> Seq<FieldInstance>;

    /// Immutable accessor for this item's field instances.
    fn field_instances(&self) -> (fields: &[FieldInstance])
        ensures
            fields@ == self.field_instances_view(),
    ;

    /// This item's field instance for the given identifier.
    /// - returns [`LdtkFieldsError::FieldNotFound`] if no field has the identifier.
    fn get_field_instance(&self, identifier: &str) -> (r: Result<&FieldInstance, LdtkFieldsError>)
        ensures
            match field_by_identifier(self.field_instances_view(), identifier@) {
                None => r matches Err(e) && not_found(e, identifier@),
                Some(f) => r matches Ok(x) && *x == f,
            },
    {
        let fields = self.field_instances();
        let mut i: usize = 0;
        let wanted = identifier.to_owned();
        assert(fields@.skip(0) =~= fields@);
        while i < fields.len()
            invariant
                i <= fields@.len(),
                fields@ == self.field_instances_view(),
                wanted@ == identifier@,
                field_by_identifier(fields@, identifier@) == field_by_identifier(
                    fields@.skip(i as int),
                    identifier@,
                ),
            decreases fields@.len() - i,
        {
            assert(fields@.skip(i as int).drop_first() =~= fields@.skip(i + 1));
            assert(fields@.skip(i as int)[0] == fields@[i as int]);
            if fields[i].identifier == wanted {
                return Ok(&fields[i]);
            }
            i = i + 1;
        }
        Err(LdtkFieldsError::FieldNotFound { identifier: wanted })
    }

    /// This item's field value for the given identifier.
    /// - returns [`LdtkFieldsError::FieldNotFound`] if no field has the identifier.
    fn get_field(&self, identifier: &str) -> (r: Result<&FieldValue, LdtkFieldsError>)
        ensures
            match field_value_of(self.field_instances_view(), identifier@) {
                None => r matches Err(e) && not_found(e, identifier@),
                Some(v) => r matches Ok(x) && *x == v,
            },
    {
        match self.get_field_instance(identifier) {
            Ok(field) => Ok(&field.value),
            Err(e) => Err(e),
        }
    }

    /// This item's nullable Int field value for the given identifier.
    /// - returns [`LdtkFieldsError::WrongFieldType`] if the field is not [`FieldValue::Int`].
    fn get_maybe_int_field(&self, identifier: &str) -> (r: Result<&Option<i32>, LdtkFieldsError>)
        ensures
            match field_value_of(self.field_instances_view(), identifier@) {
            None => r matches Err(e) && not_found(e, identifier@),
                Some(FieldValue::Int(v)) => r matches Ok(x) && *x == v,
                Some(_) => r matches Err(e) && wrong_type(e, identifier@),
            },
    {
        match self.get_field(identifier) {
            Ok(FieldValue::Int(v)) => Ok(v),
            Ok(_) => Err(LdtkFieldsError::WrongFieldType { identifier: identifier.to_owned() }),
            Err(e) => Err(e),
        }
    }

    /// This item's non-null Int field value for the given identifier.
    /// - returns [`LdtkFieldsError::WrongFieldType`] if the field is not [`FieldValue::Int`].
    /// - returns [`LdtkFieldsError::UnexpectedNull`] if the field is null.
    fn get_int_field(&self, identifier: &str) -> (r: Result<&i32, LdtkFieldsError>)
        ensures
            match field_value_of(self.field_instances_view(), identifier@) {
            None => r matches Err(e) && not_found(e, identifier@),
                Some(FieldValue::Int(Some(v))) => r matches Ok(x) && *x == v,
                Some(FieldValue::Int(None)) => r matches Err(e) && unexpected_null(e, identifier@),
                Some(_) => r matches Err(e) && wrong_type(e, identifier@),
            },
    {
        match self.get_maybe_int_field(identifier) {
            Ok(Some(v)) => Ok(v),
            Ok(None) => Err(LdtkFieldsError::UnexpectedNull { identifier: identifier.to_owned() }),
            Err(e) => Err(e),
        }
    }

    /// This item's nullable Float field value for the given identifier.
    /// - returns [`LdtkFieldsError::WrongFieldType`] if the field is not [`FieldValue::Float`].
    fn get_maybe_float_field(&self, identifier: &str) -> (r: Result<&Option<u32>, LdtkFieldsError>)
        ensures
            match field_value_of(self.field_instances_view(), identifier@) {
            None => r matches Err(e) && not_found(e, identifier@),
                Some(FieldValue::Float(v)) => r matches Ok(x) && *x == v,
                Some(_) => r matches Err(e) && wrong_type(e, identifier@),
            },
    {
        match self.get_field(identifier) {
            Ok(FieldValue::Float(v)) => Ok(v),
            Ok(_) => Err(LdtkFieldsError::WrongFieldType { identifier: identifier.to_owned() }),
            Err(e) => Err(e),
        }
    }

    /// This item's non-null Float field value for the given identifier.
    /// - returns [`LdtkFieldsError::WrongFieldType`] if the field is not [`FieldValue::Float`].
    /// - returns [`LdtkFieldsError::UnexpectedNull`] if the field is null.
    fn get_float_field(&self, identifier: &str) -> (r: Result<&u32, LdtkFieldsError>)
        ensures
            match field_value_of(self.field_instances_view(), identifier@) {
            None => r matches Err(e) && not_found(e, identifier@),
                Some(FieldValue::Float(Some(v))) => r matches Ok(x) && *x == v,
                Some(FieldValue::Float(None)) => r matches Err(e) && unexpected_null(e, identifier@),
                Some(_) => r matches Err(e) && wrong_type(e, identifier@),
            },
    {
        match self.get_maybe_float_field(identifier) {
            Ok(Some(v)) => Ok(v),
            Ok(None) => Err(LdtkFieldsError::UnexpectedNull { identifier: identifier.to_owned() }),
            Err(e) => Err(e),
        }
    }

    /// This item's Bool field value for the given identifier.
    /// - returns [`LdtkFieldsError::WrongFieldType`] if the field is not [`FieldValue::Bool`].
    fn get_bool_field(&self, identifier: &str) -> (r: Result<&bool, LdtkFieldsError>)
        ensures
            match field_value_of(self.field_instances_view(), identifier@) {
            None => r matches Err(e) && not_found(e, identifier@),
                Some(FieldValue::Bool(v)) => r matches Ok(x) && *x == v,
                Some(_) => r matches Err(e) && wrong_type(e, identifier@),
            },
    {
        match self.get_field(identifier) {
            Ok(FieldValue::Bool(v)) => Ok(v),
            Ok(_) => Err(LdtkFieldsError::WrongFieldType { identifier: identifier.to_owned() }),
            Err(e) => Err(e),
        }
    }

    /// This item's nullable String field value for the given identifier.
    /// - returns [`LdtkFieldsError::WrongFieldType`] if the field is not [`FieldValue::String`].
    fn get_maybe_string_field(&self, identifier: &str) -> (r: Result<&Option<String>, LdtkFieldsError>)
        ensures
            match field_value_of(self.field_instances_view(), identifier@) {
            None => r matches Err(e) && not_found(e, identifier@),
                Some(FieldValue::String(v)) => r matches Ok(x) && *x == v,
                Some(_) => r matches Err(e) && wrong_type(e, identifier@),
            },
    {
        match self.get_field(identifier) {
            Ok(FieldValue::String(v)) => Ok(v),
            Ok(_) => Err(LdtkFieldsError::WrongFieldType { identifier: identifier.to_owned() }),
            Err(e) => Err(e),
        }
    }

    /// This item's non-null String field value for the given identifier.
    /// - returns [`LdtkFieldsError::WrongFieldType`] if the field is not [`FieldValue::String`].
    /// - returns [`LdtkFieldsError::UnexpectedNull`] if the field is null.
    fn get_string_field(&self, identifier: &str) -> (r: Result<&String, LdtkFieldsError>)
        ensures
            match field_value_of(self.field_instances_view(), identifier@) {
            None => r matches Err(e) && not_found(e, identifier@),
                Some(FieldValue::String(Some(v))) => r matches Ok(x) && *x == v,
                Some(FieldValue::String(None)) => r matches Err(e) && unexpected_null(e, identifier@),
                Some(_) => r matches Err(e) && wrong_type(e, identifier@),
            },
    {
        match self.get_maybe_string_field(identifier) {
            Ok(Some(v)) => Ok(v),
            Ok(None) => Err(LdtkFieldsError::UnexpectedNull { identifier: identifier.to_owned() }),
            Err(e) => Err(e),
        }
    }

    /// This item's Color field value for the given identifier.
    /// - returns [`LdtkFieldsError::WrongFieldType`] if the field is not [`FieldValue::Color`].
    fn get_color_field(&self, identifier: &str) -> (r: Result<&String, LdtkFieldsError>)
        ensures
            match field_value_of(self.field_instances_view(), identifier@) {
            None => r matches Err(e) && not_found(e, identifier@),
                Some(FieldValue::Color(v)) => r matches Ok(x) && *x == v,
                Some(_) => r matches Err(e) && wrong_type(e, identifier@),
            },
    {
        match self.get_field(identifier) {
            Ok(FieldValue::Color(v)) => Ok(v),
            Ok(_) => Err(LdtkFieldsError::WrongFieldType { identifier: identifier.to_owned() }),
            Err(e) => Err(e),
        }
    }

    /// This item's nullable FilePath field value for the given identifier.
    /// - returns [`LdtkFieldsError::WrongFieldType`] if the field is not [`FieldValue::FilePath`].
    fn get_maybe_file_path_field(&self, identifier: &str) -> (r: Result<&Option<String>, LdtkFieldsError>)
        ensures
            match field_value_of(self.field_instances_view(), identifier@) {
            None => r matches Err(e) && not_found(e, identifier@),
                Some(FieldValue::FilePath(v)) => r matches Ok(x) && *x == v,
                Some(_) => r matches Err(e) && wrong_type(e, identifier@),
            },
    {
        match self.get_field(identifier) {
            Ok(FieldValue::FilePath(v)) => Ok(v),
            Ok(_) => Err(LdtkFieldsError::WrongFieldType { identifier: identifier.to_owned() }),
            Err(e) => Err(e),
        }
    }

    /// This item's non-null FilePath field value for the given identifier.
    /// - returns [`LdtkFieldsError::WrongFieldType`] if the field is not [`FieldValue::FilePath`].
    /// - returns [`LdtkFieldsError::UnexpectedNull`] if the field is null.
    fn get_file_path_field(&self, identifier: &str) -> (r: Result<&String, LdtkFieldsError>)
        ensures
            match field_value_of(self.field_instances_view(), identifier@) {
            None => r matches Err(e) && not_found(e, identifier@),
                Some(FieldValue::FilePath(Some(v))) => r matches Ok(x) && *x == v,
                Some(FieldValue::FilePath(None)) => r matches Err(e) && unexpected_null(e, identifier@),
                Some(_) => r matches Err(e) && wrong_type(e, identifier@),
            },
    {
        match self.get_maybe_file_path_field(identifier) {
            Ok(Some(v)) => Ok(v),
            Ok(None) => Err(LdtkFieldsError::UnexpectedNull { identifier: identifier.to_owned() }),
            Err(e) => Err(e),
        }
    }

    /// This item's nullable Enum field value for the given identifier.
    /// - returns [`LdtkFieldsError::WrongFieldType`] if the field is not [`FieldValue::Enum`].
    fn get_maybe_enum_field(&self, identifier: &str) -> (r: Result<&Option<String>, LdtkFieldsError>)
        ensures
            match field_value_of(self.field_instances_view(), identifier@) {
            None => r matches Err(e) && not_found(e, identifier@),
                Some(FieldValue::Enum(v)) => r matches Ok(x) && *x == v,
                Some(_) => r matches Err(e) && wrong_type(e, identifier@),
            },
    {
        match self.get_field(identifier) {
            Ok(FieldValue::Enum(v)) => Ok(v),
            Ok(_) => Err(LdtkFieldsError::WrongFieldType { identifier: identifier.to_owned() }),
            Err(e) => Err(e),
        }
    }

    /// This item's non-null Enum field value for the given identifier.
    /// - returns [`LdtkFieldsError::WrongFieldType`] if the field is not [`FieldValue::Enum`].
    /// - returns [`LdtkFieldsError::UnexpectedNull`] if the field is null.
    fn get_enum_field(&self, identifier: &str) -> (r: Result<&String, LdtkFieldsError>)
        ensures
            match field_value_of(self.field_instances_view(), identifier@) {
            None => r matches Err(e) && not_found(e, identifier@),
                Some(FieldValue::Enum(Some(v))) => r matches Ok(x) && *x == v,
                Some(FieldValue::Enum(None)) => r matches Err(e) && unexpected_null(e, identifier@),
                Some(_) => r matches Err(e) && wrong_type(e, identifier@),
            },
    {
        match self.get_maybe_enum_field(identifier) {
            Ok(Some(v)) => Ok(v),
            Ok(None) => Err(LdtkFieldsError::UnexpectedNull { identifier: identifier.to_owned() }),
            Err(e) => Err(e),
        }
    }

    /// This item's nullable Tile field value for the given identifier.
    /// - returns [`LdtkFieldsError::WrongFieldType`] if the field is not [`FieldValue::Tile`].
    fn get_maybe_tile_field(&self, identifier: &str) -> (r: Result<&Option<TilesetRectangle>, LdtkFieldsError>)
        ensures
            match field_value_of(self.field_instances_view(), identifier@) {
            None => r matches Err(e) && not_found(e, identifier@),
                Some(FieldValue::Tile(v)) => r matches Ok(x) && *x == v,
                Some(_) => r matches Err(e) && wrong_type(e, identifier@),
            },
    {
        match self.get_field(identifier) {
            Ok(FieldValue::Tile(v)) => Ok(v),
            Ok(_) => Err(LdtkFieldsError::WrongFieldType { identifier: identifier.to_owned() }),
            Err(e) => Err(e),
        }
    }

    /// This item's non-null Tile field value for the given identifier.
    /// - returns [`LdtkFieldsError::WrongFieldType`] if the field is not [`FieldValue::Tile`].
    /// - returns [`LdtkFieldsError::UnexpectedNull`] if the field is null.
    fn get_tile_field(&self, identifier: &str) -> (r: Result<&TilesetRectangle, LdtkFieldsError>)
        ensures
            match field_value_of(self.field_instances_view(), identifier@) {
            None => r matches Err(e) && not_found(e, identifier@),
                Some(FieldValue::Tile(Some(v))) => r matches Ok(x) && *x == v,
                Some(FieldValue::Tile(None)) => r matches Err(e) && unexpected_null(e, identifier@),
                Some(_) => r matches Err(e) && wrong_type(e, identifier@),
            },
    {
        match self.get_maybe_tile_field(identifier) {
            Ok(Some(v)) => Ok(v),
            Ok(None) => Err(LdtkFieldsError::UnexpectedNull { identifier: identifier.to_owned() }),
            Err(e) => Err(e),
        }
    }

    /// This item's nullable EntityRef field value for the given identifier.
    /// - returns [`LdtkFieldsError::WrongFieldType`] if the field is not [`FieldValue::EntityRef`].
    fn get_maybe_entity_ref_field(&self, identifier: &str) -> (r: Result<&Option<FieldInstanceEntityReference>, LdtkFieldsError>)
        ensures
            match field_value_of(self.field_instances_view(), identifier@) {
            None => r matches Err(e) && not_found(e, identifier@),
                Some(FieldValue::EntityRef(v)) => r matches Ok(x) && *x == v,
                Some(_) => r matches Err(e) && wrong_type(e, identifier@),
            },
    {
        match self.get_field(identifier) {
            Ok(FieldValue::EntityRef(v)) => Ok(v),
            Ok(_) => Err(LdtkFieldsError::WrongFieldType { identifier: identifier.to_owned() }),
            Err(e) => Err(e),
        }
    }

    /// This item's non-null EntityRef field value for the given identifier.
    /// - returns [`LdtkFieldsError::WrongFieldType`] if the field is not [`FieldValue::EntityRef`].
    /// - returns [`LdtkFieldsError::UnexpectedNull`] if the field is null.
    fn get_entity_ref_field(&self, identifier: &str) -> (r: Result<&FieldInstanceEntityReference, LdtkFieldsError>)
        ensures
            match field_value_of(self.field_instances_view(), identifier@) {
            None => r matches Err(e) && not_found(e, identifier@),
                Some(FieldValue::EntityRef(Some(v))) => r matches Ok(x) && *x == v,
                Some(FieldValue::EntityRef(None)) => r matches Err(e) && unexpected_null(e, identifier@),
                Some(_) => r matches Err(e) && wrong_type(e, identifier@),
            },
    {
        match self.get_maybe_entity_ref_field(identifier) {
            Ok(Some(v)) => Ok(v),
            Ok(None) => Err(LdtkFieldsError::UnexpectedNull { identifier: identifier.to_owned() }),
            Err(e) => Err(e),
        }
    }

    /// This item's nullable Point field value for the given identifier.
    /// - returns [`LdtkFieldsError::WrongFieldType`] if the field is not [`FieldValue::Point`].
    fn get_maybe_point_field(&self, identifier: &str) -> (r: Result<&Option<IVec2>, LdtkFieldsError>)
        ensures
            match field_value_of(self.field_instances_view(), identifier@) {
            None => r matches Err(e) && not_found(e, identifier@),
                Some(FieldValue::Point(v)) => r matches Ok(x) && *x == v,
                Some(_) => r matches Err(e) && wrong_type(e, identifier@),
            },
    {
        match self.get_field(identifier) {
            Ok(FieldValue::Point(v)) => Ok(v),
            Ok(_) => Err(LdtkFieldsError::WrongFieldType { identifier: identifier.to_owned() }),
            Err(e) => Err(e),
        }
    }

    /// This item's non-null Point field value for the given identifier.
    /// - returns [`LdtkFieldsError::WrongFieldType`] if the field is not [`FieldValue::Point`].
    /// - returns [`LdtkFieldsError::UnexpectedNull`] if the field is null.
    fn get_point_field(&self, identifier: &str) -> (r: Result<&IVec2, LdtkFieldsError>)
        ensures
            match field_value_of(self.field_instances_view(), identifier@) {
            None => r matches Err(e) && not_found(e, identifier@),
                Some(FieldValue::Point(Some(v))) => r matches Ok(x) && *x == v,
                Some(FieldValue::Point(None)) => r matches Err(e) && unexpected_null(e, identifier@),
                Some(_) => r matches Err(e) && wrong_type(e, identifier@),
            },
    {
        match self.get_maybe_point_field(identifier) {
            Ok(Some(v)) => Ok(v),
            Ok(None) => Err(LdtkFieldsError::UnexpectedNull { identifier: identifier.to_owned() }),
            Err(e) => Err(e),
        }
    }

    /// This item's nullable Ints field values for the given identifier.
    /// - returns [`LdtkFieldsError::WrongFieldType`] if the field is not [`FieldValue::Ints`].
    fn get_maybe_ints_field(&self, identifier: &str) -> (r: Result<&[Option<i32>], LdtkFieldsError>)
        ensures
            match field_value_of(self.field_instances_view(), identifier@) {
            None => r matches Err(e) && not_found(e, identifier@),
                Some(FieldValue::Ints(v)) => r matches Ok(x) && x@ == v@,
                Some(_) => r matches Err(e) && wrong_type(e, identifier@),
            },
    {
        match self.get_field(identifier) {
            Ok(FieldValue::Ints(v)) => Ok(v.as_slice()),
            Ok(_) => Err(LdtkFieldsError::WrongFieldType { identifier: identifier.to_owned() }),
            Err(e) => Err(e),
        }
    }

    /// Iterate over this item's non-null Ints field values for the given identifier.
    /// - returns [`LdtkFieldsError::WrongFieldType`] if the field is not [`FieldValue::Ints`].
    /// - returns [`LdtkFieldsError::UnexpectedNull`] if any of the values is null.
    fn iter_ints_field(&self, identifier: &str) -> (r: Result<AllSomeIter<i32>, LdtkFieldsError>)
        ensures
            match field_value_of(self.field_instances_view(), identifier@) {
            None => r matches Err(e) && not_found(e, identifier@),
                Some(FieldValue::Ints(v)) => if all_some(v@) {
                    r matches Ok(it) && it.remaining() == unwrap_all(v@)
                } else {
                    r matches Err(e) && unexpected_null(e, identifier@)
                },
                Some(_) => r matches Err(e) && wrong_type(e, identifier@),
            },
    {
        let values = match self.get_maybe_ints_field(identifier) {
            Ok(values) => values,
            Err(e) => return Err(e),
        };
        match AllSomeIter::try_from(values) {
            Ok(it) => Ok(it),
            Err(_) => Err(LdtkFieldsError::UnexpectedNull { identifier: identifier.to_owned() }),
        }
    }

    /// This item's nullable Floats field values for the given identifier.
    /// - returns [`LdtkFieldsError::WrongFieldType`] if the field is not [`FieldValue::Floats`].
    fn get_maybe_floats_field(&self, identifier: &str) -> (r: Result<&[Option<u32>], LdtkFieldsError>)
        ensures
            match field_value_of(self.field_instances_view(), identifier@) {
            None => r matches Err(e) && not_found(e, identifier@),
                Some(FieldValue::Floats(v)) => r matches Ok(x) && x@ == v@,
                Some(_) => r matches Err(e) && wrong_type(e, identifier@),
            },
    {
        match self.get_field(identifier) {
            Ok(FieldValue::Floats(v)) => Ok(v.as_slice()),
            Ok(_) => Err(LdtkFieldsError::WrongFieldType { identifier: identifier.to_owned() }),
            Err(e) => Err(e),
        }
    }

    /// Iterate over this item's non-null Floats field values for the given identifier.
    /// - returns [`LdtkFieldsError::WrongFieldType`] if the field is not [`FieldValue::Floats`].
    /// - returns [`LdtkFieldsError::UnexpectedNull`] if any of the values is null.
    fn iter_floats_field(&self, identifier: &str) -> (r: Result<AllSomeIter<u32>, LdtkFieldsError>)
        ensures
            match field_value_of(self.field_instances_view(), identifier@) {
            None => r matches Err(e) && not_found(e, identifier@),
                Some(FieldValue::Floats(v)) => if all_some(v@) {
                    r matches Ok(it) && it.remaining() == unwrap_all(v@)
                } else {
                    r matches Err(e) && unexpected_null(e, identifier@)
                },
                Some(_) => r matches Err(e) && wrong_type(e, identifier@),
            },
    {
        let values = match self.get_maybe_floats_field(identifier) {
            Ok(values) => values,
            Err(e) => return Err(e),
        };
        match AllSomeIter::try_from(values) {
            Ok(it) => Ok(it),
            Err(_) => Err(LdtkFieldsError::UnexpectedNull { identifier: identifier.to_owned() }),
        }
    }

    /// This item's Bools field value for the given identifier.
    /// - returns [`LdtkFieldsError::WrongFieldType`] if the field is not [`FieldValue::Bools`].
    fn get_bools_field(&self, identifier: &str) -> (r: Result<&[bool], LdtkFieldsError>)
        ensures
            match field_value_of(self.field_instances_view(), identifier@) {
            None => r matches Err(e) && not_found(e, identifier@),
                Some(FieldValue::Bools(v)) => r matches Ok(x) && x@ == v@,
                Some(_) => r matches Err(e) && wrong_type(e, identifier@),
            },
    {
        match self.get_field(identifier) {
            Ok(FieldValue::Bools(v)) => Ok(v.as_slice()),
            Ok(_) => Err(LdtkFieldsError::WrongFieldType { identifier: identifier.to_owned() }),
            Err(e) => Err(e),
        }
    }

    /// This item's nullable Strings field values for the given identifier.
    /// - returns [`LdtkFieldsError::WrongFieldType`] if the field is not [`FieldValue::Strings`].
    fn get_maybe_strings_field(&self, identifier: &str) -> (r: Result<&[Option<String>], LdtkFieldsError>)
        ensures
            match field_value_of(self.field_instances_view(), identifier@) {
            None => r matches Err(e) && not_found(e, identifier@),
                Some(FieldValue::Strings(v)) => r matches Ok(x) && x@ == v@,
                Some(_) => r matches Err(e) && wrong_type(e, identifier@),
            },
    {
        match self.get_field(identifier) {
            Ok(FieldValue::Strings(v)) => Ok(v.as_slice()),
            Ok(_) => Err(LdtkFieldsError::WrongFieldType { identifier: identifier.to_owned() }),
            Err(e) => Err(e),
        }
    }

    /// Iterate over this item's non-null Strings field values for the given identifier.
    /// - returns [`LdtkFieldsError::WrongFieldType`] if the field is not [`FieldValue::Strings`].
    /// - returns [`LdtkFieldsError::UnexpectedNull`] if any of the values is null.
    fn iter_strings_field(&self, identifier: &str) -> (r: Result<AllSomeIter<String>, LdtkFieldsError>)
        ensures
            match field_value_of(self.field_instances_view(), identifier@) {
            None => r matches Err(e) && not_found(e, identifier@),
                Some(FieldValue::Strings(v)) => if all_some(v@) {
                    r matches Ok(it) && it.remaining() == unwrap_all(v@)
                } else {
                    r matches Err(e) && unexpected_null(e, identifier@)
                },
                Some(_) => r matches Err(e) && wrong_type(e, identifier@),
            },
    {
        let values = match self.get_maybe_strings_field(identifier) {
            Ok(values) => values,
            Err(e) => return Err(e),
        };
        match AllSomeIter::try_from(values) {
            Ok(it) => Ok(it),
            Err(_) => Err(LdtkFieldsError::UnexpectedNull { identifier: identifier.to_owned() }),
        }
    }

    /// This item's Colors field value for the given identifier.
    /// - returns [`LdtkFieldsError::WrongFieldType`] if the field is not [`FieldValue::Colors`].
    fn get_colors_field(&self, identifier: &str) -> (r: Result<&[String], LdtkFieldsError>)
        ensures
            match field_value_of(self.field_instances_view(), identifier@) {
            None => r matches Err(e) && not_found(e, identifier@),
                Some(FieldValue::Colors(v)) => r matches Ok(x) && x@ == v@,
                Some(_) => r matches Err(e) && wrong_type(e, identifier@),
            },
    {
        match self.get_field(identifier) {
            Ok(FieldValue::Colors(v)) => Ok(v.as_slice()),
            Ok(_) => Err(LdtkFieldsError::WrongFieldType { identifier: identifier.to_owned() }),
            Err(e) => Err(e),
        }
    }

    /// This item's nullable FilePaths field values for the given identifier.
    /// - returns [`LdtkFieldsError::WrongFieldType`] if the field is not [`FieldValue::FilePaths`].
    fn get_maybe_file_paths_field(&self, identifier: &str) -> (r: Result<&[Option<String>], LdtkFieldsError>)
        ensures
            match field_value_of(self.field_instances_view(), identifier@) {
            None => r matches Err(e) && not_found(e, identifier@),
                Some(FieldValue::FilePaths(v)) => r matches Ok(x) && x@ == v@,
                Some(_) => r matches Err(e) && wrong_type(e, identifier@),
            },
    {
        match self.get_field(identifier) {
            Ok(FieldValue::FilePaths(v)) => Ok(v.as_slice()),
            Ok(_) => Err(LdtkFieldsError::WrongFieldType { identifier: identifier.to_owned() }),
            Err(e) => Err(e),
        }
    }

    /// Iterate over this item's non-null FilePaths field values for the given identifier.
    /// - returns [`LdtkFieldsError::WrongFieldType`] if the field is not [`FieldValue::FilePaths`].
    /// - returns [`LdtkFieldsError::UnexpectedNull`] if any of the values is null.
    fn iter_file_paths_field(&self, identifier: &str) -> (r: Result<AllSomeIter<String>, LdtkFieldsError>)
        ensures
            match field_value_of(self.field_instances_view(), identifier@) {
            None => r matches Err(e) && not_found(e, identifier@),
                Some(FieldValue::FilePaths(v)) => if all_some(v@) {
                    r matches Ok(it) && it.remaining() == unwrap_all(v@)
                } else {
                    r matches Err(e) && unexpected_null(e, identifier@)
                },
                Some(_) => r matches Err(e) && wrong_type(e, identifier@),
            },
    {
        let values = match self.get_maybe_file_paths_field(identifier) {
            Ok(values) => values,
            Err(e) => return Err(e),
        };
        match AllSomeIter::try_from(values) {
            Ok(it) => Ok(it),
            Err(_) => Err(LdtkFieldsError::UnexpectedNull { identifier: identifier.to_owned() }),
        }
    }

    /// This item's nullable Enums field values for the given identifier.
    /// - returns [`LdtkFieldsError::WrongFieldType`] if the field is not [`FieldValue::Enums`].
    fn get_maybe_enums_field(&self, identifier: &str) -> (r: Result<&[Option<String>], LdtkFieldsError>)
        ensures
            match field_value_of(self.field_instances_view(), identifier@) {
            None => r matches Err(e) && not_found(e, identifier@),
                Some(FieldValue::Enums(v)) => r matches Ok(x) && x@ == v@,
                Some(_) => r matches Err(e) && wrong_type(e, identifier@),
            },
    {
        match self.get_field(identifier) {
            Ok(FieldValue::Enums(v)) => Ok(v.as_slice()),
            Ok(_) => Err(LdtkFieldsError::WrongFieldType { identifier: identifier.to_owned() }),
            Err(e) => Err(e),
        }
    }

    /// Iterate over this item's non-null Enums field values for the given identifier.
    /// - returns [`LdtkFieldsError::WrongFieldType`] if the field is not [`FieldValue::Enums`].
    /// - returns [`LdtkFieldsError::UnexpectedNull`] if any of the values is null.
    fn iter_enums_field(&self, identifier: &str) -> (r: Result<AllSomeIter<String>, LdtkFieldsError>)
        ensures
            match field_value_of(self.field_instances_view(), identifier@) {
            None => r matches Err(e) && not_found(e, identifier@),
                Some(FieldValue::Enums(v)) => if all_some(v@) {
                    r matches Ok(it) && it.remaining() == unwrap_all(v@)
                } else {
                    r matches Err(e) && unexpected_null(e, identifier@)
                },
                Some(_) => r matches Err(e) && wrong_type(e, identifier@),
            },
    {
        let values = match self.get_maybe_enums_field(identifier) {
            Ok(values) => values,
            Err(e) => return Err(e),
        };
        match AllSomeIter::try_from(values) {
            Ok(it) => Ok(it),
            Err(_) => Err(LdtkFieldsError::UnexpectedNull { identifier: identifier.to_owned() }),
        }
    }

    /// This item's nullable Tiles field values for the given identifier.
    /// - returns [`LdtkFieldsError::WrongFieldType`] if the field is not [`FieldValue::Tiles`].
    fn get_maybe_tiles_field(&self, identifier: &str) -> (r: Result<&[Option<TilesetRectangle>], LdtkFieldsError>)
        ensures
            match field_value_of(self.field_instances_view(), identifier@) {
            None => r matches Err(e) && not_found(e, identifier@),
                Some(FieldValue::Tiles(v)) => r matches Ok(x) && x@ == v@,
                Some(_) => r matches Err(e) && wrong_type(e, identifier@),
            },
    {
        match self.get_field(identifier) {
            Ok(FieldValue::Tiles(v)) => Ok(v.as_slice()),
            Ok(_) => Err(LdtkFieldsError::WrongFieldType { identifier: identifier.to_owned() }),
            Err(e) => Err(e),
        }
    }

    /// Iterate over this item's non-null Tiles field values for the given identifier.
    /// - returns [`LdtkFieldsError::WrongFieldType`] if the field is not [`FieldValue::Tiles`].
    /// - returns [`LdtkFieldsError::UnexpectedNull`] if any of the values is null.
    fn iter_tiles_field(&self, identifier: &str) -> (r: Result<AllSomeIter<TilesetRectangle>, LdtkFieldsError>)
        ensures
            match field_value_of(self.field_instances_view(), identifier@) {
            None => r matches Err(e) && not_found(e, identifier@),
                Some(FieldValue::Tiles(v)) => if all_some(v@) {
                    r matches Ok(it) && it.remaining() == unwrap_all(v@)
                } else {
                    r matches Err(e) && unexpected_null(e, identifier@)
                },
                Some(_) => r matches Err(e) && wrong_type(e, identifier@),
            },
    {
        let values = match self.get_maybe_tiles_field(identifier) {
            Ok(values) => values,
            Err(e) => return Err(e),
        };
        match AllSomeIter::try_from(values) {
            Ok(it) => Ok(it),
            Err(_) => Err(LdtkFieldsError::UnexpectedNull { identifier: identifier.to_owned() }),
        }
    }

    /// This item's nullable EntityRefs field values for the given identifier.
    /// - returns [`LdtkFieldsError::WrongFieldType`] if the field is not [`FieldValue::EntityRefs`].
    fn get_maybe_entity_refs_field(&self, identifier: &str) -> (r: Result<&[Option<FieldInstanceEntityReference>], LdtkFieldsError>)
        ensures
            match field_value_of(self.field_instances_view(), identifier@) {
            None => r matches Err(e) && not_found(e, identifier@),
                Some(FieldValue::EntityRefs(v)) => r matches Ok(x) && x@ == v@,
                Some(_) => r matches Err(e) && wrong_type(e, identifier@),
            },
    {
        match self.get_field(identifier) {
            Ok(FieldValue::EntityRefs(v)) => Ok(v.as_slice()),
            Ok(_) => Err(LdtkFieldsError::WrongFieldType { identifier: identifier.to_owned() }),
            Err(e) => Err(e),
        }
    }

    /// Iterate over this item's non-null EntityRefs field values for the given identifier.
    /// - returns [`LdtkFieldsError::WrongFieldType`] if the field is not [`FieldValue::EntityRefs`].
    /// - returns [`LdtkFieldsError::UnexpectedNull`] if any of the values is null.
    fn iter_entity_refs_field(&self, identifier: &str) -> (r: Result<AllSomeIter<FieldInstanceEntityReference>, LdtkFieldsError>)
        ensures
            match field_value_of(self.field_instances_view(), identifier@) {
            None => r matches Err(e) && not_found(e, identifier@),
                Some(FieldValue::EntityRefs(v)) => if all_some(v@) {
                    r matches Ok(it) && it.remaining() == unwrap_all(v@)
                } else {
                    r matches Err(e) && unexpected_null(e, identifier@)
                },
                Some(_) => r matches Err(e) && wrong_type(e, identifier@),
            },
    {
        let values = match self.get_maybe_entity_refs_field(identifier) {
            Ok(values) => values,
            Err(e) => return Err(e),
        };
        match AllSomeIter::try_from(values) {
            Ok(it) => Ok(it),
            Err(_) => Err(LdtkFieldsError::UnexpectedNull { identifier: identifier.to_owned() }),
        }
    }

    /// This item's nullable Points field values for the given identifier.
    /// - returns [`LdtkFieldsError::WrongFieldType`] if the field is not [`FieldValue::Points`].
    fn get_maybe_points_field(&self, identifier: &str) -> (r: Result<&[Option<IVec2>], LdtkFieldsError>)
        ensures
            match field_value_of(self.field_instances_view(), identifier@) {
            None => r matches Err(e) && not_found(e, identifier@),
                Some(FieldValue::Points(v)) => r matches Ok(x) && x@ == v@,
                Some(_) => r matches Err(e) && wrong_type(e, identifier@),
            },
    {
        match self.get_field(identifier) {
            Ok(FieldValue::Points(v)) => Ok(v.as_slice()),
            Ok(_) => Err(LdtkFieldsError::WrongFieldType { identifier: identifier.to_owned() }),
            Err(e) => Err(e),
        }
    }

    /// Iterate over this item's non-null Points field values for the given identifier.
    /// - returns [`LdtkFieldsError::WrongFieldType`] if the field is not [`FieldValue::Points`].
    /// - returns [`LdtkFieldsError::UnexpectedNull`] if any of the values is null.
    fn iter_points_field(&self, identifier: &str) -> (r: Result<AllSomeIter<IVec2>, LdtkFieldsError>)
        ensures
            match field_value_of(self.field_instances_view(), identifier@) {
            None => r matches Err(e) && not_found(e, identifier@),
                Some(FieldValue::Points(v)) => if all_some(v@) {
                    r matches Ok(it) && it.remaining() == unwrap_all(v@)
                } else {
                    r matches Err(e) && unexpected_null(e, identifier@)
                },
                Some(_) => r matches Err(e) && wrong_type(e, identifier@),
            },
    {
        let values = match self.get_maybe_points_field(identifier) {
            Ok(values) => values,
            Err(e) => return Err(e),
        };
        match AllSomeIter::try_from(values) {
            Ok(it) => Ok(it),
            Err(_) => Err(LdtkFieldsError::UnexpectedNull { identifier: identifier.to_owned() }),
        }
    }
}

impl LdtkFields for EntityInstance {
    open spec fn field_instances_view(&self) -> Seq<FieldInstance> {
        self.field_instances@
    }

    fn field_instances(&self) -> (fields: &[FieldInstance]) {
        self.field_instances.as_slice()
    }
}

impl LdtkFields for Level {
    open spec fn field_instances_view(&self) -> Seq<FieldInstance> {
        self.field_instances@
    }

    fn field_instances(&self) -> (fields: &[FieldInstance]) {
        self.field_instances.as_slice()
    }
}

} // verus!
