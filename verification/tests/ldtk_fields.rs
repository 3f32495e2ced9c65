use bevy_ecs_ldtk::ldtk::ldtk_fields::{LdtkFields, LdtkFieldsError};
use bevy_ecs_ldtk::ldtk::{
    EntityInstance, FieldInstance, FieldInstanceEntityReference, FieldValue, IVec2,
    TilesetRectangle,
};

fn field_instance_from_value(identifier: &str, value: FieldValue) -> FieldInstance {
    FieldInstance {
        identifier: identifier.to_string(),
        value,
        field_instance_type: "".to_string(),
        tile: None,
        def_uid: 0,
    }
}

fn sample_entity() -> EntityInstance {
    let mut entity = EntityInstance::default();
    entity.field_instances = vec![
        field_instance_from_value("IntNone", FieldValue::Int(None)),
        field_instance_from_value("IntSome", FieldValue::Int(Some(0))),
        field_instance_from_value("FloatNone", FieldValue::Float(None)),
        field_instance_from_value("FloatSome", FieldValue::Float(Some(1.0f32.to_bits()))),
        field_instance_from_value("Bool", FieldValue::Bool(true)),
        field_instance_from_value("StringNone", FieldValue::String(None)),
        field_instance_from_value("StringSome", FieldValue::String(Some("two".to_string()))),
        field_instance_from_value("Color", FieldValue::Color("#000000".to_string())),
        field_instance_from_value("FilePathNone", FieldValue::FilePath(None)),
        field_instance_from_value("FilePathSome", FieldValue::FilePath(Some("three".to_string()))),
        field_instance_from_value("EnumNone", FieldValue::Enum(None)),
        field_instance_from_value("EnumSome", FieldValue::Enum(Some("Four".to_string()))),
        field_instance_from_value("TileNone", FieldValue::Tile(None)),
        field_instance_from_value("TileSome", FieldValue::Tile(Some(TilesetRectangle::default()))),
        field_instance_from_value("EntityRefNone", FieldValue::EntityRef(None)),
        field_instance_from_value(
            "EntityRefSome",
            FieldValue::EntityRef(Some(FieldInstanceEntityReference::default())),
        ),
        field_instance_from_value("PointNone", FieldValue::Point(None)),
        field_instance_from_value("PointSome", FieldValue::Point(Some(IVec2::default()))),
        field_instance_from_value("IntsNullable", FieldValue::Ints(vec![None, Some(5)])),
        field_instance_from_value("Ints", FieldValue::Ints(vec![Some(6), Some(7)])),
        field_instance_from_value(
            "FloatsNullable",
            FieldValue::Floats(vec![None, Some(8.0f32.to_bits())]),
        ),
        field_instance_from_value(
            "Floats",
            FieldValue::Floats(vec![Some(9.0f32.to_bits()), Some(10.0f32.to_bits())]),
        ),
        field_instance_from_value("Bools", FieldValue::Bools(vec![false, true])),
        field_instance_from_value(
            "StringsNullable",
            FieldValue::Strings(vec![None, Some("eleven".to_string())]),
        ),
        field_instance_from_value(
            "Strings",
            FieldValue::Strings(vec![Some("twelve".to_string()), Some("thirteen".to_string())]),
        ),
        field_instance_from_value(
            "Colors",
            FieldValue::Colors(vec!["#000000".to_string(), "#ffffff".to_string()]),
        ),
        field_instance_from_value(
            "EnumsNullable",
            FieldValue::Enums(vec![None, Some("Seventeen".to_string())]),
        ),
        field_instance_from_value(
            "Enums",
            FieldValue::Enums(vec![Some("Eighteen".to_string()), Some("Nineteen".to_string())]),
        ),
        field_instance_from_value("PointsNullable", FieldValue::Points(vec![None, Some(IVec2::new(1, 2))])),
        field_instance_from_value("Points", FieldValue::Points(vec![Some(IVec2::new(3, 4))])),
        field_instance_from_value(
            "FilePaths",
            FieldValue::FilePaths(vec![Some("a.png".to_string()), Some("b.png".to_string())]),
        ),
        field_instance_from_value("IntSome", FieldValue::Int(Some(100))),
    ];
    entity
}

fn not_found(identifier: &str) -> LdtkFieldsError {
    LdtkFieldsError::FieldNotFound {
        identifier: identifier.to_string(),
    }
}

fn wrong_type(identifier: &str) -> LdtkFieldsError {
    LdtkFieldsError::WrongFieldType {
        identifier: identifier.to_string(),
    }
}

fn unexpected_null(identifier: &str) -> LdtkFieldsError {
    LdtkFieldsError::UnexpectedNull {
        identifier: identifier.to_string(),
    }
}

#[test]
fn get_field_instance_finds_the_first_field_with_the_identifier() {
    let entity = sample_entity();
    assert_eq!(
        entity.get_field_instance("IntSome").unwrap().value,
        FieldValue::Int(Some(0))
    );
    assert_eq!(
        entity.get_field_instance("Missing"),
        Err(not_found("Missing"))
    );
    assert_eq!(entity.get_field("Bool"), Ok(&FieldValue::Bool(true)));
}

#[test]
fn singular_field_getters() {
    let entity = sample_entity();

    assert_eq!(entity.get_maybe_int_field("IntNone"), Ok(&None));
    assert_eq!(entity.get_int_field("IntSome"), Ok(&0));
    assert_eq!(entity.get_int_field("IntNone"), Err(unexpected_null("IntNone")));
    assert_eq!(entity.get_int_field("Bool"), Err(wrong_type("Bool")));
    assert_eq!(entity.get_int_field("Missing"), Err(not_found("Missing")));

    assert_eq!(entity.get_float_field("FloatSome"), Ok(&1.0f32.to_bits()));
    assert_eq!(
        entity.get_float_field("FloatNone"),
        Err(unexpected_null("FloatNone"))
    );
    assert_eq!(entity.get_bool_field("Bool"), Ok(&true));
    assert_eq!(entity.get_bool_field("IntSome"), Err(wrong_type("IntSome")));
    assert_eq!(entity.get_string_field("StringSome"), Ok(&"two".to_string()));
    assert_eq!(entity.get_maybe_string_field("StringNone"), Ok(&None));
    assert_eq!(entity.get_color_field("Color"), Ok(&"#000000".to_string()));
    assert_eq!(
        entity.get_file_path_field("FilePathSome"),
        Ok(&"three".to_string())
    );
    assert_eq!(entity.get_enum_field("EnumSome"), Ok(&"Four".to_string()));
    assert_eq!(
        entity.get_enum_field("EnumNone"),
        Err(unexpected_null("EnumNone"))
    );
    assert_eq!(
        entity.get_tile_field("TileSome"),
        Ok(&TilesetRectangle::default())
    );
    assert_eq!(
        entity.get_entity_ref_field("EntityRefSome"),
        Ok(&FieldInstanceEntityReference::default())
    );
    assert_eq!(entity.get_maybe_entity_ref_field("EntityRefNone"), Ok(&None));
    assert_eq!(entity.get_point_field("PointSome"), Ok(&IVec2::default()));
    assert_eq!(
        entity.get_point_field("PointNone"),
        Err(unexpected_null("PointNone"))
    );
    assert_eq!(
        entity.get_string_field("FilePathSome"),
        Err(wrong_type("FilePathSome"))
    );
}

#[test]
fn plural_field_getters() {
    let entity = sample_entity();

    assert_eq!(
        entity.get_maybe_ints_field("IntsNullable"),
        Ok(&[None, Some(5)][..])
    );
    let mut ints = entity.iter_ints_field("Ints").unwrap();
    assert_eq!(ints.next(), Some(&6));
    assert_eq!(ints.next(), Some(&7));
    assert_eq!(ints.next(), None);
    assert!(matches!(
        entity.iter_ints_field("IntsNullable"),
        Err(LdtkFieldsError::UnexpectedNull { .. })
    ));

    let mut floats = entity.iter_floats_field("Floats").unwrap();
    assert_eq!(floats.next(), Some(&9.0f32.to_bits()));
    assert_eq!(entity.get_bools_field("Bools"), Ok(&[false, true][..]));
    assert_eq!(
        entity.get_colors_field("Colors"),
        Ok(&["#000000".to_string(), "#ffffff".to_string()][..])
    );

    let mut strings = entity.iter_strings_field("Strings").unwrap();
    assert_eq!(strings.next(), Some(&"twelve".to_string()));
    assert_eq!(strings.next(), Some(&"thirteen".to_string()));
    assert_eq!(strings.next(), None);

    let mut enums = entity.iter_enums_field("Enums").unwrap();
    assert_eq!(enums.next(), Some(&"Eighteen".to_string()));
    assert!(matches!(
        entity.iter_enums_field("EnumsNullable"),
        Err(LdtkFieldsError::UnexpectedNull { .. })
    ));

    let mut points = entity.iter_points_field("Points").unwrap();
    assert_eq!(points.next(), Some(&IVec2::new(3, 4)));
    assert_eq!(points.next(), None);

    assert!(matches!(
        entity.iter_tiles_field("Points"),
        Err(LdtkFieldsError::WrongFieldType { .. })
    ));
    let mut file_paths = entity.iter_file_paths_field("FilePaths").unwrap();
    assert_eq!(file_paths.next(), Some(&"a.png".to_string()));
    assert_eq!(file_paths.next(), Some(&"b.png".to_string()));
    assert_eq!(file_paths.next(), None);
    assert!(matches!(
        entity.iter_file_paths_field("Missing"),
        Err(LdtkFieldsError::FieldNotFound { .. })
    ));
}
