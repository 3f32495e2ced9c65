use bevy_ecs_ldtk::ldtk::field_instance::{
    field_value_kind, field_value_kind_from_matches, FieldValueKind,
};

#[test]
fn exact_field_types_are_recognized() {
    let cases = [
        ("Int", FieldValueKind::Int),
        ("Float", FieldValueKind::Float),
        ("Bool", FieldValueKind::Bool),
        ("String", FieldValueKind::String),
        ("Multilines", FieldValueKind::String),
        ("Color", FieldValueKind::Color),
        ("FilePath", FieldValueKind::FilePath),
        ("Tile", FieldValueKind::Tile),
        ("EntityRef", FieldValueKind::EntityRef),
        ("Point", FieldValueKind::Point),
        ("Array<Int>", FieldValueKind::Ints),
        ("Array<Float>", FieldValueKind::Floats),
        ("Array<Bool>", FieldValueKind::Bools),
        ("Array<String>", FieldValueKind::Strings),
        ("Array<Multilines>", FieldValueKind::Strings),
        ("Array<FilePath>", FieldValueKind::FilePaths),
        ("Array<Color>", FieldValueKind::Colors),
        ("Array<Tile>", FieldValueKind::Tiles),
        ("Array<EntityRef>", FieldValueKind::EntityRefs),
        ("Array<Point>", FieldValueKind::Points),
    ];
    for (field_type, kind) in cases {
        assert_eq!(field_value_kind(field_type), Some(kind), "{field_type}");
    }
}

#[test]
fn enum_field_types_are_recognized_by_pattern() {
    assert_eq!(
        field_value_kind("LocalEnum.Item"),
        Some(FieldValueKind::Enum)
    );
    assert_eq!(
        field_value_kind("ExternEnum.Weapon"),
        Some(FieldValueKind::Enum)
    );
    assert_eq!(
        field_value_kind("Array<LocalEnum.Item>"),
        Some(FieldValueKind::Enums)
    );
    assert_eq!(
        field_value_kind("Array<ExternEnum.Weapon>"),
        Some(FieldValueKind::Enums)
    );
}

#[test]
fn unknown_field_types_are_refused() {
    assert_eq!(field_value_kind("Integer"), None);
    assert_eq!(field_value_kind("MyEnum.Item"), None);
    assert_eq!(field_value_kind("Array<Unknown>"), None);
    assert_eq!(field_value_kind(""), None);
}

#[test]
fn exact_types_come_before_the_patterns() {
    assert_eq!(
        field_value_kind_from_matches("Int", true, true),
        Some(FieldValueKind::Int)
    );
    assert_eq!(
        field_value_kind_from_matches("Whatever", true, true),
        Some(FieldValueKind::Enum)
    );
    assert_eq!(
        field_value_kind_from_matches("Whatever", false, true),
        Some(FieldValueKind::Enums)
    );
    assert_eq!(field_value_kind_from_matches("Whatever", false, false), None);
}
