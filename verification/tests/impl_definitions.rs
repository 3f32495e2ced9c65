use bevy_ecs_ldtk::ldtk::{Definitions, LayerDefinition, Type};

fn layer(purple_type: Type, grid_size: i32, tileset_def_uid: Option<i32>) -> LayerDefinition {
    let mut layer = LayerDefinition::default();
    layer.purple_type = purple_type;
    layer.grid_size = grid_size;
    layer.tileset_def_uid = tileset_def_uid;
    layer
}

fn single_layer_definitions() -> Definitions {
    let mut definitions = Definitions::default();
    definitions.layers = vec![layer(Type::IntGrid, 16, None)];
    definitions
}

fn mixed_layer_definitions() -> Definitions {
    let mut definitions = Definitions::default();
    definitions.layers = vec![
        layer(Type::IntGrid, 16, None),
        layer(Type::IntGrid, 32, None),
        layer(Type::IntGrid, 2, None),
        // Excludes non-intgrid layers
        layer(Type::AutoLayer, 64, None),
        layer(Type::Tiles, 64, None),
        layer(Type::Entities, 64, None),
        // Excludes intgrid layers w/ tileset
        layer(Type::IntGrid, 64, Some(1)),
    ];
    definitions
}

fn ineligible_layer_definitions() -> Definitions {
    let mut definitions = Definitions::default();
    definitions.layers = vec![
        // Excludes non-intgrid layers
        layer(Type::AutoLayer, 64, None),
        layer(Type::Tiles, 64, None),
        layer(Type::Entities, 64, None),
        // Excludes intgrid layers w/ tileset
        layer(Type::IntGrid, 64, Some(1)),
    ];
    definitions
}

#[test]
fn impl_definitions_int_grid_image_is_white() {
    let image = single_layer_definitions().create_int_grid_image().unwrap();

    for byte in image.pixel.iter() {
        assert_eq!(*byte, 255);
    }
    assert_eq!((image.width, image.height), (16, 16));
}

#[test]
fn impl_definitions_int_grid_image_is_size_of_max_int_grid_layer() {
    let image = mixed_layer_definitions().create_int_grid_image().unwrap();

    assert_eq!((image.width, image.height), (32, 32));
}

#[test]
fn impl_definitions_no_int_grid_image_for_no_elligible_int_grid_layers() {
    assert!(ineligible_layer_definitions()
        .create_int_grid_image()
        .is_none());
}

#[test]
fn assets_int_grid_image_is_white() {
    let image = single_layer_definitions().create_int_grid_image().unwrap();

    for byte in image.pixel.iter() {
        assert_eq!(*byte, 255);
    }
}

#[test]
fn assets_int_grid_image_is_size_of_max_int_grid_layer() {
    let image = mixed_layer_definitions().create_int_grid_image().unwrap();

    assert_eq!((image.width, image.height), (32, 32));
}

#[test]
fn assets_no_int_grid_image_for_no_elligible_int_grid_layers() {
    assert!(ineligible_layer_definitions()
        .create_int_grid_image()
        .is_none());
}

#[test]
fn no_layers_give_no_int_grid_image() {
    assert!(Definitions::default().create_int_grid_image().is_none());
}
