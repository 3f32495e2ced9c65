use bevy_ecs_ldtk::registrations::{
    entity_registration, int_cell_registration, DefaultSpawnHook, RegistrationMatch,
};

fn key(layer: Option<&str>, entity: Option<&str>) -> (Option<String>, Option<String>) {
    (layer.map(str::to_string), entity.map(str::to_string))
}

#[test]
fn registrations_are_prioritized_from_most_to_least_specific() {
    let layer = "layer".to_string();
    let entity = "entity_for_layer".to_string();
    let mut registered = vec![key(None, None)];
    assert_eq!(entity_registration(&registered, &layer, &entity), RegistrationMatch::Any);
    registered.push(key(Some("layer"), None));
    assert_eq!(entity_registration(&registered, &layer, &entity), RegistrationMatch::Layer);
    registered.push(key(None, Some("entity_for_layer")));
    assert_eq!(entity_registration(&registered, &layer, &entity), RegistrationMatch::Entity);
    registered.push(key(Some("layer"), Some("entity_for_layer")));
    assert_eq!(
        entity_registration(&registered, &layer, &entity),
        RegistrationMatch::LayerAndEntity
    );
    assert_eq!(
        entity_registration(&registered, &"other".to_string(), &"entity".to_string()),
        RegistrationMatch::Any
    );
}

#[test]
fn without_a_matching_registration_the_default_is_used() {
    let registered = vec![key(Some("layer"), Some("entity"))];
    assert_eq!(
        entity_registration(&registered, &"layer".to_string(), &"other".to_string()),
        RegistrationMatch::Default
    );
    assert_eq!(
        DefaultSpawnHook.spawn_entity(&vec![], &"layer".to_string(), &"entity".to_string()),
        RegistrationMatch::Default
    );
}

#[test]
fn int_cells_are_matched_by_layer_and_value() {
    let registered = vec![(None, Some(2)), (Some("walls".to_string()), None)];
    assert_eq!(
        int_cell_registration(&registered, &"walls".to_string(), 2),
        RegistrationMatch::Entity
    );
    assert_eq!(
        int_cell_registration(&registered, &"walls".to_string(), 1),
        RegistrationMatch::Layer
    );
    assert_eq!(
        DefaultSpawnHook.spawn_int_cell(&registered, &"floor".to_string(), 1),
        RegistrationMatch::Default
    );
}
