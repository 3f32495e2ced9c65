//! Which registration an LDtk entity or IntGrid cell is spawned with.
//!
//! Bundles are registered for a layer identifier and an entity identifier (or IntGrid value),
//! either of which may be left open to match any. A spawned entity or cell may match several
//! registrations; they are prioritized from most to least specific:
//! 1. the layer identifier and the entity identifier are given;
//! 2. just the entity identifier is given;
//! 3. just the layer identifier is given;
//! 4. neither is given.
//!
//! Without any matching registration, the default bundle is used.
use vstd::prelude::*;

verus! {

/// The registration that applies to an entity or IntGrid cell.
#[derive(Copy, Clone, Debug, PartialEq, Eq, Structural)]
pub enum RegistrationMatch {
    /// The registration for its layer and its identifier (or value).
    LayerAndEntity,
    /// The registration for its identifier (or value) on any layer.
    Entity,
    /// The registration for anything on its layer.
    Layer,
    /// The registration for anything anywhere.
    Any,
    /// No registration matches; the default bundle is used.
    Default,
}

/// The view of an optional string.
pub open spec fn opt_view(value: Option<String>) -> Option<Seq<char>> {
    match value {
        Some(s) => Some(s@),
        None => None,
    }
}

/// The keys of entity registrations, as views.
pub open spec fn entity_keys(registered: Seq<(Option<String>, Option<String>)>) -> Seq<
    (Option<Seq<char>>, Option<Seq<char>>),
> {
    registered.map_values(|key: (Option<String>, Option<String>)| (opt_view(key.0), opt_view(key.1)))
}

/// The keys of IntGrid cell registrations, as views.
pub open spec fn int_cell_keys(registered: Seq<(Option<String>, Option<i32>)>) -> Seq<
    (Option<Seq<char>>, Option<i32>),
> {
    registered.map_values(|key: (Option<String>, Option<i32>)| (opt_view(key.0), key.1))
}

/// The most specific registration among `keys` for `identifier` on the layer `layer`.
pub open spec fn most_specific<T>(keys: Seq<(Option<Seq<char>>, Option<T>)>, layer: Seq<char>, identifier: T) -> RegistrationMatch {
    if keys.contains((Some(layer), Some(identifier))) {
        RegistrationMatch::LayerAndEntity
    } else if keys.contains((None, Some(identifier))) {
        RegistrationMatch::Entity
    } else if keys.contains((Some(layer), None)) {
        RegistrationMatch::Layer
    } else if keys.contains((None, None)) {
        RegistrationMatch::Any
    } else {
        RegistrationMatch::Default
    }
}

/// Whether the optional string `key` is `Some(value)`.
fn is_some_str(key: &Option<String>, value: &String) -> (found: bool)
    ensures
        found == (opt_view(*key) == Some(value@)),
{
    match key {
        Some(s) => *s == *value,
        None => false,
    }
}

/// Whether some entity registration has the key `(layer, entity)`, an absent part standing for
/// an open one.
fn has_entity_key(
    registered: &Vec<(Option<String>, Option<String>)>,
    layer: Option<&String>,
    entity: Option<&String>,
) -> (found: bool)
    ensures
        found == entity_keys(registered@).contains(
            (
                match layer {
                    Some(l) => Some(l@),
                    None => None,
                },
                match entity {
                    Some(e) => Some(e@),
                    None => None,
                },
            ),
        ),
{
    let ghost keys = entity_keys(registered@);
    let ghost wanted = (
        match layer {
            Some(l) => Some(l@),
            None => None::<Seq<char>>,
        },
        match entity {
            Some(e) => Some(e@),
            None => None::<Seq<char>>,
        },
    );
    let mut i: usize = 0;
    while i < registered.len()
        invariant
            i <= registered@.len(),
            keys == entity_keys(registered@),
            wanted == (
                match layer {
                    Some(l) => Some(l@),
                    None => None::<Seq<char>>,
                },
                match entity {
                    Some(e) => Some(e@),
                    None => None::<Seq<char>>,
                },
            ),
            forall|k: int| 0 <= k < i ==> keys[k] != wanted,
        decreases registered@.len() - i,
    {
        let key = &registered[i];
        let layer_matches = match layer {
            Some(l) => is_some_str(&key.0, l),
            None => key.0.is_none(),
        };
        let entity_matches = match entity {
            Some(e) => is_some_str(&key.1, e),
            None => key.1.is_none(),
        };
        assert(keys[i as int] == (opt_view(registered@[i as int].0), opt_view(registered@[i as int].1)));
        if layer_matches && entity_matches {
            return true;
        }
        i = i + 1;
    }
    assert(!keys.contains(wanted)) by {
        if keys.contains(wanted) {
            let k = choose|k: int| 0 <= k < keys.len() && keys[k] == wanted;
            assert(keys[k] != wanted);
        }
    }
    false
}

/// Whether some IntGrid cell registration has the key `(layer, value)`, an absent part
/// standing for an open one.
fn has_int_cell_key(
    registered: &Vec<(Option<String>, Option<i32>)>,
    layer: Option<&String>,
    value: Option<i32>,
) -> (found: bool)
    ensures
        found == int_cell_keys(registered@).contains(
            (
                match layer {
                    Some(l) => Some(l@),
                    None => None,
                },
                value,
            ),
        ),
{
    let ghost keys = int_cell_keys(registered@);
    let ghost wanted = (
        match layer {
            Some(l) => Some(l@),
            None => None::<Seq<char>>,
        },
        value,
    );
    let mut i: usize = 0;
    while i < registered.len()
        invariant
            i <= registered@.len(),
            keys == int_cell_keys(registered@),
            wanted == (
                match layer {
                    Some(l) => Some(l@),
                    None => None::<Seq<char>>,
                },
                value,
            ),
            forall|k: int| 0 <= k < i ==> keys[k] != wanted,
        decreases registered@.len() - i,
    {
        let key = &registered[i];
        let layer_matches = match layer {
            Some(l) => is_some_str(&key.0, l),
            None => key.0.is_none(),
        };
        let value_matches = key.1 == value;
        assert(keys[i as int] == (opt_view(registered@[i as int].0), registered@[i as int].1));
        if layer_matches && value_matches {
            return true;
        }
        i = i + 1;
    }
    assert(!keys.contains(wanted)) by {
        if keys.contains(wanted) {
            let k = choose|k: int| 0 <= k < keys.len() && keys[k] == wanted;
            assert(keys[k] != wanted);
        }
    }
    false
}

/// The registration that an entity with identifier `entity_identifier` on the layer
/// `layer_identifier` is spawned with, among the registered keys.
pub fn entity_registration(
    registered: &Vec<(Option<String>, Option<String>)>,
    layer_identifier: &String,
    entity_identifier: &String,
) -> (registration: RegistrationMatch)
    ensures
        registration == most_specific(
            entity_keys(registered@),
            layer_identifier@,
            entity_identifier@,
        ),
{
    if has_entity_key(registered, Some(layer_identifier), Some(entity_identifier)) {
        RegistrationMatch::LayerAndEntity
    } else if has_entity_key(registered, None, Some(entity_identifier)) {
        RegistrationMatch::Entity
    } else if has_entity_key(registered, Some(layer_identifier), None) {
        RegistrationMatch::Layer
    } else if has_entity_key(registered, None, None) {
        RegistrationMatch::Any
    } else {
        RegistrationMatch::Default
    }
}

/// The registration that an IntGrid cell with value `value` on the layer `layer_identifier`
/// is spawned with, among the registered keys.
pub fn int_cell_registration(
    registered: &Vec<(Option<String>, Option<i32>)>,
    layer_identifier: &String,
    value: i32,
) -> (registration: RegistrationMatch)
    ensures
        registration == most_specific(int_cell_keys(registered@), layer_identifier@, value),
{
    if has_int_cell_key(registered, Some(layer_identifier), Some(value)) {
        RegistrationMatch::LayerAndEntity
    } else if has_int_cell_key(registered, None, Some(value)) {
        RegistrationMatch::Entity
    } else if has_int_cell_key(registered, Some(layer_identifier), None) {
        RegistrationMatch::Layer
    } else if has_int_cell_key(registered, None, None) {
        RegistrationMatch::Any
    } else {
        RegistrationMatch::Default
    }
}

/// The spawn hook that spawns each entity and IntGrid cell with the bundle of its most
/// specific registration.
#[derive(Copy, Clone, Debug, Default, PartialEq, Eq, Structural)]
pub struct DefaultSpawnHook;

impl DefaultSpawnHook {
    /// The registration an entity is spawned with.
    pub fn spawn_entity(
        &self,
        registered: &Vec<(Option<String>, Option<String>)>,
        layer_identifier: &String,
        entity_identifier: &String,
    ) -> (registration: RegistrationMatch)
        ensures
            registration == most_specific(
                entity_keys(registered@),
                layer_identifier@,
                entity_identifier@,
            ),
    {
        entity_registration(registered, layer_identifier, entity_identifier)
    }

    /// The registration an IntGrid cell is spawned with.
    pub fn spawn_int_cell(
        &self,
        registered: &Vec<(Option<String>, Option<i32>)>,
        layer_identifier: &String,
        value: i32,
    ) -> (registration: RegistrationMatch)
        ensures
            registration == most_specific(int_cell_keys(registered@), layer_identifier@, value),
    {
        int_cell_registration(registered, layer_identifier, value)
    }
}

/// How specific a registration is: the lower, the more specific; no registration is least
/// specific of all.
pub open spec fn specificity(registration: RegistrationMatch) -> int {
    match registration {
        RegistrationMatch::LayerAndEntity => 0,
        RegistrationMatch::Entity => 1,
        RegistrationMatch::Layer => 2,
        RegistrationMatch::Any => 3,
        RegistrationMatch::Default => 4,
    }
}

/// How specific a registration key is.
pub open spec fn key_specificity<T>(key: (Option<Seq<char>>, Option<T>)) -> int {
    match key {
        (Some(_), Some(_)) => 0,
        (None, Some(_)) => 1,
        (Some(_), None) => 2,
        (None, None) => 3,
    }
}

/// The registration key `key` applies to `identifier` on the layer `layer`.
pub open spec fn key_applies<T>(key: (Option<Seq<char>>, Option<T>), layer: Seq<char>, identifier: T) -> bool {
    &&& key.0 matches Some(l) ==> l == layer
    &&& key.1 matches Some(e) ==> e == identifier
}

/// The registration chosen is a registered key that applies, and no registered key that
/// applies is more specific; the default is chosen only when no registered key applies.
pub proof fn lemma_most_specific_registration<T>(
    keys: Seq<(Option<Seq<char>>, Option<T>)>,
    layer: Seq<char>,
    identifier: T,
)
    ensures
        forall|i: int|
            0 <= i < keys.len() && key_applies(#[trigger] keys[i], layer, identifier)
                ==> specificity(most_specific(keys, layer, identifier)) <= key_specificity(keys[i]),
        most_specific(keys, layer, identifier) != RegistrationMatch::Default ==> exists|i: int|
            0 <= i < keys.len() && key_applies(#[trigger] keys[i], layer, identifier)
                && key_specificity(keys[i]) == specificity(most_specific(keys, layer, identifier)),
{
    let m = most_specific(keys, layer, identifier);
    assert forall|i: int|
        0 <= i < keys.len() && key_applies(#[trigger] keys[i], layer, identifier) implies specificity(
        m,
    ) <= key_specificity(keys[i]) by {
        let key = keys[i];
        match key {
            (Some(l), Some(e)) => {
                assert(keys.contains((Some(layer), Some(identifier))));
            },
            (None, Some(e)) => {
                assert(keys.contains((None, Some(identifier))));
            },
            (Some(l), None) => {
                assert(keys.contains((Some(layer), None)));
            },
            (None, None) => {
                assert(keys.contains((None, None)));
            },
        }
    }
    if m != RegistrationMatch::Default {
        if m == RegistrationMatch::LayerAndEntity {
            let i = choose|i: int| 0 <= i < keys.len() && keys[i] == (Some(layer), Some(identifier));
            assert(key_applies(keys[i], layer, identifier));
        } else if m == RegistrationMatch::Entity {
            let i = choose|i: int| 0 <= i < keys.len() && keys[i] == (None::<Seq<char>>, Some(identifier));
            assert(key_applies(keys[i], layer, identifier));
        } else if m == RegistrationMatch::Layer {
            let i = choose|i: int| 0 <= i < keys.len() && keys[i] == (Some(layer), None::<T>);
            assert(key_applies(keys[i], layer, identifier));
        } else {
            let i = choose|i: int| 0 <= i < keys.len() && keys[i] == (None::<Seq<char>>, None::<T>);
            assert(key_applies(keys[i], layer, identifier));
        }
    }
}

} // verus!
