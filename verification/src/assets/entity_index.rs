//! The entity index of a project: where each entity instance lies in the project, by its iid.
use vstd::prelude::*;

use crate::components::EntityIid;
use crate::ldtk::{EntityInstance, LayerInstance, LdtkJson, Level, World};
use crate::refs::points_to_option;
use crate::string_map::StrMap;

verus! {

/// Where an entity instance lies in a project: the world (none for the root levels of a
/// project without worlds), the level, the layer and the entity's place in its layer.
#[derive(Copy, Clone, Debug, Default, Eq, Hash, PartialEq, Structural)]
pub struct EntityIndexes {
    pub world_index: Option<usize>,
    pub level_index: usize,
    pub layer_index: usize,
    pub entity_index: usize,
}

/// The map `map` with the entries of `entries` bound in order, later entries replacing
/// earlier ones.
pub open spec fn insert_all<V>(map: Map<Seq<char>, V>, entries: Seq<(Seq<char>, V)>) -> Map<
    Seq<char>,
    V,
>
    decreases entries.len(),
{
    if entries.len() == 0 {
        map
    } else {
        insert_all(map, entries.drop_last()).insert(entries.last().0, entries.last().1)
    }
}

/// Binding two lists of entries one after the other binds the two lists joined.
proof fn lemma_insert_all_concat<V>(
    map: Map<Seq<char>, V>,
    first: Seq<(Seq<char>, V)>,
    second: Seq<(Seq<char>, V)>,
)
    ensures
        insert_all(insert_all(map, first), second) == insert_all(map, first + second),
    decreases second.len(),
{
    if second.len() == 0 {
        assert(first + second =~= first);
    } else {
        lemma_insert_all_concat(map, first, second.drop_last());
        assert((first + second).drop_last() =~= first + second.drop_last());
    }
}

/// The index entries of the entities of one layer.
pub open spec fn layer_entries(
    entities: Seq<EntityInstance>,
    world_index: Option<usize>,
    level_index: int,
    layer_index: int,
) -> Seq<(Seq<char>, EntityIndexes)> {
    Seq::new(
        entities.len(),
        |e: int|
            (
                entities[e].iid@,
                EntityIndexes {
                    world_index,
                    level_index: level_index as usize,
                    layer_index: layer_index as usize,
                    entity_index: e as usize,
                },
            ),
    )
}

/// The index entries of the first `n` layers of a level.
pub open spec fn layers_entries(
    layers: Seq<LayerInstance>,
    world_index: Option<usize>,
    level_index: int,
    n: int,
) -> Seq<(Seq<char>, EntityIndexes)>
    decreases n,
{
    if n <= 0 {
        Seq::empty()
    } else {
        layers_entries(layers, world_index, level_index, n - 1) + layer_entries(
            layers[n - 1].entity_instances@,
            world_index,
            level_index,
            n - 1,
        )
    }
}

/// The index entries of a level; none for a level without layer instances.
pub open spec fn level_entries(level: Level, world_index: Option<usize>, level_index: int) -> Seq<
    (Seq<char>, EntityIndexes),
> {
    match level.layer_instances {
        Some(layers) => layers_entries(layers@, world_index, level_index, layers@.len() as int),
        None => Seq::empty(),
    }
}

/// The index entries of the first `n` levels of a list of levels.
pub open spec fn levels_entries(levels: Seq<Level>, world_index: Option<usize>, n: int) -> Seq<
    (Seq<char>, EntityIndexes),
>
    decreases n,
{
    if n <= 0 {
        Seq::empty()
    } else {
        levels_entries(levels, world_index, n - 1) + level_entries(levels[n - 1], world_index, n - 1)
    }
}

/// The index entries of the first `n` worlds.
pub open spec fn worlds_entries(worlds: Seq<World>, n: int) -> Seq<(Seq<char>, EntityIndexes)>
    decreases n,
{
    if n <= 0 {
        Seq::empty()
    } else {
        worlds_entries(worlds, n - 1) + levels_entries(
            worlds[n - 1].levels@,
            Some((n - 1) as usize),
            worlds[n - 1].levels@.len() as int,
        )
    }
}

/// The entity index of a project: the entities of its root levels when it has no worlds, else
/// those of the levels of its worlds, each by its iid; of two entities with one iid, the later
/// one is indexed.
pub open spec fn entity_index_of(project: LdtkJson) -> Map<Seq<char>, EntityIndexes> {
    if project.worlds@.len() == 0 {
        insert_all(
            Map::empty(),
            levels_entries(project.levels@, None, project.levels@.len() as int),
        )
    } else {
        insert_all(Map::empty(), worlds_entries(project.worlds@, project.worlds@.len() as int))
    }
}

/// The entity instance at `indexes` in `project`, if there is one.
pub open spec fn entity_at(project: LdtkJson, indexes: EntityIndexes) -> Option<EntityInstance> {
    let levels = match indexes.world_index {
        Some(w) => if w < project.worlds@.len() {
            Some(project.worlds@[w as int].levels@)
        } else {
            None
        },
        None => Some(project.levels@),
    };
    match levels {
        Some(levels) => if indexes.level_index < levels.len() {
            match levels[indexes.level_index as int].layer_instances {
                Some(layers) => if indexes.layer_index < layers@.len() {
                    let entities = layers@[indexes.layer_index as int].entity_instances@;
                    if indexes.entity_index < entities.len() {
                        Some(entities[indexes.entity_index as int])
                    } else {
                        None
                    }
                } else {
                    None
                },
                None => None,
            }
        } else {
            None
        },
        None => None,
    }
}

/// Add the entities of one layer to the index.
fn index_layer(
    index: &mut StrMap<EntityIndexes>,
    entities: &Vec<EntityInstance>,
    world_index: Option<usize>,
    level_index: usize,
    layer_index: usize,
)
    ensures
        final(index)@ == insert_all(
            old(index)@,
            layer_entries(entities@, world_index, level_index as int, layer_index as int),
        ),
{
    let ghost start = index@;
    let ghost all = layer_entries(entities@, world_index, level_index as int, layer_index as int);
    let mut e: usize = 0;
    assert(all.take(0) =~= Seq::<(Seq<char>, EntityIndexes)>::empty());
    while e < entities.len()
        invariant
            e <= entities@.len(),
            all == layer_entries(entities@, world_index, level_index as int, layer_index as int),
            index@ == insert_all(start, all.take(e as int)),
        decreases entities@.len() - e,
    {
        assert(all.take(e + 1).drop_last() =~= all.take(e as int));
        index.insert(
            entities[e].iid.clone(),
            EntityIndexes { world_index, level_index, layer_index, entity_index: e },
        );
        e = e + 1;
    }
    assert(all.take(entities@.len() as int) =~= all);
}

/// Add the entities of one level to the index.
fn index_level(
    index: &mut StrMap<EntityIndexes>,
    level: &Level,
    world_index: Option<usize>,
    level_index: usize,
)
    ensures
        final(index)@ == insert_all(
            old(index)@,
            level_entries(*level, world_index, level_index as int),
        ),
{
    let ghost start = index@;
    match &level.layer_instances {
        Some(layers) => {
            let mut k: usize = 0;
            while k < layers.len()
                invariant
                    k <= layers@.len(),
                    level.layer_instances == Some(*layers),
                    index@ == insert_all(
                        start,
                        layers_entries(layers@, world_index, level_index as int, k as int),
                    ),
                decreases layers@.len() - k,
            {
                let ghost before = index@;
                index_layer(index, &layers[k].entity_instances, world_index, level_index, k);
                proof {
                    lemma_insert_all_concat(
                        start,
                        layers_entries(layers@, world_index, level_index as int, k as int),
                        layer_entries(
                            layers@[k as int].entity_instances@,
                            world_index,
                            level_index as int,
                            k as int,
                        ),
                    );
                }
                k = k + 1;
            }
        },
        None => {},
    }
}

/// Add the entities of a list of levels to the index.
fn index_levels(index: &mut StrMap<EntityIndexes>, levels: &Vec<Level>, world_index: Option<usize>)
    ensures
        final(index)@ == insert_all(
            old(index)@,
            levels_entries(levels@, world_index, levels@.len() as int),
        ),
{
    let ghost start = index@;
    let mut k: usize = 0;
    while k < levels.len()
        invariant
            k <= levels@.len(),
            index@ == insert_all(start, levels_entries(levels@, world_index, k as int)),
        decreases levels@.len() - k,
    {
        index_level(index, &levels[k], world_index, k);
        proof {
            lemma_insert_all_concat(
                start,
                levels_entries(levels@, world_index, k as int),
                level_entries(levels@[k as int], world_index, k as int),
            );
        }
        k = k + 1;
    }
}

/// Index the entity instances of a project by their iids: those of its root levels when it has
/// no worlds, else those of the levels of its worlds.
pub fn build_entity_index(project: &LdtkJson) -> (index: StrMap<EntityIndexes>)
    ensures
        index@ == entity_index_of(*project),
{
    let mut index: StrMap<EntityIndexes> = StrMap::new();
    if project.worlds.len() == 0 {
        index_levels(&mut index, &project.levels, None);
    } else {
        let ghost start = index@;
        let mut w: usize = 0;
        while w < project.worlds.len()
            invariant
                w <= project.worlds@.len(),
                index@ == insert_all(start, worlds_entries(project.worlds@, w as int)),
            decreases project.worlds@.len() - w,
        {
            let levels = &project.worlds[w].levels;
            index_levels(&mut index, levels, Some(w));
            proof {
                lemma_insert_all_concat(
                    start,
                    worlds_entries(project.worlds@, w as int),
                    levels_entries(levels@, Some(w), levels@.len() as int),
                );
            }
            w = w + 1;
        }
    }
    index
}

/// The entity instance at `indexes` in `project`, if there is one.
fn entity_at_indexes<'a>(project: &'a LdtkJson, indexes: &EntityIndexes) -> (entity: Option<
    &'a EntityInstance,
>)
    ensures
        points_to_option(entity, entity_at(*project, *indexes)),
{
    let levels = match indexes.world_index {
        Some(w) => {
            if w < project.worlds.len() {
                &project.worlds[w].levels
            } else {
                return None;
            }
        },
        None => &project.levels,
    };
    if indexes.level_index >= levels.len() {
        return None;
    }
    match &levels[indexes.level_index].layer_instances {
        Some(layers) => {
            if indexes.layer_index >= layers.len() {
                return None;
            }
            let entities = &layers[indexes.layer_index].entity_instances;
            if indexes.entity_index >= entities.len() {
                return None;
            }
            Some(&entities[indexes.entity_index])
        },
        None => None,
    }
}

/// Find an entity instance of `project` by its iid through the project's entity index.
pub fn find_entity_instance<'a>(
    project: &'a LdtkJson,
    entity_index: &StrMap<EntityIndexes>,
    entity_iid: &EntityIid,
) -> (entity: Option<&'a EntityInstance>)
    ensures
        match entity_index@.get(entity_iid@) {
            Some(indexes) => points_to_option(entity, entity_at(*project, indexes)),
            None => entity is None,
        },
{
    let key = entity_iid.as_str().to_owned();
    match entity_index.get(&key) {
        Some(indexes) => entity_at_indexes(project, indexes),
        None => None,
    }
}

/// An entity with the iid `iid` lies at `indexes` in `project`.
pub open spec fn entity_with_iid_at(project: LdtkJson, indexes: EntityIndexes, iid: Seq<char>) -> bool {
    match entity_at(project, indexes) {
        Some(entity) => entity.iid@ == iid,
        None => false,
    }
}

/// Each entry binds the iid of the entity that lies where it points.
pub open spec fn entries_point_to_their_entities(
    project: LdtkJson,
    entries: Seq<(Seq<char>, EntityIndexes)>,
) -> bool {
    forall|i: int| 0 <= i < entries.len() ==> #[trigger] entity_with_iid_at(project, entries[i].1, entries[i].0)
}

/// Every layer list of these levels has a length that fits in `usize`.
pub open spec fn layer_lists_fit(levels: Seq<Level>) -> bool {
    forall|l: int|
        0 <= l < levels.len() ==> match #[trigger] levels[l].layer_instances {
            Some(layers) => layers@.len() <= usize::MAX && forall|k: int|
                0 <= k < layers@.len() ==> (#[trigger] layers@[k]).entity_instances@.len()
                    <= usize::MAX,
            None => true,
        }
}

/// A map built from such entries binds each key to the place of an entity with that iid.
proof fn lemma_insert_all_points(project: LdtkJson, entries: Seq<(Seq<char>, EntityIndexes)>)
    requires
        entries_point_to_their_entities(project, entries),
    ensures
        forall|iid: Seq<char>| #[trigger]
            insert_all(Map::empty(), entries).contains_key(iid) ==> entity_with_iid_at(
                project,
                insert_all(Map::empty(), entries)[iid],
                iid,
            ),
    decreases entries.len(),
{
    if entries.len() > 0 {
        let rest = entries.drop_last();
        assert forall|i: int| 0 <= i < rest.len() implies #[trigger] entity_with_iid_at(
            project,
            rest[i].1,
            rest[i].0,
        ) by {
            assert(rest[i] == entries[i]);
        }
        lemma_insert_all_points(project, rest);
        let last = entries[entries.len() - 1];
        assert(entity_with_iid_at(project, last.1, last.0));
        assert forall|iid: Seq<char>| #[trigger]
            insert_all(Map::empty(), entries).contains_key(iid) implies entity_with_iid_at(
                project,
                insert_all(Map::empty(), entries)[iid],
                iid,
            ) by {
            if iid != last.0 {
                assert(insert_all(Map::empty(), rest).contains_key(iid));
            }
        }
    }
}

/// The entries of a layer point to its entities.
proof fn lemma_layers_entries_point(
    project: LdtkJson,
    layers_vec: Vec<LayerInstance>,
    layers: Seq<LayerInstance>,
    world_index: Option<usize>,
    levels: Seq<Level>,
    level_index: int,
    n: int,
)
    requires
        0 <= level_index < levels.len(),
        levels[level_index].layer_instances == Some(layers_vec),
        layers_vec@ == layers,
        level_index <= usize::MAX,
        layers.len() <= usize::MAX,
        forall|k: int|
            0 <= k < layers.len() ==> (#[trigger] layers[k]).entity_instances@.len() <= usize::MAX,
        n <= layers.len(),
        match world_index {
            Some(w) => w < project.worlds@.len() && project.worlds@[w as int].levels@ == levels,
            None => project.levels@ == levels,
        },
    ensures
        entries_point_to_their_entities(
            project,
            layers_entries(layers, world_index, level_index, n),
        ),
    decreases n,
{
    if n > 0 {
        lemma_layers_entries_point(project, layers_vec, layers, world_index, levels, level_index, n - 1);
        let before = layers_entries(layers, world_index, level_index, n - 1);
        let here = layer_entries(layers[n - 1].entity_instances@, world_index, level_index, n - 1);
        let all = before + here;
        assert forall|i: int| 0 <= i < all.len() implies #[trigger] entity_with_iid_at(
            project,
            all[i].1,
            all[i].0,
        ) by {
            if i < before.len() {
                assert(all[i] == before[i]);
            } else {
                let e = i - before.len();
                assert(all[i] == here[e]);
                assert(layers[n - 1] == layers_vec@[n - 1]);
            }
        }
    }
}

/// The entries of a list of levels point to their entities.
proof fn lemma_levels_entries_point(
    project: LdtkJson,
    levels: Seq<Level>,
    world_index: Option<usize>,
    n: int,
)
    requires
        n <= levels.len(),
        levels.len() <= usize::MAX,
        layer_lists_fit(levels),
        match world_index {
            Some(w) => w < project.worlds@.len() && project.worlds@[w as int].levels@ == levels,
            None => project.levels@ == levels,
        },
    ensures
        entries_point_to_their_entities(project, levels_entries(levels, world_index, n)),
    decreases n,
{
    if n > 0 {
        lemma_levels_entries_point(project, levels, world_index, n - 1);
        let before = levels_entries(levels, world_index, n - 1);
        let here = level_entries(levels[n - 1], world_index, n - 1);
        if let Some(ls) = levels[n - 1].layer_instances {
            lemma_layers_entries_point(
                project,
                ls,
                ls@,
                world_index,
                levels,
                n - 1,
                ls@.len() as int,
            );
        }
        let all = before + here;
        assert forall|i: int| 0 <= i < all.len() implies #[trigger] entity_with_iid_at(
            project,
            all[i].1,
            all[i].0,
        ) by {
            if i < before.len() {
                assert(all[i] == before[i]);
            } else {
                assert(all[i] == here[i - before.len()]);
            }
        }
    }
}

/// The entries of the first `n` worlds point to their entities.
proof fn lemma_worlds_entries_point(project: LdtkJson, n: int)
    requires
        n <= project.worlds@.len(),
        project_lists_fit(project),
    ensures
        entries_point_to_their_entities(project, worlds_entries(project.worlds@, n)),
    decreases n,
{
    if n > 0 {
        lemma_worlds_entries_point(project, n - 1);
        let levels = project.worlds@[n - 1].levels@;
        lemma_levels_entries_point(project, levels, Some((n - 1) as usize), levels.len() as int);
        let before = worlds_entries(project.worlds@, n - 1);
        let here = levels_entries(levels, Some((n - 1) as usize), levels.len() as int);
        let all = before + here;
        assert forall|i: int| 0 <= i < all.len() implies #[trigger] entity_with_iid_at(
            project,
            all[i].1,
            all[i].0,
        ) by {
            if i < before.len() {
                assert(all[i] == before[i]);
            } else {
                assert(all[i] == here[i - before.len()]);
            }
        }
    }
}

/// Every list of the project has a length that fits in `usize`, as the lists of a project in
/// memory do.
pub open spec fn project_lists_fit(project: LdtkJson) -> bool {
    &&& project.levels@.len() <= usize::MAX
    &&& layer_lists_fit(project.levels@)
    &&& project.worlds@.len() <= usize::MAX
    &&& forall|w: int|
        0 <= w < project.worlds@.len() ==> (#[trigger] project.worlds@[w]).levels@.len()
            <= usize::MAX && layer_lists_fit(project.worlds@[w].levels@)
}

/// What the entity index of a project finds by an iid is an entity of the project with that
/// iid.
pub proof fn lemma_entity_index_finds_entities(project: LdtkJson, iid: Seq<char>)
    requires
        project_lists_fit(project),
        entity_index_of(project).contains_key(iid),
    ensures
        entity_with_iid_at(project, entity_index_of(project)[iid], iid),
{
    if project.worlds@.len() == 0 {
        let levels = project.levels@;
        lemma_levels_entries_point(project, levels, None, levels.len() as int);
        lemma_insert_all_points(project, levels_entries(levels, None, levels.len() as int));
    } else {
        lemma_worlds_entries_point(project, project.worlds@.len() as int);
        lemma_insert_all_points(
            project,
            worlds_entries(project.worlds@, project.worlds@.len() as int),
        );
    }
}

/// A key of an entry is bound in the map the entries build.
proof fn lemma_insert_all_has_entry_keys<V>(map: Map<Seq<char>, V>, entries: Seq<(Seq<char>, V)>, i: int)
    requires
        0 <= i < entries.len(),
    ensures
        insert_all(map, entries).contains_key(entries[i].0),
    decreases entries.len(),
{
    if i < entries.len() - 1 {
        lemma_insert_all_has_entry_keys(map, entries.drop_last(), i);
        assert(entries.drop_last()[i] == entries[i]);
    }
}

/// The entries of the first `n` layers of a level hold, for each entity, its iid and its
/// place.
proof fn lemma_layers_entries_hold(
    layers: Seq<LayerInstance>,
    world_index: Option<usize>,
    level_index: usize,
    n: int,
    layer_index: usize,
    entity_index: usize,
)
    requires
        layer_index < n <= layers.len(),
        entity_index < layers[layer_index as int].entity_instances@.len(),
    ensures
        layers_entries(layers, world_index, level_index as int, n).contains(
            (
                layers[layer_index as int].entity_instances@[entity_index as int].iid@,
                EntityIndexes { world_index, level_index, layer_index, entity_index },
            ),
        ),
    decreases n,
{
    let before = layers_entries(layers, world_index, level_index as int, n - 1);
    let here = layer_entries(
        layers[n - 1].entity_instances@,
        world_index,
        level_index as int,
        n - 1,
    );
    let all = before + here;
    if layer_index < n - 1 {
        lemma_layers_entries_hold(layers, world_index, level_index, n - 1, layer_index, entity_index);
        let j = choose|j: int| 0 <= j < before.len() && before[j] == (
            layers[layer_index as int].entity_instances@[entity_index as int].iid@,
            EntityIndexes { world_index, level_index, layer_index, entity_index },
        );
        assert(all[j] == before[j]);
    } else {
        assert(all[before.len() + entity_index] == here[entity_index as int]);
    }
}

/// The entries of the first `n` levels hold, for each entity of a level with layers, its iid
/// and its place.
proof fn lemma_levels_entries_hold(
    levels: Seq<Level>,
    world_index: Option<usize>,
    n: int,
    indexes: EntityIndexes,
    entity: EntityInstance,
)
    requires
        indexes.world_index == world_index,
        indexes.level_index < n <= levels.len(),
        levels[indexes.level_index as int].layer_instances matches Some(layers)
            && indexes.layer_index < layers@.len() && indexes.entity_index
            < layers@[indexes.layer_index as int].entity_instances@.len() && layers@[
            indexes.layer_index as int].entity_instances@[indexes.entity_index as int] == entity,
    ensures
        levels_entries(levels, world_index, n).contains((entity.iid@, indexes)),
    decreases n,
{
    let before = levels_entries(levels, world_index, n - 1);
    let here = level_entries(levels[n - 1], world_index, n - 1);
    let all = before + here;
    if indexes.level_index < n - 1 {
        lemma_levels_entries_hold(levels, world_index, n - 1, indexes, entity);
        let j = choose|j: int| 0 <= j < before.len() && before[j] == (entity.iid@, indexes);
        assert(all[j] == before[j]);
    } else {
        let layers = levels[n - 1].layer_instances->0;
        lemma_layers_entries_hold(
            layers@,
            world_index,
            indexes.level_index,
            layers@.len() as int,
            indexes.layer_index,
            indexes.entity_index,
        );
        let j = choose|j: int| 0 <= j < here.len() && here[j] == (entity.iid@, indexes);
        assert(all[before.len() + j] == here[j]);
    }
}

/// The entries of the first `n` worlds hold, for each entity of their levels with layers, its
/// iid and its place.
proof fn lemma_worlds_entries_hold(
    worlds: Seq<World>,
    n: int,
    indexes: EntityIndexes,
    entity: EntityInstance,
)
    requires
        indexes.world_index matches Some(w) && w < n <= worlds.len(),
        indexes.level_index < worlds[indexes.world_index->0 as int].levels@.len(),
        worlds[indexes.world_index->0 as int].levels@[indexes.level_index as int].layer_instances matches Some(
            layers,
        ) && indexes.layer_index < layers@.len() && indexes.entity_index < layers@[
            indexes.layer_index as int].entity_instances@.len() && layers@[
            indexes.layer_index as int].entity_instances@[indexes.entity_index as int] == entity,
    ensures
        worlds_entries(worlds, n).contains((entity.iid@, indexes)),
    decreases n,
{
    let w = indexes.world_index->0;
    let before = worlds_entries(worlds, n - 1);
    let levels = worlds[n - 1].levels@;
    let here = levels_entries(levels, Some((n - 1) as usize), levels.len() as int);
    let all = before + here;
    if w < n - 1 {
        lemma_worlds_entries_hold(worlds, n - 1, indexes, entity);
        let j = choose|j: int| 0 <= j < before.len() && before[j] == (entity.iid@, indexes);
        assert(all[j] == before[j]);
    } else {
        lemma_levels_entries_hold(levels, Some(w), levels.len() as int, indexes, entity);
        let j = choose|j: int| 0 <= j < here.len() && here[j] == (entity.iid@, indexes);
        assert(all[before.len() + j] == here[j]);
    }
}

/// The values of a map built from entries are values of the entries.
proof fn lemma_insert_all_values<V>(entries: Seq<(Seq<char>, V)>, ok: spec_fn(V) -> bool)
    requires
        forall|i: int| 0 <= i < entries.len() ==> ok(#[trigger] entries[i].1),
    ensures
        forall|k: Seq<char>| #[trigger]
            insert_all(Map::empty(), entries).contains_key(k) ==> ok(
                insert_all(Map::empty(), entries)[k],
            ),
    decreases entries.len(),
{
    if entries.len() > 0 {
        let rest = entries.drop_last();
        assert forall|i: int| 0 <= i < rest.len() implies ok(#[trigger] rest[i].1) by {
            assert(rest[i] == entries[i]);
        }
        lemma_insert_all_values(rest, ok);
        let last = entries[entries.len() - 1];
        assert(ok(last.1));
        assert forall|k: Seq<char>| #[trigger]
            insert_all(Map::empty(), entries).contains_key(k) implies ok(
            insert_all(Map::empty(), entries)[k],
        ) by {
            if k != last.0 {
                assert(insert_all(Map::empty(), rest).contains_key(k));
            }
        }
    }
}

/// The entries of the first `n` layers carry the world index they were made with.
proof fn lemma_layers_entries_world(
    layers: Seq<LayerInstance>,
    world_index: Option<usize>,
    level_index: int,
    n: int,
)
    ensures
        forall|i: int|
            0 <= i < layers_entries(layers, world_index, level_index, n).len() ==> (
            #[trigger] layers_entries(layers, world_index, level_index, n)[i]).1.world_index
                == world_index,
    decreases n,
{
    if n > 0 {
        lemma_layers_entries_world(layers, world_index, level_index, n - 1);
        let before = layers_entries(layers, world_index, level_index, n - 1);
        let here = layer_entries(layers[n - 1].entity_instances@, world_index, level_index, n - 1);
        let all = before + here;
        assert forall|i: int| 0 <= i < all.len() implies (#[trigger] all[i]).1.world_index
            == world_index by {
            if i < before.len() {
                assert(all[i] == before[i]);
            } else {
                assert(all[i] == here[i - before.len()]);
            }
        }
    }
}

/// The entries of the first `n` levels carry the world index they were made with.
proof fn lemma_levels_entries_world(levels: Seq<Level>, world_index: Option<usize>, n: int)
    ensures
        forall|i: int|
            0 <= i < levels_entries(levels, world_index, n).len() ==> (
            #[trigger] levels_entries(levels, world_index, n)[i]).1.world_index == world_index,
    decreases n,
{
    if n > 0 {
        lemma_levels_entries_world(levels, world_index, n - 1);
        let before = levels_entries(levels, world_index, n - 1);
        let here = level_entries(levels[n - 1], world_index, n - 1);
        if let Some(layers) = levels[n - 1].layer_instances {
            lemma_layers_entries_world(layers@, world_index, n - 1, layers@.len() as int);
        }
        let all = before + here;
        assert forall|i: int| 0 <= i < all.len() implies (#[trigger] all[i]).1.world_index
            == world_index by {
            if i < before.len() {
                assert(all[i] == before[i]);
            } else {
                assert(all[i] == here[i - before.len()]);
            }
        }
    }
}

/// The entries of the first `n` worlds carry a world index.
proof fn lemma_worlds_entries_world(worlds: Seq<World>, n: int)
    ensures
        forall|i: int|
            0 <= i < worlds_entries(worlds, n).len() ==> (#[trigger] worlds_entries(
                worlds,
                n,
            )[i]).1.world_index is Some,
    decreases n,
{
    if n > 0 {
        lemma_worlds_entries_world(worlds, n - 1);
        let before = worlds_entries(worlds, n - 1);
        let levels = worlds[n - 1].levels@;
        let here = levels_entries(levels, Some((n - 1) as usize), levels.len() as int);
        lemma_levels_entries_world(levels, Some((n - 1) as usize), levels.len() as int);
        let all = before + here;
        assert forall|i: int| 0 <= i < all.len() implies (#[trigger] all[i]).1.world_index
            is Some by {
            if i < before.len() {
                assert(all[i] == before[i]);
            } else {
                assert(all[i] == here[i - before.len()]);
            }
        }
    }
}

/// The entity index indexes only the levels it is meant to: the root levels of a project
/// without worlds (no world index), else the levels of its worlds (with a world index).
pub proof fn lemma_entity_index_world_shape(project: LdtkJson, iid: Seq<char>)
    requires
        entity_index_of(project).contains_key(iid),
    ensures
        (entity_index_of(project)[iid].world_index is None) == (project.worlds@.len() == 0),
{
    if project.worlds@.len() == 0 {
        let entries = levels_entries(project.levels@, None, project.levels@.len() as int);
        lemma_levels_entries_world(project.levels@, None, project.levels@.len() as int);
        lemma_insert_all_values(entries, |v: EntityIndexes| v.world_index is None);
    } else {
        let entries = worlds_entries(project.worlds@, project.worlds@.len() as int);
        lemma_worlds_entries_world(project.worlds@, project.worlds@.len() as int);
        lemma_insert_all_values(entries, |v: EntityIndexes| v.world_index is Some);
    }
}

/// The entity index covers every entity it is meant to: each entity of a root level (in a
/// project without worlds) or of a world level (in a project with worlds) is found under its
/// iid, and when no other entity of the project shares its iid, at its own place.
pub proof fn lemma_entity_index_covers_entities(project: LdtkJson, indexes: EntityIndexes)
    requires
        project_lists_fit(project),
        entity_at(project, indexes) is Some,
        (indexes.world_index is None) == (project.worlds@.len() == 0),
    ensures
        entity_index_of(project).contains_key(entity_at(project, indexes)->0.iid@),
        (forall|other: EntityIndexes|
            #[trigger] entity_with_iid_at(project, other, entity_at(project, indexes)->0.iid@)
                ==> other == indexes) ==> entity_index_of(project)[entity_at(
            project,
            indexes,
        )->0.iid@] == indexes,
{
    let entity = entity_at(project, indexes)->0;
    let entries = if project.worlds@.len() == 0 {
        levels_entries(project.levels@, None, project.levels@.len() as int)
    } else {
        worlds_entries(project.worlds@, project.worlds@.len() as int)
    };
    if project.worlds@.len() == 0 {
        lemma_levels_entries_hold(
            project.levels@,
            None,
            project.levels@.len() as int,
            indexes,
            entity,
        );
    } else {
        lemma_worlds_entries_hold(project.worlds@, project.worlds@.len() as int, indexes, entity);
    }
    let j = choose|j: int| 0 <= j < entries.len() && entries[j] == (entity.iid@, indexes);
    lemma_insert_all_has_entry_keys(Map::empty(), entries, j);
    lemma_entity_index_finds_entities(project, entity.iid@);
}

} // verus!
