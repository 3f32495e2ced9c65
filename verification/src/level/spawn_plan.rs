//! What spawning a level puts into the world, and in which order: the background, then each
//! layer that is not excluded, from the last layer of the level to the first, each tile layer
//! split into the sublayers that [`layer_grid_tiles`](super::layer_grid_tiles) stacks its tiles
//! into. Every step of the plan is one layer entity, and its position in the plan is its `z`.
use vstd::prelude::*;

use crate::components::{GridCoords, Worldly};
use crate::ldtk::{
    EntityInstance, IVec2, LayerInstance, TileInstance, TilesetDefinition, TilesetRectangle, Type,
};
use crate::level::{px_count, stack_height, sublayer_count};
use crate::resources::{LdtkSettings, LevelBackground};

verus! {

/// The texture a tile layer is drawn with.
#[derive(Copy, Clone, PartialEq, Eq, Debug, Structural)]
pub enum LayerTexture {
    /// The image of the tileset with this uid.
    Tileset(i32),
    /// The image that colours IntGrid cells by their value.
    IntGridImage,
}

/// One layer entity that spawning a level creates.
#[derive(Copy, Clone, PartialEq, Eq, Debug, Structural)]
pub enum SpawnStep {
    /// A sprite of the level's background colour, the size of the level.
    Background,
    /// The level's background image.
    BackgroundImage,
    /// The layer with this index in the level's layer list, holding its entities.
    EntityLayer { layer: usize },
    /// One sublayer of the tile layer with this index in the level's layer list; its IntGrid
    /// cells get entities of their own on the first sublayer of an IntGrid layer.
    TileLayer { layer: usize, sublayer: usize, texture: LayerTexture, int_grid_cells: bool },
}

/// The background entities: the colour, then the image if one was made, when the settings
/// ask for rendered backgrounds; none otherwise.
pub open spec fn background_plan(settings: LdtkSettings, has_background_image: bool) -> Seq<
    SpawnStep,
> {
    if settings.level_background == LevelBackground::Rendered {
        if has_background_image {
            seq![SpawnStep::Background, SpawnStep::BackgroundImage]
        } else {
            seq![SpawnStep::Background]
        }
    } else {
        Seq::empty()
    }
}

/// The texture of a tile layer: its tileset when it has one, else the IntGrid image when
/// there is one; without either the layer is not drawn.
pub open spec fn layer_texture(layer: LayerInstance, has_int_grid_image: bool) -> Option<
    LayerTexture,
> {
    match layer.tileset_def_uid {
        Some(uid) => Some(LayerTexture::Tileset(uid)),
        None => if has_int_grid_image {
            Some(LayerTexture::IntGridImage)
        } else {
            None
        },
    }
}

/// The tiles of a layer: its grid tiles, then its auto-layer tiles.
pub open spec fn layer_tiles(layer: LayerInstance) -> Seq<TileInstance> {
    layer.grid_tiles@ + layer.auto_layer_tiles@
}

/// The entities that the layer with index `index` spawns.
pub open spec fn single_layer_plan(layer: LayerInstance, index: int, has_int_grid_image: bool) -> Seq<
    SpawnStep,
> {
    if layer.layer_instance_type == Type::Entities {
        seq![SpawnStep::EntityLayer { layer: index as usize }]
    } else {
        match layer_texture(layer, has_int_grid_image) {
            Some(texture) => Seq::new(
                sublayer_count(layer_tiles(layer)),
                |k: int|
                    SpawnStep::TileLayer {
                        layer: index as usize,
                        sublayer: k as usize,
                        texture,
                        int_grid_cells: layer.layer_instance_type == Type::IntGrid && k == 0,
                    },
            ),
            None => Seq::empty(),
        }
    }
}

/// The entities of the layers from index `from` on that are not excluded, the last layer's
/// first.
pub open spec fn layers_plan(
    layers: Seq<LayerInstance>,
    excluded: Seq<Seq<char>>,
    has_int_grid_image: bool,
    from: int,
) -> Seq<SpawnStep>
    decreases layers.len() - from,
{
    if from < 0 || from >= layers.len() {
        Seq::empty()
    } else {
        let here = if excluded.contains(layers[from].identifier@) {
            Seq::empty()
        } else {
            single_layer_plan(layers[from], from, has_int_grid_image)
        };
        layers_plan(layers, excluded, has_int_grid_image, from + 1) + here
    }
}

/// Everything spawning a level creates, in order: the background, then the layers that are not
/// excluded, the last layer of the level first.
pub open spec fn spawn_plan(
    layers: Seq<LayerInstance>,
    settings: LdtkSettings,
    excluded: Seq<Seq<char>>,
    has_background_image: bool,
    has_int_grid_image: bool,
) -> Seq<SpawnStep> {
    background_plan(settings, has_background_image) + layers_plan(
        layers,
        excluded,
        has_int_grid_image,
        0,
    )
}

/// The index of the level layer that a step spawns, if it spawns one.
pub open spec fn step_layer(step: SpawnStep) -> Option<usize> {
    match step {
        SpawnStep::EntityLayer { layer } => Some(layer),
        SpawnStep::TileLayer { layer, .. } => Some(layer),
        _ => None,
    }
}

/// The step spawns a layer with an index from `from` to below `end`.
pub open spec fn spawns_layer_between(step: SpawnStep, from: int, end: int) -> bool {
    match step_layer(step) {
        Some(l) => from <= l < end,
        None => false,
    }
}

/// Layers are spawned from the last of the level to the first: every step of the layers'
/// plan spawns a layer from index `from` on, and a step that comes later never spawns a layer
/// that comes later in the level.
pub proof fn lemma_layers_spawn_last_first(
    layers: Seq<LayerInstance>,
    excluded: Seq<Seq<char>>,
    has_int_grid_image: bool,
    from: int,
)
    requires
        0 <= from,
        layers.len() <= usize::MAX,
    ensures
        forall|a: int|
            0 <= a < layers_plan(layers, excluded, has_int_grid_image, from).len()
                ==> #[trigger] spawns_layer_between(
                layers_plan(layers, excluded, has_int_grid_image, from)[a],
                from,
                layers.len() as int,
            ),
        forall|a: int, b: int|
            0 <= a < b < layers_plan(layers, excluded, has_int_grid_image, from).len() ==> step_layer(
                #[trigger] layers_plan(layers, excluded, has_int_grid_image, from)[a],
            )->0 >= step_layer(#[trigger] layers_plan(layers, excluded, has_int_grid_image, from)[b])->0,
    decreases layers.len() - from,
{
    if from < layers.len() {
        lemma_layers_spawn_last_first(layers, excluded, has_int_grid_image, from + 1);
        let rest = layers_plan(layers, excluded, has_int_grid_image, from + 1);
        let here = if excluded.contains(layers[from].identifier@) {
            Seq::empty()
        } else {
            single_layer_plan(layers[from], from, has_int_grid_image)
        };
        let plan = layers_plan(layers, excluded, has_int_grid_image, from);
        assert(plan == rest + here);
        assert forall|a: int| 0 <= a < here.len() implies #[trigger] step_layer(here[a]) == Some(
            from as usize,
        ) by {}
        assert forall|a: int| 0 <= a < plan.len() implies #[trigger] spawns_layer_between(
            plan[a],
            from,
            layers.len() as int,
        ) by {
            if a < rest.len() {
                assert(plan[a] == rest[a]);
                assert(spawns_layer_between(rest[a], from + 1, layers.len() as int));
            } else {
                assert(plan[a] == here[a - rest.len()]);
                assert(step_layer(here[a - rest.len()]) == Some(from as usize));
            }
        }
        assert forall|a: int, b: int|
            0 <= a < b < plan.len() implies step_layer(#[trigger] plan[a])->0 >= step_layer(
            #[trigger] plan[b],
        )->0 by {
            if b < rest.len() {
                assert(plan[a] == rest[a] && plan[b] == rest[b]);
            } else if a < rest.len() {
                assert(plan[a] == rest[a] && plan[b] == here[b - rest.len()]);
                assert(spawns_layer_between(rest[a], from + 1, layers.len() as int));
            } else {
                assert(plan[a] == here[a - rest.len()] && plan[b] == here[b - rest.len()]);
            }
        }
    }
}

/// The step spawns a sublayer of a tile layer.
pub open spec fn is_tile_step(step: SpawnStep) -> bool {
    step is TileLayer
}

/// The level layer of a tile layer step.
pub open spec fn tile_layer_of(step: SpawnStep) -> usize {
    match step {
        SpawnStep::TileLayer { layer, .. } => layer,
        _ => 0,
    }
}

/// The sublayer of a tile layer step.
pub open spec fn tile_sublayer_of(step: SpawnStep) -> usize {
    match step {
        SpawnStep::TileLayer { sublayer, .. } => sublayer,
        _ => 0,
    }
}

/// The step spawns the entities of the IntGrid cells of its layer.
pub open spec fn spawns_int_grid_cells(step: SpawnStep) -> bool {
    match step {
        SpawnStep::TileLayer { int_grid_cells, .. } => int_grid_cells,
        _ => false,
    }
}

/// A tile layer step spawns IntGrid cell entities exactly when it is the first sublayer of an
/// IntGrid layer.
pub open spec fn int_grid_cells_on_first_sublayer(step: SpawnStep, layers: Seq<LayerInstance>) -> bool {
    spawns_int_grid_cells(step) <==> (tile_sublayer_of(step) == 0 && layers[tile_layer_of(
        step,
    ) as int].layer_instance_type == Type::IntGrid)
}

/// No position holds more tiles than there are, so a layer has at most as many sublayers as
/// tiles, and at least one.
proof fn lemma_sublayer_count_bound(tiles: Seq<TileInstance>)
    ensures
        1 <= sublayer_count(tiles) <= if tiles.len() > 1 {
            tiles.len()
        } else {
            1
        },
    decreases tiles.len(),
{
    if tiles.len() > 0 {
        lemma_sublayer_count_bound(tiles.drop_last());
        lemma_px_count_bound(tiles, tiles.last().px);
    }
}

/// No position holds more tiles than there are.
proof fn lemma_px_count_bound(tiles: Seq<TileInstance>, px: IVec2)
    ensures
        px_count(tiles, px) <= tiles.len(),
    decreases tiles.len(),
{
    if tiles.len() > 0 {
        lemma_px_count_bound(tiles.drop_last(), px);
    }
}

/// The tiles of every layer can be counted in `usize`.
pub open spec fn layer_tile_counts_fit(layers: Seq<LayerInstance>) -> bool {
    forall|i: int| 0 <= i < layers.len() ==> (#[trigger] layer_tiles(layers[i])).len() <= usize::MAX
}

/// The IntGrid cells of the layers from index `from` on get their entities with the first
/// sublayer of an IntGrid layer and with no other step, and no layer spawns them twice.
proof fn lemma_layers_int_grid_cells_once(
    layers: Seq<LayerInstance>,
    excluded: Seq<Seq<char>>,
    has_int_grid_image: bool,
    from: int,
)
    requires
        0 <= from,
        layers.len() <= usize::MAX,
        layer_tile_counts_fit(layers),
    ensures
        forall|a: int|
            0 <= a < layers_plan(layers, excluded, has_int_grid_image, from).len()
                && #[trigger] is_tile_step(layers_plan(layers, excluded, has_int_grid_image, from)[a])
                ==> from <= tile_layer_of(layers_plan(layers, excluded, has_int_grid_image, from)[a])
                < layers.len() && int_grid_cells_on_first_sublayer(
                layers_plan(layers, excluded, has_int_grid_image, from)[a],
                layers,
            ),
        forall|a: int|
            0 <= a < layers_plan(layers, excluded, has_int_grid_image, from).len()
                && #[trigger] spawns_int_grid_cells(
                layers_plan(layers, excluded, has_int_grid_image, from)[a],
            ) ==> is_tile_step(layers_plan(layers, excluded, has_int_grid_image, from)[a]),
        forall|a: int, b: int|
            0 <= a < b < layers_plan(layers, excluded, has_int_grid_image, from).len()
                && #[trigger] spawns_int_grid_cells(
                layers_plan(layers, excluded, has_int_grid_image, from)[a],
            ) && #[trigger] spawns_int_grid_cells(
                layers_plan(layers, excluded, has_int_grid_image, from)[b],
            ) ==> tile_layer_of(layers_plan(layers, excluded, has_int_grid_image, from)[a])
                != tile_layer_of(layers_plan(layers, excluded, has_int_grid_image, from)[b]),
    decreases layers.len() - from,
{
    if from < layers.len() {
        lemma_layers_int_grid_cells_once(layers, excluded, has_int_grid_image, from + 1);
        let rest = layers_plan(layers, excluded, has_int_grid_image, from + 1);
        let here = if excluded.contains(layers[from].identifier@) {
            Seq::empty()
        } else {
            single_layer_plan(layers[from], from, has_int_grid_image)
        };
        let plan = layers_plan(layers, excluded, has_int_grid_image, from);
        assert(plan == rest + here);
        lemma_sublayer_count_bound(layer_tiles(layers[from]));
        assert(layer_tiles(layers[from]).len() <= usize::MAX);
        assert forall|a: int| 0 <= a < here.len() && #[trigger] is_tile_step(here[a]) implies {
            &&& tile_layer_of(here[a]) == from
            &&& tile_sublayer_of(here[a]) == a
            &&& int_grid_cells_on_first_sublayer(here[a], layers)
        } by {}
        assert forall|a: int| 0 <= a < here.len() && #[trigger] spawns_int_grid_cells(here[a]) implies is_tile_step(
            here[a],
        ) by {}
        assert forall|a: int| 0 <= a < plan.len() && #[trigger] is_tile_step(plan[a]) implies from
            <= tile_layer_of(plan[a]) < layers.len() && int_grid_cells_on_first_sublayer(
            plan[a],
            layers,
        ) by {
            if a < rest.len() {
                assert(plan[a] == rest[a]);
                assert(is_tile_step(rest[a]));
            } else {
                assert(plan[a] == here[a - rest.len()]);
                assert(is_tile_step(here[a - rest.len()]));
            }
        }
        assert forall|a: int| 0 <= a < plan.len() && #[trigger] spawns_int_grid_cells(plan[a]) implies is_tile_step(
            plan[a],
        ) by {
            if a < rest.len() {
                assert(plan[a] == rest[a]);
                assert(spawns_int_grid_cells(rest[a]));
            } else {
                assert(plan[a] == here[a - rest.len()]);
                assert(spawns_int_grid_cells(here[a - rest.len()]));
            }
        }
        assert forall|a: int, b: int|
            0 <= a < b < plan.len() && #[trigger] spawns_int_grid_cells(plan[a])
                && #[trigger] spawns_int_grid_cells(plan[b]) implies tile_layer_of(plan[a])
            != tile_layer_of(plan[b]) by {
            if b < rest.len() {
                assert(plan[a] == rest[a] && plan[b] == rest[b]);
                assert(spawns_int_grid_cells(rest[a]) && spawns_int_grid_cells(rest[b]));
            } else if a < rest.len() {
                assert(plan[a] == rest[a] && plan[b] == here[b - rest.len()]);
                assert(spawns_int_grid_cells(rest[a]) && is_tile_step(rest[a]));
                assert(spawns_int_grid_cells(here[b - rest.len()]));
                assert(is_tile_step(here[b - rest.len()]));
            } else {
                assert(plan[a] == here[a - rest.len()] && plan[b] == here[b - rest.len()]);
                assert(spawns_int_grid_cells(here[a - rest.len()]));
                assert(is_tile_step(here[a - rest.len()]));
                assert(spawns_int_grid_cells(here[b - rest.len()]));
                assert(is_tile_step(here[b - rest.len()]));
            }
        }
    }
}

/// IntGrid cells get their entities once per layer, with its first sublayer: a tile layer step
/// spawns them exactly when it is sublayer 0 of an IntGrid layer, no other step spawns them,
/// and no two steps spawn the cells of one layer.
pub proof fn lemma_int_grid_cells_spawn_once(
    layers: Seq<LayerInstance>,
    settings: LdtkSettings,
    excluded: Seq<Seq<char>>,
    has_background_image: bool,
    has_int_grid_image: bool,
)
    requires
        layers.len() <= usize::MAX,
        layer_tile_counts_fit(layers),
    ensures
        forall|a: int|
            0 <= a < spawn_plan(layers, settings, excluded, has_background_image, has_int_grid_image).len()
                && #[trigger] is_tile_step(
                spawn_plan(layers, settings, excluded, has_background_image, has_int_grid_image)[a],
            ) ==> tile_layer_of(
                spawn_plan(layers, settings, excluded, has_background_image, has_int_grid_image)[a],
            ) < layers.len() && int_grid_cells_on_first_sublayer(
                spawn_plan(layers, settings, excluded, has_background_image, has_int_grid_image)[a],
                layers,
            ),
        forall|a: int|
            0 <= a < spawn_plan(layers, settings, excluded, has_background_image, has_int_grid_image).len()
                && #[trigger] spawns_int_grid_cells(
                spawn_plan(layers, settings, excluded, has_background_image, has_int_grid_image)[a],
            ) ==> is_tile_step(
                spawn_plan(layers, settings, excluded, has_background_image, has_int_grid_image)[a],
            ),
        forall|a: int, b: int|
            0 <= a < b < spawn_plan(layers, settings, excluded, has_background_image, has_int_grid_image).len()
                && #[trigger] spawns_int_grid_cells(
                spawn_plan(layers, settings, excluded, has_background_image, has_int_grid_image)[a],
            ) && #[trigger] spawns_int_grid_cells(
                spawn_plan(layers, settings, excluded, has_background_image, has_int_grid_image)[b],
            ) ==> tile_layer_of(
                spawn_plan(layers, settings, excluded, has_background_image, has_int_grid_image)[a],
            ) != tile_layer_of(
                spawn_plan(layers, settings, excluded, has_background_image, has_int_grid_image)[b],
            ),
{
    lemma_layers_int_grid_cells_once(layers, excluded, has_int_grid_image, 0);
    let background = background_plan(settings, has_background_image);
    let rest = layers_plan(layers, excluded, has_int_grid_image, 0);
    let plan = spawn_plan(layers, settings, excluded, has_background_image, has_int_grid_image);
    assert(plan == background + rest);
    assert forall|a: int| 0 <= a < plan.len() && #[trigger] is_tile_step(plan[a]) implies tile_layer_of(
        plan[a],
    ) < layers.len() && int_grid_cells_on_first_sublayer(plan[a], layers) by {
        if a < background.len() {
            assert(plan[a] == background[a]);
        } else {
            assert(plan[a] == rest[a - background.len()]);
            assert(is_tile_step(rest[a - background.len()]));
        }
    }
    assert forall|a: int| 0 <= a < plan.len() && #[trigger] spawns_int_grid_cells(plan[a]) implies is_tile_step(
        plan[a],
    ) by {
        if a < background.len() {
            assert(plan[a] == background[a]);
        } else {
            assert(plan[a] == rest[a - background.len()]);
            assert(spawns_int_grid_cells(rest[a - background.len()]));
        }
    }
    assert forall|a: int, b: int|
        0 <= a < b < plan.len() && #[trigger] spawns_int_grid_cells(plan[a])
            && #[trigger] spawns_int_grid_cells(plan[b]) implies tile_layer_of(plan[a])
        != tile_layer_of(plan[b]) by {
        if a < background.len() {
            assert(plan[a] == background[a]);
        } else {
            assert(plan[a] == rest[a - background.len()]);
            assert(plan[b] == rest[b - background.len()]);
            assert(spawns_int_grid_cells(rest[a - background.len()]));
            assert(spawns_int_grid_cells(rest[b - background.len()]));
        }
    }
}

/// The texture a tile layer is drawn with: its tileset's image, else the IntGrid image.
pub open spec fn texture_of(layer: LayerInstance) -> LayerTexture {
    match layer.tileset_def_uid {
        Some(uid) => LayerTexture::Tileset(uid),
        None => LayerTexture::IntGridImage,
    }
}

/// A step spawns a layer of the level as that layer asks: the layer is not excluded; an
/// entity layer step is for an entity layer; a tile layer step is for a layer of another kind,
/// drawn with the layer's tileset or else the IntGrid image (which must exist), and is one of
/// the sublayers that the layer's tiles stack into.
pub open spec fn step_matches_layer(
    step: SpawnStep,
    layers: Seq<LayerInstance>,
    excluded: Seq<Seq<char>>,
    has_int_grid_image: bool,
) -> bool {
    match step {
        SpawnStep::EntityLayer { layer } => layer < layers.len() && !excluded.contains(
            layers[layer as int].identifier@,
        ) && layers[layer as int].layer_instance_type == Type::Entities,
        SpawnStep::TileLayer { layer, sublayer, texture, .. } => layer < layers.len()
            && !excluded.contains(layers[layer as int].identifier@) && layers[layer as int].layer_instance_type
            != Type::Entities && sublayer < sublayer_count(layer_tiles(layers[layer as int]))
            && texture == texture_of(layers[layer as int]) && (layers[layer as int].tileset_def_uid is None
            ==> has_int_grid_image),
        _ => false,
    }
}

/// Where a step stands among the layer entities of the level: its layer and its sublayer (zero
/// for an entity layer).
pub open spec fn step_place(step: SpawnStep) -> (int, int) {
    match step {
        SpawnStep::EntityLayer { layer } => (layer as int, 0),
        SpawnStep::TileLayer { layer, sublayer, .. } => (layer as int, sublayer as int),
        _ => (-1, -1),
    }
}

/// Some step of `plan` spawns sublayer `k` of layer `l` (or layer `l` itself, for `k` zero and
/// an entity layer).
pub open spec fn has_layer_entity(plan: Seq<SpawnStep>, l: int, k: int) -> bool {
    exists|a: int| 0 <= a < plan.len() && #[trigger] step_place(plan[a]) == (l, k)
}

/// The layer `l` is spawned with a step for each of its layer entities.
pub open spec fn layer_is_spawned(
    plan: Seq<SpawnStep>,
    layers: Seq<LayerInstance>,
    excluded: Seq<Seq<char>>,
    has_int_grid_image: bool,
    l: int,
) -> bool {
    let layer = layers[l];
    if excluded.contains(layer.identifier@) {
        true
    } else if layer.layer_instance_type == Type::Entities {
        exists|a: int| 0 <= a < plan.len() && #[trigger] plan[a] == SpawnStep::EntityLayer { layer: l as usize }
    } else if layer.tileset_def_uid is Some || has_int_grid_image {
        forall|k: int|
            0 <= k < sublayer_count(layer_tiles(layer)) ==> #[trigger] has_layer_entity(plan, l, k)
    } else {
        true
    }
}

/// The layers' part of a plan spawns exactly the layer entities the layers ask for: every step
/// spawns a layer from index `from` on as it asks, every such layer that is not excluded gets
/// all its layer entities, and no layer entity is spawned twice.
proof fn lemma_layers_plan_spawns_layers(
    layers: Seq<LayerInstance>,
    excluded: Seq<Seq<char>>,
    has_int_grid_image: bool,
    from: int,
)
    requires
        0 <= from,
        layers.len() <= usize::MAX,
        layer_tile_counts_fit(layers),
    ensures
        forall|a: int|
            0 <= a < layers_plan(layers, excluded, has_int_grid_image, from).len() ==> {
                let step = #[trigger] layers_plan(layers, excluded, has_int_grid_image, from)[a];
                step_matches_layer(step, layers, excluded, has_int_grid_image) && from
                    <= step_place(step).0
            },
        forall|l: int|
            from <= l < layers.len() ==> #[trigger] layer_is_spawned(
                layers_plan(layers, excluded, has_int_grid_image, from),
                layers,
                excluded,
                has_int_grid_image,
                l,
            ),
        forall|a: int, b: int|
            0 <= a < b < layers_plan(layers, excluded, has_int_grid_image, from).len()
                ==> step_place(#[trigger] layers_plan(layers, excluded, has_int_grid_image, from)[a])
                != step_place(#[trigger] layers_plan(layers, excluded, has_int_grid_image, from)[b]),
    decreases layers.len() - from,
{
    if from < layers.len() {
        lemma_layers_plan_spawns_layers(layers, excluded, has_int_grid_image, from + 1);
        let rest = layers_plan(layers, excluded, has_int_grid_image, from + 1);
        let layer = layers[from];
        let here = if excluded.contains(layer.identifier@) {
            Seq::empty()
        } else {
            single_layer_plan(layer, from, has_int_grid_image)
        };
        let plan = layers_plan(layers, excluded, has_int_grid_image, from);
        assert(plan == rest + here);
        lemma_sublayer_count_bound(layer_tiles(layer));
        assert(layer_tiles(layer).len() <= usize::MAX);
        assert forall|a: int| 0 <= a < here.len() implies {
            &&& step_matches_layer(#[trigger] here[a], layers, excluded, has_int_grid_image)
            &&& step_place(here[a]) == (from, a)
        } by {}
        assert forall|a: int| 0 <= a < plan.len() implies {
            let step = #[trigger] plan[a];
            step_matches_layer(step, layers, excluded, has_int_grid_image) && from <= step_place(
                step,
            ).0
        } by {
            if a < rest.len() {
                assert(plan[a] == rest[a]);
            } else {
                assert(plan[a] == here[a - rest.len()]);
            }
        }
        assert forall|l: int| from <= l < layers.len() implies #[trigger] layer_is_spawned(
            plan,
            layers,
            excluded,
            has_int_grid_image,
            l,
        ) by {
            if l > from {
                assert(layer_is_spawned(rest, layers, excluded, has_int_grid_image, l));
                if !excluded.contains(layers[l].identifier@) {
                    if layers[l].layer_instance_type == Type::Entities {
                        let a = choose|a: int|
                            0 <= a < rest.len() && #[trigger] rest[a] == SpawnStep::EntityLayer {
                                layer: l as usize,
                            };
                        assert(plan[a] == rest[a]);
                    } else if layers[l].tileset_def_uid is Some || has_int_grid_image {
                        assert forall|k: int|
                            0 <= k < sublayer_count(layer_tiles(layers[l])) implies #[trigger] has_layer_entity(
                            plan,
                            l,
                            k,
                        ) by {
                            assert(has_layer_entity(rest, l, k));
                            let a = choose|a: int|
                                0 <= a < rest.len() && #[trigger] step_place(rest[a]) == (l, k);
                            assert(plan[a] == rest[a]);
                        }
                    }
                }
            } else if !excluded.contains(layer.identifier@) {
                if layer.layer_instance_type == Type::Entities {
                    assert(plan[rest.len() as int] == here[0]);
                } else if layer.tileset_def_uid is Some || has_int_grid_image {
                    assert forall|k: int| 0 <= k < sublayer_count(layer_tiles(layer)) implies #[trigger] has_layer_entity(
                        plan,
                        l,
                        k,
                    ) by {
                        assert(plan[rest.len() + k] == here[k]);
                        assert(step_place(here[k]) == (from, k));
                        assert(step_place(plan[rest.len() + k]) == (l, k));
                    }
                }
            }
        }
        assert forall|a: int, b: int| 0 <= a < b < plan.len() implies step_place(#[trigger] plan[a])
            != step_place(#[trigger] plan[b]) by {
            if b < rest.len() {
                assert(plan[a] == rest[a] && plan[b] == rest[b]);
            } else if a < rest.len() {
                assert(plan[a] == rest[a] && plan[b] == here[b - rest.len()]);
                assert(from + 1 <= step_place(rest[a]).0);
                assert(step_place(here[b - rest.len()]) == (from, b - rest.len()));
            } else {
                assert(plan[a] == here[a - rest.len()] && plan[b] == here[b - rest.len()]);
                assert(step_place(here[a - rest.len()]) == (from, a - rest.len()));
                assert(step_place(here[b - rest.len()]) == (from, b - rest.len()));
            }
        }
    }
}

/// Spawning a level creates exactly what its settings and layers ask for: the background
/// colour first when backgrounds are rendered, then the background image when there is one,
/// and nowhere else; after them, steps that each spawn a layer as it asks, every layer that is
/// not excluded with all its layer entities, and no layer entity twice.
pub proof fn lemma_spawn_plan_spawns_what_is_asked(
    layers: Seq<LayerInstance>,
    settings: LdtkSettings,
    excluded: Seq<Seq<char>>,
    has_background_image: bool,
    has_int_grid_image: bool,
)
    requires
        layers.len() <= usize::MAX,
        layer_tile_counts_fit(layers),
    ensures
        forall|a: int|
            0 <= a < spawn_plan(layers, settings, excluded, has_background_image, has_int_grid_image).len()
                ==> {
                let step = #[trigger] spawn_plan(
                    layers,
                    settings,
                    excluded,
                    has_background_image,
                    has_int_grid_image,
                )[a];
                &&& (step == SpawnStep::Background) <==> (a == 0
                    && settings.level_background == LevelBackground::Rendered)
                &&& (step == SpawnStep::BackgroundImage) <==> (a == 1
                    && settings.level_background == LevelBackground::Rendered
                    && has_background_image)
                &&& step != SpawnStep::Background && step != SpawnStep::BackgroundImage
                    ==> step_matches_layer(step, layers, excluded, has_int_grid_image)
            },
        settings.level_background == LevelBackground::Rendered ==> spawn_plan(
            layers,
            settings,
            excluded,
            has_background_image,
            has_int_grid_image,
        ).len() > 0,
        settings.level_background == LevelBackground::Rendered && has_background_image
            ==> spawn_plan(layers, settings, excluded, has_background_image, has_int_grid_image).len()
            > 1,
        forall|l: int|
            0 <= l < layers.len() ==> #[trigger] layer_is_spawned(
                spawn_plan(layers, settings, excluded, has_background_image, has_int_grid_image),
                layers,
                excluded,
                has_int_grid_image,
                l,
            ),
        forall|a: int, b: int|
            0 <= a < b < spawn_plan(layers, settings, excluded, has_background_image, has_int_grid_image).len()
                && step_matches_layer(
                spawn_plan(layers, settings, excluded, has_background_image, has_int_grid_image)[a],
                layers,
                excluded,
                has_int_grid_image,
            ) ==> step_place(
                #[trigger] spawn_plan(layers, settings, excluded, has_background_image, has_int_grid_image)[a],
            ) != step_place(
                #[trigger] spawn_plan(layers, settings, excluded, has_background_image, has_int_grid_image)[b],
            ),
{
    lemma_layers_plan_spawns_layers(layers, excluded, has_int_grid_image, 0);
    let background = background_plan(settings, has_background_image);
    let rest = layers_plan(layers, excluded, has_int_grid_image, 0);
    let plan = spawn_plan(layers, settings, excluded, has_background_image, has_int_grid_image);
    assert(plan == background + rest);
    assert forall|a: int| 0 <= a < rest.len() implies #[trigger] rest[a] != SpawnStep::Background
        && rest[a] != SpawnStep::BackgroundImage by {
        assert(step_matches_layer(rest[a], layers, excluded, has_int_grid_image));
    }
    assert forall|a: int| 0 <= a < plan.len() implies {
        let step = #[trigger] plan[a];
        &&& (step == SpawnStep::Background) <==> (a == 0 && settings.level_background
            == LevelBackground::Rendered)
        &&& (step == SpawnStep::BackgroundImage) <==> (a == 1 && settings.level_background
            == LevelBackground::Rendered && has_background_image)
        &&& step != SpawnStep::Background && step != SpawnStep::BackgroundImage
            ==> step_matches_layer(step, layers, excluded, has_int_grid_image)
    } by {
        if a < background.len() {
            assert(plan[a] == background[a]);
        } else {
            assert(plan[a] == rest[a - background.len()]);
        }
    }
    assert forall|l: int| 0 <= l < layers.len() implies #[trigger] layer_is_spawned(
        plan,
        layers,
        excluded,
        has_int_grid_image,
        l,
    ) by {
        assert(layer_is_spawned(rest, layers, excluded, has_int_grid_image, l));
        if !excluded.contains(layers[l].identifier@) {
            if layers[l].layer_instance_type == Type::Entities {
                let a = choose|a: int|
                    0 <= a < rest.len() && #[trigger] rest[a] == SpawnStep::EntityLayer {
                        layer: l as usize,
                    };
                assert(plan[background.len() + a] == rest[a]);
            } else if layers[l].tileset_def_uid is Some || has_int_grid_image {
                assert forall|k: int|
                    0 <= k < sublayer_count(layer_tiles(layers[l])) implies #[trigger] has_layer_entity(
                    plan,
                    l,
                    k,
                ) by {
                    assert(has_layer_entity(rest, l, k));
                    let a = choose|a: int|
                        0 <= a < rest.len() && #[trigger] step_place(rest[a]) == (l, k);
                    assert(plan[background.len() + a] == rest[a]);
                    assert(step_place(plan[background.len() + a]) == (l, k));
                }
            }
        }
    }
    assert forall|a: int, b: int|
        0 <= a < b < plan.len() && step_matches_layer(
            plan[a],
            layers,
            excluded,
            has_int_grid_image,
        ) implies step_place(#[trigger] plan[a]) != step_place(#[trigger] plan[b]) by {
        if a < background.len() {
            assert(plan[a] == background[a]);
        } else {
            assert(plan[a] == rest[a - background.len()]);
            assert(plan[b] == rest[b - background.len()]);
        }
    }
}

/// The position of the tile with index `k` among the grid tiles, then the auto-layer tiles.
fn tile_px_at(grid_tiles: &Vec<TileInstance>, auto_layer_tiles: &Vec<TileInstance>, k: usize) -> (px:
    IVec2)
    requires
        k < grid_tiles@.len() + auto_layer_tiles@.len(),
    ensures
        px == (grid_tiles@ + auto_layer_tiles@)[k as int].px,
{
    if k < grid_tiles.len() {
        grid_tiles[k].px
    } else {
        auto_layer_tiles[k - grid_tiles.len()].px
    }
}

/// How many sublayers the tiles of a layer are stacked into: as many as the most of its tiles
/// that share a position, and at least one.
pub fn layer_sublayer_count(layer_instance: &LayerInstance) -> (count: usize)
    requires
        layer_instance.grid_tiles@.len() + layer_instance.auto_layer_tiles@.len() <= usize::MAX,
    ensures
        count == sublayer_count(layer_tiles(*layer_instance)),
{
    let grid_tiles = &layer_instance.grid_tiles;
    let auto_layer_tiles = &layer_instance.auto_layer_tiles;
    let ghost all = layer_tiles(*layer_instance);
    let n = grid_tiles.len() + auto_layer_tiles.len();
    let mut height: usize = 0;
    let mut i: usize = 0;
    while i < n
        invariant
            i <= n,
            n == all.len(),
            all == grid_tiles@ + auto_layer_tiles@,
            height == stack_height(all.take(i as int)),
            height <= i,
        decreases n - i,
    {
        let px = tile_px_at(grid_tiles, auto_layer_tiles, i);
        let mut count: usize = 0;
        let mut j: usize = 0;
        while j <= i
            invariant
                j <= i + 1,
                i < n,
                n == all.len(),
                all == grid_tiles@ + auto_layer_tiles@,
                count == px_count(all.take(j as int), px),
                count <= j,
            decreases i + 1 - j,
        {
            let q = tile_px_at(grid_tiles, auto_layer_tiles, j);
            assert(all.take(j + 1).drop_last() =~= all.take(j as int));
            if q == px {
                count = count + 1;
            }
            j = j + 1;
        }
        assert(all.take(i + 1).drop_last() =~= all.take(i as int));
        if count > height {
            height = count;
        }
        i = i + 1;
    }
    assert(all.take(n as int) =~= all);
    if height > 1 {
        height
    } else {
        1
    }
}

/// Whether `identifier` is among the excluded layer identifiers.
fn is_excluded(identifier: &String, excluded: &Vec<String>) -> (found: bool)
    ensures
        found == excluded@.map_values(|s: String| s@).contains(identifier@),
{
    let ghost views = excluded@.map_values(|s: String| s@);
    let mut i: usize = 0;
    while i < excluded.len()
        invariant
            i <= excluded@.len(),
            views == excluded@.map_values(|s: String| s@),
            forall|k: int| 0 <= k < i ==> (#[trigger] excluded@[k])@ != identifier@,
        decreases excluded@.len() - i,
    {
        if excluded[i] == *identifier {
            assert(views[i as int] == identifier@);
            return true;
        }
        i = i + 1;
    }
    assert(!views.contains(identifier@)) by {
        if views.contains(identifier@) {
            let k = choose|k: int| 0 <= k < views.len() && #[trigger] views[k] == identifier@;
            assert(excluded@[k]@ == identifier@);
        }
    }
    false
}

/// Plan the entities that spawning a level with these layers creates, in spawn order; the
/// `z` of each is its position in the plan.
///
/// The background comes first when the settings render backgrounds (with the background image,
/// when one could be made). Then come the layers whose identifiers are not excluded, from the
/// last layer to the first: an entity layer is one entity, a tile layer one entity per sublayer
/// of its stacked tiles, drawn with its tileset or else the IntGrid image. A tile layer with
/// neither is skipped.
pub fn level_spawn_plan(
    layers: &Vec<LayerInstance>,
    settings: &LdtkSettings,
    excluded_layer_identifiers: &Vec<String>,
    has_background_image: bool,
    has_int_grid_image: bool,
) -> (plan: Vec<SpawnStep>)
    requires
        forall|i: int|
            0 <= i < layers@.len() ==> (#[trigger] layers@[i]).grid_tiles@.len()
                + layers@[i].auto_layer_tiles@.len() <= usize::MAX,
    ensures
        plan@ == spawn_plan(
            layers@,
            *settings,
            excluded_layer_identifiers@.map_values(|s: String| s@),
            has_background_image,
            has_int_grid_image,
        ),
{
    let ghost excluded = excluded_layer_identifiers@.map_values(|s: String| s@);
    let ghost background = background_plan(*settings, has_background_image);
    let mut plan: Vec<SpawnStep> = Vec::new();
    if settings.level_background == LevelBackground::Rendered {
        plan.push(SpawnStep::Background);
        if has_background_image {
            plan.push(SpawnStep::BackgroundImage);
        }
    }
    assert(plan@ =~= background + layers_plan(layers@, excluded, has_int_grid_image, layers@.len() as int));
    let mut i: usize = layers.len();
    while i > 0
        invariant
            i <= layers@.len(),
            excluded == excluded_layer_identifiers@.map_values(|s: String| s@),
            background == background_plan(*settings, has_background_image),
            plan@ == background + layers_plan(layers@, excluded, has_int_grid_image, i as int),
            forall|k: int|
                0 <= k < layers@.len() ==> (#[trigger] layers@[k]).grid_tiles@.len()
                    + layers@[k].auto_layer_tiles@.len() <= usize::MAX,
        decreases i,
    {
        i = i - 1;
        let layer = &layers[i];
        let ghost before = plan@;
        let ghost here = single_layer_plan(*layer, i as int, has_int_grid_image);
        if !is_excluded(&layer.identifier, excluded_layer_identifiers) {
            if layer.layer_instance_type == Type::Entities {
                plan.push(SpawnStep::EntityLayer { layer: i });
            } else {
                let texture = match layer.tileset_def_uid {
                    Some(uid) => Some(LayerTexture::Tileset(uid)),
                    None => if has_int_grid_image {
                        Some(LayerTexture::IntGridImage)
                    } else {
                        None
                    },
                };
                if let Some(texture) = texture {
                    let count = layer_sublayer_count(layer);
                    let int_grid = layer.layer_instance_type == Type::IntGrid;
                    let mut k: usize = 0;
                    while k < count
                        invariant
                            k <= count,
                            count == here.len(),
                            here == single_layer_plan(*layer, i as int, has_int_grid_image),
                            layer.layer_instance_type != Type::Entities,
                            layer_texture(*layer, has_int_grid_image) == Some(texture),
                            int_grid == (layer.layer_instance_type == Type::IntGrid),
                            plan@ == before + here.take(k as int),
                        decreases count - k,
                    {
                        plan.push(
                            SpawnStep::TileLayer {
                                layer: i,
                                sublayer: k,
                                texture,
                                int_grid_cells: int_grid && k == 0,
                            },
                        );
                        assert(here.take(k + 1) =~= here.take(k as int).push(here[k as int]));
                        k = k + 1;
                    }
                    assert(here.take(count as int) =~= here);
                } else {
                    assert(here =~= Seq::<SpawnStep>::empty());
                    assert(before + here =~= before);
                }
            }
        }
        assert(plan@ =~= background + layers_plan(layers@, excluded, has_int_grid_image, i as int));
    }
    plan
}

/// The grid coordinates of the cell with index `index` of a row-major IntGrid csv `c_wid`
/// cells wide and `c_hei` cells high: LDtk counts rows from the top, grid coordinates count
/// them from the bottom.
pub open spec fn int_grid_coords(index: int, c_wid: int, c_hei: int) -> GridCoords {
    GridCoords { x: (index % c_wid) as i32, y: (c_hei - 1 - index / c_wid) as i32 }
}

/// The cells of an IntGrid csv with a value other than zero, in order, with their grid
/// coordinates and values.
pub open spec fn nonzero_cells(csv: Seq<i32>, c_wid: i32, c_hei: i32) -> Seq<(GridCoords, i32)>
    decreases csv.len(),
{
    if csv.len() == 0 {
        Seq::empty()
    } else {
        let rest = nonzero_cells(csv.drop_last(), c_wid, c_hei);
        if csv.last() != 0 {
            rest.push((int_grid_coords(csv.len() - 1, c_wid as int, c_hei as int), csv.last()))
        } else {
            rest
        }
    }
}

/// Every cell with a value lies within the layer's grid.
pub open spec fn int_grid_cells_in_grid(layer: LayerInstance) -> bool {
    forall|i: int|
        0 <= i < layer.int_grid_csv@.len() && #[trigger] layer.int_grid_csv@[i] != 0 ==> 0
            < layer.c_wid && 0 < layer.c_hei && i < layer.c_wid * layer.c_hei
}

/// Every IntGrid cell with a value lies on the layer's grid: its coordinates are within the
/// layer's width and height.
pub proof fn lemma_int_grid_cells_on_grid(layer: LayerInstance, n: int)
    requires
        int_grid_cells_in_grid(layer),
        0 <= n <= layer.int_grid_csv@.len(),
    ensures
        forall|k: int|
            0 <= k < nonzero_cells(layer.int_grid_csv@.take(n), layer.c_wid, layer.c_hei).len()
                ==> {
                let coords = (#[trigger] nonzero_cells(
                    layer.int_grid_csv@.take(n),
                    layer.c_wid,
                    layer.c_hei,
                )[k]).0;
                0 <= coords.x < layer.c_wid && 0 <= coords.y < layer.c_hei
            },
    decreases n,
{
    let csv = layer.int_grid_csv@;
    if n > 0 {
        lemma_int_grid_cells_on_grid(layer, n - 1);
        assert(csv.take(n).drop_last() =~= csv.take(n - 1));
        let i = n - 1;
        if csv[i] != 0 {
            let w = layer.c_wid as int;
            let h = layer.c_hei as int;
            assert(csv.take(n).last() == csv[i]);
            assert(0 <= i % w < w) by (nonlinear_arith)
                requires
                    0 < w,
            ;
            assert(0 <= i / w < h) by (nonlinear_arith)
                requires
                    0 < w,
                    0 <= i < w * h,
            ;
            let coords = int_grid_coords(i, w, h);
            assert(coords.x == i % w && coords.y == h - 1 - i / w);
        }
        let cells = nonzero_cells(csv.take(n), layer.c_wid, layer.c_hei);
        let rest = nonzero_cells(csv.take(n - 1), layer.c_wid, layer.c_hei);
        assert forall|k: int| 0 <= k < cells.len() implies {
            let coords = (#[trigger] cells[k]).0;
            0 <= coords.x < layer.c_wid && 0 <= coords.y < layer.c_hei
        } by {
            if k < rest.len() {
                assert(cells[k] == rest[k]);
            }
        }
    }
}

/// The index in a row-major csv, rows counted from the top, of the cell at `coords`, rows
/// counted from the bottom.
pub open spec fn csv_index(coords: GridCoords, c_wid: int, c_hei: int) -> int {
    (c_hei - 1 - coords.y) * c_wid + coords.x
}

/// The IntGrid cells are the cells of the csv with a value other than zero, in csv order, each
/// with its value: each cell's coordinates lead back to a csv entry with the cell's value, which
/// is not zero, the cells go through the csv in increasing order, and every entry other than
/// zero has its cell.
pub proof fn lemma_int_grid_cells_are_nonzero_values(layer: LayerInstance, n: int)
    requires
        int_grid_cells_in_grid(layer),
        0 <= n <= layer.int_grid_csv@.len(),
    ensures
        forall|k: int|
            0 <= k < nonzero_cells(layer.int_grid_csv@.take(n), layer.c_wid, layer.c_hei).len()
                ==> {
                let cell = #[trigger] nonzero_cells(
                    layer.int_grid_csv@.take(n),
                    layer.c_wid,
                    layer.c_hei,
                )[k];
                let i = csv_index(cell.0, layer.c_wid as int, layer.c_hei as int);
                &&& 0 <= i < n
                &&& layer.int_grid_csv@[i] == cell.1
                &&& cell.1 != 0
            },
        forall|a: int, b: int|
            0 <= a < b < nonzero_cells(layer.int_grid_csv@.take(n), layer.c_wid, layer.c_hei).len()
                ==> csv_index(
                (#[trigger] nonzero_cells(layer.int_grid_csv@.take(n), layer.c_wid, layer.c_hei)[a]).0,
                layer.c_wid as int,
                layer.c_hei as int,
            ) < csv_index(
                (#[trigger] nonzero_cells(layer.int_grid_csv@.take(n), layer.c_wid, layer.c_hei)[b]).0,
                layer.c_wid as int,
                layer.c_hei as int,
            ),
        forall|i: int|
            0 <= i < n && #[trigger] layer.int_grid_csv@[i] != 0 ==> exists|k: int|
                0 <= k < nonzero_cells(layer.int_grid_csv@.take(n), layer.c_wid, layer.c_hei).len()
                    && csv_index(
                    (#[trigger] nonzero_cells(
                        layer.int_grid_csv@.take(n),
                        layer.c_wid,
                        layer.c_hei,
                    )[k]).0,
                    layer.c_wid as int,
                    layer.c_hei as int,
                ) == i,
    decreases n,
{
    let csv = layer.int_grid_csv@;
    let w = layer.c_wid as int;
    let h = layer.c_hei as int;
    if n > 0 {
        lemma_int_grid_cells_are_nonzero_values(layer, n - 1);
        assert(csv.take(n).drop_last() =~= csv.take(n - 1));
        let i = n - 1;
        let cells = nonzero_cells(csv.take(n), layer.c_wid, layer.c_hei);
        let rest = nonzero_cells(csv.take(n - 1), layer.c_wid, layer.c_hei);
        assert(csv.take(n).last() == csv[i]);
        if csv[i] != 0 {
            assert(0 <= i % w < w) by (nonlinear_arith)
                requires
                    0 < w,
            ;
            assert(0 <= i / w < h) by (nonlinear_arith)
                requires
                    0 < w,
                    0 <= i < w * h,
            ;
            assert(i == (i / w) * w + i % w) by (nonlinear_arith)
                requires
                    0 < w,
            ;
            let coords = int_grid_coords(i, w, h);
            assert(coords.x == i % w && coords.y == h - 1 - i / w);
            assert(csv_index(coords, w, h) == i);
            assert(cells == rest.push((coords, csv[i])));
        } else {
            assert(cells == rest);
        }
        assert forall|k: int| 0 <= k < cells.len() implies {
            let cell = #[trigger] cells[k];
            let j = csv_index(cell.0, w, h);
            &&& 0 <= j < n
            &&& csv[j] == cell.1
            &&& cell.1 != 0
        } by {
            if k < rest.len() {
                assert(cells[k] == rest[k]);
            }
        }
        assert forall|a: int, b: int| 0 <= a < b < cells.len() implies csv_index(
            (#[trigger] cells[a]).0,
            w,
            h,
        ) < csv_index((#[trigger] cells[b]).0, w, h) by {
            assert(cells[a] == rest[a]);
            if b < rest.len() {
                assert(cells[b] == rest[b]);
            }
        }
        assert forall|j: int| 0 <= j < n && #[trigger] csv[j] != 0 implies exists|k: int|
            0 <= k < cells.len() && csv_index((#[trigger] cells[k]).0, w, h) == j by {
            if j < n - 1 {
                let k = choose|k: int|
                    0 <= k < rest.len() && csv_index((#[trigger] rest[k]).0, w, h) == j;
                assert(cells[k] == rest[k]);
            } else {
                assert(csv_index(cells[rest.len() as int].0, w, h) == j);
            }
        }
    }
}

/// The IntGrid cells of a layer that get an entity of their own: those with a value other than
/// zero, with their grid coordinates and values.
pub fn int_grid_cells(layer: &LayerInstance) -> (cells: Vec<(GridCoords, i32)>)
    requires
        int_grid_cells_in_grid(*layer),
    ensures
        cells@ == nonzero_cells(layer.int_grid_csv@, layer.c_wid, layer.c_hei),
{
    let csv = &layer.int_grid_csv;
    let mut cells: Vec<(GridCoords, i32)> = Vec::new();
    let mut i: usize = 0;
    while i < csv.len()
        invariant
            i <= csv@.len(),
            *csv == layer.int_grid_csv,
            int_grid_cells_in_grid(*layer),
            cells@ == nonzero_cells(csv@.take(i as int), layer.c_wid, layer.c_hei),
        decreases csv@.len() - i,
    {
        let value = csv[i];
        assert(csv@.take(i + 1).drop_last() =~= csv@.take(i as int));
        if value != 0 {
            assert(csv@[i as int] != 0);
            let c_wid = layer.c_wid;
            let c_hei = layer.c_hei;
            let w = c_wid as usize;
            let x = i % w;
            let row = i / w;
            assert(row < c_hei) by (nonlinear_arith)
                requires
                    row == i / w,
                    w == c_wid,
                    0 < c_wid,
                    0 < c_hei,
                    i < c_wid * c_hei,
            ;
            let coords = GridCoords::new(x as i32, c_hei - 1 - row as i32);
            cells.push((coords, value));
        }
        i = i + 1;
    }
    assert(csv@.take(csv@.len() as int) =~= csv@);
    cells
}

/// The indices of the entities of `entities`, in order, whose iids are not among `worldly`:
/// worldly entities that already exist are not spawned again.
pub open spec fn entities_to_spawn_spec(entities: Seq<EntityInstance>, worldly: Seq<Seq<char>>) -> Seq<
    usize,
>
    decreases entities.len(),
{
    if entities.len() == 0 {
        Seq::empty()
    } else {
        let rest = entities_to_spawn_spec(entities.drop_last(), worldly);
        if worldly.contains(entities.last().iid@) {
            rest
        } else {
            rest.push((entities.len() - 1) as usize)
        }
    }
}

/// The indices of the entities of an entity layer that spawning it creates: all but the
/// worldly ones that already exist.
pub fn entities_to_spawn(layer: &LayerInstance, worldly: &Vec<Worldly>) -> (indices: Vec<usize>)
    ensures
        indices@ == entities_to_spawn_spec(
            layer.entity_instances@,
            worldly@.map_values(|w: Worldly| w.entity_iid@),
        ),
{
    let entities = &layer.entity_instances;
    let ghost iids = worldly@.map_values(|w: Worldly| w.entity_iid@);
    let mut indices: Vec<usize> = Vec::new();
    let mut i: usize = 0;
    while i < entities.len()
        invariant
            i <= entities@.len(),
            *entities == layer.entity_instances,
            iids == worldly@.map_values(|w: Worldly| w.entity_iid@),
            indices@ == entities_to_spawn_spec(entities@.take(i as int), iids),
        decreases entities@.len() - i,
    {
        let iid = &entities[i].iid;
        assert(entities@.take(i + 1).drop_last() =~= entities@.take(i as int));
        let mut found = false;
        let mut j: usize = 0;
        while j < worldly.len()
            invariant
                j <= worldly@.len(),
                iids == worldly@.map_values(|w: Worldly| w.entity_iid@),
                found <==> exists|k: int| 0 <= k < j && (#[trigger] worldly@[k]).entity_iid@ == iid@,
            decreases worldly@.len() - j,
        {
            if worldly[j].entity_iid == *iid {
                assert(worldly@[j as int].entity_iid@ == iid@);
                found = true;
            }
            j = j + 1;
        }
        assert(found == iids.contains(iid@)) by {
            if found {
                let k = choose|k: int| 0 <= k < worldly@.len() && (#[trigger] worldly@[k]).entity_iid@ == iid@;
                assert(iids[k] == iid@);
            }
            if iids.contains(iid@) {
                let k = choose|k: int| 0 <= k < iids.len() && #[trigger] iids[k] == iid@;
                assert(worldly@[k].entity_iid@ == iid@);
            }
        }
        if !found {
            indices.push(i);
        }
        i = i + 1;
    }
    assert(entities@.take(entities@.len() as int) =~= entities@);
    indices
}

/// The index, in the texture atlas of a tileset, of the tile that `tile` cuts out of it: the
/// atlas counts tiles row by row, `c_wid` to a row, each cell a tile plus the spacing wide and
/// high.
pub open spec fn atlas_index_of(tile: TilesetRectangle, spacing: i32, c_wid: i32) -> int {
    (tile.y as int) / (tile.h + spacing) * c_wid + (tile.x as int) / (tile.w + spacing)
}

/// The index of an entity's tile in the texture atlas of its tileset.
pub fn atlas_index(tile: &TilesetRectangle, tileset_definition: &TilesetDefinition) -> (index:
    usize)
    requires
        0 <= tile.x,
        0 <= tile.y,
        0 < tile.w + tileset_definition.spacing <= i32::MAX,
        0 < tile.h + tileset_definition.spacing <= i32::MAX,
        0 <= tileset_definition.c_wid,
        atlas_index_of(*tile, tileset_definition.spacing, tileset_definition.c_wid)
            <= usize::MAX,
    ensures
        index == atlas_index_of(*tile, tileset_definition.spacing, tileset_definition.c_wid),
{
    let cell_w = (tile.w + tileset_definition.spacing) as u32;
    let cell_h = (tile.h + tileset_definition.spacing) as u32;
    let column = (tile.x as u32 / cell_w) as usize;
    let row = (tile.y as u32 / cell_h) as usize;
    let c_wid = tileset_definition.c_wid as usize;
    assert(row * c_wid <= row * c_wid + column);
    row * c_wid + column
}

/// An entity of the layer spawns exactly when no worldly entity has its iid: the result lists,
/// in increasing order, the index of every entity whose iid differs from the iid of every
/// worldly entity, and no other index.
pub proof fn lemma_entities_to_spawn_skip_worldly(
    entities: Seq<EntityInstance>,
    worldly: Seq<Seq<char>>,
)
    requires
        entities.len() <= usize::MAX,
    ensures
        forall|a: int|
            0 <= a < entities_to_spawn_spec(entities, worldly).len() ==> #[trigger] entities_to_spawn_spec(
                entities,
                worldly,
            )[a] < entities.len(),
        forall|a: int, b: int|
            0 <= a < b < entities_to_spawn_spec(entities, worldly).len() ==> #[trigger] entities_to_spawn_spec(
                entities,
                worldly,
            )[a] < #[trigger] entities_to_spawn_spec(entities, worldly)[b],
        forall|i: int|
            0 <= i < entities.len() ==> (entities_to_spawn_spec(entities, worldly).contains(
                i as usize,
            ) <==> forall|k: int| 0 <= k < worldly.len() ==> worldly[k] != (
            #[trigger] entities[i]).iid@),
    decreases entities.len(),
{
    if entities.len() > 0 {
        let rest_entities = entities.drop_last();
        lemma_entities_to_spawn_skip_worldly(rest_entities, worldly);
        let rest = entities_to_spawn_spec(rest_entities, worldly);
        let result = entities_to_spawn_spec(entities, worldly);
        let n = entities.len() - 1;
        let last = entities.last();
        let spawns_last = forall|k: int| 0 <= k < worldly.len() ==> worldly[k] != last.iid@;
        assert(spawns_last <==> !worldly.contains(last.iid@)) by {
            if !spawns_last {
                let k = choose|k: int| 0 <= k < worldly.len() && worldly[k] == last.iid@;
                assert(worldly.contains(last.iid@));
            }
        }
        assert forall|i: int| 0 <= i < entities.len() implies (result.contains(i as usize)
            <==> forall|k: int| 0 <= k < worldly.len() ==> worldly[k] != (
        #[trigger] entities[i]).iid@) by {
            if i < n {
                assert(entities[i] == rest_entities[i]);
                if spawns_last {
                    if result.contains(i as usize) {
                        let j = choose|j: int| 0 <= j < result.len() && result[j] == i as usize;
                        if j < rest.len() {
                            assert(rest.contains(i as usize));
                        }
                    }
                    if rest.contains(i as usize) {
                        let j = choose|j: int| 0 <= j < rest.len() && rest[j] == i as usize;
                        assert(result[j] == i as usize);
                    }
                }
            } else {
                assert(entities[i] == last);
                if spawns_last {
                    assert(result[rest.len() as int] == n as usize);
                } else {
                    assert(result == rest);
                    if rest.contains(i as usize) {
                        let j = choose|j: int| 0 <= j < rest.len() && rest[j] == i as usize;
                        assert(rest[j] < rest_entities.len());
                    }
                }
            }
        }
    }
}

/// A tile cut from the cell at column `column` and row `row` of the atlas grid (cells the tile
/// plus the spacing wide and high), anywhere within that cell, has the index
/// `row * c_wid + column`.
pub proof fn lemma_atlas_index_of_cell(
    tile: TilesetRectangle,
    spacing: i32,
    c_wid: i32,
    column: int,
    row: int,
)
    requires
        0 <= column,
        0 <= row,
        0 < tile.w + spacing,
        0 < tile.h + spacing,
        column * (tile.w + spacing) <= tile.x < (column + 1) * (tile.w + spacing),
        row * (tile.h + spacing) <= tile.y < (row + 1) * (tile.h + spacing),
    ensures
        atlas_index_of(tile, spacing, c_wid) == row * c_wid + column,
{
    let cell_w = tile.w + spacing;
    let cell_h = tile.h + spacing;
    let dx = tile.x - column * cell_w;
    let dy = tile.y - row * cell_h;
    assert(column * cell_w + cell_w == (column + 1) * cell_w) by (nonlinear_arith);
    assert(row * cell_h + cell_h == (row + 1) * cell_h) by (nonlinear_arith);
    assert(column * cell_w == cell_w * column) by (nonlinear_arith);
    assert(row * cell_h == cell_h * row) by (nonlinear_arith);
    vstd::arithmetic::div_mod::lemma_div_multiples_vanish_fancy(column, dx, cell_w);
    vstd::arithmetic::div_mod::lemma_div_multiples_vanish_fancy(row, dy, cell_h);
}

} // verus!
