//! Decisions made while spawning levels: how tiles are stacked into layers, which tiles are
//! drawn, and which metadata tiles get.
use vstd::prelude::*;

pub mod spawn_plan;

use std::collections::HashMap;

use crate::components::{TileEnumTags, TileMetadata};
use crate::ldtk::{
    EnumTagValue, IVec2, LayerInstance, TileCustomMetadata, TileInstance, TilesetDefinition,
};

verus! {

broadcast use vstd::std_specs::hash::group_hash_axioms;

/// How many of `tiles` are at the pixel position `px`.
pub open spec fn px_count(tiles: Seq<TileInstance>, px: IVec2) -> nat
    decreases tiles.len(),
{
    if tiles.len() == 0 {
        0
    } else {
        px_count(tiles.drop_last(), px) + if tiles.last().px == px {
            1nat
        } else {
            0nat
        }
    }
}

/// The tiles of `tiles` that have exactly `rank` tiles at their position before them, in
/// order: the first tiles at each position for rank 0, the second ones for rank 1, and so on.
pub open spec fn tiles_of_rank(tiles: Seq<TileInstance>, rank: nat) -> Seq<TileInstance>
    decreases tiles.len(),
{
    if tiles.len() == 0 {
        Seq::empty()
    } else {
        let before = tiles_of_rank(tiles.drop_last(), rank);
        if px_count(tiles.drop_last(), tiles.last().px) == rank {
            before.push(tiles.last())
        } else {
            before
        }
    }
}

/// The tiles of `tiles` that have some tile at their position before them, in order.
pub open spec fn repeated_tiles(tiles: Seq<TileInstance>) -> Seq<TileInstance>
    decreases tiles.len(),
{
    if tiles.len() == 0 {
        Seq::empty()
    } else {
        let before = repeated_tiles(tiles.drop_last());
        if px_count(tiles.drop_last(), tiles.last().px) > 0 {
            before.push(tiles.last())
        } else {
            before
        }
    }
}

/// Each position holds one tile fewer among the repeated tiles.
proof fn lemma_repeated_px_count(tiles: Seq<TileInstance>, px: IVec2)
    ensures
        px_count(repeated_tiles(tiles), px) == if px_count(tiles, px) > 0 {
            (px_count(tiles, px) - 1) as nat
        } else {
            0nat
        },
    decreases tiles.len(),
{
    if tiles.len() > 0 {
        let rest = tiles.drop_last();
        lemma_repeated_px_count(rest, px);
        let before = repeated_tiles(rest);
        if px_count(rest, tiles.last().px) > 0 {
            assert(before.push(tiles.last()).drop_last() =~= before);
        }
    }
}

/// A tile of rank `rank + 1` is a tile of rank `rank` among the repeated tiles.
proof fn lemma_repeated_rank(tiles: Seq<TileInstance>, rank: nat)
    ensures
        tiles_of_rank(repeated_tiles(tiles), rank) == tiles_of_rank(tiles, rank + 1),
    decreases tiles.len(),
{
    if tiles.len() > 0 {
        let rest = tiles.drop_last();
        let last = tiles.last();
        lemma_repeated_rank(rest, rank);
        lemma_repeated_px_count(rest, last.px);
        let before = repeated_tiles(rest);
        if px_count(rest, last.px) > 0 {
            let repeated = before.push(last);
            assert(repeated.drop_last() =~= before);
            assert(repeated.last() == last);
        }
    }
}

/// The first tiles at each position and the repeated tiles together are all the tiles, and
/// there is a first tile wherever there is a tile.
proof fn lemma_first_tiles_split(tiles: Seq<TileInstance>)
    ensures
        tiles_of_rank(tiles, 0).len() + repeated_tiles(tiles).len() == tiles.len(),
        tiles.len() > 0 ==> tiles_of_rank(tiles, 0).len() > 0,
    decreases tiles.len(),
{
    if tiles.len() > 0 {
        lemma_first_tiles_split(tiles.drop_last());
    }
}

/// Some first tile is at `px` exactly when some tile is.
proof fn lemma_first_tiles_px(tiles: Seq<TileInstance>, px: IVec2)
    ensures
        (exists|j: int|
            0 <= j < tiles_of_rank(tiles, 0).len() && #[trigger] tiles_of_rank(tiles, 0)[j].px
                == px) <==> px_count(tiles, px) > 0,
    decreases tiles.len(),
{
    if tiles.len() > 0 {
        let rest = tiles.drop_last();
        let last = tiles.last();
        lemma_first_tiles_px(rest, px);
        let before = tiles_of_rank(rest, 0);
        let layer = tiles_of_rank(tiles, 0);
        if px_count(rest, px) > 0 {
            let j = choose|j: int| 0 <= j < before.len() && #[trigger] before[j].px == px;
            assert(layer[j] == before[j]);
            assert(layer[j].px == px);
        } else if last.px == px {
            assert(layer == before.push(last));
            assert(layer[before.len() as int].px == px);
        } else {
            assert forall|j: int| 0 <= j < layer.len() implies #[trigger] layer[j].px != px by {
                if j < before.len() {
                    assert(layer[j] == before[j]);
                }
            }
        }
    }
}

/// There are no tiles of any rank among no tiles.
proof fn lemma_no_tiles_of_rank(tiles: Seq<TileInstance>, rank: nat)
    requires
        tiles.len() == 0,
    ensures
        tiles_of_rank(tiles, rank).len() == 0,
{
}

/// A position that `n` tiles share has exactly one tile in each of the first `n` layers that
/// [`layer_grid_tiles`] stacks the tiles into, and none in the others: no layer holds two tiles
/// at one position, and every tile is in some layer.
pub proof fn lemma_layer_positions(tiles: Seq<TileInstance>, rank: nat, px: IVec2)
    ensures
        px_count(tiles_of_rank(tiles, rank), px) == if px_count(tiles, px) > rank {
            1nat
        } else {
            0nat
        },
    decreases tiles.len(),
{
    if tiles.len() > 0 {
        let rest = tiles.drop_last();
        let last = tiles.last();
        lemma_layer_positions(rest, rank, px);
        let before = tiles_of_rank(rest, rank);
        if px_count(rest, last.px) == rank {
            assert(before.push(last).drop_last() =~= before);
        }
    }
}

/// The greatest number of tiles of `tiles` that share one position.
pub open spec fn stack_height(tiles: Seq<TileInstance>) -> nat
    decreases tiles.len(),
{
    if tiles.len() == 0 {
        0
    } else {
        let below = stack_height(tiles.drop_last());
        let here = px_count(tiles, tiles.last().px);
        if here > below {
            here
        } else {
            below
        }
    }
}

/// How many layers [`layer_grid_tiles`] stacks `tiles` into: as many as the most tiles that
/// share a position, and at least one.
pub open spec fn sublayer_count(tiles: Seq<TileInstance>) -> nat {
    if stack_height(tiles) > 1 {
        stack_height(tiles)
    } else {
        1
    }
}

/// No position holds more tiles than the stack height, and where there are tiles some position
/// holds that many.
proof fn lemma_stack_height(tiles: Seq<TileInstance>, px: IVec2)
    ensures
        px_count(tiles, px) <= stack_height(tiles),
        stack_height(tiles) > 0 ==> exists|q: IVec2| #[trigger]
            px_count(tiles, q) == stack_height(tiles),
    decreases tiles.len(),
{
    if tiles.len() > 0 {
        let rest = tiles.drop_last();
        let last = tiles.last();
        lemma_stack_height(rest, px);
        if px_count(tiles, last.px) <= stack_height(rest) && stack_height(rest) > 0 {
            let q = choose|q: IVec2| #[trigger] px_count(rest, q) == stack_height(rest);
            assert(px_count(tiles, q) >= px_count(rest, q));
        }
    }
}

/// A layer's tiles stack into as many sublayers as the most tiles at one position: no position
/// holds more tiles than there are sublayers, and unless there is a single sublayer some
/// position holds that many tiles.
pub proof fn lemma_sublayer_count_is_tallest_stack(tiles: Seq<TileInstance>)
    ensures
        forall|px: IVec2| #[trigger] px_count(tiles, px) <= sublayer_count(tiles),
        sublayer_count(tiles) == 1 || exists|px: IVec2| #[trigger] px_count(tiles, px)
            == sublayer_count(tiles),
{
    assert forall|px: IVec2| #[trigger] px_count(tiles, px) <= sublayer_count(tiles) by {
        lemma_stack_height(tiles, px);
    }
    lemma_stack_height(tiles, IVec2 { x: 0, y: 0 });
}

/// Some tiles are at a position whenever there are tiles.
proof fn lemma_px_count_nonempty(tiles: Seq<TileInstance>)
    requires
        tiles.len() > 0,
    ensures
        px_count(tiles, tiles.last().px) > 0,
{
}

/// There are tiles of rank `rank` exactly when some position holds more than `rank` tiles.
proof fn lemma_rank_nonempty(tiles: Seq<TileInstance>, rank: nat)
    ensures
        tiles_of_rank(tiles, rank).len() > 0 <==> rank < stack_height(tiles),
{
    let ranked = tiles_of_rank(tiles, rank);
    if ranked.len() > 0 {
        let px = ranked.last().px;
        lemma_px_count_nonempty(ranked);
        lemma_layer_positions(tiles, rank, px);
        lemma_stack_height(tiles, px);
    }
    if rank < stack_height(tiles) {
        lemma_stack_height(tiles, IVec2 { x: 0, y: 0 });
        let q = choose|q: IVec2| #[trigger] px_count(tiles, q) == stack_height(tiles);
        lemma_layer_positions(tiles, rank, q);
        if ranked.len() == 0 {
            assert(px_count(ranked, q) == 0);
        }
    }
}

/// Stack the tiles of a layer into as many layers as it takes for no two tiles of a layer to
/// share a position.
///
/// The `k`-th layer holds, in order, each tile that has exactly `k` tiles at its position
/// before it. There is always at least one layer, and no layer after the first is empty.
pub fn layer_grid_tiles(grid_tiles: Vec<TileInstance>) -> (layers: Vec<Vec<TileInstance>>)
    ensures
        layers.len() >= 1,
        forall|k: int| 0 <= k < layers.len() ==> (#[trigger] layers[k])@ == tiles_of_rank(
            grid_tiles@,
            k as nat,
        ),
        forall|k: int| 0 < k < layers.len() ==> (#[trigger] layers[k])@.len() > 0,
        forall|k: nat| k >= layers.len() ==> (#[trigger] tiles_of_rank(grid_tiles@, k)).len() == 0,
        layers.len() == sublayer_count(grid_tiles@),
    decreases grid_tiles@.len(),
{
    let ghost tiles = grid_tiles@;
    let mut layer: Vec<TileInstance> = Vec::new();
    let mut overflow: Vec<TileInstance> = Vec::new();
    for tile in it: grid_tiles
        invariant
            it.seq() == tiles,
            layer@ == tiles_of_rank(tiles.take(it.index() as int), 0),
            overflow@ == repeated_tiles(tiles.take(it.index() as int)),
    {
        let ghost taken = it.index() as int;
        let ghost prefix = tiles.take(taken);
        assert(tiles.take(taken + 1).drop_last() =~= prefix);
        assert(tiles.take(taken + 1).last() == tile);
        let mut found = false;
        let mut j: usize = 0;
        while j < layer.len()
            invariant
                j <= layer@.len(),
                found <==> exists|i: int| 0 <= i < j && #[trigger] layer@[i].px == tile.px,
            decreases layer@.len() - j,
        {
            if layer[j].px == tile.px {
                found = true;
            }
            j = j + 1;
        }
        proof {
            lemma_first_tiles_px(prefix, tile.px);
        }
        if found {
            overflow.push(tile);
        } else {
            layer.push(tile);
        }
    }
    assert(tiles.take(tiles.len() as int) =~= tiles);
    proof {
        lemma_first_tiles_split(tiles);
    }
    let ghost first = layer@;
    let mut layered_grid_tiles: Vec<Vec<TileInstance>> = Vec::new();
    layered_grid_tiles.push(layer);
    if overflow.len() > 0 {
        let ghost repeated = overflow@;
        let mut rest = layer_grid_tiles(overflow);
        layered_grid_tiles.append(&mut rest);
        proof {
            assert forall|k: nat| true implies #[trigger] tiles_of_rank(tiles, k + 1)
                == tiles_of_rank(repeated, k) by {
                lemma_repeated_rank(tiles, k);
            }
            assert forall|k: int| 0 <= k < layered_grid_tiles.len() implies (#[trigger] layered_grid_tiles[k])@
                == tiles_of_rank(tiles, k as nat) by {
                if k > 0 {
                    assert(tiles_of_rank(tiles, (k - 1) as nat + 1) == tiles_of_rank(
                        repeated,
                        (k - 1) as nat,
                    ));
                }
            }
            assert forall|k: int| 0 < k < layered_grid_tiles.len() implies (#[trigger] layered_grid_tiles[k])@.len()
                > 0 by {
                if k == 1 {
                    lemma_first_tiles_split(repeated);
                }
            }
            assert forall|k: nat| k >= layered_grid_tiles.len() implies (#[trigger] tiles_of_rank(
                tiles,
                k,
            )).len() == 0 by {
                assert(tiles_of_rank(tiles, (k - 1) as nat + 1) == tiles_of_rank(
                    repeated,
                    (k - 1) as nat,
                ));
            }
        }
    } else {
        proof {
            assert forall|k: nat| k >= layered_grid_tiles.len() implies (#[trigger] tiles_of_rank(
                tiles,
                k,
            )).len() == 0 by {
                lemma_repeated_rank(tiles, (k - 1) as nat);
                lemma_no_tiles_of_rank(repeated_tiles(tiles), (k - 1) as nat);
            }
        }
    }
    proof {
        let n = layered_grid_tiles.len();
        lemma_rank_nonempty(tiles, n as nat);
        if n > 1 {
            lemma_rank_nonempty(tiles, (n - 1) as nat);
            assert(layered_grid_tiles[n - 1]@.len() > 0);
        }
    }
    layered_grid_tiles
}

/// The layer's extent in pixels along one axis: its size in cells times its grid size.
pub open spec fn layer_extent(cells: i32, grid_size: i32) -> int {
    cells * grid_size
}

/// The layer's pixel extents fit in `i32`, as they do for the layers the LDtk editor writes.
pub open spec fn layer_extents_fit(layer_instance: LayerInstance) -> bool {
    &&& i32::MIN <= layer_extent(layer_instance.c_wid, layer_instance.grid_size) <= i32::MAX
    &&& i32::MIN <= layer_extent(layer_instance.c_hei, layer_instance.grid_size) <= i32::MAX
}

/// The tile lies within the pixel bounds of the layer.
pub open spec fn in_layer_bounds(tile: TileInstance, layer_instance: LayerInstance) -> bool {
    &&& tile.px.x >= 0
    &&& tile.px.y >= 0
    &&& tile.px.x < layer_extent(layer_instance.c_wid, layer_instance.grid_size)
    &&& tile.px.y < layer_extent(layer_instance.c_hei, layer_instance.grid_size)
}

/// Whether the tile lies within the pixel bounds of the layer.
pub fn tile_in_layer_bounds(tile: &TileInstance, layer_instance: &LayerInstance) -> (in_bounds:
    bool)
    requires
        layer_extents_fit(*layer_instance),
    ensures
        in_bounds == in_layer_bounds(*tile, *layer_instance),
{
    tile.px.x >= 0 && tile.px.y >= 0 && tile.px.x < (layer_instance.c_wid
        * layer_instance.grid_size) && tile.px.y < (layer_instance.c_hei
        * layer_instance.grid_size)
}

/// The tiles of `tiles` that lie within the bounds of the layer, in order.
pub open spec fn tiles_in_bounds(tiles: Seq<TileInstance>, layer_instance: LayerInstance) -> Seq<
    TileInstance,
> {
    tiles.filter(|tile: TileInstance| in_layer_bounds(tile, layer_instance))
}

/// Keep the tiles that lie within the bounds of the layer, in order; the others are not
/// spawned.
pub fn filter_tiles_in_bounds(tiles: Vec<TileInstance>, layer_instance: &LayerInstance) -> (kept:
    Vec<TileInstance>)
    requires
        layer_extents_fit(*layer_instance),
    ensures
        kept@ == tiles_in_bounds(tiles@, *layer_instance),
{
    let ghost all = tiles@;
    let mut kept: Vec<TileInstance> = Vec::new();
    proof {
        reveal(Seq::filter);
    }
    for tile in it: tiles
        invariant
            it.seq() == all,
            layer_extents_fit(*layer_instance),
            kept@ == tiles_in_bounds(all.take(it.index() as int), *layer_instance),
    {
        let ghost n = it.index() as int;
        assert(all.take(n + 1).drop_last() =~= all.take(n));
        assert(all.take(n + 1).last() == tile);
        proof {
            reveal(Seq::filter);
        }
        if tile_in_layer_bounds(&tile, layer_instance) {
            kept.push(tile);
        }
    }
    assert(all.take(all.len() as int) =~= all);
    kept
}

/// The custom data of each tile, by tile id: later entries replace earlier ones.
pub open spec fn custom_data_map(custom_data: Seq<TileCustomMetadata>) -> Map<i32, Seq<char>>
    decreases custom_data.len(),
{
    if custom_data.len() == 0 {
        Map::empty()
    } else {
        custom_data_map(custom_data.drop_last()).insert(
            custom_data.last().tile_id,
            custom_data.last().data@,
        )
    }
}

/// The metadata that the tiles of a layer get from its tileset, by tile id; none without a
/// tileset.
pub fn tile_metadata_map(tileset_definition: Option<&TilesetDefinition>) -> (metadata_map: HashMap<
    i32,
    TileMetadata,
>)
    ensures
        metadata_map@.map_values(|m: TileMetadata| m.data@) == match tileset_definition {
            Some(tileset) => custom_data_map(tileset.custom_data@),
            None => Map::empty(),
        },
{
    let mut metadata_map: HashMap<i32, TileMetadata> = HashMap::new();
    assert(metadata_map@.map_values(|m: TileMetadata| m.data@) =~= Map::<i32, Seq<char>>::empty());
    if let Some(tileset) = tileset_definition {
        let custom_data = &tileset.custom_data;
        let mut i: usize = 0;
        while i < custom_data.len()
            invariant
                i <= custom_data@.len(),
                metadata_map@.map_values(|m: TileMetadata| m.data@) == custom_data_map(
                    custom_data@.take(i as int),
                ),
            decreases custom_data@.len() - i,
        {
            assert(custom_data@.take(i + 1).drop_last() =~= custom_data@.take(i as int));
            let entry = &custom_data[i];
            let ghost old_map = metadata_map@;
            let metadata = TileMetadata { data: entry.data.clone() };
            metadata_map.insert(entry.tile_id, metadata);
            assert(metadata_map@.map_values(|m: TileMetadata| m.data@) =~= old_map.map_values(
                |m: TileMetadata| m.data@,
            ).insert(entry.tile_id, entry.data@));
            i = i + 1;
        }
        assert(custom_data@.take(i as int) =~= custom_data@);
    }
    metadata_map
}

/// How many times `tile` is among `tile_ids`.
pub open spec fn occurrences(tile_ids: Seq<i32>, tile: i32) -> nat
    decreases tile_ids.len(),
{
    if tile_ids.len() == 0 {
        0
    } else {
        occurrences(tile_ids.drop_last(), tile) + if tile_ids.last() == tile {
            1nat
        } else {
            0nat
        }
    }
}

/// The enum values that `enum_tags` tag `tile` with, in order, each as many times as it
/// lists the tile.
pub open spec fn enum_tags_of(enum_tags: Seq<EnumTagValue>, tile: i32) -> Seq<Seq<char>>
    decreases enum_tags.len(),
{
    if enum_tags.len() == 0 {
        Seq::empty()
    } else {
        let last = enum_tags.last();
        enum_tags_of(enum_tags.drop_last(), tile) + Seq::new(
            occurrences(last.tile_ids@, tile),
            |i: int| last.enum_value_id@,
        )
    }
}

/// The enum tags of the tiles of a layer, by tile id; none without a tileset.
///
/// A tile has enum tags exactly when some enum value tags it.
pub fn tile_enum_tags_map(tileset_definition: Option<&TilesetDefinition>) -> (enum_tags_map:
    HashMap<i32, TileEnumTags>)
    ensures
        forall|tile: i32|
            #![trigger enum_tags_map@.contains_key(tile)]
            match tileset_definition {
                Some(tileset) => {
                    &&& enum_tags_map@.contains_key(tile) <==> enum_tags_of(
                        tileset.enum_tags@,
                        tile,
                    ).len() > 0
                    &&& enum_tags_map@.contains_key(tile) ==> enum_tags_map@[tile].tag_names()
                        == enum_tags_of(tileset.enum_tags@, tile)
                        && enum_tags_map@[tile].source_enum_uid == tileset.tags_source_enum_uid
                },
                None => !enum_tags_map@.contains_key(tile),
            },
{
    let mut enum_tags_map: HashMap<i32, TileEnumTags> = HashMap::new();
    if let Some(tileset) = tileset_definition {
        let enum_tags = &tileset.enum_tags;
        let source_enum_uid = tileset.tags_source_enum_uid;
        let mut i: usize = 0;
        while i < enum_tags.len()
            invariant
                i <= enum_tags@.len(),
                source_enum_uid == tileset.tags_source_enum_uid,
                *enum_tags == tileset.enum_tags,
                forall|tile: i32|
                    #![trigger enum_tags_map@.contains_key(tile)]
                    {
                        &&& enum_tags_map@.contains_key(tile) <==> enum_tags_of(
                            enum_tags@.take(i as int),
                            tile,
                        ).len() > 0
                        &&& enum_tags_map@.contains_key(tile) ==> enum_tags_map@[tile].tag_names()
                            == enum_tags_of(enum_tags@.take(i as int), tile)
                            && enum_tags_map@[tile].source_enum_uid == source_enum_uid
                    },
            decreases enum_tags@.len() - i,
        {
            let enum_tag = &enum_tags[i];
            let ghost before = enum_tags@.take(i as int);
            assert(enum_tags@.take(i + 1).drop_last() =~= before);
            assert(enum_tags@.take(i + 1).last() == *enum_tag);
            let tile_ids = &enum_tag.tile_ids;
            let mut j: usize = 0;
            while j < tile_ids.len()
                invariant
                    j <= tile_ids@.len(),
                    forall|tile: i32|
                        #![trigger enum_tags_map@.contains_key(tile)]
                        {
                            let tags = enum_tags_of(before, tile) + Seq::new(
                                occurrences(tile_ids@.take(j as int), tile),
                                |k: int| enum_tag.enum_value_id@,
                            );
                            &&& enum_tags_map@.contains_key(tile) <==> tags.len() > 0
                            &&& enum_tags_map@.contains_key(tile) ==> enum_tags_map@[tile].tag_names()
                                == tags && enum_tags_map@[tile].source_enum_uid == source_enum_uid
                        },
                decreases tile_ids@.len() - j,
            {
                let tile_id = tile_ids[j];
                assert(tile_ids@.take(j + 1).drop_last() =~= tile_ids@.take(j as int));
                let ghost old_map = enum_tags_map@;
                let tags = match enum_tags_map.remove(&tile_id) {
                    Some(existing) => {
                        let mut tags = existing;
                        tags.tags.push(enum_tag.enum_value_id.clone());
                        tags
                    },
                    None => {
                        let mut names: Vec<String> = Vec::new();
                        names.push(enum_tag.enum_value_id.clone());
                        TileEnumTags { tags: names, source_enum_uid }
                    },
                };
                enum_tags_map.insert(tile_id, tags);
                proof {
                    assert forall|tile: i32|
                        #![trigger enum_tags_map@.contains_key(tile)]
                        {
                            let tags = enum_tags_of(before, tile) + Seq::new(
                                occurrences(tile_ids@.take(j + 1), tile),
                                |k: int| enum_tag.enum_value_id@,
                            );
                            &&& enum_tags_map@.contains_key(tile) <==> tags.len() > 0
                            &&& enum_tags_map@.contains_key(tile) ==> enum_tags_map@[tile].tag_names()
                                == tags && enum_tags_map@[tile].source_enum_uid == source_enum_uid
                        } by {
                        let prior = enum_tags_of(before, tile) + Seq::new(
                            occurrences(tile_ids@.take(j as int), tile),
                            |k: int| enum_tag.enum_value_id@,
                        );
                        let now = enum_tags_of(before, tile) + Seq::new(
                            occurrences(tile_ids@.take(j + 1), tile),
                            |k: int| enum_tag.enum_value_id@,
                        );
                        if tile == tile_id {
                            assert(now =~= prior.push(enum_tag.enum_value_id@));
                            assert(enum_tags_map@[tile].tag_names() =~= now);
                        } else {
                            assert(now =~= prior);
                        }
                    }
                }
                j = j + 1;
            }
            proof {
                assert(tile_ids@.take(j as int) =~= tile_ids@);
            }
            i = i + 1;
        }
        assert(enum_tags@.take(i as int) =~= enum_tags@);
    }
    enum_tags_map
}

/// The metadata and the enum tags to insert on a spawned tile, if it has any.
///
/// A tile gets metadata exactly when one of the two is there.
pub fn tile_metadata_for<'a>(
    tile_instance: &TileInstance,
    metadata_map: &'a HashMap<i32, TileMetadata>,
    enum_tags_map: &'a HashMap<i32, TileEnumTags>,
) -> (inserted: (Option<&'a TileMetadata>, Option<&'a TileEnumTags>))
    ensures
        match inserted.0 {
            Some(m) => metadata_map@.contains_key(tile_instance.t) && *m == metadata_map@[tile_instance.t],
            None => !metadata_map@.contains_key(tile_instance.t),
        },
        match inserted.1 {
            Some(tags) => enum_tags_map@.contains_key(tile_instance.t) && *tags
                == enum_tags_map@[tile_instance.t],
            None => !enum_tags_map@.contains_key(tile_instance.t),
        },
{
    (metadata_map.get(&tile_instance.t), enum_tags_map.get(&tile_instance.t))
}

} // verus!
