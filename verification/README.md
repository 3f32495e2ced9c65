# bevy_ecs_ldtk

A verified model of LDtk projects and of the logic that loads them, selects their levels and
prepares them for spawning.

- `src/ldtk` — the LDtk file model (levels, worlds, layers, definitions, field values), level
  iteration by root and world, loaded levels, field accessors and the int grid image.
- `src/assets` — project loading: level metadata and the level map, internal and external
  levels, asset paths, the entity index, and lookups by iid, indices and level selection;
  besides `LdtkProject`, the `LdtkAsset` form of a loaded project (level map, tileset map and
  entity index) and the `LdtkParentProject` of an external-levels project.
- `src/components`, `src/resources` — component and resource types: iids, level sets, grid
  coordinates, layer and tile metadata, level selections and settings.
- `src/level` — how tiles are stacked into layers, which tiles are in bounds, and the
  metadata and enum tags tiles get; `src/level/spawn_plan.rs` plans what spawning a level
  creates: the background, the layers from last to first with their sublayers and textures,
  the IntGrid cells and the entities that get entities of their own, and each layer's `z`.
- `src/registrations.rs` — which registered bundle an entity or IntGrid cell is spawned
  with, from most to least specific registration.
- `app/` — file reading, the serde form of the LDtk JSON format, and errors that display their
  messages. Performing a spawn plan needs the bevy engine, which this crate does not depend on.

The functions in `src/` that carry the library's logic have contracts proved by Verus. Four
small trusted wrappers around outside calls (`Path::parent`, `Path::join`, `path_clean::clean`
and the regex crate) have contracts taken on trust, and a few trait impls (the arithmetic
operators of `GridCoords`, for instance) are described by their spec impls rather than by
contracts of their own. The proof functions in `src/` state the
properties that hold across calls, such as that every level of a loaded project is found by
its iid and by any level selection that matches it.
