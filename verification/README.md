# voxel_terrain

Voxel terrain generation for a Godot world, with its logic verified by Verus.

- `src/` is the verified library:
  - `biome_dictionary.rs`: the `biome_data/<index>` property names, how they
    are written and read (an index parses as `i32::from_str` does), and the
    proof that every written name reads back as its index.
  - `biome_data.rs`: biomes, the value of a biome colour as a comparable key,
    and the first-match lookup of a pixel's voxel type.
  - `voxel_generator_df.rs`: the generator's biome dictionary (count, reads,
    writes, property list), the layout of the height and voxel-type maps, and
    the per-column fill of generated blocks, with the laws that tie them.
  - `cube_terrain_definition.rs`: the validity check of a building footprint
    against the voxels under its cubes.
- `tests/` runs the library on concrete values.
- `app/` holds the native classes the engine loads; they read textures and
  voxel buffers, do the float geometry, and hand plain values to the library.
