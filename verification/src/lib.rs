//! Voxel terrain generation for a height-map driven world: the biome
//! dictionary of a voxel generator, the layout of its height and type maps,
//! the per-column fill of generated blocks, and the validity check of the
//! blocks that a building footprint covers.
pub mod biome_data;
pub mod biome_dictionary;
pub mod voxel_generator_df;
pub mod cube_terrain_definition;
