//! A voxel world engine: rasterizes lines and footprints onto an integer
//! lattice, records blocks in a conditional-write store and encodes the
//! store into region files of the chunked world-save format. Generators for
//! roads, land use, leisure areas and trees place their blocks through it.

pub mod block_definitions;
pub mod bresenham;
pub mod floodfill;
pub mod world_editor;
pub mod chunk;
pub mod nbt;
pub mod chunk_nbt;
pub mod region;
pub mod elements;
pub mod random;
pub mod tree;
pub mod highways;
pub mod landuse;
pub mod leisure;
