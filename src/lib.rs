//! A block world: chunked voxel storage, neighbour resolution across chunk
//! borders, and a face-culling mesher that emits one quad per visible face.

pub mod adjacent;
pub mod block;
pub mod chunk;
pub mod chunk_array;
pub mod face;
pub mod terrain;
pub mod utils;
pub mod world;

pub use adjacent::AdjacentChunkManager;
pub use block::Block;
pub use chunk::{Chunk, ChunkCoord, ChunkPos, MAX_CHUNK_POS};
pub use chunk_array::{BlockCoord, BlockPos, ChunkArray, CHUNK_SIZE};
pub use face::{Face, WorldCoord, WorldPos};
pub use terrain::{generate_terrain, CHUNK_COLUMNS};
pub use utils::{SubTextureInfo, Vertex};
pub use world::{split_world_coord, World};
