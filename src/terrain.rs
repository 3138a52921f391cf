use vstd::prelude::*;
use crate::block::Block;
use crate::chunk::{chunk_pos_ok, global_of, Chunk, ChunkCoord};
use crate::chunk_array::{coord_at, coord_of, flat_index, in_chunk, lemma_flat_index, BlockCoord, CHUNK_VOLUME};
use crate::face::key;
use crate::utils::Vertex;

verus! {

/// The number of columns of a chunk.
pub const CHUNK_COLUMNS: usize = 256;

/// Where the column at `(x, z)` of a chunk sits in a list of column heights.
pub open spec fn column_index(x: int, z: int) -> int {
    x * 16 + z
}

/// The block at global height `gy` of a column whose ground reaches up to
/// global height `h`: solid below it, void from it up.
pub open spec fn terrain_block(h: int, gy: int) -> Block {
    if gy < h {
        Block::Filled
    } else {
        Block::Empty
    }
}

/// The blocks of the chunk at `c` filled from column heights: the block at
/// storage index `i` lies in column `column_index(x, z)` at global height
/// `c.1 * 16 + y`.
pub open spec fn terrain_blocks(c: ChunkCoord, heights: Seq<i64>) -> Seq<Block> {
    Seq::new(
        CHUNK_VOLUME as nat,
        |i: int| terrain_block(heights[column_index(coord_of(i).0 as int, coord_of(i).2 as int)] as int, c.1 * 16 + coord_of(i).1),
    )
}

/// A chunk at `location` filled from `heights`, the global height up to
/// which the ground reaches in each column, listed by `column_index`. The
/// chunk has no quads yet.
pub fn generate_terrain(location: ChunkCoord, heights: &Vec<i64>) -> (r: Chunk)
    requires
        chunk_pos_ok(location),
        heights@.len() == CHUNK_COLUMNS,
    ensures
        r.wf(),
        r.location_view() == location,
        r.block_view() == terrain_blocks(location, heights@),
        r.mesh_view() == Seq::new(CHUNK_VOLUME as nat, |i: int| Seq::<Vertex>::empty()),
{
    let mut chunk = Chunk::new(location);
    let base: i64 = location.1 * 16;
    let mut i: usize = 0;
    while i < CHUNK_VOLUME
        invariant
            i <= CHUNK_VOLUME,
            chunk.wf(),
            chunk.location_view() == location,
            chunk.mesh_view() == Seq::new(CHUNK_VOLUME as nat, |i: int| Seq::<Vertex>::empty()),
            base == location.1 * 16,
            chunk_pos_ok(location),
            heights@.len() == CHUNK_COLUMNS,
            forall|j: int| 0 <= j < CHUNK_VOLUME ==> #[trigger] chunk.block_view()[j] == (if j < i { terrain_blocks(location, heights@)[j] } else { Block::Empty }),
        decreases CHUNK_VOLUME - i,
    {
        let p = coord_at(i);
        let h = heights[p.0 as usize * 16 + p.2 as usize];
        let block = if base + (p.1 as i64) < h { Block::Filled } else { Block::Empty };
        proof {
            lemma_flat_index(p);
        }
        chunk.set_local_block(p, block);
        i = i + 1;
    }
    assert(chunk.block_view() =~= terrain_blocks(location, heights@));
    chunk
}

/// Terrain depends on the global column alone: when the heights handed to
/// the chunk at `c` are those of a height function `height` of global
/// columns, each block of the chunk is solid exactly below `height` of its
/// global column, so every chunk sees the same ground, whichever chunk is
/// generated first.
pub proof fn lemma_terrain_global(c: ChunkCoord, heights: Seq<i64>, height: spec_fn(int, int) -> int, p: BlockCoord)
    requires
        in_chunk(p),
        heights.len() == CHUNK_COLUMNS,
        forall|x: int, z: int| 0 <= x < 16 && 0 <= z < 16 ==> heights[#[trigger] column_index(x, z)] == height(c.0 * 16 + x, c.2 * 16 + z),
    ensures
        terrain_blocks(c, heights)[flat_index(p)] == terrain_block(height(global_of(key(c), p).0, global_of(key(c), p).2), global_of(key(c), p).1),
{
    lemma_flat_index(p);
    assert(heights[column_index(p.0 as int, p.2 as int)] == height(c.0 * 16 + p.0, c.2 * 16 + p.2));
}

} // verus!
