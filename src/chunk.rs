use vstd::prelude::*;
use crate::adjacent::AdjacentChunkManager;
use crate::block::{block_mesh, Block};
use crate::chunk_array::{coord_at, coord_of, flat_index, in_chunk, lemma_coord_of, BlockCoord, ChunkArray, CHUNK_VOLUME};
use crate::face::{key, WorldCoord};
use crate::utils::{SubTextureInfo, Vertex};

verus! {

/// One axis of a chunk's position on the chunk grid.
pub type ChunkPos = i64;

/// A chunk's position on the chunk grid.
pub type ChunkCoord = (ChunkPos, ChunkPos, ChunkPos);

/// The largest distance of a chunk from the origin, per axis, for which every
/// block position and quad corner of the chunk and of its neighbours fits in
/// an `i64`.
pub const MAX_CHUNK_POS: i64 = 288230376151711744;

/// The chunk position is within the supported range.
pub open spec fn chunk_pos_ok(c: ChunkCoord) -> bool {
    -MAX_CHUNK_POS <= c.0 <= MAX_CHUNK_POS && -MAX_CHUNK_POS <= c.1 <= MAX_CHUNK_POS && -MAX_CHUNK_POS <= c.2 <= MAX_CHUNK_POS
}

/// The global position of the block at `p` in the chunk at `c`.
pub open spec fn global_of(c: (int, int, int), p: BlockCoord) -> (int, int, int) {
    (c.0 * 16 + p.0, c.1 * 16 + p.1, c.2 * 16 + p.2)
}

/// A chunk: a cube of blocks at a position on the chunk grid, with the quads
/// last generated for each of its blocks.
pub struct Chunk {
    blocks: ChunkArray<Block>,
    vertices: ChunkArray<Vec<Vertex>>,
    location: ChunkCoord,
}

impl Chunk {
    /// The blocks, in storage order.
    pub closed spec fn block_view(&self) -> Seq<Block> {
        self.blocks@
    }

    /// The quads last generated for each block, in storage order.
    pub closed spec fn mesh_view(&self) -> Seq<Seq<Vertex>> {
        self.vertices@.map_values(|v: Vec<Vertex>| v@)
    }

    /// The chunk's position on the chunk grid.
    pub closed spec fn location_view(&self) -> ChunkCoord {
        self.location
    }

    pub open spec fn wf(&self) -> bool {
        &&& self.block_view().len() == CHUNK_VOLUME
        &&& self.mesh_view().len() == CHUNK_VOLUME
        &&& chunk_pos_ok(self.location_view())
    }

    /// The block at `p`.
    pub open spec fn block_at(&self, p: BlockCoord) -> Block {
        self.block_view()[flat_index(p)]
    }

    /// An empty chunk at `location` with no quads.
    pub fn new(location: ChunkCoord) -> (r: Self)
        requires
            chunk_pos_ok(location),
        ensures
            r.wf(),
            r.location_view() == location,
            r.block_view() == Seq::new(CHUNK_VOLUME as nat, |i: int| Block::Empty),
            r.mesh_view() == Seq::new(CHUNK_VOLUME as nat, |i: int| Seq::<Vertex>::empty()),
    {
        let blocks = ChunkArray::<Block>::new();
        let vertices = ChunkArray::<Vec<Vertex>>::new();
        let r = Chunk { blocks, vertices, location };
        assert(r.block_view() =~= Seq::new(CHUNK_VOLUME as nat, |i: int| Block::Empty));
        assert(r.mesh_view() =~= Seq::new(CHUNK_VOLUME as nat, |i: int| Seq::<Vertex>::empty()));
        r
    }

    /// The chunk's position on the chunk grid.
    pub fn location(&self) -> (r: ChunkCoord)
        ensures
            r == self.location_view(),
    {
        self.location
    }

    /// The global position of the block at `p`.
    pub fn to_world_coords(&self, p: BlockCoord) -> (r: WorldCoord)
        requires
            self.wf(),
            in_chunk(p),
        ensures
            key(r) == global_of(key(self.location_view()), p),
    {
        let (cx, cy, cz) = self.location;
        (cx * 16 + p.0 as i64, cy * 16 + p.1 as i64, cz * 16 + p.2 as i64)
    }

    /// The block at `p`.
    pub fn get_local_block(&self, p: BlockCoord) -> (r: Block)
        requires
            self.wf(),
            in_chunk(p),
        ensures
            r == self.block_at(p),
    {
        *self.blocks.get(p)
    }

    /// Replaces the block at `p`. The quads are left as they were.
    pub fn set_local_block(&mut self, p: BlockCoord, block: Block)
        requires
            old(self).wf(),
            in_chunk(p),
        ensures
            final(self).wf(),
            final(self).block_view() == old(self).block_view().update(flat_index(p), block),
            final(self).mesh_view() == old(self).mesh_view(),
            final(self).location_view() == old(self).location_view(),
    {
        self.blocks.set(p, block);
    }

    /// The quads of every block of this chunk, each block meshed against the
    /// neighbours that `adj_chunk_manager` finds; the chunk is not changed.
    pub fn generate_all_vertices(
        &self,
        adj_chunk_manager: AdjacentChunkManager,
        texture_info: &SubTextureInfo,
    ) -> (r: ChunkArray<Vec<Vertex>>)
        requires
            self.wf(),
            adj_chunk_manager.wf(),
        ensures
            r.wf(),
            forall|i: int| 0 <= i < CHUNK_VOLUME ==> (#[trigger] r@[i])@ == block_mesh(
                self.block_view()[i],
                global_of(key(self.location_view()), coord_of(i)),
                adj_chunk_manager.neighbors(coord_of(i)),
                *texture_info,
            ),
    {
        let adj = &adj_chunk_manager;
        let mesh_one = |pos: BlockCoord, block: &Block| -> (v: Vec<Vertex>)
            requires
                in_chunk(pos),
                self.wf(),
                adj.wf(),
            ensures
                v@ == block_mesh(*block, global_of(key(self.location_view()), pos), adj.neighbors(pos), *texture_info),
        {
            block.get_vertices(self.to_world_coords(pos), pos, adj, texture_info)
        };
        proof {
            assert forall|i: int| 0 <= i < CHUNK_VOLUME implies #[trigger] mesh_one.requires((coord_of(i), &self.blocks@[i])) by {
                lemma_coord_of(i);
            }
        }
        self.blocks.map(mesh_one)
    }

    /// Replaces the quads with `generated`, wholesale.
    pub fn update_generated_vertices(&mut self, generated: ChunkArray<Vec<Vertex>>)
        requires
            old(self).wf(),
            generated.wf(),
        ensures
            final(self).wf(),
            final(self).mesh_view() == generated@.map_values(|v: Vec<Vertex>| v@),
            final(self).block_view() == old(self).block_view(),
            final(self).location_view() == old(self).location_view(),
    {
        self.vertices = generated;
    }

    /// All quads of the chunk, block by block in storage order.
    pub fn flatten_mesh(&self) -> (r: Vec<Vertex>)
        requires
            self.wf(),
        ensures
            r@ == self.mesh_view().flatten(),
    {
        let mut out: Vec<Vertex> = Vec::new();
        let mut i: usize = 0;
        while i < CHUNK_VOLUME
            invariant
                self.wf(),
                i <= CHUNK_VOLUME,
                out@ == self.mesh_view().take(i as int).flatten(),
            decreases CHUNK_VOLUME - i,
        {
            let cell = self.vertices.get(coord_at(i));
            proof {
                lemma_coord_of(i as int);
                assert(self.mesh_view().take(i + 1) =~= self.mesh_view().take(i as int).push(self.mesh_view()[i as int]));
                self.mesh_view().take(i as int).lemma_flatten_push(self.mesh_view()[i as int]);
            }
            extend_vertices(&mut out, cell);
            i = i + 1;
        }
        assert(self.mesh_view().take(CHUNK_VOLUME as int) =~= self.mesh_view());
        out
    }
}

/// Appends a copy of each vertex of `src` to `out`.
fn extend_vertices(out: &mut Vec<Vertex>, src: &Vec<Vertex>)
    ensures
        final(out)@ == old(out)@ + src@,
{
    let mut j: usize = 0;
    while j < src.len()
        invariant
            j <= src@.len(),
            out@ == old(out)@ + src@.take(j as int),
        decreases src@.len() - j,
    {
        out.push(src[j]);
        j = j + 1;
        assert(out@ =~= old(out)@ + src@.take(j as int));
    }
    assert(src@.take(src@.len() as int) =~= src@);
}

} // verus!
