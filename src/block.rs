use vstd::prelude::*;
use crate::adjacent::AdjacentChunkManager;
use crate::chunk_array::{in_chunk, BlockCoord};
use crate::face::{face_at, key, quad, quad_fits, Face, WorldCoord};
use crate::utils::{SubTextureInfo, Vertex};

verus! {

/// The state of one cell of the world.
#[derive(Clone, Copy, Debug, PartialEq, Eq, Hash, Structural)]
pub enum Block {
    /// Known to be void.
    Empty,
    /// Solid, drawn with the atlas rectangle.
    Filled,
    /// Unknown: it lies in a chunk that has not been generated. Only a lookup
    /// across a chunk border yields it; no chunk stores it.
    NotGenerated,
}

/// The quad on side `f` of a solid block at `g`: present exactly when the
/// block beyond that side, `neighbor`, is transparent.
pub open spec fn face_quads(f: Face, g: (int, int, int), neighbor: Block, t: SubTextureInfo) -> Seq<Vertex> {
    if neighbor.transparent() {
        quad(f, g, t)
    } else {
        Seq::empty()
    }
}

/// The quads of block `b` at `g`, whose neighbours beyond its six sides, in
/// face order, are `n`: none for a transparent block, else the visible
/// sides' quads in face order.
pub open spec fn block_mesh(b: Block, g: (int, int, int), n: Seq<Block>, t: SubTextureInfo) -> Seq<Vertex> {
    if b.transparent() {
        Seq::empty()
    } else {
        face_quads(face_at(0), g, n[0], t) + face_quads(face_at(1), g, n[1], t) + face_quads(face_at(2), g, n[2], t)
            + face_quads(face_at(3), g, n[3], t) + face_quads(face_at(4), g, n[4], t) + face_quads(face_at(5), g, n[5], t)
    }
}

impl Block {
    /// Light passes through the block, so a neighbour's face towards it shows.
    pub open spec fn transparent(self) -> bool {
        self != Block::Filled
    }

    /// Whether the faces of neighbouring blocks towards this one are visible.
    pub fn is_transparent(&self) -> (r: bool)
        ensures
            r == self.transparent(),
    {
        match self {
            Block::Empty => true,
            Block::Filled => false,
            Block::NotGenerated => true,
        }
    }

    /// The atlas rectangle that the block's faces show: `atlas` for a solid
    /// block, none for the others.
    pub fn get_texture_info(&self, atlas: &SubTextureInfo) -> (r: Option<SubTextureInfo>)
        ensures
            r == (if *self == Block::Filled { Some(*atlas) } else { None::<SubTextureInfo> }),
    {
        match self {
            Block::Filled => Some(*atlas),
            _ => None,
        }
    }

    /// Appends the quad on side `face` of this solid block when the block
    /// beyond that side is transparent.
    fn push_face_quad(
        &self,
        out: &mut Vec<Vertex>,
        face: Face,
        world: WorldCoord,
        pos: BlockCoord,
        adj_chunk_manager: &AdjacentChunkManager,
        texture_info: &SubTextureInfo,
    )
        requires
            *self == Block::Filled,
            adj_chunk_manager.wf(),
            in_chunk(pos),
            quad_fits(world),
        ensures
            final(out)@ == old(out)@ + face_quads(face, key(world), adj_chunk_manager.face_spec(pos, face), *texture_info),
    {
        if adj_chunk_manager.get_face(pos, face).is_transparent() {
            match self.get_texture_info(texture_info) {
                Some(info) => {
                    let mut quad = face.vertices(world, &info);
                    out.append(&mut quad);
                },
                None => {},
            }
        } else {
            assert(old(out)@ + Seq::<Vertex>::empty() =~= old(out)@);
        }
    }

    /// The quads of this block at global position `world` and position `pos`
    /// in its chunk: one for each side whose neighbour, as the manager finds
    /// it, is transparent; none if the block itself is transparent.
    pub fn get_vertices(
        &self,
        world: WorldCoord,
        pos: BlockCoord,
        adj_chunk_manager: &AdjacentChunkManager,
        texture_info: &SubTextureInfo,
    ) -> (r: Vec<Vertex>)
        requires
            adj_chunk_manager.wf(),
            in_chunk(pos),
            quad_fits(world),
        ensures
            r@ == block_mesh(*self, key(world), adj_chunk_manager.neighbors(pos), *texture_info),
    {
        let mut out: Vec<Vertex> = Vec::new();
        if self.is_transparent() {
            return out;
        }
        let ghost n = adj_chunk_manager.neighbors(pos);
        let ghost g = key(world);
        let ghost t = *texture_info;
        self.push_face_quad(&mut out, Face::XNeg, world, pos, adj_chunk_manager, texture_info);
        self.push_face_quad(&mut out, Face::XPos, world, pos, adj_chunk_manager, texture_info);
        self.push_face_quad(&mut out, Face::YNeg, world, pos, adj_chunk_manager, texture_info);
        self.push_face_quad(&mut out, Face::YPos, world, pos, adj_chunk_manager, texture_info);
        self.push_face_quad(&mut out, Face::ZNeg, world, pos, adj_chunk_manager, texture_info);
        self.push_face_quad(&mut out, Face::ZPos, world, pos, adj_chunk_manager, texture_info);
        assert(out@ =~= block_mesh(*self, g, n, t));
        out
    }
}

impl Default for Block {
    fn default() -> (r: Self)
        ensures
            r == Block::Empty,
    {
        Block::Empty
    }
}

} // verus!
