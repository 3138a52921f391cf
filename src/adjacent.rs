use vstd::prelude::*;
use crate::block::Block;
use crate::chunk::{chunk_pos_ok, Chunk, ChunkCoord};
use crate::chunk_array::{in_chunk, BlockCoord};
use crate::face::{face_at, key, normal, Face};
use crate::world::World;

verus! {

/// The block position reached from `p` by one step through side `f`, when
/// that step stays inside the chunk.
pub open spec fn step(p: BlockCoord, f: Face) -> BlockCoord {
    match f {
        Face::XNeg => ((p.0 - 1) as u8, p.1, p.2),
        Face::XPos => ((p.0 + 1) as u8, p.1, p.2),
        Face::YNeg => (p.0, (p.1 - 1) as u8, p.2),
        Face::YPos => (p.0, (p.1 + 1) as u8, p.2),
        Face::ZNeg => (p.0, p.1, (p.2 - 1) as u8),
        Face::ZPos => (p.0, p.1, (p.2 + 1) as u8),
    }
}

/// The step from `p` through side `f` leaves the chunk.
pub open spec fn on_border(p: BlockCoord, f: Face) -> bool {
    match f {
        Face::XNeg => p.0 == 0,
        Face::XPos => p.0 == 15,
        Face::YNeg => p.1 == 0,
        Face::YPos => p.1 == 15,
        Face::ZNeg => p.2 == 0,
        Face::ZPos => p.2 == 15,
    }
}

/// Where a step from the border cell `p` through side `f` lands in the
/// neighbouring chunk: the opposite border, on the same line.
pub open spec fn across(p: BlockCoord, f: Face) -> BlockCoord {
    match f {
        Face::XNeg => (15, p.1, p.2),
        Face::XPos => (0, p.1, p.2),
        Face::YNeg => (p.0, 15, p.2),
        Face::YPos => (p.0, 0, p.2),
        Face::ZNeg => (p.0, p.1, 15),
        Face::ZPos => (p.0, p.1, 0),
    }
}

/// The point one step from `k` through side `f`.
pub open spec fn offset(k: (int, int, int), f: Face) -> (int, int, int) {
    (k.0 + normal(f).0, k.1 + normal(f).1, k.2 + normal(f).2)
}

/// The chunk position next to `c` through side `f`.
pub fn apply_face(c: ChunkCoord, f: Face) -> (r: ChunkCoord)
    requires
        chunk_pos_ok(c),
    ensures
        key(r) == offset(key(c), f),
{
    let (x, y, z) = c;
    match f {
        Face::XNeg => (x - 1, y, z),
        Face::XPos => (x + 1, y, z),
        Face::YNeg => (x, y - 1, z),
        Face::YPos => (x, y + 1, z),
        Face::ZNeg => (x, y, z - 1),
        Face::ZPos => (x, y, z + 1),
    }
}

/// The block position next to `p` through side `f`, inside the same chunk.
pub fn apply_face_local(p: BlockCoord, f: Face) -> (r: BlockCoord)
    requires
        in_chunk(p),
        !on_border(p, f),
    ensures
        r == step(p, f),
        in_chunk(r),
{
    let (x, y, z) = p;
    match f {
        Face::XNeg => (x - 1, y, z),
        Face::XPos => (x + 1, y, z),
        Face::YNeg => (x, y - 1, z),
        Face::YPos => (x, y + 1, z),
        Face::ZNeg => (x, y, z - 1),
        Face::ZPos => (x, y, z + 1),
    }
}

/// A view of one chunk and of its six neighbours, taken to find the block
/// on the far side of each face of the chunk's blocks.
pub struct AdjacentChunkManager<'a> {
    chunk: Option<&'a Chunk>,
    xneg_chunk: Option<&'a Chunk>,
    xpos_chunk: Option<&'a Chunk>,
    yneg_chunk: Option<&'a Chunk>,
    ypos_chunk: Option<&'a Chunk>,
    zneg_chunk: Option<&'a Chunk>,
    zpos_chunk: Option<&'a Chunk>,
}

pub open spec fn deref_chunk(c: Option<&Chunk>) -> Option<Chunk> {
    match c {
        Some(r) => Some(*r),
        None => None,
    }
}

impl<'a> AdjacentChunkManager<'a> {
    /// The chunk itself, if it was present.
    pub closed spec fn home(&self) -> Option<Chunk> {
        deref_chunk(self.chunk)
    }

    /// The neighbouring chunk through side `f`, if it was present.
    pub closed spec fn side(&self, f: Face) -> Option<Chunk> {
        match f {
            Face::XNeg => deref_chunk(self.xneg_chunk),
            Face::XPos => deref_chunk(self.xpos_chunk),
            Face::YNeg => deref_chunk(self.yneg_chunk),
            Face::YPos => deref_chunk(self.ypos_chunk),
            Face::ZNeg => deref_chunk(self.zneg_chunk),
            Face::ZPos => deref_chunk(self.zpos_chunk),
        }
    }

    pub open spec fn wf(&self) -> bool {
        &&& (self.home() is Some ==> self.home()->0.wf())
        &&& forall|f: Face| (#[trigger] self.side(f)) is Some ==> self.side(f)->0.wf()
    }

    /// The block on the far side of side `f` of the block at `p`: read from
    /// the neighbouring chunk when the step leaves the chunk, and
    /// `NotGenerated` where the chunk that would hold it is absent.
    pub open spec fn face_spec(&self, p: BlockCoord, f: Face) -> Block {
        let (c, q) = if on_border(p, f) {
            (self.side(f), across(p, f))
        } else {
            (self.home(), step(p, f))
        };
        match c {
            Some(ch) => ch.block_at(q),
            None => Block::NotGenerated,
        }
    }

    /// The blocks beyond the six sides of the block at `p`, in face order.
    pub open spec fn neighbors(&self, p: BlockCoord) -> Seq<Block> {
        Seq::new(6, |i: int| self.face_spec(p, face_at(i)))
    }

    /// Looks up the chunk at `location` and its six neighbours in `world`.
    pub fn from_world(world: &'a World, location: ChunkCoord) -> (r: Self)
        requires
            world.wf(),
            chunk_pos_ok(location),
        ensures
            r.wf(),
            r.home() == world.lookup(key(location)),
            forall|f: Face| #[trigger] r.side(f) == world.lookup(offset(key(location), f)),
    {
        let r = AdjacentChunkManager {
            chunk: world.get_chunk(location),
            xneg_chunk: world.get_chunk(apply_face(location, Face::XNeg)),
            xpos_chunk: world.get_chunk(apply_face(location, Face::XPos)),
            yneg_chunk: world.get_chunk(apply_face(location, Face::YNeg)),
            ypos_chunk: world.get_chunk(apply_face(location, Face::YPos)),
            zneg_chunk: world.get_chunk(apply_face(location, Face::ZNeg)),
            zpos_chunk: world.get_chunk(apply_face(location, Face::ZPos)),
        };
        proof {
            world.lemma_wf();
            assert forall|f: Face| #[trigger] r.side(f) == world.lookup(offset(key(location), f)) by {
                match f {
                    Face::XNeg => {},
                    Face::XPos => {},
                    Face::YNeg => {},
                    Face::YPos => {},
                    Face::ZNeg => {},
                    Face::ZPos => {},
                }
            }
        }
        r
    }

    /// The block on the far side of side `face` of the block at `block_pos`.
    pub fn get_face(&self, block_pos: BlockCoord, face: Face) -> (r: Block)
        requires
            self.wf(),
            in_chunk(block_pos),
        ensures
            r == self.face_spec(block_pos, face),
    {
        let (x, y, z) = block_pos;
        let (maybe_chunk, pos) = match face {
            Face::XNeg if x == 0 => (self.xneg_chunk, (15u8, y, z)),
            Face::XPos if x == 15 => (self.xpos_chunk, (0u8, y, z)),
            Face::YNeg if y == 0 => (self.yneg_chunk, (x, 15u8, z)),
            Face::YPos if y == 15 => (self.ypos_chunk, (x, 0u8, z)),
            Face::ZNeg if z == 0 => (self.zneg_chunk, (x, y, 15u8)),
            Face::ZPos if z == 15 => (self.zpos_chunk, (x, y, 0u8)),
            _ => (self.chunk, apply_face_local(block_pos, face)),
        };
        match maybe_chunk {
            Some(chunk) => chunk.get_local_block(pos),
            None => Block::NotGenerated,
        }
    }
}

} // verus!
