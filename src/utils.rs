use vstd::prelude::*;

verus! {

/// One corner of an emitted quad: a position on the block grid and a
/// coordinate on the texture atlas.
#[derive(Clone, Copy, Debug, PartialEq, Eq, Hash)]
pub struct Vertex {
    pub position: (i64, i64, i64),
    pub tex_coords: (u64, u64),
}

/// A square region of the texture atlas: its lower corner and its edge length,
/// in atlas units.
#[derive(Clone, Copy, Debug, PartialEq, Eq, Hash)]
pub struct SubTextureInfo {
    pub x: u32,
    pub y: u32,
    pub size: u32,
}

} // verus!
