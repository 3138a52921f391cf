use vstd::prelude::*;
use crate::utils::{SubTextureInfo, Vertex};

verus! {

/// A position on the global block grid.
pub type WorldPos = i64;

/// A block's position in the world.
pub type WorldCoord = (WorldPos, WorldPos, WorldPos);

/// One of the six sides of a block, named by its axis and direction.
#[derive(Clone, Copy, Debug, PartialEq, Eq, Hash, Structural)]
pub enum Face {
    XNeg,
    XPos,
    YNeg,
    YPos,
    ZNeg,
    ZPos,
}

/// The six faces, in the order in which a block's quads are emitted.
pub open spec fn face_at(i: int) -> Face {
    if i == 0 {
        Face::XNeg
    } else if i == 1 {
        Face::XPos
    } else if i == 2 {
        Face::YNeg
    } else if i == 3 {
        Face::YPos
    } else if i == 4 {
        Face::ZNeg
    } else {
        Face::ZPos
    }
}

/// The unit vector that points out of a block through `f`.
pub open spec fn normal(f: Face) -> (int, int, int) {
    match f {
        Face::XNeg => (-1, 0, 0),
        Face::XPos => (1, 0, 0),
        Face::YNeg => (0, -1, 0),
        Face::YPos => (0, 1, 0),
        Face::ZNeg => (0, 0, -1),
        Face::ZPos => (0, 0, 1),
    }
}

/// The offset of corner `k` of the quad on side `f` from the block's lower
/// corner. Seen from outside the block the corners run clockwise: top right,
/// bottom right, bottom left, top left.
pub open spec fn corner(f: Face, k: int) -> (int, int, int) {
    match f {
        Face::XNeg => if k == 0 { (0, 1, 1) } else if k == 1 { (0, 0, 1) } else if k == 2 { (0, 0, 0) } else { (0, 1, 0) },
        Face::XPos => if k == 0 { (1, 1, 0) } else if k == 1 { (1, 0, 0) } else if k == 2 { (1, 0, 1) } else { (1, 1, 1) },
        Face::YNeg => if k == 0 { (0, 0, 0) } else if k == 1 { (0, 0, 1) } else if k == 2 { (1, 0, 1) } else { (1, 0, 0) },
        Face::YPos => if k == 0 { (1, 1, 0) } else if k == 1 { (1, 1, 1) } else if k == 2 { (0, 1, 1) } else { (0, 1, 0) },
        Face::ZNeg => if k == 0 { (0, 1, 0) } else if k == 1 { (0, 0, 0) } else if k == 2 { (1, 0, 0) } else { (1, 1, 0) },
        Face::ZPos => if k == 0 { (1, 1, 1) } else if k == 1 { (1, 0, 1) } else if k == 2 { (0, 0, 1) } else { (0, 1, 1) },
    }
}

/// The atlas coordinate of corner `k` of a quad: the rectangle's corners in
/// the same clockwise order, starting at the top right.
pub open spec fn tex_corner(t: SubTextureInfo, k: int) -> (u64, u64) {
    let (x0, y0) = (t.x as u64, t.y as u64);
    let (x1, y1) = ((t.x + t.size) as u64, (t.y + t.size) as u64);
    if k == 0 {
        (x1, y1)
    } else if k == 1 {
        (x1, y0)
    } else if k == 2 {
        (x0, y0)
    } else {
        (x0, y1)
    }
}

/// A point of the world grid, or of the chunk grid, as mathematical integers.
pub open spec fn key(c: (i64, i64, i64)) -> (int, int, int) {
    (c.0 as int, c.1 as int, c.2 as int)
}

/// Corner `k` of the quad on side `f` of the block at `g`.
pub open spec fn quad_vertex(f: Face, g: (int, int, int), t: SubTextureInfo, k: int) -> Vertex {
    let c = corner(f, k);
    Vertex {
        position: ((g.0 + c.0) as i64, (g.1 + c.1) as i64, (g.2 + c.2) as i64),
        tex_coords: tex_corner(t, k),
    }
}

/// The four vertices of the quad on side `f` of the block at `g`.
pub open spec fn quad(f: Face, g: (int, int, int), t: SubTextureInfo) -> Seq<Vertex> {
    seq![quad_vertex(f, g, t, 0), quad_vertex(f, g, t, 1), quad_vertex(f, g, t, 2), quad_vertex(f, g, t, 3)]
}

/// A block at `g` has room for the far corners of its quads.
pub open spec fn quad_fits(g: WorldCoord) -> bool {
    g.0 < i64::MAX && g.1 < i64::MAX && g.2 < i64::MAX
}

/// The difference of two vectors.
pub open spec fn vsub(a: (int, int, int), b: (int, int, int)) -> (int, int, int) {
    (a.0 - b.0, a.1 - b.1, a.2 - b.2)
}

/// The cross product of two vectors.
pub open spec fn cross(a: (int, int, int), b: (int, int, int)) -> (int, int, int) {
    (a.1 * b.2 - a.2 * b.1, a.2 * b.0 - a.0 * b.2, a.0 * b.1 - a.1 * b.0)
}

/// The dot product of two vectors.
pub open spec fn dot(a: (int, int, int), b: (int, int, int)) -> int {
    a.0 * b.0 + a.1 * b.1 + a.2 * b.2
}

/// The corner that follows corner `k` around a quad.
pub open spec fn next_corner(k: int) -> int {
    if k == 3 { 0 } else { k + 1 }
}

/// The turn made at corner `next_corner(k)` of the quad on side `f`.
pub open spec fn turn(f: Face, k: int) -> (int, int, int) {
    let (a, b, c) = (corner(f, k), corner(f, next_corner(k)), corner(f, next_corner(next_corner(k))));
    cross(vsub(b, a), vsub(c, b))
}

/// The quad on each side lies in that side's plane of the unit cube, and its
/// corners turn clockwise as seen from outside: the cross product of each
/// pair of consecutive edges points into the block.
pub proof fn lemma_quad_winding(f: Face)
    ensures
        forall|k: int| 0 <= k < 4 ==> #[trigger] dot(corner(f, k), normal(f)) == (if dot((1, 1, 1), normal(f)) > 0 { 1int } else { 0int }),
        forall|k: int| 0 <= k < 4 ==> #[trigger] turn(f, k) == (-normal(f).0, -normal(f).1, -normal(f).2),
{
    assert forall|k: int| 0 <= k < 4 implies #[trigger] turn(f, k) == (-normal(f).0, -normal(f).1, -normal(f).2) by {
        lemma_turn(f, k);
    }
}

/// The turn at one corner of one quad, checked face by face.
proof fn lemma_turn(f: Face, k: int)
    requires
        0 <= k < 4,
    ensures
        turn(f, k) == (-normal(f).0, -normal(f).1, -normal(f).2),
{
    match f {
        Face::XNeg => {
            assert(k == 0 ==> cross((0int, -1int, 0int), (0int, 0int, -1int)) == (1int, 0int, 0int)) by (nonlinear_arith);
            assert(k == 1 ==> cross((0int, 0int, -1int), (0int, 1int, 0int)) == (1int, 0int, 0int)) by (nonlinear_arith);
            assert(k == 2 ==> cross((0int, 1int, 0int), (0int, 0int, 1int)) == (1int, 0int, 0int)) by (nonlinear_arith);
            assert(k == 3 ==> cross((0int, 0int, 1int), (0int, -1int, 0int)) == (1int, 0int, 0int)) by (nonlinear_arith);
        },
        Face::XPos => {
            assert(k == 0 ==> cross((0int, -1int, 0int), (0int, 0int, 1int)) == (-1int, 0int, 0int)) by (nonlinear_arith);
            assert(k == 1 ==> cross((0int, 0int, 1int), (0int, 1int, 0int)) == (-1int, 0int, 0int)) by (nonlinear_arith);
            assert(k == 2 ==> cross((0int, 1int, 0int), (0int, 0int, -1int)) == (-1int, 0int, 0int)) by (nonlinear_arith);
            assert(k == 3 ==> cross((0int, 0int, -1int), (0int, -1int, 0int)) == (-1int, 0int, 0int)) by (nonlinear_arith);
        },
        Face::YNeg => {
            assert(k == 0 ==> cross((0int, 0int, 1int), (1int, 0int, 0int)) == (0int, 1int, 0int)) by (nonlinear_arith);
            assert(k == 1 ==> cross((1int, 0int, 0int), (0int, 0int, -1int)) == (0int, 1int, 0int)) by (nonlinear_arith);
            assert(k == 2 ==> cross((0int, 0int, -1int), (-1int, 0int, 0int)) == (0int, 1int, 0int)) by (nonlinear_arith);
            assert(k == 3 ==> cross((-1int, 0int, 0int), (0int, 0int, 1int)) == (0int, 1int, 0int)) by (nonlinear_arith);
        },
        Face::YPos => {
            assert(k == 0 ==> cross((0int, 0int, 1int), (-1int, 0int, 0int)) == (0int, -1int, 0int)) by (nonlinear_arith);
            assert(k == 1 ==> cross((-1int, 0int, 0int), (0int, 0int, -1int)) == (0int, -1int, 0int)) by (nonlinear_arith);
            assert(k == 2 ==> cross((0int, 0int, -1int), (1int, 0int, 0int)) == (0int, -1int, 0int)) by (nonlinear_arith);
            assert(k == 3 ==> cross((1int, 0int, 0int), (0int, 0int, 1int)) == (0int, -1int, 0int)) by (nonlinear_arith);
        },
        Face::ZNeg => {
            assert(k == 0 ==> cross((0int, -1int, 0int), (1int, 0int, 0int)) == (0int, 0int, 1int)) by (nonlinear_arith);
            assert(k == 1 ==> cross((1int, 0int, 0int), (0int, 1int, 0int)) == (0int, 0int, 1int)) by (nonlinear_arith);
            assert(k == 2 ==> cross((0int, 1int, 0int), (-1int, 0int, 0int)) == (0int, 0int, 1int)) by (nonlinear_arith);
            assert(k == 3 ==> cross((-1int, 0int, 0int), (0int, -1int, 0int)) == (0int, 0int, 1int)) by (nonlinear_arith);
        },
        Face::ZPos => {
            assert(k == 0 ==> cross((0int, -1int, 0int), (-1int, 0int, 0int)) == (0int, 0int, -1int)) by (nonlinear_arith);
            assert(k == 1 ==> cross((-1int, 0int, 0int), (0int, 1int, 0int)) == (0int, 0int, -1int)) by (nonlinear_arith);
            assert(k == 2 ==> cross((0int, 1int, 0int), (1int, 0int, 0int)) == (0int, 0int, -1int)) by (nonlinear_arith);
            assert(k == 3 ==> cross((1int, 0int, 0int), (0int, -1int, 0int)) == (0int, 0int, -1int)) by (nonlinear_arith);
        },
    }
}

/// The four corners' offsets, in order, for side `f`.
fn corner_offsets(f: Face) -> (r: [(i64, i64, i64); 4])
    ensures
        forall|k: int| 0 <= k < 4 ==> (#[trigger] r[k]).0 == corner(f, k).0 && r[k].1 == corner(f, k).1 && r[k].2 == corner(f, k).2,
{
    match f {
        Face::XNeg => [(0, 1, 1), (0, 0, 1), (0, 0, 0), (0, 1, 0)],
        Face::XPos => [(1, 1, 0), (1, 0, 0), (1, 0, 1), (1, 1, 1)],
        Face::YNeg => [(0, 0, 0), (0, 0, 1), (1, 0, 1), (1, 0, 0)],
        Face::YPos => [(1, 1, 0), (1, 1, 1), (0, 1, 1), (0, 1, 0)],
        Face::ZNeg => [(0, 1, 0), (0, 0, 0), (1, 0, 0), (1, 1, 0)],
        Face::ZPos => [(1, 1, 1), (1, 0, 1), (0, 0, 1), (0, 1, 1)],
    }
}

impl Face {
    /// The four corners of the quad on this side of the block whose lower
    /// corner is `(x, y, z)`, textured with the whole of `texture_info`.
    pub fn vertices(&self, pos: WorldCoord, texture_info: &SubTextureInfo) -> (r: Vec<Vertex>)
        requires
            quad_fits(pos),
        ensures
            r@ == quad(*self, key(pos), *texture_info),
    {
        let (x, y, z) = pos;
        let offsets = corner_offsets(*self);
        let x0 = texture_info.x as u64;
        let y0 = texture_info.y as u64;
        let x1 = texture_info.x as u64 + texture_info.size as u64;
        let y1 = texture_info.y as u64 + texture_info.size as u64;
        let tex: [(u64, u64); 4] = [(x1, y1), (x1, y0), (x0, y0), (x0, y1)];
        let mut out: Vec<Vertex> = Vec::new();
        let mut k: usize = 0;
        while k < 4
            invariant
                k <= 4,
                quad_fits(pos),
                pos == (x, y, z),
                forall|j: int| 0 <= j < 4 ==> (#[trigger] offsets[j]).0 == corner(*self, j).0 && offsets[j].1 == corner(*self, j).1 && offsets[j].2 == corner(*self, j).2,
                forall|j: int| 0 <= j < 4 ==> #[trigger] tex[j] == tex_corner(*texture_info, j),
                out@.len() == k,
                forall|j: int| 0 <= j < k ==> #[trigger] out@[j] == quad_vertex(*self, key(pos), *texture_info, j),
            decreases 4 - k,
        {
            let (dx, dy, dz) = offsets[k];
            assert(0 <= dx <= 1 && 0 <= dy <= 1 && 0 <= dz <= 1) by {
                assert(k == 0 || k == 1 || k == 2 || k == 3);
            }
            out.push(Vertex { position: (x + dx, y + dy, z + dz), tex_coords: tex[k] });
            k = k + 1;
        }
        assert(out@ =~= quad(*self, key(pos), *texture_info));
        out
    }
}

} // verus!
