use vstd::prelude::*;
use crate::adjacent::{across, offset, on_border, step, AdjacentChunkManager};
use crate::block::{block_mesh, face_quads, Block};
use crate::chunk::{chunk_pos_ok, global_of, Chunk, ChunkCoord, MAX_CHUNK_POS};
use crate::chunk_array::{coord_of, flat_index, in_chunk, lemma_coord_of, lemma_flat_index, BlockCoord, CHUNK_VOLUME};
use crate::face::{face_at, key, quad, Face, WorldCoord};
use crate::terrain::{generate_terrain, terrain_blocks, CHUNK_COLUMNS};
use crate::utils::{SubTextureInfo, Vertex};

verus! {

/// The chunk found at `k`, if any.
pub open spec fn chunk_in(m: Map<(int, int, int), Chunk>, k: (int, int, int)) -> Option<Chunk> {
    if m.contains_key(k) {
        Some(m[k])
    } else {
        None
    }
}

/// The chunk that holds the global point `g`: each component floor-divided
/// by the chunk size.
pub open spec fn chunk_of(g: (int, int, int)) -> (int, int, int) {
    (g.0 / 16, g.1 / 16, g.2 / 16)
}

/// Where the global point `g` lies inside its chunk: each component modulo
/// the chunk size, rounded towards negative infinity.
pub open spec fn local_of(g: (int, int, int)) -> BlockCoord {
    ((g.0 % 16) as u8, (g.1 % 16) as u8, (g.2 % 16) as u8)
}

/// The chunk position `k` is within the supported range.
pub open spec fn chunk_key_ok(k: (int, int, int)) -> bool {
    -MAX_CHUNK_POS <= k.0 <= MAX_CHUNK_POS && -MAX_CHUNK_POS <= k.1 <= MAX_CHUNK_POS && -MAX_CHUNK_POS <= k.2 <= MAX_CHUNK_POS
}

/// Splitting `q * 16 + r` with `0 <= r < 16` gives back `q` and `r`.
pub proof fn lemma_div16(q: int, r: int)
    requires
        0 <= r < 16,
    ensures
        (q * 16 + r) / 16 == q,
        (q * 16 + r) % 16 == r,
{
    vstd::arithmetic::div_mod::lemma_fundamental_div_mod_converse(q * 16 + r, 16, q, r);
}

/// Converting a global point to its chunk and its position in that chunk,
/// and back, gives the point again, negative components included; and no
/// other chunk and in-chunk position give the point.
pub proof fn lemma_coord_round_trip(g: (int, int, int))
    ensures
        in_chunk(local_of(g)),
        global_of(chunk_of(g), local_of(g)) == g,
        forall|c: (int, int, int), p: BlockCoord|
            in_chunk(p) && #[trigger] global_of(c, p) == g ==> c == chunk_of(g) && p == local_of(g),
{
    vstd::arithmetic::div_mod::lemma_fundamental_div_mod(g.0, 16);
    vstd::arithmetic::div_mod::lemma_fundamental_div_mod(g.1, 16);
    vstd::arithmetic::div_mod::lemma_fundamental_div_mod(g.2, 16);
    assert forall|c: (int, int, int), p: BlockCoord|
        in_chunk(p) && #[trigger] global_of(c, p) == g implies c == chunk_of(g) && p == local_of(g) by {
        lemma_div16(c.0, p.0 as int);
        lemma_div16(c.1, p.1 as int);
        lemma_div16(c.2, p.2 as int);
    }
}

/// Splits a global position into the position of its chunk and its position
/// inside that chunk, by floor division.
pub fn split_world_coord(g: WorldCoord) -> (r: (ChunkCoord, BlockCoord))
    ensures
        key(r.0) == chunk_of(key(g)),
        r.1 == local_of(key(g)),
        in_chunk(r.1),
{
    proof {
        lemma_coord_round_trip(key(g));
        vstd::arithmetic::div_mod::lemma_div_is_ordered(i64::MIN as int, g.0 as int, 16);
        vstd::arithmetic::div_mod::lemma_div_is_ordered(g.0 as int, i64::MAX as int, 16);
        vstd::arithmetic::div_mod::lemma_div_is_ordered(i64::MIN as int, g.1 as int, 16);
        vstd::arithmetic::div_mod::lemma_div_is_ordered(g.1 as int, i64::MAX as int, 16);
        vstd::arithmetic::div_mod::lemma_div_is_ordered(i64::MIN as int, g.2 as int, 16);
        vstd::arithmetic::div_mod::lemma_div_is_ordered(g.2 as int, i64::MAX as int, 16);
    }
    let cx = g.0.checked_div_euclid(16).unwrap();
    let cy = g.1.checked_div_euclid(16).unwrap();
    let cz = g.2.checked_div_euclid(16).unwrap();
    let lx = g.0.checked_rem_euclid(16).unwrap() as u8;
    let ly = g.1.checked_rem_euclid(16).unwrap() as u8;
    let lz = g.2.checked_rem_euclid(16).unwrap() as u8;
    ((cx, cy, cz), (lx, ly, lz))
}

/// The chunks of `s`, each filed under its own position.
spec fn registry(s: Seq<Chunk>) -> Map<(int, int, int), Chunk> {
    Map::new(
        |k: (int, int, int)| exists|i: int| 0 <= i < s.len() && key(s[i].location_view()) == k,
        |k: (int, int, int)| s[choose|i: int| 0 <= i < s.len() && key(s[i].location_view()) == k],
    )
}

/// Every chunk of `s` is well formed, and no two stand at one position.
spec fn registry_ok(s: Seq<Chunk>) -> bool {
    &&& forall|i: int| 0 <= i < s.len() ==> (#[trigger] s[i]).wf()
    &&& forall|i: int, j: int|
        0 <= i < s.len() && 0 <= j < s.len() && i != j ==> #[trigger] s[i].location_view() != #[trigger] s[j].location_view()
}

proof fn lemma_registry_at(s: Seq<Chunk>, i: int)
    requires
        registry_ok(s),
        0 <= i < s.len(),
    ensures
        registry(s).contains_key(key(s[i].location_view())),
        registry(s)[key(s[i].location_view())] == s[i],
{
    let k = key(s[i].location_view());
    let j = choose|j: int| 0 <= j < s.len() && key(s[j].location_view()) == k;
    assert(key(s[j].location_view()) == k);
    assert(s[j].location_view() == s[i].location_view());
}

proof fn lemma_registry_set(s: Seq<Chunk>, i: int, x: Chunk)
    requires
        registry_ok(s),
        0 <= i < s.len(),
        x.wf(),
        x.location_view() == s[i].location_view(),
    ensures
        registry_ok(s.update(i, x)),
        registry(s.update(i, x)) == registry(s).insert(key(x.location_view()), x),
{
    let t = s.update(i, x);
    assert(registry_ok(t));
    assert forall|k: (int, int, int)| #[trigger] registry(t).contains_key(k) <==> registry(s).insert(key(x.location_view()), x).contains_key(k) by {
        if registry(t).contains_key(k) {
            let j = choose|j: int| 0 <= j < t.len() && key(t[j].location_view()) == k;
            if j != i {
                assert(key(s[j].location_view()) == k);
            }
        }
        if registry(s).contains_key(k) {
            let j = choose|j: int| 0 <= j < s.len() && key(s[j].location_view()) == k;
            assert(key(t[j].location_view()) == k);
        }
        if k == key(x.location_view()) {
            assert(key(t[i].location_view()) == k);
        }
    }
    assert forall|k: (int, int, int)| #[trigger] registry(t).contains_key(k) implies registry(t)[k] == registry(s).insert(key(x.location_view()), x)[k] by {
        let j = choose|j: int| 0 <= j < t.len() && key(t[j].location_view()) == k;
        lemma_registry_at(t, j);
        if j != i {
            lemma_registry_at(s, j);
        }
    }
    assert(registry(t) =~= registry(s).insert(key(x.location_view()), x));
}

proof fn lemma_registry_push(s: Seq<Chunk>, x: Chunk)
    requires
        registry_ok(s),
        x.wf(),
        !registry(s).contains_key(key(x.location_view())),
    ensures
        registry_ok(s.push(x)),
        registry(s.push(x)) == registry(s).insert(key(x.location_view()), x),
{
    let t = s.push(x);
    assert forall|i: int, j: int| 0 <= i < t.len() && 0 <= j < t.len() && i != j implies #[trigger] t[i].location_view() != #[trigger] t[j].location_view() by {
        if i == s.len() {
            assert(key(s[j].location_view()) != key(x.location_view()));
        } else if j == s.len() {
            assert(key(s[i].location_view()) != key(x.location_view()));
        }
    }
    assert(registry_ok(t));
    assert forall|k: (int, int, int)| #[trigger] registry(t).contains_key(k) <==> registry(s).insert(key(x.location_view()), x).contains_key(k) by {
        if registry(t).contains_key(k) {
            let j = choose|j: int| 0 <= j < t.len() && key(t[j].location_view()) == k;
            if j != s.len() {
                assert(key(s[j].location_view()) == k);
            }
        }
        if registry(s).contains_key(k) {
            let j = choose|j: int| 0 <= j < s.len() && key(s[j].location_view()) == k;
            assert(key(t[j].location_view()) == k);
        }
        if k == key(x.location_view()) {
            assert(key(t[s.len() as int].location_view()) == k);
        }
    }
    assert forall|k: (int, int, int)| #[trigger] registry(t).contains_key(k) implies registry(t)[k] == registry(s).insert(key(x.location_view()), x)[k] by {
        let j = choose|j: int| 0 <= j < t.len() && key(t[j].location_view()) == k;
        lemma_registry_at(t, j);
        if j != s.len() {
            lemma_registry_at(s, j);
        }
    }
    assert(registry(t) =~= registry(s).insert(key(x.location_view()), x));
}

/// The world: the chunks generated so far, each at its own position.
pub struct World {
    chunks: Vec<Chunk>,
}

impl View for World {
    type V = Map<(int, int, int), Chunk>;

    closed spec fn view(&self) -> Map<(int, int, int), Chunk> {
        registry(self.chunks@)
    }
}

impl World {
    /// Every chunk is well formed, and no two stand at one position.
    pub closed spec fn wf(&self) -> bool {
        registry_ok(self.chunks@)
    }

    /// The chunk at `k`, if it has been generated.
    pub open spec fn lookup(&self, k: (int, int, int)) -> Option<Chunk> {
        chunk_in(self@, k)
    }

    proof fn lemma_view_at(&self, i: int)
        requires
            self.wf(),
            0 <= i < self.chunks@.len(),
        ensures
            self@.contains_key(key(self.chunks@[i].location_view())),
            self@[key(self.chunks@[i].location_view())] == self.chunks@[i],
    {
        lemma_registry_at(self.chunks@, i);
    }

    /// Each chunk of a well-formed world is well formed and stands where the
    /// world files it.
    pub proof fn lemma_wf(&self)
        requires
            self.wf(),
        ensures
            forall|k: (int, int, int)| #[trigger] self@.contains_key(k) ==> self@[k].wf() && key(self@[k].location_view()) == k,
    {
        assert forall|k: (int, int, int)| #[trigger] self@.contains_key(k) implies self@[k].wf() && key(self@[k].location_view()) == k by {
            let i = choose|i: int| 0 <= i < self.chunks@.len() && key(self.chunks@[i].location_view()) == k;
            lemma_registry_at(self.chunks@, i);
        }
    }

    /// A world with no chunks.
    pub fn new() -> (r: Self)
        ensures
            r.wf(),
            r@ == Map::<(int, int, int), Chunk>::empty(),
    {
        let r = World { chunks: Vec::new() };
        assert(r@ =~= Map::<(int, int, int), Chunk>::empty());
        r
    }

    /// Where the chunk at `coord` is stored, if there is one.
    fn chunk_index(&self, coord: ChunkCoord) -> (r: Option<usize>)
        requires
            self.wf(),
        ensures
            match r {
                Some(i) => i < self.chunks@.len() && self.chunks@[i as int].location_view() == coord
                    && self@.contains_key(key(coord)) && self@[key(coord)] == self.chunks@[i as int],
                None => !self@.contains_key(key(coord)),
            },
    {
        let mut i: usize = 0;
        while i < self.chunks.len()
            invariant
                self.wf(),
                i <= self.chunks@.len(),
                forall|j: int| 0 <= j < i ==> self.chunks@[j].location_view() != coord,
            decreases self.chunks@.len() - i,
        {
            let loc = self.chunks[i].location();
            if loc.0 == coord.0 && loc.1 == coord.1 && loc.2 == coord.2 {
                proof {
                    self.lemma_view_at(i as int);
                }
                return Some(i);
            }
            i = i + 1;
        }
        None
    }

    /// The chunk at `coord`, if it has been generated.
    pub fn get_chunk(&self, coord: ChunkCoord) -> (r: Option<&Chunk>)
        requires
            self.wf(),
        ensures
            self.lookup(key(coord)) == (match r {
                Some(c) => Some(*c),
                None => None,
            }),
    {
        match self.chunk_index(coord) {
            Some(i) => Some(&self.chunks[i]),
            None => None,
        }
    }

    /// The block at global point `g`: read from its chunk, `Empty` where that
    /// chunk has not been generated.
    pub open spec fn block_spec(&self, g: (int, int, int)) -> Block {
        match self.lookup(chunk_of(g)) {
            Some(c) => c.block_at(local_of(g)),
            None => Block::Empty,
        }
    }

    /// The block at `pos`; `Empty` where its chunk has not been generated.
    pub fn get_block(&self, pos: WorldCoord) -> (r: Block)
        requires
            self.wf(),
        ensures
            r == self.block_spec(key(pos)),
    {
        let (chunk_pos, local) = split_world_coord(pos);
        match self.get_chunk(chunk_pos) {
            Some(chunk) => {
                proof {
                    self.lemma_wf();
                }
                chunk.get_local_block(local)
            },
            None => Block::default(),
        }
    }

    /// Generates the chunk at `coord` from the column heights `heights`
    /// (see `generate_terrain`), replacing any chunk already there.
    pub fn generate_chunk(&mut self, coord: ChunkCoord, heights: &Vec<i64>)
        requires
            old(self).wf(),
            chunk_pos_ok(coord),
            heights@.len() == CHUNK_COLUMNS,
        ensures
            final(self).wf(),
            final(self)@ == old(self)@.insert(key(coord), final(self)@[key(coord)]),
            final(self)@[key(coord)].block_view() == terrain_blocks(coord, heights@),
            final(self)@[key(coord)].mesh_view() == Seq::new(CHUNK_VOLUME as nat, |i: int| Seq::<Vertex>::empty()),
    {
        let chunk = generate_terrain(coord, heights);
        self.put_chunk(chunk);
    }

    /// Files `chunk` under its position, replacing any chunk already there.
    fn put_chunk(&mut self, chunk: Chunk)
        requires
            old(self).wf(),
            chunk.wf(),
        ensures
            final(self).wf(),
            final(self)@ == old(self)@.insert(key(chunk.location_view()), chunk),
    {
        match self.chunk_index(chunk.location()) {
            Some(i) => {
                proof {
                    lemma_registry_set(self.chunks@, i as int, chunk);
                }
                self.chunks.set(i, chunk);
            },
            None => {
                proof {
                    lemma_registry_push(self.chunks@, chunk);
                }
                self.chunks.push(chunk);
            },
        }
    }

    /// Generates the chunk at `coord` from `heights` unless it is already
    /// there, in which case nothing changes.
    pub fn ensure_chunk(&mut self, coord: ChunkCoord, heights: &Vec<i64>)
        requires
            old(self).wf(),
            chunk_pos_ok(coord),
            heights@.len() == CHUNK_COLUMNS,
        ensures
            final(self).wf(),
            final(self)@ == old(self)@.insert(key(coord), final(self)@[key(coord)]),
            old(self)@.contains_key(key(coord)) ==> final(self)@ == old(self)@,
            !old(self)@.contains_key(key(coord)) ==> final(self)@[key(coord)].block_view() == terrain_blocks(coord, heights@)
                && final(self)@[key(coord)].mesh_view() == Seq::new(CHUNK_VOLUME as nat, |i: int| Seq::<Vertex>::empty()),
    {
        if self.get_chunk(coord).is_none() {
            self.generate_chunk(coord, heights);
        } else {
            assert(old(self)@.insert(key(coord), old(self)@[key(coord)]) =~= old(self)@);
        }
    }

    /// Where the chunk at `coord` is stored, after putting an empty chunk
    /// there if there was none.
    fn edit_chunk(&mut self, coord: ChunkCoord) -> (r: usize)
        requires
            old(self).wf(),
            chunk_pos_ok(coord),
        ensures
            final(self).wf(),
            r < final(self).chunks@.len(),
            final(self).chunks@[r as int].location_view() == coord,
            final(self)@ == old(self)@.insert(key(coord), final(self).chunks@[r as int]),
            old(self)@.contains_key(key(coord)) ==> final(self)@ == old(self)@,
            !old(self)@.contains_key(key(coord)) ==> final(self).chunks@[r as int].block_view() == Seq::new(CHUNK_VOLUME as nat, |i: int| Block::Empty)
                && final(self).chunks@[r as int].mesh_view() == Seq::new(CHUNK_VOLUME as nat, |i: int| Seq::<Vertex>::empty()),
    {
        match self.chunk_index(coord) {
            Some(i) => {
                assert(old(self)@.insert(key(coord), old(self)@[key(coord)]) =~= old(self)@);
                i
            },
            None => {
                let chunk = Chunk::new(coord);
                proof {
                    lemma_registry_push(self.chunks@, chunk);
                }
                self.chunks.push(chunk);
                self.chunks.len() - 1
            },
        }
    }

    /// Replaces the block at `pos`, first putting an empty chunk in place if
    /// the block's chunk has not been generated. No quads are regenerated.
    pub fn set_block(&mut self, pos: WorldCoord, block: Block)
        requires
            old(self).wf(),
            chunk_key_ok(chunk_of(key(pos))),
        ensures
            final(self).wf(),
            forall|g: (int, int, int)| #[trigger] final(self).block_spec(g) == (if g == key(pos) { block } else { old(self).block_spec(g) }),
            final(self)@.dom() == old(self)@.dom().insert(chunk_of(key(pos))),
            forall|k: (int, int, int)| #[trigger] old(self)@.contains_key(k) && k != chunk_of(key(pos)) ==> final(self)@[k] == old(self)@[k],
            forall|k: (int, int, int)| #[trigger] final(self)@.contains_key(k) ==> final(self)@[k].mesh_view() == (
                if old(self)@.contains_key(k) { old(self)@[k].mesh_view() } else { Seq::new(CHUNK_VOLUME as nat, |i: int| Seq::<Vertex>::empty()) }),
    {
        let (chunk_pos, local) = split_world_coord(pos);
        let ghost k = key(chunk_pos);
        let ghost g0 = key(pos);
        let i = self.edit_chunk(chunk_pos);
        let ghost mid = self@;
        let ghost mid_chunks = self.chunks@;
        proof {
            lemma_registry_at(self.chunks@, i as int);
            old(self).lemma_wf();
        }
        self.chunks[i].set_local_block(local, block);
        proof {
            let after = self.chunks@[i as int];
            assert(self.chunks@ =~= mid_chunks.update(i as int, after));
            lemma_registry_set(mid_chunks, i as int, after);
            assert(self@ == mid.insert(k, after));
            lemma_coord_round_trip(g0);
            lemma_flat_index(local);
            assert forall|g: (int, int, int)| #[trigger] self.block_spec(g) == (if g == g0 { block } else { old(self).block_spec(g) }) by {
                lemma_coord_round_trip(g);
                if chunk_of(g) == k {
                    lemma_flat_index(local_of(g));
                    if local_of(g) == local {
                        assert(g == g0);
                    }
                }
            }
        }
    }

    /// The block at global point `g` as the mesher sees it: read from its
    /// chunk, `NotGenerated` where that chunk has not been generated.
    pub open spec fn resolved(&self, g: (int, int, int)) -> Block {
        match self.lookup(chunk_of(g)) {
            Some(c) => c.block_at(local_of(g)),
            None => Block::NotGenerated,
        }
    }

    /// The blocks beyond the six sides of the block at `g`, in face order.
    pub open spec fn neighbors_of(&self, g: (int, int, int)) -> Seq<Block> {
        Seq::new(6, |i: int| self.resolved(offset(g, face_at(i))))
    }

    /// The quads of the block stored at index `i` of the chunk at `k`,
    /// meshed against its neighbours in this world.
    pub open spec fn block_mesh_at(&self, k: (int, int, int), i: int, t: SubTextureInfo) -> Seq<Vertex> {
        let g = global_of(k, coord_of(i));
        block_mesh(self@[k].block_view()[i], g, self.neighbors_of(g), t)
    }

    /// The quads that regenerating the chunk at `k` stores, block by block.
    pub open spec fn chunk_mesh(&self, k: (int, int, int), t: SubTextureInfo) -> Seq<Seq<Vertex>> {
        Seq::new(CHUNK_VOLUME as nat, |i: int| self.block_mesh_at(k, i, t))
    }

    /// All quads of the chunk at `k`, or none where it is absent.
    pub open spec fn chunk_vertices(&self, k: (int, int, int)) -> Seq<Vertex> {
        match self.lookup(k) {
            Some(c) => c.mesh_view().flatten(),
            None => Seq::empty(),
        }
    }

    /// The quads of the chunks at `coords`, chunk after chunk in that order.
    pub open spec fn vertices_for(&self, coords: Seq<ChunkCoord>) -> Seq<Vertex> {
        Seq::new(coords.len(), |j: int| self.chunk_vertices(key(coords[j]))).flatten()
    }

    /// `coords` names the chunk position `k`.
    pub open spec fn listed(coords: Seq<ChunkCoord>, k: (int, int, int)) -> bool {
        exists|j: int| 0 <= j < coords.len() && key(#[trigger] coords[j]) == k
    }

    /// `w1` is `w0` after regenerating the quads of the chunks at `coords`
    /// with atlas rectangle `t`: the same chunks and blocks; the listed
    /// chunks that are present hold the quads of their blocks against their
    /// neighbours, the others keep theirs.
    pub open spec fn regenerated(w0: World, w1: World, coords: Seq<ChunkCoord>, t: SubTextureInfo) -> bool {
        &&& w1@.dom() == w0@.dom()
        &&& forall|k: (int, int, int)| #[trigger] w0@.contains_key(k) ==> {
            &&& w1@[k].block_view() == w0@[k].block_view()
            &&& w1@[k].location_view() == w0@[k].location_view()
            &&& w1@[k].mesh_view() == (if World::listed(coords, k) { w0.chunk_mesh(k, t) } else { w0@[k].mesh_view() })
        }
    }

    /// Regenerates the quads of each chunk at `chunk_coords` that is present,
    /// meshing each of its blocks against the blocks beyond its sides, in
    /// this chunk or in the neighbouring one. Absent chunks are skipped.
    pub fn generate_vertices_for_chunks(&mut self, chunk_coords: Vec<ChunkCoord>, texture_info: &SubTextureInfo)
        requires
            old(self).wf(),
        ensures
            final(self).wf(),
            World::regenerated(*old(self), *final(self), chunk_coords@, *texture_info),
    {
        let ghost w0 = *self;
        let ghost t = *texture_info;
        let mut n: usize = 0;
        while n < chunk_coords.len()
            invariant
                self.wf(),
                w0.wf(),
                t == *texture_info,
                n <= chunk_coords@.len(),
                self@.dom() == w0@.dom(),
                forall|k: (int, int, int)| #[trigger] w0@.contains_key(k) ==> {
                    &&& self@[k].block_view() == w0@[k].block_view()
                    &&& self@[k].location_view() == w0@[k].location_view()
                    &&& self@[k].mesh_view() == (if World::listed(chunk_coords@.take(n as int), k) { w0.chunk_mesh(k, t) } else { w0@[k].mesh_view() })
                },
            decreases chunk_coords@.len() - n,
        {
            let coord = chunk_coords[n];
            let ghost k = key(coord);
            proof {
                assert forall|k2: (int, int, int)| World::listed(chunk_coords@.take(n + 1), k2) <==> (World::listed(chunk_coords@.take(n as int), k2) || k2 == k) by {
                    if World::listed(chunk_coords@.take(n + 1), k2) {
                        let j = choose|j: int| 0 <= j < n + 1 && key(#[trigger] chunk_coords@.take(n + 1)[j]) == k2;
                        if j < n {
                            assert(chunk_coords@.take(n as int)[j] == chunk_coords@.take(n + 1)[j]);
                        }
                    }
                    if World::listed(chunk_coords@.take(n as int), k2) {
                        let j = choose|j: int| 0 <= j < n && key(#[trigger] chunk_coords@.take(n as int)[j]) == k2;
                        assert(chunk_coords@.take(n + 1)[j] == chunk_coords@.take(n as int)[j]);
                    }
                    if k2 == k {
                        assert(chunk_coords@.take(n + 1)[n as int] == coord);
                    }
                }
            }
            let ghost before = *self;
            self.regenerate_chunk(coord, texture_info);
            proof {
                if w0@.contains_key(k) {
                    lemma_chunk_mesh_frame(before, w0, k, t);
                }
                assert forall|k2: (int, int, int)| #[trigger] w0@.contains_key(k2) implies {
                    &&& self@[k2].block_view() == w0@[k2].block_view()
                    &&& self@[k2].location_view() == w0@[k2].location_view()
                    &&& self@[k2].mesh_view() == (if World::listed(chunk_coords@.take(n + 1), k2) { w0.chunk_mesh(k2, t) } else { w0@[k2].mesh_view() })
                } by {
                    assert(before@.contains_key(k2));
                    assert(World::listed(chunk_coords@.take(n + 1), k2) <==> (World::listed(chunk_coords@.take(n as int), k2) || k2 == k));
                    if k2 == k {
                        assert(self@[k2].mesh_view() == before.chunk_mesh(k, t));
                    } else {
                        assert(self@[k2].mesh_view() == before@[k2].mesh_view());
                    }
                }
            }
            n = n + 1;
        }
        assert(chunk_coords@.take(chunk_coords@.len() as int) =~= chunk_coords@);
    }

    /// Regenerates the quads of the chunk at `coord`, if it is present.
    fn regenerate_chunk(&mut self, coord: ChunkCoord, texture_info: &SubTextureInfo)
        requires
            old(self).wf(),
        ensures
            final(self).wf(),
            final(self)@.dom() == old(self)@.dom(),
            forall|k: (int, int, int)| #[trigger] old(self)@.contains_key(k) ==> {
                &&& final(self)@[k].block_view() == old(self)@[k].block_view()
                &&& final(self)@[k].location_view() == old(self)@[k].location_view()
                &&& final(self)@[k].mesh_view() == (if k == key(coord) { old(self).chunk_mesh(k, *texture_info) } else { old(self)@[k].mesh_view() })
            },
    {
        let ghost k = key(coord);
        let ghost t = *texture_info;
        match self.chunk_index(coord) {
            None => {},
            Some(i) => {
                proof {
                    self.lemma_wf();
                }
                let generated = {
                    let adj = AdjacentChunkManager::from_world(self, coord);
                    proof {
                        assert forall|j: int| 0 <= j < CHUNK_VOLUME implies adj.neighbors(coord_of(j)) == self.neighbors_of(global_of(k, coord_of(j))) by {
                            lemma_coord_of(j);
                            lemma_neighbors_agree(*self, adj, coord, coord_of(j));
                        }
                    }
                    self.chunks[i].generate_all_vertices(adj, texture_info)
                };
                let ghost mid_chunks = self.chunks@;
                let ghost mid = *self;
                self.chunks[i].update_generated_vertices(generated);
                proof {
                    let after = self.chunks@[i as int];
                    assert(self.chunks@ =~= mid_chunks.update(i as int, after));
                    lemma_registry_set(mid_chunks, i as int, after);
                    assert(after.mesh_view() =~= mid.chunk_mesh(k, t));
                }
            },
        }
    }

    /// The quads of the chunks at `chunk_coords`, chunk after chunk in that
    /// order, each chunk's block by block; absent chunks add none.
    pub fn get_vertices_for_chunks(&self, chunk_coords: Vec<ChunkCoord>) -> (r: Vec<Vertex>)
        requires
            self.wf(),
        ensures
            r@ == self.vertices_for(chunk_coords@),
    {
        let ghost parts = Seq::new(chunk_coords@.len(), |j: int| self.chunk_vertices(key(chunk_coords@[j])));
        let mut vertices: Vec<Vertex> = Vec::new();
        let mut n: usize = 0;
        while n < chunk_coords.len()
            invariant
                self.wf(),
                n <= chunk_coords@.len(),
                parts == Seq::new(chunk_coords@.len(), |j: int| self.chunk_vertices(key(chunk_coords@[j]))),
                vertices@ == parts.take(n as int).flatten(),
            decreases chunk_coords@.len() - n,
        {
            proof {
                assert(parts.take(n + 1) =~= parts.take(n as int).push(parts[n as int]));
                parts.take(n as int).lemma_flatten_push(parts[n as int]);
            }
            match self.get_chunk(chunk_coords[n]) {
                Some(chunk) => {
                    proof {
                        self.lemma_wf();
                    }
                    let mut part = chunk.flatten_mesh();
                    vertices.append(&mut part);
                },
                None => {
                    assert(vertices@ + Seq::<Vertex>::empty() =~= vertices@);
                },
            }
            n = n + 1;
        }
        assert(parts.take(chunk_coords@.len() as int) =~= parts);
        vertices
    }
}

/// The quads of a chunk depend only on which chunks are present and on the
/// blocks they hold.
pub proof fn lemma_chunk_mesh_frame(w1: World, w2: World, k: (int, int, int), t: SubTextureInfo)
    requires
        w1@.contains_key(k),
        w1@.dom() == w2@.dom(),
        forall|k2: (int, int, int)| #[trigger] w1@.contains_key(k2) ==> w1@[k2].block_view() == w2@[k2].block_view(),
    ensures
        w1.chunk_mesh(k, t) == w2.chunk_mesh(k, t),
{
    assert forall|g: (int, int, int)| #[trigger] w1.resolved(g) == w2.resolved(g) by {
        if w1@.contains_key(chunk_of(g)) {
            assert(w2@.contains_key(chunk_of(g)));
        }
    }
    assert forall|i: int| 0 <= i < CHUNK_VOLUME implies #[trigger] w1.block_mesh_at(k, i, t) == w2.block_mesh_at(k, i, t) by {
        let g = global_of(k, coord_of(i));
        assert(w1.neighbors_of(g) =~= w2.neighbors_of(g));
    }
    assert(w1.chunk_mesh(k, t) =~= w2.chunk_mesh(k, t));
}

/// One step from the block at `p` of the chunk at `k` through side `f`
/// lands in the neighbouring chunk through `f`, at the opposite border,
/// when `p` lies on that border, and one cell over in the same chunk
/// otherwise.
pub proof fn lemma_step_split(k: (int, int, int), p: BlockCoord, f: Face)
    requires
        in_chunk(p),
    ensures
        chunk_of(offset(global_of(k, p), f)) == (if on_border(p, f) { offset(k, f) } else { k }),
        local_of(offset(global_of(k, p), f)) == (if on_border(p, f) { across(p, f) } else { step(p, f) }),
{
    lemma_div16(k.0, p.0 as int);
    lemma_div16(k.1, p.1 as int);
    lemma_div16(k.2, p.2 as int);
    lemma_div16(k.0 - 1, 15);
    lemma_div16(k.1 - 1, 15);
    lemma_div16(k.2 - 1, 15);
    lemma_div16(k.0 + 1, 0);
    lemma_div16(k.1 + 1, 0);
    lemma_div16(k.2 + 1, 0);
    if 0 < p.0 {
        lemma_div16(k.0, p.0 - 1);
    }
    if p.0 < 15 {
        lemma_div16(k.0, p.0 + 1);
    }
    if 0 < p.1 {
        lemma_div16(k.1, p.1 - 1);
    }
    if p.1 < 15 {
        lemma_div16(k.1, p.1 + 1);
    }
    if 0 < p.2 {
        lemma_div16(k.2, p.2 - 1);
    }
    if p.2 < 15 {
        lemma_div16(k.2, p.2 + 1);
    }
    match f {
        Face::XNeg => {},
        Face::XPos => {},
        Face::YNeg => {},
        Face::YPos => {},
        Face::ZNeg => {},
        Face::ZPos => {},
    }
}

/// The block that the manager built for the chunk at `c` finds beyond side
/// `f` of the block at `p` is the block that the world holds at the
/// neighbouring global point, or `NotGenerated` where that point's chunk is
/// absent, whether or not the step crosses a chunk border.
pub proof fn lemma_resolver_agrees(w: World, adj: AdjacentChunkManager, c: ChunkCoord, p: BlockCoord, f: Face)
    requires
        w.wf(),
        chunk_pos_ok(c),
        in_chunk(p),
        adj.home() == w.lookup(key(c)),
        forall|f2: Face| #[trigger] adj.side(f2) == w.lookup(offset(key(c), f2)),
    ensures
        adj.face_spec(p, f) == w.resolved(offset(global_of(key(c), p), f)),
{
    lemma_step_split(key(c), p, f);
    assert(adj.side(f) == w.lookup(offset(key(c), f)));
}

/// Across a chunk border: beyond side `f` of a block at `p` on that border
/// of the chunk at `k` lies the block at the opposite border of the
/// neighbouring chunk through `f`, if that chunk is present. So a solid
/// block there shows its quad on side `f` exactly when that neighbour
/// block is transparent, and hides it when the neighbour is solid.
pub proof fn lemma_cross_chunk_visibility(w: World, k: (int, int, int), p: BlockCoord, f: Face, t: SubTextureInfo)
    requires
        in_chunk(p),
        on_border(p, f),
        w@.contains_key(offset(k, f)),
    ensures
        w.resolved(offset(global_of(k, p), f)) == w@[offset(k, f)].block_at(across(p, f)),
        face_quads(f, global_of(k, p), w.resolved(offset(global_of(k, p), f)), t) == (
            if w@[offset(k, f)].block_at(across(p, f)).transparent() { quad(f, global_of(k, p), t) } else { Seq::empty() }),
{
    lemma_step_split(k, p, f);
}

/// Across a chunk border towards a chunk that has not been generated, the
/// mesher finds `NotGenerated`, which is transparent: a solid block on that
/// border always shows its quad on that side.
pub proof fn lemma_absent_neighbor_face_shows(w: World, k: (int, int, int), p: BlockCoord, f: Face, t: SubTextureInfo)
    requires
        in_chunk(p),
        on_border(p, f),
        !w@.contains_key(offset(k, f)),
    ensures
        w.resolved(offset(global_of(k, p), f)) == Block::NotGenerated,
        face_quads(f, global_of(k, p), w.resolved(offset(global_of(k, p), f)), t) == quad(f, global_of(k, p), t),
{
    lemma_step_split(k, p, f);
}

/// Regenerating the same chunks twice with no change to the blocks in
/// between leaves every chunk's quads, and so every list of vertices handed
/// out, as the first regeneration left them.
pub proof fn lemma_regenerate_idempotent(
    w0: World,
    w1: World,
    w2: World,
    coords: Seq<ChunkCoord>,
    t: SubTextureInfo,
    shown: Seq<ChunkCoord>,
)
    requires
        World::regenerated(w0, w1, coords, t),
        World::regenerated(w1, w2, coords, t),
    ensures
        forall|k: (int, int, int)| #[trigger] w2@.contains_key(k) ==> w2@[k].mesh_view() == w1@[k].mesh_view(),
        w2.vertices_for(shown) == w1.vertices_for(shown),
{
    assert forall|k: (int, int, int)| #[trigger] w2@.contains_key(k) implies w2@[k].mesh_view() == w1@[k].mesh_view() by {
        if World::listed(coords, k) {
            lemma_chunk_mesh_frame(w1, w0, k, t);
        }
    }
    assert forall|j: int| 0 <= j < shown.len() implies #[trigger] w2.chunk_vertices(key(shown[j])) == w1.chunk_vertices(key(shown[j])) by {
        let k = key(shown[j]);
        if w2@.contains_key(k) {
            assert(w2@[k].mesh_view() == w1@[k].mesh_view());
        }
    }
    assert(Seq::new(shown.len(), |j: int| w2.chunk_vertices(key(shown[j]))) =~= Seq::new(shown.len(), |j: int| w1.chunk_vertices(key(shown[j]))));
}

/// The neighbours that the manager finds for the block at `p` of the chunk
/// at `c` are the neighbours of its global point in the world.
pub proof fn lemma_neighbors_agree(w: World, adj: AdjacentChunkManager, c: ChunkCoord, p: BlockCoord)
    requires
        w.wf(),
        chunk_pos_ok(c),
        in_chunk(p),
        adj.home() == w.lookup(key(c)),
        forall|f2: Face| #[trigger] adj.side(f2) == w.lookup(offset(key(c), f2)),
    ensures
        adj.neighbors(p) == w.neighbors_of(global_of(key(c), p)),
{
    assert forall|i: int| 0 <= i < 6 implies #[trigger] adj.neighbors(p)[i] == w.neighbors_of(global_of(key(c), p))[i] by {
        lemma_resolver_agrees(w, adj, c, p, face_at(i));
    }
    assert(adj.neighbors(p) =~= w.neighbors_of(global_of(key(c), p)));
}

} // verus!
