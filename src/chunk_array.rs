use vstd::prelude::*;

verus! {

/// One axis of a position inside a chunk.
pub type BlockPos = u8;

/// A position inside a chunk; each component lies in `0..CHUNK_SIZE`.
pub type BlockCoord = (BlockPos, BlockPos, BlockPos);

/// The edge length of a chunk, in blocks.
pub const CHUNK_SIZE: usize = 16;

/// The number of cells of a chunk.
pub const CHUNK_VOLUME: usize = 4096;

/// The position lies inside a chunk.
pub open spec fn in_chunk(p: BlockCoord) -> bool {
    p.0 < 16 && p.1 < 16 && p.2 < 16
}

/// Where the cell at `p` sits in the flat, x-major storage order.
pub open spec fn flat_index(p: BlockCoord) -> int {
    p.0 as int * 256 + p.1 as int * 16 + p.2 as int
}

/// The position of the cell that sits at `i` in storage order.
pub open spec fn coord_of(i: int) -> BlockCoord {
    ((i / 256) as u8, ((i / 16) % 16) as u8, (i % 16) as u8)
}

pub proof fn lemma_flat_index(p: BlockCoord)
    requires
        in_chunk(p),
    ensures
        0 <= flat_index(p) < 4096,
        coord_of(flat_index(p)) == p,
{
    let (x, y, z) = (p.0 as int, p.1 as int, p.2 as int);
    let i = flat_index(p);
    vstd::arithmetic::div_mod::lemma_fundamental_div_mod_converse(i, 256, x, y * 16 + z);
    vstd::arithmetic::div_mod::lemma_fundamental_div_mod_converse(i, 16, x * 16 + y, z);
    vstd::arithmetic::div_mod::lemma_fundamental_div_mod_converse(x * 16 + y, 16, x, y);
}

pub proof fn lemma_coord_of(i: int)
    requires
        0 <= i < 4096,
    ensures
        in_chunk(coord_of(i)),
        flat_index(coord_of(i)) == i,
{
    let q = i / 16;
    vstd::arithmetic::div_mod::lemma_fundamental_div_mod(i, 16);
    vstd::arithmetic::div_mod::lemma_fundamental_div_mod(q, 16);
    vstd::arithmetic::div_mod::lemma_div_denominator(i, 16, 16);
    assert(0 <= q < 256);
}

/// A cube of `CHUNK_SIZE` cells per axis, stored flat in x-major order.
pub struct ChunkArray<T> {
    cells: Vec<T>,
}

impl<T> View for ChunkArray<T> {
    type V = Seq<T>;

    closed spec fn view(&self) -> Seq<T> {
        self.cells@
    }
}

/// The storage position of a cell, computed at run time.
fn index_of(p: BlockCoord) -> (r: usize)
    requires
        in_chunk(p),
    ensures
        r == flat_index(p),
        r < CHUNK_VOLUME,
{
    proof {
        lemma_flat_index(p);
    }
    p.0 as usize * 256 + p.1 as usize * 16 + p.2 as usize
}

/// The position of the cell stored at `i`, computed at run time.
pub(crate) fn coord_at(i: usize) -> (r: BlockCoord)
    requires
        i < CHUNK_VOLUME,
    ensures
        r == coord_of(i as int),
        in_chunk(r),
{
    proof {
        lemma_coord_of(i as int);
    }
    ((i / 256) as u8, ((i / 16) % 16) as u8, (i % 16) as u8)
}

impl<T> ChunkArray<T> {
    /// Holds exactly one value per cell.
    pub open spec fn wf(&self) -> bool {
        self@.len() == CHUNK_VOLUME
    }

    /// The value at `pos`.
    pub fn get(&self, pos: BlockCoord) -> (r: &T)
        requires
            self.wf(),
            in_chunk(pos),
        ensures
            *r == self@[flat_index(pos)],
    {
        let i = index_of(pos);
        &self.cells[i]
    }

    /// Replaces the value at `pos`; every other cell keeps its value.
    pub fn set(&mut self, pos: BlockCoord, new: T)
        requires
            old(self).wf(),
            in_chunk(pos),
        ensures
            final(self).wf(),
            final(self)@ == old(self)@.update(flat_index(pos), new),
    {
        let i = index_of(pos);
        self.cells.set(i, new);
    }

    /// Each cell with its position, in storage order.
    pub fn iter_flat_coords(&self) -> (r: Vec<(BlockCoord, &T)>)
        requires
            self.wf(),
        ensures
            r@.len() == CHUNK_VOLUME,
            forall|i: int| 0 <= i < CHUNK_VOLUME ==> #[trigger] r@[i] == (coord_of(i), &self@[i]),
    {
        let mut out: Vec<(BlockCoord, &T)> = Vec::new();
        let mut i: usize = 0;
        while i < CHUNK_VOLUME
            invariant
                self.wf(),
                i <= CHUNK_VOLUME,
                out@.len() == i,
                forall|j: int| 0 <= j < i ==> #[trigger] out@[j] == (coord_of(j), &self@[j]),
            decreases CHUNK_VOLUME - i,
        {
            out.push((coord_at(i), &self.cells[i]));
            i = i + 1;
        }
        out
    }

    /// A new cube whose cell at each position is `f` of that position and the
    /// value held there.
    pub fn map<O, F: Fn(BlockCoord, &T) -> O>(&self, f: F) -> (r: ChunkArray<O>)
        requires
            self.wf(),
            forall|i: int| 0 <= i < CHUNK_VOLUME ==> #[trigger] f.requires((coord_of(i), &self@[i])),
        ensures
            r.wf(),
            forall|i: int| 0 <= i < CHUNK_VOLUME ==> f.ensures((coord_of(i), &self@[i]), #[trigger] r@[i]),
    {
        let mut out: Vec<O> = Vec::new();
        let mut i: usize = 0;
        while i < CHUNK_VOLUME
            invariant
                self.wf(),
                i <= CHUNK_VOLUME,
                out@.len() == i,
                forall|j: int| 0 <= j < CHUNK_VOLUME ==> #[trigger] f.requires((coord_of(j), &self@[j])),
                forall|j: int| 0 <= j < i ==> f.ensures((coord_of(j), &self@[j]), #[trigger] out@[j]),
            decreases CHUNK_VOLUME - i,
        {
            let v = f(coord_at(i), &self.cells[i]);
            out.push(v);
            i = i + 1;
        }
        ChunkArray { cells: out }
    }
}

impl<T: Default> ChunkArray<T> {
    /// A cube with the type's default value in every cell.
    pub fn new() -> (r: Self)
        ensures
            r.wf(),
            forall|i: int| 0 <= i < CHUNK_VOLUME ==> call_ensures(T::default, (), #[trigger] r@[i]),
    {
        let mut out: Vec<T> = Vec::new();
        let mut i: usize = 0;
        while i < CHUNK_VOLUME
            invariant
                i <= CHUNK_VOLUME,
                out@.len() == i,
                forall|j: int| 0 <= j < i ==> call_ensures(T::default, (), #[trigger] out@[j]),
            decreases CHUNK_VOLUME - i,
        {
            out.push(T::default());
            i = i + 1;
        }
        ChunkArray { cells: out }
    }
}

} // verus!
