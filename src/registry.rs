use vstd::prelude::*;
use crate::grid::{VoxelGrid, in_padded, linear_index};
use crate::voxel::VoxelType;

verus! {

/// Position of a chunk in chunk units; its padded cell `(0, 0, 0)` lies at world `32 * coord`.
pub type ChunkCoordinate = [i32; 3];

/// One stored chunk.
pub struct ChunkEntry {
    pub coord: ChunkCoordinate,
    pub grid: VoxelGrid,
}

/// The store of every generated chunk, keyed by chunk coordinate.
pub struct ChunkRegistry {
    entries: Vec<ChunkEntry>,
}

impl ChunkRegistry {
    /// Coordinates of the stored chunks, in storage order.
    pub closed spec fn coords(&self) -> Seq<ChunkCoordinate> {
        self.entries@.map_values(|e: ChunkEntry| e.coord)
    }

    /// Cells of the stored chunks, in storage order.
    pub closed spec fn grids(&self) -> Seq<Seq<VoxelType>> {
        self.entries@.map_values(|e: ChunkEntry| e.grid@)
    }

    /// Each coordinate is stored once and each grid has its full size.
    pub open spec fn wf(&self) -> bool {
        &&& self.coords().len() == self.grids().len()
        &&& forall|k: int| 0 <= k < self.grids().len() ==> #[trigger] self.grids()[k].len() == 39304
        &&& forall|j: int, k: int|
            0 <= j < k < self.coords().len() ==> self.coords()[j] != self.coords()[k]
    }

    /// Some stored chunk has coordinate `c`.
    pub open spec fn contains(&self, c: ChunkCoordinate) -> bool {
        exists|k: int| 0 <= k < self.coords().len() && self.coords()[k] == c
    }

    /// A store with no chunk.
    pub fn new() -> (r: ChunkRegistry)
        ensures
            r.wf(),
            r.coords().len() == 0,
    {
        let r = ChunkRegistry { entries: Vec::new() };
        assert(r.coords() =~= Seq::empty());
        assert(r.grids() =~= Seq::empty());
        r
    }

    /// The number of stored chunks.
    pub fn len(&self) -> (r: usize)
        ensures
            r == self.coords().len(),
            r == self.grids().len(),
    {
        self.entries.len()
    }

    /// The coordinate of the chunk in slot `k`.
    pub fn coord(&self, k: usize) -> (r: ChunkCoordinate)
        requires
            k < self.coords().len(),
        ensures
            r == self.coords()[k as int],
    {
        self.entries[k].coord
    }

    /// The cells of the chunk in slot `k`.
    pub fn grid(&self, k: usize) -> (r: &VoxelGrid)
        requires
            self.wf(),
            k < self.coords().len(),
        ensures
            r@ == self.grids()[k as int],
            r.wf(),
    {
        &self.entries[k].grid
    }

    /// The storage slot of a coordinate, if it is stored.
    pub fn find(&self, c: ChunkCoordinate) -> (r: Option<usize>)
        requires
            self.wf(),
        ensures
            r.is_none() <==> !self.contains(c),
            r.is_some() ==> r.unwrap() < self.coords().len() && self.coords()[r.unwrap() as int] == c,
    {
        let mut k: usize = 0;
        while k < self.entries.len()
            invariant
                k <= self.entries@.len(),
                self.coords().len() == self.entries@.len(),
                forall|j: int| 0 <= j < k ==> self.coords()[j] != c,
            decreases self.entries@.len() - k,
        {
            let e = &self.entries[k];
            if e.coord[0] == c[0] && e.coord[1] == c[1] && e.coord[2] == c[2] {
                assert(self.coords()[k as int] =~= c);
                return Some(k);
            }
            assert(self.coords()[k as int] != c);
            k = k + 1;
        }
        None
    }

    /// Stores a chunk under a coordinate that is not stored yet.
    pub fn insert(&mut self, c: ChunkCoordinate, grid: VoxelGrid)
        requires
            old(self).wf(),
            !old(self).contains(c),
            grid.wf(),
        ensures
            final(self).wf(),
            final(self).coords() == old(self).coords().push(c),
            final(self).grids() == old(self).grids().push(grid@),
    {
        let ghost g = grid@;
        self.entries.push(ChunkEntry { coord: c, grid });
        assert(self.coords() =~= old(self).coords().push(c));
        assert(self.grids() =~= old(self).grids().push(g));
        assert forall|j: int, k: int| 0 <= j < k < self.coords().len() implies self.coords()[j]
            != self.coords()[k] by {
            if k == self.coords().len() - 1 {
                assert(old(self).coords()[j] == self.coords()[j]);
            }
        }
    }

    /// Overwrites one cell of a stored chunk.
    pub fn set_voxel(&mut self, k: usize, p: [u32; 3], t: VoxelType)
        requires
            old(self).wf(),
            k < old(self).coords().len(),
            in_padded(p),
        ensures
            final(self).wf(),
            final(self).coords() == old(self).coords(),
            final(self).grids() == old(self).grids().update(
                k as int,
                old(self).grids()[k as int].update(linear_index(p), t),
            ),
    {
        assert(self.grids()[k as int] == self.entries@[k as int].grid@);
        assert(self.grids()[k as int].len() == 39304);
        self.entries[k].grid.set(p, t);
        assert(self.coords() =~= old(self).coords());
        assert(self.grids() =~= old(self).grids().update(
            k as int,
            old(self).grids()[k as int].update(linear_index(p), t),
        ));
        assert forall|j: int| 0 <= j < self.grids().len() implies #[trigger] self.grids()[j].len()
            == 39304 by {
            if j != k {
                assert(self.grids()[j] == old(self).grids()[j]);
            }
        }
    }
}

} // verus!
