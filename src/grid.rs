use vstd::prelude::*;
use crate::voxel::{MaterialVoxel, VoxelType, cells_of};

verus! {

/// Edge length of a chunk, in voxels.
pub const CHUNK_SIZE: i64 = 32;

/// Edge length of a chunk's storage: the chunk plus a one-voxel halo on each side.
pub const PADDED: u32 = 34;

/// Number of cells in a chunk's storage.
pub const GRID_SIZE: u32 = 39304;

/// Flat index of a padded coordinate: x varies fastest, then y, then z.
pub open spec fn linear_index(p: [u32; 3]) -> int {
    p[0] + 34 * p[1] + 1156 * p[2]
}

/// The padded coordinate stored at a flat index.
pub open spec fn coord_of(i: int) -> [u32; 3] {
    [(i % 34) as u32, ((i / 34) % 34) as u32, (i / 1156) as u32]
}

/// A coordinate inside the padded storage.
pub open spec fn in_padded(p: [u32; 3]) -> bool {
    p[0] < 34 && p[1] < 34 && p[2] < 34
}

/// A flat index inside the padded storage.
pub open spec fn valid_index(i: int) -> bool {
    0 <= i < 39304
}

/// The flat index of a padded coordinate.
pub fn linearize(p: [u32; 3]) -> (r: u32)
    requires
        in_padded(p),
    ensures
        r == linear_index(p),
        valid_index(r as int),
{
    p[0] + 34 * p[1] + 1156 * p[2]
}

/// The padded coordinate of a flat index.
pub fn delinearize(i: u32) -> (r: [u32; 3])
    requires
        valid_index(i as int),
    ensures
        r == coord_of(i as int),
        in_padded(r),
{
    let z = i / 1156;
    let rest = i - z * 1156;
    let y = rest / 34;
    let x = rest % 34;
    assert(rest == i % 1156);
    assert((i % 1156) / 34 == (i / 34) % 34) by (nonlinear_arith)
        requires i >= 0;
    assert((i % 1156) % 34 == i % 34) by (nonlinear_arith)
        requires i >= 0;
    [x, y, z]
}

/// Flattening a valid coordinate and reading it back gives the coordinate.
pub proof fn lemma_delinearize_linearize(p: [u32; 3])
    requires
        in_padded(p),
    ensures
        valid_index(linear_index(p)),
        coord_of(linear_index(p)) == p,
{
    let i = linear_index(p);
    let (x, y, z) = (p[0] as int, p[1] as int, p[2] as int);
    assert(i % 34 == x && (i / 34) % 34 == y && i / 1156 == z) by (nonlinear_arith)
        requires
            i == x + 34 * y + 1156 * z,
            0 <= x < 34,
            0 <= y < 34,
            0 <= z < 34,
    ;
    assert(coord_of(i) =~= p);
}

/// Reading a valid index as a coordinate and flattening it gives the index.
pub proof fn lemma_linearize_delinearize(i: int)
    requires
        valid_index(i),
    ensures
        in_padded(coord_of(i)),
        linear_index(coord_of(i)) == i,
{
    assert(i % 34 + 34 * ((i / 34) % 34) + 1156 * (i / 1156) == i && i / 1156 < 34) by (nonlinear_arith)
        requires
            0 <= i < 39304,
    ;
}

/// One chunk's cells, padded storage of `PADDED` cells per axis.
pub struct VoxelGrid {
    samples: Vec<MaterialVoxel>,
}

impl View for VoxelGrid {
    type V = Seq<VoxelType>;

    closed spec fn view(&self) -> Seq<VoxelType> {
        cells_of(self.samples@)
    }
}

impl VoxelGrid {
    /// The grid holds one cell per padded coordinate.
    pub open spec fn wf(&self) -> bool {
        self@.len() == 39304
    }

    /// A grid whose every cell holds `t`.
    pub fn filled(t: VoxelType) -> (r: VoxelGrid)
        ensures
            r.wf(),
            forall|i: int| 0 <= i < 39304 ==> r@[i] == t,
    {
        let mut samples: Vec<MaterialVoxel> = Vec::new();
        let mut i: u32 = 0;
        while i < GRID_SIZE
            invariant
                i <= GRID_SIZE,
                samples@.len() == i,
                forall|k: int| 0 <= k < i ==> samples@[k].0 == t,
            decreases GRID_SIZE - i,
        {
            samples.push(MaterialVoxel(t));
            i = i + 1;
        }
        VoxelGrid { samples }
    }

    /// A grid of `Empty` cells.
    pub fn new_empty() -> (r: VoxelGrid)
        ensures
            r.wf(),
            forall|i: int| 0 <= i < 39304 ==> r@[i] == VoxelType::Empty,
    {
        VoxelGrid::filled(VoxelType::Empty)
    }

    /// A grid from its cells in flat order; `None` unless there are exactly `GRID_SIZE` of them.
    pub fn from_samples(samples: Vec<MaterialVoxel>) -> (r: Option<VoxelGrid>)
        ensures
            samples@.len() == 39304 <==> r.is_some(),
            r.is_some() ==> r.unwrap().wf() && r.unwrap()@ == cells_of(samples@),
    {
        if samples.len() == GRID_SIZE as usize {
            Some(VoxelGrid { samples })
        } else {
            None
        }
    }

    /// The cells in flat order.
    pub fn samples(&self) -> (r: &Vec<MaterialVoxel>)
        ensures
            cells_of(r@) == self@,
    {
        &self.samples
    }

    /// The cell at a flat index.
    pub fn get_index(&self, i: u32) -> (r: VoxelType)
        requires
            self.wf(),
            valid_index(i as int),
        ensures
            r == self@[i as int],
    {
        self.samples[i as usize].0
    }

    /// The cell at a padded coordinate.
    pub fn get(&self, p: [u32; 3]) -> (r: VoxelType)
        requires
            self.wf(),
            in_padded(p),
        ensures
            r == self@[linear_index(p)],
    {
        let i = linearize(p);
        self.get_index(i)
    }

    /// Overwrites the cell at a flat index.
    pub fn set_index(&mut self, i: u32, t: VoxelType)
        requires
            old(self).wf(),
            valid_index(i as int),
        ensures
            final(self).wf(),
            final(self)@ == old(self)@.update(i as int, t),
    {
        self.samples.set(i as usize, MaterialVoxel(t));
        assert(self@ =~= old(self)@.update(i as int, t));
    }

    /// Overwrites the cell at a padded coordinate.
    pub fn set(&mut self, p: [u32; 3], t: VoxelType)
        requires
            old(self).wf(),
            in_padded(p),
        ensures
            final(self).wf(),
            final(self)@ == old(self)@.update(linear_index(p), t),
    {
        let i = linearize(p);
        self.set_index(i, t);
    }
}

} // verus!
