use vstd::prelude::*;
use crate::grid::{VoxelGrid, CHUNK_SIZE, GRID_SIZE, coord_of, delinearize, valid_index};
use crate::registry::{ChunkCoordinate, ChunkRegistry};
use crate::voxel::{MaterialVoxel, VoxelType};

verus! {

/// Surface class of a terrain column, read off the biome field.
#[derive(Clone, Copy, PartialEq, Eq, Debug, Structural)]
pub enum Biome {
    Dirt,
    Grass,
    Stone,
}

/// What the height and biome fields give for one world column.
#[derive(Clone, Copy, PartialEq, Eq, Debug, Structural)]
pub struct ColumnSample {
    /// The rounded terrain height: the world y of the surface voxel.
    pub height: i64,
    pub biome: Biome,
}

/// Samples of the height and biome fields over a rectangle of world columns.
pub struct TerrainField {
    min_x: i64,
    min_z: i64,
    width: u32,
    depth: u32,
    columns: Vec<ColumnSample>,
}

/// The voxel type of a column's surface voxel.
pub open spec fn surface_type(b: Biome) -> VoxelType {
    match b {
        Biome::Dirt => VoxelType::Dirt,
        Biome::Grass => VoxelType::Grass,
        Biome::Stone => VoxelType::Stone,
    }
}

/// The voxel at world height `y` of a column: the surface voxel at its height, sand below it,
/// nothing above it.
pub open spec fn terrain_voxel(col: ColumnSample, y: int) -> VoxelType {
    if y == col.height {
        surface_type(col.biome)
    } else if y < col.height {
        VoxelType::Sand
    } else {
        VoxelType::Empty
    }
}

/// World coordinates of a chunk's padded cell, in the frame of generation and tree stamping:
/// the chunk's local cell `x` (`0..32`) lies at world `32 * c + x` and is stored at padded cell
/// `x + 1`, so padded cell `p` lies at world `32 * c + p - 1` and the halo repeats the
/// neighbouring chunks' boundary cells. Edits locate their cell differently (see
/// `crate::edit::local_cell`): there the padded cell is `world cell - 32 * c`, one cell off from
/// this frame on every axis.
pub open spec fn world_cell(c: ChunkCoordinate, i: int) -> [int; 3] {
    [
        32 * c[0] + coord_of(i)[0] - 1,
        32 * c[1] + coord_of(i)[1] - 1,
        32 * c[2] + coord_of(i)[2] - 1,
    ]
}

impl TerrainField {
    /// The sample of column `(x, z)`, if the field covers it.
    pub closed spec fn column_at(&self, x: int, z: int) -> Option<ColumnSample> {
        if self.min_x <= x < self.min_x + self.width && self.min_z <= z < self.min_z + self.depth {
            Some(self.columns@[(x - self.min_x) + self.width * (z - self.min_z)])
        } else {
            None
        }
    }

    /// One sample per column of the rectangle.
    pub closed spec fn wf(&self) -> bool {
        self.columns@.len() == self.width * self.depth
    }

    /// The cells of a chunk filled from the fields.
    pub open spec fn terrain_grid(&self, c: ChunkCoordinate) -> Seq<VoxelType> {
        Seq::new(
            39304,
            |i: int|
                terrain_voxel(
                    self.column_at(world_cell(c, i)[0], world_cell(c, i)[2]).unwrap(),
                    world_cell(c, i)[1],
                ),
        )
    }

    /// Every column that a chunk's padded cells stand on is sampled.
    pub open spec fn covers_chunk(&self, c: ChunkCoordinate) -> bool {
        forall|i: int|
            valid_index(i) ==> (#[trigger] self.column_at(world_cell(c, i)[0], world_cell(c, i)[2])).is_some()
    }

    /// A field over the columns `min_x .. min_x + width` by `min_z .. min_z + depth`, given
    /// with x varying fastest; `None` unless there are `width * depth` samples.
    pub fn new(min_x: i64, min_z: i64, width: u32, depth: u32, columns: Vec<ColumnSample>) -> (r:
        Option<TerrainField>)
        ensures
            r.is_some() <==> columns@.len() == width * depth,
            r.is_some() ==> r.unwrap().wf() && forall|dx: int, dz: int|
                0 <= dx < width && 0 <= dz < depth ==> #[trigger] r.unwrap().column_at(min_x + dx, min_z + dz)
                    == Some(columns@[dx + width * dz]),
            r.is_some() ==> forall|x: int, z: int|
                !(min_x <= x < min_x + width && min_z <= z < min_z + depth) ==> #[trigger] r.unwrap().column_at(x, z)
                    is None,
    {
        assert((width as u64) * (depth as u64) <= 0xffff_ffff * 0xffff_ffffu64) by (nonlinear_arith)
            requires
                width <= 0xffff_ffff,
                depth <= 0xffff_ffff,
        ;
        if (width as u64) * (depth as u64) == columns.len() as u64 {
            Some(TerrainField { min_x, min_z, width, depth, columns })
        } else {
            None
        }
    }

    /// The sample of a column, if the field has it.
    pub fn column(&self, x: i64, z: i64) -> (r: Option<ColumnSample>)
        requires
            self.wf(),
        ensures
            r == self.column_at(x as int, z as int),
    {
        let dx: i128 = x as i128 - self.min_x as i128;
        let dz: i128 = z as i128 - self.min_z as i128;
        if 0 <= dx && dx < self.width as i128 && 0 <= dz && dz < self.depth as i128 {
            let w = self.width as i128;
            assert(dx + w * dz < w * self.depth) by (nonlinear_arith)
                requires
                    0 <= dx < w,
                    0 <= dz < self.depth,
            ;
            assert(0 <= w * dz <= 0xffff_ffff * 0xffff_ffff) by (nonlinear_arith)
                requires
                    0 <= w <= 0xffff_ffff,
                    0 <= dz <= 0xffff_ffff,
            ;
            assert(self.columns@.len() == w * self.depth);
            let n = self.columns.len();
            assert(dx + w * dz < n);
            let idx = (dx + w * dz) as usize;
            Some(self.columns[idx])
        } else {
            None
        }
    }
}

/// Fills one chunk from the terrain fields: every padded cell gets the terrain voxel of its
/// world position. `None` when a column under one of its cells is not sampled.
pub fn generate_chunk(field: &TerrainField, c: ChunkCoordinate) -> (r: Option<VoxelGrid>)
    requires
        field.wf(),
    ensures
        r.is_some() <==> field.covers_chunk(c),
        r.is_some() ==> r.unwrap().wf() && r.unwrap()@ == field.terrain_grid(c),
        r.is_some() ==> forall|i: int|
            valid_index(i) ==> (#[trigger] r.unwrap()@[i] == VoxelType::Empty <==> world_cell(c, i)[1]
                > field.column_at(world_cell(c, i)[0], world_cell(c, i)[2]).unwrap().height),
        r.is_some() ==> forall|i: int|
            valid_index(i) ==> #[trigger] r.unwrap()@[i] == terrain_voxel(
                field.column_at(world_cell(c, i)[0], world_cell(c, i)[2]).unwrap(),
                world_cell(c, i)[1],
            ),
{
    let mut samples: Vec<MaterialVoxel> = Vec::new();
    let base_x: i64 = CHUNK_SIZE * c[0] as i64 - 1;
    let base_y: i64 = CHUNK_SIZE * c[1] as i64 - 1;
    let base_z: i64 = CHUNK_SIZE * c[2] as i64 - 1;
    let mut i: u32 = 0;
    while i < GRID_SIZE
        invariant
            field.wf(),
            i <= GRID_SIZE,
            base_x == 32 * c[0] - 1,
            base_y == 32 * c[1] - 1,
            base_z == 32 * c[2] - 1,
            samples@.len() == i,
            forall|k: int| 0 <= k < i ==> (#[trigger] field.column_at(world_cell(c, k)[0], world_cell(c, k)[2])).is_some(),
            forall|k: int|
                0 <= k < i ==> #[trigger] samples@[k].0 == terrain_voxel(
                    field.column_at(world_cell(c, k)[0], world_cell(c, k)[2]).unwrap(),
                    world_cell(c, k)[1],
                ),
        decreases GRID_SIZE - i,
    {
        let p = delinearize(i);
        let x = base_x + p[0] as i64;
        let y = base_y + p[1] as i64;
        let z = base_z + p[2] as i64;
        match field.column(x, z) {
            None => {
                assert(!field.column_at(world_cell(c, i as int)[0], world_cell(c, i as int)[2]).is_some());
                return None;
            },
            Some(col) => {
                let t = if y == col.height {
                    match col.biome {
                        Biome::Dirt => VoxelType::Dirt,
                        Biome::Grass => VoxelType::Grass,
                        Biome::Stone => VoxelType::Stone,
                    }
                } else if y < col.height {
                    VoxelType::Sand
                } else {
                    VoxelType::Empty
                };
                samples.push(MaterialVoxel(t));
            },
        }
        i = i + 1;
    }
    let g = VoxelGrid::from_samples(samples);
    assert(g.is_some());
    assert forall|i: int| valid_index(i) implies #[trigger] g.unwrap()@[i] == terrain_voxel(
        field.column_at(world_cell(c, i)[0], world_cell(c, i)[2]).unwrap(),
        world_cell(c, i)[1],
    ) by {
        assert(samples@[i].0 == terrain_voxel(
            field.column_at(world_cell(c, i)[0], world_cell(c, i)[2]).unwrap(),
            world_cell(c, i)[1],
        ));
    }
    assert(g.unwrap()@ =~= field.terrain_grid(c));
    g
}

/// The cells of the given chunks, each filled from the fields.
pub open spec fn terrain_grids(field: &TerrainField, coords: Seq<ChunkCoordinate>) -> Seq<Seq<VoxelType>> {
    coords.map_values(|c: ChunkCoordinate| field.terrain_grid(c))
}

/// The chunks within `r` chunks of the origin on every axis.
pub open spec fn in_window(c: ChunkCoordinate, r: int) -> bool {
    -r <= c[0] <= r && -r <= c[1] <= r && -r <= c[2] <= r
}

/// `c` comes before `(x, y, z)` in x-major order.
spec fn lex_before(c: ChunkCoordinate, x: int, y: int, z: int) -> bool {
    c[0] < x || (c[0] == x && (c[1] < y || (c[1] == y && c[2] < z)))
}

spec fn terrain_stored_upto(
    reg: &ChunkRegistry,
    field: &TerrainField,
    r: int,
    x: int,
    y: int,
    z: int,
) -> bool {
    &&& reg.wf()
    &&& forall|k: int|
        0 <= k < reg.coords().len() ==> in_window(#[trigger] reg.coords()[k], r) && lex_before(
            reg.coords()[k],
            x,
            y,
            z,
        ) && reg.grids()[k] == field.terrain_grid(reg.coords()[k])
    &&& forall|c: ChunkCoordinate| in_window(c, r) && lex_before(c, x, y, z) ==> #[trigger] reg.contains(c)
    &&& forall|c: ChunkCoordinate| in_window(c, r) && lex_before(c, x, y, z) ==> #[trigger] field.covers_chunk(c)
}

/// Fills every chunk within `radius` chunks of the origin on every axis. `None` when the
/// field lacks a column under one of them.
pub fn generate_terrain(field: &TerrainField, radius: u32) -> (r: Option<ChunkRegistry>)
    requires
        field.wf(),
        radius <= 0x7fff_ffff,
    ensures
        r.is_some() <==> forall|c: ChunkCoordinate| in_window(c, radius as int) ==> #[trigger] field.covers_chunk(c),
        r.is_some() ==> r.unwrap().wf(),
        r.is_some() ==> forall|k: int|
            0 <= k < r.unwrap().coords().len() ==> in_window(#[trigger] r.unwrap().coords()[k], radius as int)
                && r.unwrap().grids()[k] == field.terrain_grid(r.unwrap().coords()[k]),
        r.is_some() ==> forall|c: ChunkCoordinate| in_window(c, radius as int) ==> #[trigger] r.unwrap().contains(c),
{
    let ghost rr = radius as int;
    let lo: i64 = -(radius as i64);
    let hi: i64 = radius as i64;
    let mut reg = ChunkRegistry::new();
    let mut x: i64 = lo;
    while x <= hi
        invariant
            field.wf(),
            lo == -rr,
            hi == rr,
            0 <= rr <= 0x7fff_ffff,
            rr == radius as int,
            lo <= x <= hi + 1,
            terrain_stored_upto(&reg, field, rr, x as int, -rr, -rr),
        decreases hi + 1 - x,
    {
        let mut y: i64 = lo;
        while y <= hi
            invariant
                field.wf(),
                lo == -rr,
                hi == rr,
                0 <= rr <= 0x7fff_ffff,
                rr == radius as int,
                lo <= x <= hi,
                lo <= y <= hi + 1,
                terrain_stored_upto(&reg, field, rr, x as int, y as int, -rr),
            decreases hi + 1 - y,
        {
            let mut z: i64 = lo;
            while z <= hi
                invariant
                    field.wf(),
                    lo == -rr,
                    hi == rr,
                    0 <= rr <= 0x7fff_ffff,
                    rr == radius as int,
                    lo <= x <= hi,
                    lo <= y <= hi,
                    lo <= z <= hi + 1,
                    terrain_stored_upto(&reg, field, rr, x as int, y as int, z as int),
                decreases hi + 1 - z,
            {
                let c: ChunkCoordinate = [x as i32, y as i32, z as i32];
                match generate_chunk(field, c) {
                    None => {
                        assert(in_window(c, rr) && !field.covers_chunk(c));
                        proof {
                            if forall|cc: ChunkCoordinate| in_window(cc, radius as int) ==> #[trigger] field.covers_chunk(cc) {
                                assert(in_window(c, radius as int));
                                assert(field.covers_chunk(c));
                            }
                        }
                        return None;
                    },
                    Some(g) => {
                        let ghost old_reg = reg;
                        proof {
                            if reg.contains(c) {
                                let k = choose|k: int| 0 <= k < reg.coords().len() && reg.coords()[k] == c;
                                assert(lex_before(reg.coords()[k], x as int, y as int, z as int));
                            }
                        }
                        reg.insert(c, g);
                        assert forall|cc: ChunkCoordinate|
                            in_window(cc, rr) && lex_before(cc, x as int, y as int, z + 1) implies
                            reg.contains(cc) && field.covers_chunk(cc) by {
                            if cc[0] == x && cc[1] == y && cc[2] == z {
                                assert(cc =~= c);
                                assert(reg.coords()[reg.coords().len() - 1] == cc);
                            } else {
                                assert(lex_before(cc, x as int, y as int, z as int));
                                assert(old_reg.contains(cc));
                                let k = choose|k: int| 0 <= k < old_reg.coords().len() && old_reg.coords()[k] == cc;
                                assert(reg.coords()[k] == cc);
                            }
                        }
                        assert forall|k: int| 0 <= k < reg.coords().len() implies in_window(
                            #[trigger] reg.coords()[k],
                            rr,
                        ) && lex_before(reg.coords()[k], x as int, y as int, z + 1)
                            && reg.grids()[k] == field.terrain_grid(reg.coords()[k]) by {
                            if k < old_reg.coords().len() {
                                assert(reg.coords()[k] == old_reg.coords()[k]);
                                assert(reg.grids()[k] == old_reg.grids()[k]);
                            }
                        }
                    },
                }
                z = z + 1;
            }
            y = y + 1;
        }
        x = x + 1;
    }
    Some(reg)
}

/// A field that covers every chunk of the window of radius `r` spans the window's
/// `32 * (2r + 1)` columns and the halo on each side, so their count fits a `u32`.
pub proof fn lemma_covered_span(field: &TerrainField, r: int)
    requires
        0 <= r <= 0x7fff_ffff,
        forall|c: ChunkCoordinate| in_window(c, r) ==> #[trigger] field.covers_chunk(c),
    ensures
        32 * (2 * r + 1) + 2 <= 0xffff_ffff,
{
    let lo: ChunkCoordinate = [-r as i32, 0, 0];
    let hi: ChunkCoordinate = [r as i32, 0, 0];
    assert(in_window(lo, r) && in_window(hi, r));
    assert(field.covers_chunk(lo));
    assert(field.covers_chunk(hi));
    let i_hi = crate::grid::linear_index([33, 0, 0]);
    assert(coord_of(0) == [0u32, 0, 0]);
    assert(coord_of(i_hi) == [33u32, 0, 0]);
    assert(field.column_at(world_cell(lo, 0)[0], world_cell(lo, 0)[2]).is_some());
    assert(field.column_at(world_cell(hi, i_hi)[0], world_cell(hi, i_hi)[2]).is_some());
    assert(32 * (2 * r + 1) + 2 <= field.width);
}

/// In a freshly filled chunk a cell is empty exactly when its world height is above its column's
/// surface height.
pub proof fn lemma_terrain_fill(field: &TerrainField, c: ChunkCoordinate, i: int)
    requires
        valid_index(i),
        field.covers_chunk(c),
    ensures
        field.terrain_grid(c)[i] == VoxelType::Empty <==> world_cell(c, i)[1] > field.column_at(
            world_cell(c, i)[0],
            world_cell(c, i)[2],
        ).unwrap().height,
{
}

} // verus!
