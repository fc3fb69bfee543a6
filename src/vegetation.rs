use vstd::prelude::*;
use vstd::arithmetic::div_mod::lemma_fundamental_div_mod_converse;
use crate::grid::linear_index;
use crate::registry::{ChunkCoordinate, ChunkRegistry};
use crate::voxel::VoxelType;

verus! {

/// The two tree shapes.
#[derive(Clone, Copy, PartialEq, Eq, Debug, Structural)]
pub enum TreeShape {
    /// A three-voxel trunk under a 3 by 3 layer of leaves and a single leaf on top.
    Small,
    /// A five-voxel trunk through leaf layers of 3 by 3, 5 by 5 and 3 by 3, and a leaf on top.
    Tall,
}

/// `n` by `n` leaves at height `y` around the trunk, x-major.
pub open spec fn leaf_square(n: int, y: int) -> Seq<([i64; 3], VoxelType)> {
    Seq::new(
        (n * n) as nat,
        |k: int| ([(k / n - n / 2) as i64, y as i64, (k % n - n / 2) as i64], VoxelType::OakLeaves),
    )
}

/// Two 3 by 3 leaf layers at heights 3 and 5, x-major, the two heights taken in turn.
pub open spec fn leaf_pair_layers() -> Seq<([i64; 3], VoxelType)> {
    Seq::new(
        18,
        |k: int| ([((k / 2) / 3 - 1) as i64, if k % 2 == 0 { 3i64 } else { 5i64 }, ((k / 2) % 3 - 1) as i64], VoxelType::OakLeaves),
    )
}

/// A trunk of `h` logs from the origin up.
pub open spec fn trunk(h: int) -> Seq<([i64; 3], VoxelType)> {
    Seq::new(h as nat, |k: int| ([0i64, k as i64, 0i64], VoxelType::OakLog))
}

/// The voxels of a tree relative to its origin, in the order they are written; a later write
/// to the same cell wins.
pub open spec fn tree_blocks(shape: TreeShape) -> Seq<([i64; 3], VoxelType)> {
    match shape {
        TreeShape::Small => seq![([0i64, 4i64, 0i64], VoxelType::OakLeaves)] + leaf_square(3, 3) + trunk(3),
        TreeShape::Tall => seq![([0i64, 6i64, 0i64], VoxelType::OakLeaves)] + leaf_pair_layers() + leaf_square(5, 4)
            + trunk(5),
    }
}

/// The chunk whose own cells hold world cell `w`: `floor(w / 32)` on each axis.
pub open spec fn owner_chunk(w: [int; 3]) -> [int; 3] {
    [w[0] / 32, w[1] / 32, w[2] / 32]
}

/// The padded cell of world cell `w` in the chunk that owns it: local cell `w - 32 * owner`, in
/// `0..32`, stored at padded `w - 32 * owner + 1`.
pub open spec fn owner_cell(w: [int; 3]) -> [u32; 3] {
    let o = owner_chunk(w);
    [(w[0] - 32 * o[0] + 1) as u32, (w[1] - 32 * o[1] + 1) as u32, (w[2] - 32 * o[2] + 1) as u32]
}

/// Chunk coordinate `c` equals `o`.
pub open spec fn holds_coord(c: ChunkCoordinate, o: [int; 3]) -> bool {
    c[0] == o[0] && c[1] == o[1] && c[2] == o[2]
}

/// The chunks' cells after writing `t` at world cell `w` into the chunk that owns it, if stored.
pub open spec fn place_voxel(coords: Seq<ChunkCoordinate>, grids: Seq<Seq<VoxelType>>, w: [int; 3], t: VoxelType) -> Seq<Seq<VoxelType>> {
    if exists|k: int| 0 <= k < coords.len() && holds_coord(coords[k], owner_chunk(w)) {
        let k = choose|k: int| 0 <= k < coords.len() && holds_coord(coords[k], owner_chunk(w));
        grids.update(k, grids[k].update(linear_index(owner_cell(w)), t))
    } else {
        grids
    }
}

/// The chunks' cells after writing `blocks`, placed at `origin`, one after another.
pub open spec fn place_all(coords: Seq<ChunkCoordinate>, grids: Seq<Seq<VoxelType>>, origin: [i64; 3], blocks: Seq<([i64; 3], VoxelType)>) -> Seq<Seq<VoxelType>>
    decreases blocks.len(),
{
    if blocks.len() == 0 {
        grids
    } else {
        let b = blocks.last();
        place_voxel(
            coords,
            place_all(coords, grids, origin, blocks.drop_last()),
            [origin[0] + b.0[0], origin[1] + b.0[1], origin[2] + b.0[2]],
            b.1,
        )
    }
}

/// Rounds `a / 32` down.
fn floor_div32(a: i128) -> (r: i128)
    requires
        -0x1_0000_0000_0000_0000 <= a <= 0x1_0000_0000_0000_0000,
    ensures
        r == a / 32,
{
    if a >= 0 {
        a / 32
    } else {
        let q = (-a + 31) / 32;
        assert(-q == a / 32) by (nonlinear_arith)
            requires
                a < 0,
                q == (-a + 31) / 32,
        ;
        -q
    }
}

/// Writes `voxel_type` at world cell `world_point` into the stored chunk whose interior holds it.
/// Returns whether that chunk is stored; when it is not, nothing changes. World cells are those of
/// `crate::terrain::world_cell`: the owner of `w` is chunk `floor(w / 32)`, and the cell is its
/// local cell `w - 32 * owner`, stored at padded cell `w - 32 * owner + 1`.
pub fn change_voxel(world_point: [i64; 3], voxel_type: VoxelType, chunks: &mut ChunkRegistry) -> (r: bool)
    requires
        old(chunks).wf(),
    ensures
        final(chunks).wf(),
        final(chunks).coords() == old(chunks).coords(),
        final(chunks).grids() == place_voxel(
            old(chunks).coords(),
            old(chunks).grids(),
            [world_point[0] as int, world_point[1] as int, world_point[2] as int],
            voxel_type,
        ),
        r == exists|k: int| 0 <= k < old(chunks).coords().len() && holds_coord(
            old(chunks).coords()[k],
            owner_chunk([world_point[0] as int, world_point[1] as int, world_point[2] as int]),
        ),
{
    let ghost w = [world_point[0] as int, world_point[1] as int, world_point[2] as int];
    let o0 = floor_div32(world_point[0] as i128);
    let o1 = floor_div32(world_point[1] as i128);
    let o2 = floor_div32(world_point[2] as i128);
    assert(owner_chunk(w) == [o0 as int, o1 as int, o2 as int]);
    let lo: i128 = -0x8000_0000;
    let hi: i128 = 0x7fff_ffff;
    if o0 < lo || o0 > hi || o1 < lo || o1 > hi || o2 < lo || o2 > hi {
        return false;
    }
    let c: ChunkCoordinate = [o0 as i32, o1 as i32, o2 as i32];
    match chunks.find(c) {
        None => {
            proof {
                if exists|k: int| 0 <= k < chunks.coords().len() && holds_coord(chunks.coords()[k], owner_chunk(w)) {
                    let k = choose|k: int| 0 <= k < chunks.coords().len() && holds_coord(chunks.coords()[k], owner_chunk(w));
                    assert(chunks.coords()[k] =~= c);
                }
            }
            false
        },
        Some(k) => {
            let p: [u32; 3] = [
                (world_point[0] as i128 - 32 * o0 + 1) as u32,
                (world_point[1] as i128 - 32 * o1 + 1) as u32,
                (world_point[2] as i128 - 32 * o2 + 1) as u32,
            ];
            assert(p == owner_cell(w));
            proof {
                let kk = choose|kk: int| 0 <= kk < chunks.coords().len() && holds_coord(chunks.coords()[kk], owner_chunk(w));
                assert(holds_coord(chunks.coords()[k as int], owner_chunk(w)));
                if kk != k {
                    assert(chunks.coords()[kk] =~= chunks.coords()[k as int]);
                }
            }
            chunks.set_voxel(k, p, voxel_type);
            true
        },
    }
}

fn push_leaf_square(blocks: &mut Vec<([i64; 3], VoxelType)>, n: i64, y: i64)
    requires
        n == 3 || n == 5,
        y == 3 || y == 4,
    ensures
        final(blocks)@ == old(blocks)@ + leaf_square(n as int, y as int),
{
    let ghost start = blocks@;
    let half = n / 2;
    let mut x: i64 = 0;
    while x < n
        invariant
            n == 3 || n == 5,
            half == n / 2,
            0 <= x <= n,
            blocks@ == start + leaf_square(n as int, y as int).take(x * n),
        decreases n - x,
    {
        let mut z: i64 = 0;
        while z < n
            invariant
                n == 3 || n == 5,
                half == n / 2,
                0 <= x < n,
                0 <= z <= n,
                blocks@ == start + leaf_square(n as int, y as int).take(x * n + z),
            decreases n - z,
        {
            proof {
                lemma_fundamental_div_mod_converse(x * n + z, n as int, x as int, z as int);
            }
            let e = ([x - half, y, z - half], VoxelType::OakLeaves);
            blocks.push(e);
            assert(leaf_square(n as int, y as int).take(x * n + z + 1) =~= leaf_square(n as int, y as int).take(x * n + z).push(e));
            z = z + 1;
        }
        assert(x * n + n == (x + 1) * n) by (nonlinear_arith);
        x = x + 1;
    }
    assert(leaf_square(n as int, y as int).take(n * n) =~= leaf_square(n as int, y as int));
}

fn push_leaf_pair_layers(blocks: &mut Vec<([i64; 3], VoxelType)>)
    ensures
        final(blocks)@ == old(blocks)@ + leaf_pair_layers(),
{
    let ghost start = blocks@;
    let mut x: i64 = 0;
    while x < 3
        invariant
            0 <= x <= 3,
            blocks@ == start + leaf_pair_layers().take(6 * x),
        decreases 3 - x,
    {
        let mut z: i64 = 0;
        while z < 3
            invariant
                0 <= x < 3,
                0 <= z <= 3,
                blocks@ == start + leaf_pair_layers().take(6 * x + 2 * z),
            decreases 3 - z,
        {
            let k = 6 * x + 2 * z;
            proof {
                lemma_fundamental_div_mod_converse(k as int, 2, 3 * x + z, 0);
                lemma_fundamental_div_mod_converse(k + 1, 2, 3 * x + z, 1);
                lemma_fundamental_div_mod_converse(3 * x + z, 3, x as int, z as int);
            }
            let low = ([x - 1, 3, z - 1], VoxelType::OakLeaves);
            let high = ([x - 1, 5, z - 1], VoxelType::OakLeaves);
            blocks.push(low);
            blocks.push(high);
            assert(leaf_pair_layers().take(k + 2) =~= leaf_pair_layers().take(k as int).push(low).push(high));
            z = z + 1;
        }
        x = x + 1;
    }
    assert(leaf_pair_layers().take(18) =~= leaf_pair_layers());
}

fn push_trunk(blocks: &mut Vec<([i64; 3], VoxelType)>, h: i64)
    requires
        0 <= h <= 8,
    ensures
        final(blocks)@ == old(blocks)@ + trunk(h as int),
{
    let ghost start = blocks@;
    let mut k: i64 = 0;
    while k < h
        invariant
            0 <= k <= h,
            blocks@ == start + trunk(h as int).take(k as int),
        decreases h - k,
    {
        let e = ([0, k, 0], VoxelType::OakLog);
        blocks.push(e);
        assert(trunk(h as int).take(k + 1) =~= trunk(h as int).take(k as int).push(e));
        k = k + 1;
    }
    assert(trunk(h as int).take(h as int) =~= trunk(h as int));
}

/// The voxels of a tree of the given shape, relative to its origin, in writing order.
pub fn tree_voxels(shape: TreeShape) -> (r: Vec<([i64; 3], VoxelType)>)
    ensures
        r@ == tree_blocks(shape),
{
    let mut blocks: Vec<([i64; 3], VoxelType)> = Vec::new();
    match shape {
        TreeShape::Small => {
            blocks.push(([0, 4, 0], VoxelType::OakLeaves));
            push_leaf_square(&mut blocks, 3, 3);
            push_trunk(&mut blocks, 3);
        },
        TreeShape::Tall => {
            blocks.push(([0, 6, 0], VoxelType::OakLeaves));
            push_leaf_pair_layers(&mut blocks);
            push_leaf_square(&mut blocks, 5, 4);
            push_trunk(&mut blocks, 5);
        },
    }
    assert(blocks@ =~= tree_blocks(shape));
    blocks
}

/// Stamps a tree with its trunk's foot at `origin`, each voxel written into the stored chunk
/// that owns its cell; voxels whose chunk is not stored are dropped.
pub fn generate_tree(origin: [i64; 3], shape: TreeShape, chunks: &mut ChunkRegistry)
    requires
        old(chunks).wf(),
        -0x4000_0000_0000_0000 <= origin[0] <= 0x4000_0000_0000_0000,
        -0x4000_0000_0000_0000 <= origin[1] <= 0x4000_0000_0000_0000,
        -0x4000_0000_0000_0000 <= origin[2] <= 0x4000_0000_0000_0000,
    ensures
        final(chunks).wf(),
        final(chunks).coords() == old(chunks).coords(),
        final(chunks).grids() == place_all(old(chunks).coords(), old(chunks).grids(), origin, tree_blocks(shape)),
{
    let ghost coords = chunks.coords();
    let ghost grids0 = chunks.grids();
    let blocks = tree_voxels(shape);
    let mut i: usize = 0;
    while i < blocks.len()
        invariant
            chunks.wf(),
            chunks.coords() == coords,
            blocks@ == tree_blocks(shape),
            forall|j: int| 0 <= j < blocks@.len() ==> -8 <= (#[trigger] blocks@[j]).0[0] <= 8 && -8 <= blocks@[j].0[1] <= 8
                && -8 <= blocks@[j].0[2] <= 8,
            -0x4000_0000_0000_0000 <= origin[0] <= 0x4000_0000_0000_0000,
            -0x4000_0000_0000_0000 <= origin[1] <= 0x4000_0000_0000_0000,
            -0x4000_0000_0000_0000 <= origin[2] <= 0x4000_0000_0000_0000,
            i <= blocks@.len(),
            chunks.grids() == place_all(coords, grids0, origin, blocks@.take(i as int)),
        decreases blocks@.len() - i,
    {
        let b = blocks[i];
        let w: [i64; 3] = [origin[0] + b.0[0], origin[1] + b.0[1], origin[2] + b.0[2]];
        change_voxel(w, b.1, chunks);
        assert(blocks@.take(i + 1).drop_last() =~= blocks@.take(i as int));
        assert([w[0] as int, w[1] as int, w[2] as int] =~= [origin[0] + b.0[0], origin[1] + b.0[1], origin[2] + b.0[2]]);
        i = i + 1;
    }
    assert(blocks@.take(blocks@.len() as int) =~= blocks@);
}

} // verus!
