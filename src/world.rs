use vstd::prelude::*;
use crate::atlas::{Frame, TextureAtlas};
use crate::edit::ChunkUpdate;
use crate::mesher::{generate_simple_mesh, mesh_quads};
use crate::registry::{ChunkCoordinate, ChunkRegistry};
use crate::terrain::{TerrainField, generate_terrain, in_window, lemma_covered_span, terrain_grids};
use crate::grid::linear_index;
use crate::vegetation::{
    TreeShape, generate_tree, holds_coord, owner_cell, owner_chunk, place_all, place_voxel, tree_blocks,
};
use crate::voxel::VoxelType;

verus! {

/// The voxel types that trees are made of.
pub open spec fn is_tree_type(t: VoxelType) -> bool {
    t == VoxelType::OakLog || t == VoxelType::OakLeaves
}

/// Each cell of `after` holds what it held in `before`, or a tree voxel.
pub open spec fn only_trees_added(before: Seq<Seq<VoxelType>>, after: Seq<Seq<VoxelType>>) -> bool {
    &&& after.len() == before.len()
    &&& forall|k: int| 0 <= k < before.len() ==> (#[trigger] after[k]).len() == before[k].len()
    &&& forall|k: int, i: int|
        0 <= k < before.len() && 0 <= i < before[k].len() ==> #[trigger] after[k][i] == before[k][i]
            || is_tree_type(after[k][i])
}

/// `updates` reports, in storage order, every stored chunk whose mesh has a face, with that mesh.
pub open spec fn meshes_reported(
    coords: Seq<ChunkCoordinate>,
    grids: Seq<Seq<VoxelType>>,
    updates: Seq<ChunkUpdate>,
    frames: Seq<(Seq<char>, Frame)>,
) -> bool {
    let slots = meshed_slots(grids, coords.len() as int);
    &&& updates.len() == slots.len()
    &&& forall|i: int| 0 <= i < updates.len() ==> {
        let k = slots[i];
        &&& (#[trigger] updates[i]).coord == coords[k]
        &&& updates[i].mesh.is_mesh_of(grids[k], frames)
        &&& updates[i].generated == 4 * mesh_quads(grids[k]).len()
        &&& updates[i].generated > 0
    }
}

/// The slots below `n` whose mesh has a face.
pub open spec fn meshed_slots(grids: Seq<Seq<VoxelType>>, n: int) -> Seq<int>
    decreases n,
{
    if n <= 0 {
        Seq::empty()
    } else if mesh_quads(grids[n - 1]).len() > 0 {
        meshed_slots(grids, n - 1).push(n - 1)
    } else {
        meshed_slots(grids, n - 1)
    }
}

proof fn lemma_only_trees_added_trans(a: Seq<Seq<VoxelType>>, b: Seq<Seq<VoxelType>>, c: Seq<Seq<VoxelType>>)
    requires
        only_trees_added(a, b),
        only_trees_added(b, c),
    ensures
        only_trees_added(a, c),
{
    assert forall|k: int, i: int| 0 <= k < a.len() && 0 <= i < a[k].len() implies #[trigger] c[k][i] == a[k][i]
        || is_tree_type(c[k][i]) by {
        assert(b[k].len() == a[k].len());
        assert(c[k][i] == b[k][i] || is_tree_type(c[k][i]));
        assert(b[k][i] == a[k][i] || is_tree_type(b[k][i]));
    }
}

proof fn lemma_place_voxel_only_trees(coords: Seq<ChunkCoordinate>, grids: Seq<Seq<VoxelType>>, w: [int; 3], t: VoxelType)
    requires
        is_tree_type(t),
        coords.len() == grids.len(),
        forall|k: int| 0 <= k < grids.len() ==> (#[trigger] grids[k]).len() == 39304,
    ensures
        only_trees_added(grids, place_voxel(coords, grids, w, t)),
        forall|k: int| 0 <= k < grids.len() ==> (#[trigger] place_voxel(coords, grids, w, t)[k]).len() == 39304,
{
    let res = place_voxel(coords, grids, w, t);
    if exists|k: int| 0 <= k < coords.len() && holds_coord(coords[k], owner_chunk(w)) {
        let k = choose|k: int| 0 <= k < coords.len() && holds_coord(coords[k], owner_chunk(w));
        let idx = linear_index(owner_cell(w));
        assert(0 <= idx < 39304);
        if 0 <= k < grids.len() {
            assert forall|j: int, i: int| 0 <= j < grids.len() && 0 <= i < grids[j].len() implies #[trigger] res[j][i]
                == grids[j][i] || is_tree_type(res[j][i]) by {
                if j == k && i == idx {
                    assert(res[j][i] == t);
                }
            }
        }
    } else {
        assert(res =~= grids);
    }
}

proof fn lemma_place_all_only_trees(
    coords: Seq<ChunkCoordinate>,
    grids: Seq<Seq<VoxelType>>,
    origin: [i64; 3],
    blocks: Seq<([i64; 3], VoxelType)>,
)
    requires
        forall|j: int| 0 <= j < blocks.len() ==> is_tree_type((#[trigger] blocks[j]).1),
        coords.len() == grids.len(),
        forall|k: int| 0 <= k < grids.len() ==> (#[trigger] grids[k]).len() == 39304,
    ensures
        only_trees_added(grids, place_all(coords, grids, origin, blocks)),
        forall|k: int| 0 <= k < grids.len() ==> (#[trigger] place_all(coords, grids, origin, blocks)[k]).len() == 39304,
    decreases blocks.len(),
{
    if blocks.len() == 0 {
    } else {
        let rest = blocks.drop_last();
        assert forall|j: int| 0 <= j < rest.len() implies is_tree_type((#[trigger] rest[j]).1) by {
            assert(rest[j] == blocks[j]);
        }
        lemma_place_all_only_trees(coords, grids, origin, rest);
        let mid = place_all(coords, grids, origin, rest);
        let b = blocks.last();
        let w = [origin[0] + b.0[0], origin[1] + b.0[1], origin[2] + b.0[2]];
        assert(is_tree_type(blocks[blocks.len() - 1].1));
        lemma_place_voxel_only_trees(coords, mid, w, b.1);
        lemma_only_trees_added_trans(grids, mid, place_voxel(coords, mid, w, b.1));
    }
}

proof fn lemma_tree_blocks_types(shape: TreeShape)
    ensures
        forall|j: int| 0 <= j < tree_blocks(shape).len() ==> is_tree_type((#[trigger] tree_blocks(shape)[j]).1),
{
}

/// Where a tree stands on the column of `pt`: on its surface voxel, if the field has the column
/// and the tree's cells fit the coordinate range.
pub open spec fn tree_origin(field: &TerrainField, pt: [i64; 2]) -> Option<[i64; 3]> {
    match field.column_at(pt[0] as int, pt[1] as int) {
        Some(col) => if -0x4000_0000_0000_0000 <= pt[0] <= 0x4000_0000_0000_0000 && -0x4000_0000_0000_0000 <= pt[1]
            <= 0x4000_0000_0000_0000 && -0x4000_0000_0000_0000 <= col.height < 0x4000_0000_0000_0000 {
            Some([pt[0], (col.height + 1) as i64, pt[1]])
        } else {
            None
        },
        None => None,
    }
}

/// The chunks' cells after stamping, point after point, a tree of shape `shapes[i]` on the
/// column of `points[i]`.
pub open spec fn planted(
    coords: Seq<ChunkCoordinate>,
    grids: Seq<Seq<VoxelType>>,
    field: &TerrainField,
    points: Seq<[i64; 2]>,
    shapes: Seq<TreeShape>,
) -> Seq<Seq<VoxelType>>
    decreases points.len(),
{
    if points.len() == 0 {
        grids
    } else {
        let before = planted(coords, grids, field, points.drop_last(), shapes);
        match tree_origin(field, points.last()) {
            Some(o) => place_all(coords, before, o, tree_blocks(shapes[points.len() - 1])),
            None => before,
        }
    }
}

/// Stamps a tree of shape `shapes[i]` on the column of each `points[i]`, its trunk standing on
/// the surface voxel. Points whose column the field lacks are skipped, and so are voxels whose
/// chunk is not stored.
pub fn plant_trees_with(chunks: &mut ChunkRegistry, field: &TerrainField, points: &Vec<[i64; 2]>, shapes: &Vec<TreeShape>)
    requires
        old(chunks).wf(),
        field.wf(),
        shapes@.len() == points@.len(),
    ensures
        final(chunks).wf(),
        final(chunks).coords() == old(chunks).coords(),
        final(chunks).grids() == planted(old(chunks).coords(), old(chunks).grids(), field, points@, shapes@),
        only_trees_added(old(chunks).grids(), final(chunks).grids()),
{
    let ghost coords = chunks.coords();
    let ghost grids0 = chunks.grids();
    let limit: i64 = 0x4000_0000_0000_0000;
    assert(only_trees_added(grids0, grids0));
    assert(points@.take(0) =~= Seq::<[i64; 2]>::empty());
    let mut i: usize = 0;
    while i < points.len()
        invariant
            field.wf(),
            chunks.wf(),
            chunks.coords() == coords,
            limit == 0x4000_0000_0000_0000,
            shapes@.len() == points@.len(),
            i <= points@.len(),
            chunks.grids() == planted(coords, grids0, field, points@.take(i as int), shapes@),
            only_trees_added(grids0, chunks.grids()),
        decreases points@.len() - i,
    {
        let x = points[i][0];
        let z = points[i][1];
        let ghost before = chunks.grids();
        assert(points@.take(i + 1).drop_last() =~= points@.take(i as int));
        assert(points@.take(i + 1).last() == points@[i as int]);
        if let Some(col) = field.column(x, z) {
            if -limit <= x && x <= limit && -limit <= z && z <= limit && -limit <= col.height && col.height < limit {
                let shape = shapes[i];
                generate_tree([x, col.height + 1, z], shape, chunks);
                proof {
                    lemma_tree_blocks_types(shape);
                    lemma_place_all_only_trees(coords, before, [x, (col.height + 1) as i64, z], tree_blocks(shape));
                    lemma_only_trees_added_trans(grids0, before, chunks.grids());
                }
            }
        }
        i = i + 1;
    }
    assert(points@.take(points@.len() as int) =~= points@);
}

/// Relies on rand::Rng::gen_range over `0..=1` with rand::thread_rng: the draw is 0 or 1.
#[verifier::external_body]
fn draw_tree_kind() -> (r: u8)
    ensures
        r <= 1,
{
    rand::Rng::gen_range(&mut rand::thread_rng(), 0..=1u8)
}

/// Stamps a tree of a randomly drawn shape on the column of each point, as `plant_trees_with`
/// does for the shapes drawn.
pub fn plant_trees(chunks: &mut ChunkRegistry, field: &TerrainField, points: &Vec<[i64; 2]>)
    requires
        old(chunks).wf(),
        field.wf(),
    ensures
        final(chunks).wf(),
        final(chunks).coords() == old(chunks).coords(),
        exists|shapes: Seq<TreeShape>|
            shapes.len() == points@.len() && #[trigger] planted(old(chunks).coords(), old(chunks).grids(), field, points@, shapes)
                == final(chunks).grids(),
        only_trees_added(old(chunks).grids(), final(chunks).grids()),
{
    let mut shapes: Vec<TreeShape> = Vec::new();
    let mut i: usize = 0;
    while i < points.len()
        invariant
            i <= points@.len(),
            shapes@.len() == i,
        decreases points@.len() - i,
    {
        let shape = if draw_tree_kind() == 0 {
            TreeShape::Small
        } else {
            TreeShape::Tall
        };
        shapes.push(shape);
        i = i + 1;
    }
    plant_trees_with(chunks, field, points, &shapes);
}

/// Meshes every stored chunk and reports those whose mesh has a face, in storage order.
pub fn mesh_all(chunks: &ChunkRegistry, atlas: &TextureAtlas) -> (r: Vec<ChunkUpdate>)
    requires
        chunks.wf(),
        atlas.wf(),
    ensures
        meshes_reported(chunks.coords(), chunks.grids(), r@, atlas.frames()),
{
    let mut updates: Vec<ChunkUpdate> = Vec::new();
    let n = chunks.len();
    let mut k: usize = 0;
    while k < n
        invariant
            chunks.wf(),
            atlas.wf(),
            n == chunks.coords().len(),
            k <= n,
            updates@.len() == meshed_slots(chunks.grids(), k as int).len(),
            forall|i: int| 0 <= i < updates@.len() ==> {
                let j = meshed_slots(chunks.grids(), k as int)[i];
                &&& (#[trigger] updates@[i]).coord == chunks.coords()[j]
                &&& updates@[i].mesh.is_mesh_of(chunks.grids()[j], atlas.frames())
                &&& updates@[i].generated == 4 * mesh_quads(chunks.grids()[j]).len()
                &&& updates@[i].generated > 0
            },
        decreases n - k,
    {
        let (mesh, generated) = generate_simple_mesh(chunks.grid(k), atlas);
        if generated > 0 {
            updates.push(ChunkUpdate { coord: chunks.coord(k), mesh, generated });
        }
        assert forall|i: int| 0 <= i < updates@.len() implies {
            let j = meshed_slots(chunks.grids(), k + 1)[i];
            &&& (#[trigger] updates@[i]).coord == chunks.coords()[j]
            &&& updates@[i].mesh.is_mesh_of(chunks.grids()[j], atlas.frames())
            &&& updates@[i].generated == 4 * mesh_quads(chunks.grids()[j]).len()
            &&& updates@[i].generated > 0
        } by {
            if i < meshed_slots(chunks.grids(), k as int).len() {
                assert(meshed_slots(chunks.grids(), k + 1)[i] == meshed_slots(chunks.grids(), k as int)[i]);
            }
        }
        k = k + 1;
    }
    updates
}

/// Disk radius of the Poisson-disk sample that places trees, in world cells.
pub const TREE_SPACING: u32 = 6;

/// A tree column of the window of radius `r`: within its chunks' x and z range.
pub open spec fn in_tree_window(pt: [i64; 2], r: int) -> bool {
    -32 * r <= pt[0] < 32 * r + 32 && -32 * r <= pt[1] < 32 * r + 32
}

/// Relies on fast_poisson::Poisson2D::generate over a `side` by `side` square with disk radius
/// `spacing`: as its documentation states, every point lies in `[0, side)` on both axes. The
/// points are random. Truncating their coordinates rounds these non-negative values down.
#[verifier::external_body]
fn poisson_points(side: u32, spacing: u32) -> (r: Vec<[u32; 2]>)
    requires
        1 <= side,
        1 <= spacing,
    ensures
        forall|i: int| 0 <= i < r@.len() ==> (#[trigger] r@[i])[0] < side && r@[i][1] < side,
{
    fast_poisson::Poisson2D::new()
        .with_dimensions([side.into(), side.into()], spacing.into())
        .generate()
        .into_iter()
        .map(|p| [p[0] as u32, p[1] as u32])
        .collect()
}

/// The world columns of Poisson points sampled over the window of radius `radius`: each point
/// shifted by `-32 * radius` on both axes, so the square's corner lands on the window's corner.
pub fn columns_of(points: &Vec<[u32; 2]>, radius: u32) -> (r: Vec<[i64; 2]>)
    requires
        32 * (2 * radius + 1) <= 0xffff_ffff,
    ensures
        r@.len() == points@.len(),
        forall|i: int|
            0 <= i < r@.len() ==> #[trigger] r@[i] == [(points@[i][0] - 32 * radius) as i64, (points@[i][1] - 32
                * radius) as i64],
{
    let offset: i64 = 32 * radius as i64;
    let mut columns: Vec<[i64; 2]> = Vec::new();
    let mut i: usize = 0;
    while i < points.len()
        invariant
            offset == 32 * radius,
            32 * (2 * radius + 1) <= 0xffff_ffff,
            i <= points@.len(),
            columns@.len() == i,
            forall|j: int|
                0 <= j < i ==> #[trigger] columns@[j] == [(points@[j][0] - 32 * radius) as i64, (points@[j][1] - 32
                    * radius) as i64],
        decreases points@.len() - i,
    {
        let p = points[i];
        columns.push([p[0] as i64 - offset, p[1] as i64 - offset]);
        i = i + 1;
    }
    columns
}

/// Random tree columns over the window of radius `radius`: a Poisson-disk sample of disk radius
/// `TREE_SPACING` over the window's `32 * (2 * radius + 1)` square, rounded down to whole cells
/// and placed on the window by `columns_of`.
pub fn tree_columns(radius: u32) -> (r: Vec<[i64; 2]>)
    requires
        32 * (2 * radius + 1) <= 0xffff_ffff,
    ensures
        forall|i: int| 0 <= i < r@.len() ==> in_tree_window(#[trigger] r@[i], radius as int),
{
    let side: u32 = 32 * (2 * radius + 1);
    let points = poisson_points(side, TREE_SPACING);
    let columns = columns_of(&points, radius);
    assert forall|i: int| 0 <= i < columns@.len() implies in_tree_window(#[trigger] columns@[i], radius as int) by {
        assert(points@[i][0] < side && points@[i][1] < side);
    }
    columns
}

/// Builds the world from given trees: fills every chunk within `radius` chunks of the origin
/// from the terrain fields, stamps a tree of shape `tree_shapes[i]` on the column of each
/// `tree_points[i]`, and meshes every chunk. Returns the chunks and the meshes of those that have
/// a face; `None` when the field lacks a column under some chunk.
pub fn build_world(
    field: &TerrainField,
    radius: u32,
    tree_points: &Vec<[i64; 2]>,
    tree_shapes: &Vec<TreeShape>,
    atlas: &TextureAtlas,
) -> (r: Option<(ChunkRegistry, Vec<ChunkUpdate>)>)
    requires
        field.wf(),
        atlas.wf(),
        radius <= 0x7fff_ffff,
        tree_shapes@.len() == tree_points@.len(),
    ensures
        r.is_some() <==> forall|c: ChunkCoordinate| in_window(c, radius as int) ==> #[trigger] field.covers_chunk(c),
        r matches Some((reg, updates)) ==> {
            &&& reg.wf()
            &&& forall|k: int| 0 <= k < reg.coords().len() ==> in_window(#[trigger] reg.coords()[k], radius as int)
            &&& forall|c: ChunkCoordinate| in_window(c, radius as int) ==> #[trigger] reg.contains(c)
            &&& reg.grids() == planted(reg.coords(), terrain_grids(field, reg.coords()), field, tree_points@, tree_shapes@)
            &&& tree_points@.len() == 0 ==> reg.grids() == terrain_grids(field, reg.coords())
            &&& only_trees_added(terrain_grids(field, reg.coords()), reg.grids())
            &&& meshes_reported(reg.coords(), reg.grids(), updates@, atlas.frames())
        },
{
    match generate_terrain(field, radius) {
        None => None,
        Some(mut chunks) => {
            let ghost before = chunks;
            assert(terrain_grids(field, chunks.coords()) =~= chunks.grids());
            plant_trees_with(&mut chunks, field, tree_points, tree_shapes);
            assert forall|c: ChunkCoordinate| in_window(c, radius as int) implies #[trigger] chunks.contains(c) by {
                assert(before.contains(c));
                let k = choose|k: int| 0 <= k < before.coords().len() && before.coords()[k] == c;
                assert(chunks.coords()[k] == c);
            }
            let updates = mesh_all(&chunks, atlas);
            Some((chunks, updates))
        },
    }
}

/// Builds the world as `build_world` does, with random trees: their columns drawn by
/// `tree_columns` and each shape drawn at random.
pub fn generate_world(field: &TerrainField, radius: u32, atlas: &TextureAtlas) -> (r: Option<(ChunkRegistry, Vec<ChunkUpdate>)>)
    requires
        field.wf(),
        atlas.wf(),
        radius <= 0x7fff_ffff,
    ensures
        r.is_some() <==> forall|c: ChunkCoordinate| in_window(c, radius as int) ==> #[trigger] field.covers_chunk(c),
        r matches Some((reg, updates)) ==> {
            &&& reg.wf()
            &&& forall|k: int| 0 <= k < reg.coords().len() ==> in_window(#[trigger] reg.coords()[k], radius as int)
            &&& forall|c: ChunkCoordinate| in_window(c, radius as int) ==> #[trigger] reg.contains(c)
            &&& exists|points: Seq<[i64; 2]>, shapes: Seq<TreeShape>|
                (forall|i: int| 0 <= i < points.len() ==> in_tree_window(#[trigger] points[i], radius as int))
                    && shapes.len() == points.len() && #[trigger] planted(reg.coords(), terrain_grids(field, reg.coords()), field, points, shapes)
                    == reg.grids()
            &&& only_trees_added(terrain_grids(field, reg.coords()), reg.grids())
            &&& meshes_reported(reg.coords(), reg.grids(), updates@, atlas.frames())
        },
{
    match generate_terrain(field, radius) {
        None => None,
        Some(mut chunks) => {
            proof {
                lemma_covered_span(field, radius as int);
            }
            let ghost before = chunks;
            assert(terrain_grids(field, chunks.coords()) =~= chunks.grids());
            let points = tree_columns(radius);
            plant_trees(&mut chunks, field, &points);
            assert forall|c: ChunkCoordinate| in_window(c, radius as int) implies #[trigger] chunks.contains(c) by {
                assert(before.contains(c));
                let k = choose|k: int| 0 <= k < before.coords().len() && before.coords()[k] == c;
                assert(chunks.coords()[k] == c);
            }
            let updates = mesh_all(&chunks, atlas);
            Some((chunks, updates))
        },
    }
}

} // verus!
