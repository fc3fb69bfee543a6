use vstd::prelude::*;
use crate::atlas::TextureAtlas;
use crate::grid::{CHUNK_SIZE, PADDED, lemma_delinearize_linearize, linear_index};
use crate::mesher::{
    ChunkMesh, Quad, all_quads, face_visible, generate_simple_mesh, interior, lemma_empty_grid_no_faces,
    lemma_visible_face_meshed, merges_faces, mesh_quads, neighbor, positions_of,
};
use crate::registry::{ChunkCoordinate, ChunkRegistry};
use crate::voxel::{Visibility, VoxelType, visibility_of};

verus! {

/// The two edits a player can make.
#[derive(Clone, Copy, PartialEq, Eq, Debug, Structural)]
pub enum DigEventType {
    Build,
    Dig,
}

/// An edit of the world cell `world_cell`: the cell holding the hit point, its coordinates the
/// point's rounded down.
#[derive(Clone, Copy, Debug)]
pub struct DigEvent {
    pub event_type: DigEventType,
    pub world_cell: [i64; 3],
}

/// A chunk's new mesh, to replace its drawn and colliding geometry.
pub struct ChunkUpdate {
    pub coord: ChunkCoordinate,
    pub mesh: ChunkMesh,
    /// Number of vertices of `mesh`.
    pub generated: usize,
}

/// What an edit writes into its cell: nothing for a dig, cobblestone for a build.
pub open spec fn placed_type(e: DigEventType) -> VoxelType {
    match e {
        DigEventType::Dig => VoxelType::Empty,
        DigEventType::Build => VoxelType::Cobblestone,
    }
}

/// The padded cell of chunk `c` at world cell `w`, if the chunk's storage holds it: padded cell
/// `w - 32 * c`, accepted when it lies in `0..=33` on every axis. An edit takes the difference
/// between the hit cell and the chunk's origin as the padded index itself, while generation and
/// tree stamping store local cell `x` at padded `x + 1` (see `crate::terrain::world_cell`); the two
/// frames are one cell apart on every axis.
pub open spec fn local_cell(c: ChunkCoordinate, w: [i64; 3]) -> Option<[u32; 3]> {
    let d0 = w[0] - 32 * c[0];
    let d1 = w[1] - 32 * c[1];
    let d2 = w[2] - 32 * c[2];
    if 0 <= d0 <= 33 && 0 <= d1 <= 33 && 0 <= d2 <= 33 {
        Some([d0 as u32, d1 as u32, d2 as u32])
    } else {
        None
    }
}

/// A chunk's cells after an edit: the edited cell overwritten if the chunk holds it.
pub open spec fn edited_grid(g: Seq<VoxelType>, c: ChunkCoordinate, e: DigEvent) -> Seq<VoxelType> {
    match local_cell(c, e.world_cell) {
        Some(p) => g.update(linear_index(p), placed_type(e.event_type)),
        None => g,
    }
}

/// The slots below `n` whose chunk holds world cell `w` and whose mesh has a face.
pub open spec fn remeshed_slots(coords: Seq<ChunkCoordinate>, grids: Seq<Seq<VoxelType>>, w: [i64; 3], n: int) -> Seq<int>
    decreases n,
{
    if n <= 0 {
        Seq::empty()
    } else {
        let rest = remeshed_slots(coords, grids, w, n - 1);
        if local_cell(coords[n - 1], w).is_some() && mesh_quads(grids[n - 1]).len() > 0 {
            rest.push(n - 1)
        } else {
            rest
        }
    }
}

/// The padded cell of the chunk at `chunk` that holds world cell `world_cell`; `None` when it
/// lies outside the chunk's storage on some axis.
pub fn voxel_position_from_world(chunk: ChunkCoordinate, world_cell: [i64; 3]) -> (r: Option<[u32; 3]>)
    ensures
        r == local_cell(chunk, world_cell),
{
    let size = CHUNK_SIZE as i128;
    let last = PADDED as i128 - 1;
    let d0: i128 = world_cell[0] as i128 - size * chunk[0] as i128;
    let d1: i128 = world_cell[1] as i128 - size * chunk[1] as i128;
    let d2: i128 = world_cell[2] as i128 - size * chunk[2] as i128;
    if 0 <= d0 && d0 <= last && 0 <= d1 && d1 <= last && 0 <= d2 && d2 <= last {
        Some([d0 as u32, d1 as u32, d2 as u32])
    } else {
        None
    }
}

/// The mouse buttons that ask for an edit.
#[derive(Clone, Copy, PartialEq, Eq, Debug, Structural)]
pub enum MouseButton {
    Left,
    Right,
}

/// The edit that a click on a voxel asks for: the left button digs the hit cell; the right
/// button builds in the cell in front of it, but only when `build_space_free` says that no
/// moving body occupies that cell.
pub fn edit_request(button: MouseButton, hit_cell: [i64; 3], front_cell: [i64; 3], build_space_free: bool) -> (r: Option<DigEvent>)
    ensures
        button == MouseButton::Left ==> r.is_some() && r.unwrap().event_type == DigEventType::Dig && r.unwrap().world_cell
            == hit_cell,
        button == MouseButton::Right && build_space_free ==> r.is_some() && r.unwrap().event_type
            == DigEventType::Build && r.unwrap().world_cell == front_cell,
        button == MouseButton::Right && !build_space_free ==> r.is_none(),
{
    match button {
        MouseButton::Left => Some(DigEvent { event_type: DigEventType::Dig, world_cell: hit_cell }),
        MouseButton::Right => if build_space_free {
            Some(DigEvent { event_type: DigEventType::Build, world_cell: front_cell })
        } else {
            None
        },
    }
}

/// Applies one edit: every stored chunk whose storage holds the cell has it overwritten and is
/// remeshed, and a chunk whose new mesh has a face is reported with it, in storage order.
/// Chunks that do not hold the cell are left as they were.
pub fn dig_event_handler(registry: &mut ChunkRegistry, atlas: &TextureAtlas, event: &DigEvent) -> (r: Vec<ChunkUpdate>)
    requires
        old(registry).wf(),
        atlas.wf(),
    ensures
        final(registry).wf(),
        final(registry).coords() == old(registry).coords(),
        forall|k: int|
            0 <= k < old(registry).grids().len() ==> #[trigger] final(registry).grids()[k] == edited_grid(
                old(registry).grids()[k],
                old(registry).coords()[k],
                *event,
            ),
        forall|k: int|
            0 <= k < old(registry).grids().len() && local_cell(old(registry).coords()[k], event.world_cell) is None
                ==> #[trigger] final(registry).grids()[k] == old(registry).grids()[k],
        r@.len() == remeshed_slots(final(registry).coords(), final(registry).grids(), event.world_cell, final(registry).coords().len() as int).len(),
        forall|i: int| 0 <= i < r@.len() ==> {
            let k = remeshed_slots(final(registry).coords(), final(registry).grids(), event.world_cell, final(registry).coords().len() as int)[i];
            &&& (#[trigger] r@[i]).coord == final(registry).coords()[k]
            &&& r@[i].mesh.is_mesh_of(final(registry).grids()[k], atlas.frames())
            &&& r@[i].generated == 4 * mesh_quads(final(registry).grids()[k]).len()
            &&& r@[i].generated > 0
        },
{
    let ghost old_reg = *registry;
    let placed = match event.event_type {
        DigEventType::Dig => VoxelType::Empty,
        DigEventType::Build => VoxelType::Cobblestone,
    };
    let mut updates: Vec<ChunkUpdate> = Vec::new();
    let n = registry.len();
    let mut k: usize = 0;
    while k < n
        invariant
            atlas.wf(),
            placed == placed_type(event.event_type),
            n == old_reg.coords().len(),
            k <= n,
            registry.wf(),
            registry.coords() == old_reg.coords(),
            registry.grids().len() == n,
            forall|j: int| 0 <= j < k ==> #[trigger] registry.grids()[j] == edited_grid(old_reg.grids()[j], old_reg.coords()[j], *event),
            forall|j: int| k <= j < n ==> #[trigger] registry.grids()[j] == old_reg.grids()[j],
            updates@.len() == remeshed_slots(registry.coords(), registry.grids(), event.world_cell, k as int).len(),
            forall|i: int| 0 <= i < updates@.len() ==> {
                let j = remeshed_slots(registry.coords(), registry.grids(), event.world_cell, k as int)[i];
                &&& (#[trigger] updates@[i]).coord == registry.coords()[j]
                &&& updates@[i].mesh.is_mesh_of(registry.grids()[j], atlas.frames())
                &&& updates@[i].generated == 4 * mesh_quads(registry.grids()[j]).len()
                &&& updates@[i].generated > 0
            },
        decreases n - k,
    {
        let coord = registry.coord(k);
        let ghost before = *registry;
        match voxel_position_from_world(coord, event.world_cell) {
            None => {
                assert(registry.grids()[k as int] == edited_grid(old_reg.grids()[k as int], old_reg.coords()[k as int], *event));
            },
            Some(p) => {
                registry.set_voxel(k, p, placed);
                assert(registry.grids()[k as int] == edited_grid(old_reg.grids()[k as int], old_reg.coords()[k as int], *event));
                assert forall|j: int| 0 <= j < n && j != k implies registry.grids()[j] == before.grids()[j] by {}
                let (mesh, generated) = generate_simple_mesh(registry.grid(k), atlas);
                if generated > 0 {
                    updates.push(ChunkUpdate { coord, mesh, generated });
                }
            },
        }
        proof {
            lemma_remeshed_slots_prefix(before.coords(), before.grids(), registry.grids(), event.world_cell, k as int);
        }
        assert forall|i: int| 0 <= i < updates@.len() implies {
            let j = remeshed_slots(registry.coords(), registry.grids(), event.world_cell, k + 1)[i];
            &&& (#[trigger] updates@[i]).coord == registry.coords()[j]
            &&& updates@[i].mesh.is_mesh_of(registry.grids()[j], atlas.frames())
            &&& updates@[i].generated == 4 * mesh_quads(registry.grids()[j]).len()
            &&& updates@[i].generated > 0
        } by {
            let prev = remeshed_slots(registry.coords(), before.grids(), event.world_cell, k as int);
            if i < prev.len() {
                lemma_remeshed_slots_below(registry.coords(), before.grids(), event.world_cell, k as int);
                assert(registry.grids()[prev[i]] == before.grids()[prev[i]]);
            }
        }
        k = k + 1;
    }
    updates
}

/// The slots listed below `n` are below `n`.
proof fn lemma_remeshed_slots_below(coords: Seq<ChunkCoordinate>, grids: Seq<Seq<VoxelType>>, w: [i64; 3], n: int)
    ensures
        forall|i: int| 0 <= i < remeshed_slots(coords, grids, w, n).len() ==> 0 <= #[trigger] remeshed_slots(coords, grids, w, n)[i] < n,
    decreases n,
{
    if n > 0 {
        lemma_remeshed_slots_below(coords, grids, w, n - 1);
        let rest = remeshed_slots(coords, grids, w, n - 1);
        assert forall|i: int| 0 <= i < remeshed_slots(coords, grids, w, n).len() implies 0
            <= #[trigger] remeshed_slots(coords, grids, w, n)[i] < n by {
            if i < rest.len() {
                assert(remeshed_slots(coords, grids, w, n)[i] == rest[i]);
            }
        }
    }
}

/// The slots below `n` depend on the grids below `n` only.
proof fn lemma_remeshed_slots_prefix(
    coords: Seq<ChunkCoordinate>,
    grids1: Seq<Seq<VoxelType>>,
    grids2: Seq<Seq<VoxelType>>,
    w: [i64; 3],
    n: int,
)
    requires
        forall|j: int| 0 <= j < n ==> grids1[j] == grids2[j],
    ensures
        remeshed_slots(coords, grids1, w, n) == remeshed_slots(coords, grids2, w, n),
    decreases n,
{
    if n > 0 {
        lemma_remeshed_slots_prefix(coords, grids1, grids2, w, n - 1);
    }
}

/// The cells after digging and then building at world cell `w` in chunk `c`.
pub open spec fn dug_and_built(g: Seq<VoxelType>, c: ChunkCoordinate, w: [i64; 3]) -> Seq<VoxelType> {
    let dug = edited_grid(g, c, DigEvent { event_type: DigEventType::Dig, world_cell: w });
    edited_grid(dug, c, DigEvent { event_type: DigEventType::Build, world_cell: w })
}

/// Digging and then building at the same world cell leaves a cobblestone in every chunk that
/// holds the cell, and other chunks as they were.
pub proof fn lemma_dig_then_build(g: Seq<VoxelType>, c: ChunkCoordinate, w: [i64; 3])
    requires
        g.len() == 39304,
    ensures
        match local_cell(c, w) {
            Some(p) => dug_and_built(g, c, w)[linear_index(p)] == VoxelType::Cobblestone && dug_and_built(g, c, w).len()
                == 39304,
            None => dug_and_built(g, c, w) == g,
        },
{
    if let Some(p) = local_cell(c, w) {
        lemma_delinearize_linearize(p);
    }
}

/// After digging and then building at an interior cell with a face against a non-opaque
/// neighbour, the mesh of the chunk, in whatever quads its faces are merged, has a face.
pub proof fn lemma_dig_then_build_meshed(g: Seq<VoxelType>, c: ChunkCoordinate, w: [i64; 3], f: int, groups: Seq<Seq<Quad>>)
    requires
        g.len() == 39304,
        0 <= f < 6,
        local_cell(c, w) is Some,
        interior(local_cell(c, w).unwrap()),
        visibility_of(dug_and_built(g, c, w)[linear_index(neighbor(local_cell(c, w).unwrap(), f))]) != Visibility::Opaque,
        forall|k: int| 0 <= k < 6 ==> merges_faces(dug_and_built(g, c, w), k, #[trigger] groups[k]),
    ensures
        all_quads(groups).len() > 0,
{
    let p = local_cell(c, w).unwrap();
    let built = dug_and_built(g, c, w);
    lemma_delinearize_linearize(p);
    assert(built[linear_index(p)] == VoxelType::Cobblestone);
    assert(face_visible(built, p, f));
    lemma_visible_face_meshed(built, groups, p, f);
}

/// Digging out the only non-empty cell of a chunk leaves a chunk whose mesh, in whatever quads its
/// faces are merged, has no quad and no vertex.
pub proof fn lemma_dig_lone_voxel(g: Seq<VoxelType>, c: ChunkCoordinate, w: [i64; 3], groups: Seq<Seq<Quad>>)
    requires
        g.len() == 39304,
        local_cell(c, w).is_some(),
        forall|i: int| 0 <= i < 39304 && i != linear_index(local_cell(c, w).unwrap()) ==> g[i] == VoxelType::Empty,
        forall|k: int|
            0 <= k < 6 ==> merges_faces(
                edited_grid(g, c, DigEvent { event_type: DigEventType::Dig, world_cell: w }),
                k,
                #[trigger] groups[k],
            ),
    ensures
        all_quads(groups).len() == 0,
        positions_of(all_quads(groups)).len() == 0,
{
    let dug = edited_grid(g, c, DigEvent { event_type: DigEventType::Dig, world_cell: w });
    lemma_delinearize_linearize(local_cell(c, w).unwrap());
    lemma_empty_grid_no_faces(dug, groups, Seq::empty());
}

} // verus!
