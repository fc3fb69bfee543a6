use vstd::prelude::*;
use crate::atlas::{
    Frame, Tint, TextureAtlas, atlas_uv, face_tint, find_frame, frame_corners, lemma_texture_name_required, texture_name,
    tint_of, voxel_texture_name,
};
use crate::grid::{VoxelGrid, in_padded, linear_index, lemma_delinearize_linearize};
use crate::voxel::{MaterialVoxel, VoxelType, Visibility, cells_of, visibility_of};

verus! {

/// Outward normal of each face direction, in the order -X, -Y, -Z, +X, +Y, +Z.
pub open spec fn face_normal(f: int) -> [i32; 3] {
    if f == 0 {
        [-1i32, 0, 0]
    } else if f == 1 {
        [0, -1i32, 0]
    } else if f == 2 {
        [0, 0, -1i32]
    } else if f == 3 {
        [1, 0, 0]
    } else if f == 4 {
        [0, 1, 0]
    } else {
        [0, 0, 1]
    }
}

/// A cell of the chunk proper, not of its halo.
pub open spec fn interior(p: [u32; 3]) -> bool {
    1 <= p[0] <= 32 && 1 <= p[1] <= 32 && 1 <= p[2] <= 32
}

/// The cell across face `f` of cell `p`.
pub open spec fn neighbor(p: [u32; 3], f: int) -> [u32; 3] {
    [
        (p[0] + face_normal(f)[0]) as u32,
        (p[1] + face_normal(f)[1]) as u32,
        (p[2] + face_normal(f)[2]) as u32,
    ]
}

/// Face `f` of cell `p` is drawn: the cell is not empty, and the cell across the face is empty,
/// or translucent while this one is opaque.
pub open spec fn face_visible(g: Seq<VoxelType>, p: [u32; 3], f: int) -> bool {
    let me = visibility_of(g[linear_index(p)]);
    let other = visibility_of(g[linear_index(neighbor(p, f))]);
    me != Visibility::Empty && (other == Visibility::Empty || (other == Visibility::Translucent
        && me == Visibility::Opaque))
}

/// A quad of one face direction: its lower cell, its width along the direction's first texture
/// axis and its height along the second.
pub type Quad = ([u32; 3], u32, u32);

/// `p` moved `k` cells along axis `a` (0 for x, 1 for y, 2 for z).
pub open spec fn step(p: [u32; 3], a: int, k: int) -> [u32; 3] {
    if a == 0 {
        [(p[0] + k) as u32, p[1], p[2]]
    } else if a == 1 {
        [p[0], (p[1] + k) as u32, p[2]]
    } else {
        [p[0], p[1], (p[2] + k) as u32]
    }
}

/// The axis along which a face's first texture direction runs; `v_axis` gives the second.
pub open spec fn u_axis(f: int) -> int {
    if f % 3 == 2 { 0 } else { 2 }
}

/// The axis along which a face's second texture direction runs.
pub open spec fn v_axis(f: int) -> int {
    if f % 3 == 1 { 0 } else { 1 }
}

/// The cell `a` columns and `b` rows into quad `q` of direction `f`.
pub open spec fn quad_cell(f: int, q: Quad, a: int, b: int) -> [u32; 3] {
    step(step(q.0, u_axis(f), a), v_axis(f), b)
}

/// Quad `q` of direction `f` holds face `f` of cell `p`.
pub open spec fn quad_covers(f: int, q: Quad, p: [u32; 3]) -> bool {
    exists|a: int, b: int| 0 <= a < q.1 && 0 <= b < q.2 && quad_cell(f, q, a, b) == p
}

/// Quad `q` of direction `f` is a non-empty rectangle of interior cells that all show face `f`
/// and all have the type of its lower cell; it ends within the padded grid.
pub open spec fn quad_fits(g: Seq<VoxelType>, f: int, q: Quad) -> bool {
    &&& 1 <= q.1
    &&& 1 <= q.2
    &&& q.0[u_axis(f)] + q.1 <= 33
    &&& q.0[v_axis(f)] + q.2 <= 33
    &&& forall|a: int, b: int|
        0 <= a < q.1 && 0 <= b < q.2 ==> interior(#[trigger] quad_cell(f, q, a, b)) && face_visible(
            g,
            quad_cell(f, q, a, b),
            f,
        ) && g[linear_index(quad_cell(f, q, a, b))] == g[linear_index(q.0)]
}

/// The quads of direction `f` merge the drawn faces of `g`: each quad fits, no two share a face,
/// every drawn face lies in one, there is at most one quad per interior cell, and where two drawn
/// faces of one type are adjacent along a texture axis some quad spans more than one cell.
pub open spec fn merges_faces(g: Seq<VoxelType>, f: int, qs: Seq<Quad>) -> bool {
    &&& qs.len() <= 32768
    &&& forall|j: int| 0 <= j < qs.len() ==> quad_fits(g, f, #[trigger] qs[j])
    &&& forall|j: int, k: int, p: [u32; 3]|
        0 <= j < k < qs.len() ==> !(#[trigger] quad_covers(f, qs[j], p) && #[trigger] quad_covers(f, qs[k], p))
    &&& forall|p: [u32; 3]|
        interior(p) && #[trigger] face_visible(g, p, f) ==> exists|j: int| 0 <= j < qs.len() && quad_covers(f, qs[j], p)
    &&& forall|p: [u32; 3], a: int|
        (a == u_axis(f) || a == v_axis(f)) && interior(p) && interior(step(p, a, 1)) && #[trigger] face_visible(g, p, f)
            && #[trigger] face_visible(g, step(p, a, 1), f) && g[linear_index(p)] == g[linear_index(step(p, a, 1))]
            ==> exists|j: int| 0 <= j < qs.len() && (qs[j].1 >= 2 || qs[j].2 >= 2)
}

/// What block_mesh's greedy mesher returns for the cells `cells`: the quads of each direction.
pub uninterp spec fn greedy_quads_of(cells: Seq<VoxelType>) -> Seq<Seq<([u32; 3], u32, u32)>>;

/// The quads of the directions below `f`, direction by direction, each with its direction.
pub open spec fn quads_upto(groups: Seq<Seq<Quad>>, f: int) -> Seq<(int, Quad)>
    decreases f,
{
    if f <= 0 {
        Seq::empty()
    } else {
        quads_upto(groups, f - 1) + groups[f - 1].map_values(|q: Quad| (f - 1, q))
    }
}

/// The quads of all six directions.
pub open spec fn all_quads(groups: Seq<Seq<Quad>>) -> Seq<(int, Quad)> {
    quads_upto(groups, 6)
}

/// The quads of a grid's mesh: the greedy quads of every direction.
pub open spec fn mesh_quads(g: Seq<VoxelType>) -> Seq<(int, Quad)> {
    all_quads(greedy_quads_of(g))
}

/// The four corners of quad `q` of direction `f`: its lower corner, one width along the first
/// texture axis, one height along the second, and both.
pub open spec fn corners_of(f: int, q: Quad) -> [[u32; 3]; 4] {
    let base = if f >= 3 { step(q.0, f - 3, 1) } else { q.0 };
    [
        base,
        step(base, u_axis(f), q.1 as int),
        step(base, v_axis(f), q.2 as int),
        step(step(base, u_axis(f), q.1 as int), v_axis(f), q.2 as int),
    ]
}

/// Faces whose two triangles are listed counter-clockwise in the mesh.
pub open spec fn counter_clockwise(f: int) -> bool {
    f == 0 || f == 4 || f == 5
}

/// The six indices of the two triangles of a quad whose corners start at `start`.
pub open spec fn quad_indices_of(f: int, start: int) -> [u32; 6] {
    if counter_clockwise(f) {
        [start as u32, (start + 1) as u32, (start + 2) as u32, (start + 1) as u32, (start + 3) as u32, (start + 2) as u32]
    } else {
        [start as u32, (start + 2) as u32, (start + 1) as u32, (start + 1) as u32, (start + 2) as u32, (start + 3) as u32]
    }
}

/// Relies on block_mesh::greedy_quads over the whole padded grid with the faces of
/// RIGHT_HANDED_Y_UP_CONFIG, cells merging when `MaterialVoxel::merge_value` (the voxel type)
/// agrees and shown as `MaterialVoxel::get_visibility` classifies them. Per its documentation
/// every drawn face of the interior is part of some quad and all cells of a quad share a merge
/// value; its source grows each quad only over unvisited cells that show the face, marks them
/// visited, and pushes at most one quad per interior cell.
#[verifier::external_body]
fn greedy_faces(samples: &Vec<MaterialVoxel>) -> (r: Vec<Vec<Quad>>)
    requires
        samples@.len() == 39304,
    ensures
        r@.len() == 6,
        forall|f: int| 0 <= f < 6 ==> (#[trigger] r@[f])@ == greedy_quads_of(cells_of(samples@))[f],
        forall|f: int| 0 <= f < 6 ==> merges_faces(cells_of(samples@), f, (#[trigger] r@[f])@),
{
    let mut buffer = block_mesh::GreedyQuadsBuffer::new(samples.len());
    block_mesh::greedy_quads(
        samples.as_slice(),
        &block_mesh::ndshape::ConstShape3u32::<34, 34, 34> {},
        [0; 3],
        [33; 3],
        &block_mesh::RIGHT_HANDED_Y_UP_CONFIG.faces,
        &mut buffer,
    );
    buffer.quads.groups.into_iter().map(|g| g.into_iter().map(|q| (q.minimum, q.width, q.height)).collect()).collect()
}

/// Relies on block_mesh::OrientedBlockFace::quad_corners for face `face` of
/// RIGHT_HANDED_Y_UP_CONFIG and the quad `q`.
#[verifier::external_body]
fn quad_corners(face: usize, q: Quad) -> (r: [[u32; 3]; 4])
    requires
        face < 6,
        1 <= q.1 <= 32,
        1 <= q.2 <= 32,
        in_padded(q.0),
    ensures
        r == corners_of(face as int, q),
{
    let quad = block_mesh::UnorientedQuad { minimum: q.0, width: q.1, height: q.2 };
    block_mesh::RIGHT_HANDED_Y_UP_CONFIG.faces[face].quad_corners(&quad).map(|c| c.to_array())
}

/// Relies on block_mesh::OrientedBlockFace::quad_mesh_indices for face `face` of
/// RIGHT_HANDED_Y_UP_CONFIG.
#[verifier::external_body]
fn quad_mesh_indices(face: usize, start: u32) -> (r: [u32; 6])
    requires
        face < 6,
        start <= 0xffff_fffc,
    ensures
        r == quad_indices_of(face as int, start as int),
{
    block_mesh::RIGHT_HANDED_Y_UP_CONFIG.faces[face].quad_mesh_indices(start)
}

/// Relies on block_mesh::OrientedBlockFace::signed_normal for face `face` of
/// RIGHT_HANDED_Y_UP_CONFIG.
#[verifier::external_body]
fn signed_normal(face: usize) -> (r: [i32; 3])
    requires
        face < 6,
    ensures
        r == face_normal(face as int),
{
    block_mesh::RIGHT_HANDED_Y_UP_CONFIG.faces[face].signed_normal().to_array()
}

pub proof fn lemma_quad_cell_origin(f: int, q: Quad)
    ensures
        quad_cell(f, q, 0, 0) == q.0,
{
    assert(step(q.0, u_axis(f), 0) =~= q.0);
    assert(step(step(q.0, u_axis(f), 0), v_axis(f), 0) =~= q.0);
}

/// A fitting quad is a rectangle of interior cells starting at an interior lower cell whose type
/// shows face `f`, so it is not empty.
pub proof fn lemma_fitting_quad(g: Seq<VoxelType>, f: int, q: Quad)
    requires
        quad_fits(g, f, q),
    ensures
        interior(q.0),
        face_visible(g, q.0, f),
        g[linear_index(q.0)] != VoxelType::Empty,
{
    lemma_quad_cell_origin(f, q);
    assert(interior(quad_cell(f, q, 0, 0)));
}

/// The quads below direction `f` are the same for two groupings that agree below `f`.
proof fn lemma_quads_upto_agree(g1: Seq<Seq<Quad>>, g2: Seq<Seq<Quad>>, f: int)
    requires
        forall|k: int| 0 <= k < f ==> g1[k] == g2[k],
    ensures
        quads_upto(g1, f) == quads_upto(g2, f),
    decreases f,
{
    if f > 0 {
        lemma_quads_upto_agree(g1, g2, f - 1);
    }
}

/// Every quad of the directions below `f` has its direction and fits it; there are at most 32768
/// per direction.
pub proof fn lemma_quads_upto_members(g: Seq<VoxelType>, groups: Seq<Seq<Quad>>, f: int)
    requires
        0 <= f <= 6,
        forall|k: int| 0 <= k < 6 ==> merges_faces(g, k, #[trigger] groups[k]),
    ensures
        quads_upto(groups, f).len() <= 32768 * f,
        forall|k: int|
            0 <= k < quads_upto(groups, f).len() ==> {
                let q = #[trigger] quads_upto(groups, f)[k];
                0 <= q.0 < f && quad_fits(g, q.0, q.1)
            },
    decreases f,
{
    if f > 0 {
        lemma_quads_upto_members(g, groups, f - 1);
        let a = quads_upto(groups, f - 1);
        let b = groups[f - 1].map_values(|q: Quad| (f - 1, q));
        assert(merges_faces(g, f - 1, groups[f - 1]));
        assert forall|k: int| 0 <= k < quads_upto(groups, f).len() implies {
            let q = #[trigger] quads_upto(groups, f)[k];
            0 <= q.0 < f && quad_fits(g, q.0, q.1)
        } by {
            if k >= a.len() {
                assert(quads_upto(groups, f)[k] == b[k - a.len()]);
                assert(quad_fits(g, f - 1, groups[f - 1][k - a.len()]));
            } else {
                assert(quads_upto(groups, f)[k] == a[k]);
            }
        }
    }
}

/// The voxel type of the cells of a quad: that of its lower cell.
pub open spec fn quad_voxel(g: Seq<VoxelType>, q: (int, Quad)) -> VoxelType {
    g[linear_index(q.1.0)]
}

/// Vertex positions: the four corners of each quad in turn.
pub open spec fn positions_of(qs: Seq<(int, Quad)>) -> Seq<[u32; 3]>
    decreases qs.len(),
{
    if qs.len() == 0 {
        Seq::empty()
    } else {
        let c = corners_of(qs.last().0, qs.last().1);
        positions_of(qs.drop_last()) + seq![c[0], c[1], c[2], c[3]]
    }
}

/// Vertex normals: the face normal, four times per quad.
pub open spec fn normals_of(qs: Seq<(int, Quad)>) -> Seq<[i32; 3]>
    decreases qs.len(),
{
    if qs.len() == 0 {
        Seq::empty()
    } else {
        let n = face_normal(qs.last().0);
        normals_of(qs.drop_last()) + seq![n, n, n, n]
    }
}

/// Vertex colours: the tint of the quad's voxel type and normal, four times per quad.
pub open spec fn colors_of(g: Seq<VoxelType>, qs: Seq<(int, Quad)>) -> Seq<Tint>
    decreases qs.len(),
{
    if qs.len() == 0 {
        Seq::empty()
    } else {
        let c = tint_of(face_normal(qs.last().0)[1] as int, quad_voxel(g, qs.last()));
        colors_of(g, qs.drop_last()) + seq![c, c, c, c]
    }
}

/// The atlas frame that a quad shows.
pub open spec fn quad_frame(g: Seq<VoxelType>, frames: Seq<(Seq<char>, Frame)>, q: (int, Quad)) -> Frame {
    find_frame(frames, texture_name(face_normal(q.0)[1] as int, quad_voxel(g, q))).unwrap()
}

/// Vertex texture coordinates, in atlas pixels: the corners of each quad's frame.
pub open spec fn uvs_of(g: Seq<VoxelType>, frames: Seq<(Seq<char>, Frame)>, qs: Seq<(int, Quad)>) -> Seq<[u64; 2]>
    decreases qs.len(),
{
    if qs.len() == 0 {
        Seq::empty()
    } else {
        let c = frame_corners(quad_frame(g, frames, qs.last()));
        uvs_of(g, frames, qs.drop_last()) + seq![c[0], c[1], c[2], c[3]]
    }
}

/// Triangle indices: two triangles per quad over that quad's four vertices.
pub open spec fn indices_of(qs: Seq<(int, Quad)>) -> Seq<u32>
    decreases qs.len(),
{
    if qs.len() == 0 {
        Seq::empty()
    } else {
        let i = quad_indices_of(qs.last().0, 4 * (qs.len() - 1));
        indices_of(qs.drop_last()) + seq![i[0], i[1], i[2], i[3], i[4], i[5]]
    }
}

/// Four vertices and six indices per quad.
pub proof fn lemma_buffer_lengths(g: Seq<VoxelType>, frames: Seq<(Seq<char>, Frame)>, qs: Seq<(int, Quad)>)
    ensures
        positions_of(qs).len() == 4 * qs.len(),
        normals_of(qs).len() == 4 * qs.len(),
        colors_of(g, qs).len() == 4 * qs.len(),
        uvs_of(g, frames, qs).len() == 4 * qs.len(),
        indices_of(qs).len() == 6 * qs.len(),
    decreases qs.len(),
{
    if qs.len() > 0 {
        lemma_buffer_lengths(g, frames, qs.drop_last());
    }
}

/// A triangle mesh of a chunk. Vertex `v` has `positions[v]`, `normals[v]`, `uvs[v]` and
/// `colors[v]`; positions are in padded cell units, texture coordinates in atlas pixels.
pub struct ChunkMesh {
    pub positions: Vec<[u32; 3]>,
    pub normals: Vec<[i32; 3]>,
    pub uvs: Vec<[u64; 2]>,
    pub colors: Vec<Tint>,
    pub indices: Vec<u32>,
}

/// The quads of each direction, as values.
pub open spec fn group_views(groups: Seq<Vec<Quad>>) -> Seq<Seq<Quad>> {
    groups.map_values(|v: Vec<Quad>| v@)
}

impl ChunkMesh {
    /// The indices come in whole triangles and each names a vertex of the mesh.
    pub open spec fn indices_in_range(&self) -> bool {
        &&& self.indices@.len() % 3 == 0
        &&& forall|i: int| 0 <= i < self.indices@.len() ==> (#[trigger] self.indices@[i]) < self.positions@.len()
    }

    /// The mesh of the quads `qs` over the cells `g`, textured from `frames`: each quad lowered
    /// to four vertices and two triangles, in order.
    pub open spec fn lowers(&self, g: Seq<VoxelType>, qs: Seq<(int, Quad)>, frames: Seq<(Seq<char>, Frame)>) -> bool {
        &&& self.positions@ == positions_of(qs)
        &&& self.normals@ == normals_of(qs)
        &&& self.colors@ == colors_of(g, qs)
        &&& self.uvs@ == uvs_of(g, frames, qs)
        &&& self.indices@ == indices_of(qs)
    }

    /// The mesh of the drawn faces of `g`, merged into greedy quads, textured from `frames`.
    pub open spec fn is_mesh_of(&self, g: Seq<VoxelType>, frames: Seq<(Seq<char>, Frame)>) -> bool {
        self.lowers(g, mesh_quads(g), frames)
    }
}

/// The voxel type of the cell holding the point half a unit behind the middle of the quad with the
/// given corners: the cell `w / 2` columns and `h / 2` rows into the quad.
fn face_to_voxel_type(samples: &VoxelGrid, face: usize, corners: [[u32; 3]; 4], Ghost(q): Ghost<Quad>) -> (r: VoxelType)
    requires
        samples.wf(),
        face < 6,
        1 <= q.1,
        1 <= q.2,
        in_padded(q.0),
        q.0[u_axis(face as int)] + q.1 <= 34,
        q.0[v_axis(face as int)] + q.2 <= 34,
        corners == corners_of(face as int, q),
    ensures
        r == samples@[linear_index(quad_cell(face as int, q, (q.1 / 2) as int, (q.2 / 2) as int))],
{
    let normal = signed_normal(face);
    let bx: i64 = (corners[0][0] as i64 + corners[1][0] as i64 + corners[2][0] as i64 + corners[3][0] as i64
        - 2 * normal[0] as i64) / 4;
    let by: i64 = (corners[0][1] as i64 + corners[1][1] as i64 + corners[2][1] as i64 + corners[3][1] as i64
        - 2 * normal[1] as i64) / 4;
    let bz: i64 = (corners[0][2] as i64 + corners[1][2] as i64 + corners[2][2] as i64 + corners[3][2] as i64
        - 2 * normal[2] as i64) / 4;
    let ghost c = quad_cell(face as int, q, (q.1 / 2) as int, (q.2 / 2) as int);
    assert(bx == c[0] && by == c[1] && bz == c[2]);
    assert(in_padded(c));
    let b: [u32; 3] = [bx as u32, by as u32, bz as u32];
    assert(b =~= c);
    samples.get(b)
}

/// Lowers quads to a mesh: for each direction in turn and each of its quads in order, four
/// vertices and two triangles, textured and tinted by the quad's voxel type. Also returns the
/// number of vertices.
pub fn mesh_from_quads(samples: &VoxelGrid, groups: &Vec<Vec<Quad>>, atlas: &TextureAtlas) -> (r: (ChunkMesh, usize))
    requires
        samples.wf(),
        atlas.wf(),
        groups@.len() == 6,
        forall|f: int| 0 <= f < 6 ==> merges_faces(samples@, f, (#[trigger] groups@[f])@),
    ensures
        r.0.lowers(samples@, all_quads(group_views(groups@)), atlas.frames()),
        r.1 == r.0.positions@.len(),
        r.1 == 4 * all_quads(group_views(groups@)).len(),
        r.0.indices@.len() == 6 * all_quads(group_views(groups@)).len(),
{
    let ghost g = samples@;
    let ghost frames = atlas.frames();
    let ghost gv = group_views(groups@);
    assert forall|f: int| 0 <= f < 6 implies merges_faces(g, f, #[trigger] gv[f]) by {
        assert(gv[f] == groups@[f]@);
    }
    let mut positions: Vec<[u32; 3]> = Vec::new();
    let mut normals: Vec<[i32; 3]> = Vec::new();
    let mut uvs: Vec<[u64; 2]> = Vec::new();
    let mut colors: Vec<Tint> = Vec::new();
    let mut indices: Vec<u32> = Vec::new();
    let ghost mut done: Seq<(int, Quad)> = Seq::empty();
    let mut f: usize = 0;
    while f < 6
        invariant
            samples.wf(),
            atlas.wf(),
            g == samples@,
            frames == atlas.frames(),
            f <= 6,
            groups@.len() == 6,
            gv == group_views(groups@),
            forall|f: int| 0 <= f < 6 ==> merges_faces(g, f, #[trigger] gv[f]),
            done == quads_upto(gv, f as int),
            positions@ == positions_of(done),
            normals@ == normals_of(done),
            colors@ == colors_of(g, done),
            uvs@ == uvs_of(g, frames, done),
            indices@ == indices_of(done),
        decreases 6 - f,
    {
        let group = &groups[f];
        let ghost fq = gv[f as int];
        assert(group@ == fq);
        proof {
            lemma_quads_upto_members(g, gv, f as int);
        }
        let mut j: usize = 0;
        while j < group.len()
            invariant
                samples.wf(),
                atlas.wf(),
                g == samples@,
                frames == atlas.frames(),
                f < 6,
                group@ == fq,
                merges_faces(g, f as int, fq),
                j <= fq.len(),
                quads_upto(gv, f as int).len() <= 32768 * f,
                done == quads_upto(gv, f as int) + fq.take(j as int).map_values(|q: Quad| (f as int, q)),
                positions@ == positions_of(done),
                normals@ == normals_of(done),
                colors@ == colors_of(g, done),
                uvs@ == uvs_of(g, frames, done),
                indices@ == indices_of(done),
            decreases fq.len() - j,
        {
            let q = group[j];
            assert(quad_fits(g, f as int, fq[j as int]));
            proof {
                lemma_buffer_lengths(g, frames, done);
                lemma_fitting_quad(g, f as int, q);
                lemma_quad_extent(g, f as int, q);
            }
            let start = positions.len() as u32;
            let corners = quad_corners(f, q);
            let quad_indices = quad_mesh_indices(f, start);
            let normal = signed_normal(f);
            let voxel_type = face_to_voxel_type(samples, f, corners, Ghost(q));
            assert(voxel_type == g[linear_index(q.0)]) by {
                assert(g[linear_index(quad_cell(f as int, q, (q.1 / 2) as int, (q.2 / 2) as int))] == g[linear_index(q.0)]);
            }
            let tint = face_tint(normal, voxel_type);
            let frame_name = voxel_texture_name(normal, voxel_type);
            proof {
                lemma_texture_name_required(normal[1] as int, voxel_type);
            }
            let frame = atlas.frame(frame_name).unwrap();
            let uv = atlas_uv(&frame);
            let mut k: usize = 0;
            while k < 6
                invariant
                    k <= 6,
                    indices@ == indices_of(done) + quad_indices@.take(k as int),
                decreases 6 - k,
            {
                indices.push(quad_indices[k]);
                assert(quad_indices@.take(k + 1) =~= quad_indices@.take(k as int).push(quad_indices[k as int]));
                k = k + 1;
            }
            let mut k: usize = 0;
            while k < 4
                invariant
                    k <= 4,
                    positions@ == positions_of(done) + corners@.take(k as int),
                    normals@ == normals_of(done) + Seq::new(k as nat, |i: int| normal),
                    colors@ == colors_of(g, done) + Seq::new(k as nat, |i: int| tint),
                    uvs@ == uvs_of(g, frames, done) + uv@.take(k as int),
                decreases 4 - k,
            {
                positions.push(corners[k]);
                normals.push(normal);
                colors.push(tint);
                uvs.push(uv[k]);
                assert(corners@.take(k + 1) =~= corners@.take(k as int).push(corners[k as int]));
                assert(uv@.take(k + 1) =~= uv@.take(k as int).push(uv[k as int]));
                assert(Seq::new((k + 1) as nat, |i: int| normal) =~= Seq::new(k as nat, |i: int| normal).push(normal));
                assert(Seq::new((k + 1) as nat, |i: int| tint) =~= Seq::new(k as nat, |i: int| tint).push(tint));
                k = k + 1;
            }
            let ghost fq_item = (f as int, q);
            let ghost next = done.push(fq_item);
            assert(next.drop_last() =~= done);
            assert(positions@ =~= positions_of(next));
            assert(normals@ =~= normals_of(next));
            assert(colors@ =~= colors_of(g, next));
            assert(uvs@ =~= uvs_of(g, frames, next));
            assert(indices@ =~= indices_of(next));
            assert(fq.take(j + 1).map_values(|q: Quad| (f as int, q)) =~= fq.take(j as int).map_values(
                |q: Quad| (f as int, q),
            ).push(fq_item));
            proof {
                done = next;
            }
            j = j + 1;
        }
        assert(fq.take(fq.len() as int) =~= fq);
        assert(done =~= quads_upto(gv, f + 1));
        f = f + 1;
    }
    proof {
        lemma_buffer_lengths(g, frames, done);
    }
    let generated = positions.len();
    (ChunkMesh { positions, normals, uvs, colors, indices }, generated)
}

/// A fitting quad's extent: its lower cell is interior and it spans at most 32 cells each way.
proof fn lemma_quad_extent(g: Seq<VoxelType>, f: int, q: Quad)
    requires
        quad_fits(g, f, q),
    ensures
        q.1 <= 32,
        q.2 <= 32,
        in_padded(q.0),
{
    lemma_fitting_quad(g, f, q);
}

/// Meshes a chunk: the drawn faces of its interior cells merged into greedy quads, each lowered
/// to four vertices and two triangles. Also returns the number of vertices.
pub fn generate_simple_mesh(samples: &VoxelGrid, atlas: &TextureAtlas) -> (r: (ChunkMesh, usize))
    requires
        samples.wf(),
        atlas.wf(),
    ensures
        r.0.is_mesh_of(samples@, atlas.frames()),
        r.1 == r.0.positions@.len(),
        r.1 == 4 * mesh_quads(samples@).len(),
        r.0.indices@.len() == 6 * mesh_quads(samples@).len(),
        forall|f: int| 0 <= f < 6 ==> merges_faces(samples@, f, #[trigger] greedy_quads_of(samples@)[f]),
{
    let groups = greedy_faces(samples.samples());
    let ghost gv = group_views(groups@);
    assert forall|f: int| 0 <= f < 6 implies gv[f] == greedy_quads_of(samples@)[f] by {
        assert(gv[f] == groups@[f]@);
    }
    proof {
        lemma_quads_upto_agree(gv, greedy_quads_of(samples@), 6);
    }
    assert forall|f: int| 0 <= f < 6 implies merges_faces(samples@, f, #[trigger] greedy_quads_of(samples@)[f]) by {
        assert(groups@[f]@ == greedy_quads_of(samples@)[f]);
        assert(merges_faces(samples@, f, groups@[f]@));
    }
    mesh_from_quads(samples, &groups, atlas)
}

/// No quad of any direction when no interior cell shows a face.
proof fn lemma_no_visible_no_quads(g: Seq<VoxelType>, groups: Seq<Seq<Quad>>, f: int)
    requires
        0 <= f <= 6,
        forall|k: int| 0 <= k < 6 ==> merges_faces(g, k, #[trigger] groups[k]),
        forall|k: int, p: [u32; 3]| 0 <= k < 6 && interior(p) ==> !#[trigger] face_visible(g, p, k),
    ensures
        quads_upto(groups, f).len() == 0,
    decreases f,
{
    if f > 0 {
        lemma_no_visible_no_quads(g, groups, f - 1);
        if groups[f - 1].len() > 0 {
            assert(quad_fits(g, f - 1, groups[f - 1][0]));
            lemma_fitting_quad(g, f - 1, groups[f - 1][0]);
        }
    }
}

/// An all-empty grid has no drawn face, so its mesh has no quad, no vertex and no index.
pub proof fn lemma_empty_grid_no_faces(g: Seq<VoxelType>, groups: Seq<Seq<Quad>>, frames: Seq<(Seq<char>, Frame)>)
    requires
        g.len() == 39304,
        forall|i: int| 0 <= i < 39304 ==> g[i] == VoxelType::Empty,
        forall|k: int| 0 <= k < 6 ==> merges_faces(g, k, #[trigger] groups[k]),
    ensures
        all_quads(groups).len() == 0,
        positions_of(all_quads(groups)).len() == 0,
        indices_of(all_quads(groups)).len() == 0,
{
    assert forall|k: int, p: [u32; 3]| 0 <= k < 6 && interior(p) implies !#[trigger] face_visible(g, p, k) by {
        lemma_delinearize_linearize(p);
    }
    lemma_no_visible_no_quads(g, groups, 6);
    lemma_buffer_lengths(g, frames, all_quads(groups));
}

proof fn lemma_quads_upto_grows(groups: Seq<Seq<Quad>>, a: int, b: int)
    requires
        0 <= a <= b,
    ensures
        quads_upto(groups, a).len() <= quads_upto(groups, b).len(),
    decreases b - a,
{
    if a < b {
        lemma_quads_upto_grows(groups, a, b - 1);
    }
}

/// A grid with an interior cell that shows one of its faces has a mesh with a quad.
pub proof fn lemma_visible_face_meshed(g: Seq<VoxelType>, groups: Seq<Seq<Quad>>, p: [u32; 3], f: int)
    requires
        0 <= f < 6,
        interior(p),
        face_visible(g, p, f),
        forall|k: int| 0 <= k < 6 ==> merges_faces(g, k, #[trigger] groups[k]),
    ensures
        all_quads(groups).len() > 0,
{
    assert(merges_faces(g, f, groups[f]));
    assert(groups[f].len() > 0);
    assert(quads_upto(groups, f + 1).len() >= groups[f].len());
    lemma_quads_upto_grows(groups, f + 1, 6);
}

/// When every interior cell is opaque, the quads of each direction tile exactly the faces against
/// an empty halo: every cell of every quad has a halo cell across its face, every interior cell
/// with an empty halo cell across face `f` lies in a quad of direction `f`, and no two quads of a
/// direction share a cell.
pub proof fn lemma_solid_interior_faces_on_halo(g: Seq<VoxelType>, groups: Seq<Seq<Quad>>)
    requires
        g.len() == 39304,
        forall|p: [u32; 3]| interior(p) ==> visibility_of(#[trigger] g[linear_index(p)]) == Visibility::Opaque,
        forall|k: int| 0 <= k < 6 ==> merges_faces(g, k, #[trigger] groups[k]),
    ensures
        forall|f: int, j: int, a: int, b: int|
            0 <= f < 6 && 0 <= j < groups[f].len() && 0 <= a < groups[f][j].1 && 0 <= b < groups[f][j].2
                ==> !interior(neighbor(#[trigger] quad_cell(f, groups[f][j], a, b), f)),
        forall|f: int, p: [u32; 3]|
            0 <= f < 6 && interior(p) && !interior(neighbor(p, f)) && g[linear_index(neighbor(p, f))]
                == VoxelType::Empty ==> exists|j: int| 0 <= j < groups[f].len() && #[trigger] quad_covers(f, groups[f][j], p),
        forall|f: int, j: int, k: int, p: [u32; 3]|
            0 <= f < 6 && 0 <= j < k < groups[f].len() ==> !(#[trigger] quad_covers(f, groups[f][j], p)
                && #[trigger] quad_covers(f, groups[f][k], p)),
{
    assert forall|f: int, j: int, a: int, b: int|
        0 <= f < 6 && 0 <= j < groups[f].len() && 0 <= a < groups[f][j].1 && 0 <= b < groups[f][j].2
            implies !interior(neighbor(#[trigger] quad_cell(f, groups[f][j], a, b), f)) by {
        assert(merges_faces(g, f, groups[f]));
        assert(quad_fits(g, f, groups[f][j]));
        let c = quad_cell(f, groups[f][j], a, b);
        assert(face_visible(g, c, f));
        if interior(neighbor(c, f)) {
            assert(visibility_of(g[linear_index(neighbor(c, f))]) == Visibility::Opaque);
        }
    }
    assert forall|f: int, p: [u32; 3]|
        0 <= f < 6 && interior(p) && !interior(neighbor(p, f)) && g[linear_index(neighbor(p, f))]
            == VoxelType::Empty implies exists|j: int| 0 <= j < groups[f].len() && #[trigger] quad_covers(f, groups[f][j], p) by {
        assert(merges_faces(g, f, groups[f]));
        assert(visibility_of(g[linear_index(p)]) == Visibility::Opaque);
        assert(face_visible(g, p, f));
    }
    assert forall|f: int, j: int, k: int, p: [u32; 3]|
        0 <= f < 6 && 0 <= j < k < groups[f].len() implies !(#[trigger] quad_covers(f, groups[f][j], p)
            && #[trigger] quad_covers(f, groups[f][k], p)) by {
        assert(merges_faces(g, f, groups[f]));
    }
}

/// A grid whose every cell, halo included, is opaque draws no face: its mesh has no quad.
pub proof fn lemma_enclosed_solid_no_faces(g: Seq<VoxelType>, groups: Seq<Seq<Quad>>)
    requires
        g.len() == 39304,
        forall|i: int| 0 <= i < 39304 ==> visibility_of(#[trigger] g[i]) == Visibility::Opaque,
        forall|k: int| 0 <= k < 6 ==> merges_faces(g, k, #[trigger] groups[k]),
    ensures
        all_quads(groups).len() == 0,
{
    assert forall|k: int, p: [u32; 3]| 0 <= k < 6 && interior(p) implies !#[trigger] face_visible(g, p, k) by {
        lemma_delinearize_linearize(neighbor(p, k));
    }
    lemma_no_visible_no_quads(g, groups, 6);
}

/// A mesh is determined by its grid and atlas: any two meshes of the same grid and atlas, such
/// as those of two meshing runs over an unchanged grid, are equal.
pub proof fn lemma_mesh_deterministic(m1: &ChunkMesh, m2: &ChunkMesh, g: Seq<VoxelType>, frames: Seq<(Seq<char>, Frame)>)
    requires
        m1.is_mesh_of(g, frames),
        m2.is_mesh_of(g, frames),
    ensures
        m1.positions@ == m2.positions@,
        m1.normals@ == m2.normals@,
        m1.uvs@ == m2.uvs@,
        m1.colors@ == m2.colors@,
        m1.indices@ == m2.indices@,
{
}

/// The quads of one direction when a single interior cell is non-empty: one unit quad on it.
proof fn lemma_lone_voxel_group(g: Seq<VoxelType>, qs: Seq<Quad>, p: [u32; 3], f: int)
    requires
        g.len() == 39304,
        0 <= f < 6,
        interior(p),
        g[linear_index(p)] != VoxelType::Empty,
        forall|i: int| 0 <= i < 39304 && i != linear_index(p) ==> g[i] == VoxelType::Empty,
        merges_faces(g, f, qs),
    ensures
        qs == seq![(p, 1u32, 1u32)],
{
    lemma_delinearize_linearize(p);
    let nb = neighbor(p, f);
    lemma_delinearize_linearize(nb);
    assert(linear_index(nb) != linear_index(p));
    assert(face_visible(g, p, f));
    assert forall|j: int| 0 <= j < qs.len() implies #[trigger] qs[j] == (p, 1u32, 1u32) by {
        let q = qs[j];
        assert(quad_fits(g, f, q));
        assert forall|a: int, b: int| 0 <= a < q.1 && 0 <= b < q.2 implies #[trigger] quad_cell(f, q, a, b) == p by {
            let c = quad_cell(f, q, a, b);
            assert(interior(c) && face_visible(g, c, f));
            lemma_delinearize_linearize(c);
        }
        lemma_quad_cell_origin(f, q);
        assert(q.0 == p);
        if q.1 >= 2 {
            assert(quad_cell(f, q, 1, 0) == p);
        }
        if q.2 >= 2 {
            assert(quad_cell(f, q, 0, 1) == p);
        }
    }
    let j0 = choose|j: int| 0 <= j < qs.len() && quad_covers(f, qs[j], p);
    if qs.len() >= 2 {
        lemma_quad_cell_origin(f, qs[0]);
        lemma_quad_cell_origin(f, qs[1]);
        assert(quad_covers(f, qs[0], p));
        assert(quad_covers(f, qs[1], p));
    }
    assert(qs =~= seq![(p, 1u32, 1u32)]);
}

/// A single non-empty interior cell among empty cells draws all six of its faces and nothing
/// else: six unit quads of its type, 24 vertices and 36 indices.
pub proof fn lemma_lone_voxel_mesh(g: Seq<VoxelType>, groups: Seq<Seq<Quad>>, frames: Seq<(Seq<char>, Frame)>, p: [u32; 3])
    requires
        g.len() == 39304,
        interior(p),
        g[linear_index(p)] != VoxelType::Empty,
        forall|i: int| 0 <= i < 39304 && i != linear_index(p) ==> g[i] == VoxelType::Empty,
        forall|k: int| 0 <= k < 6 ==> merges_faces(g, k, #[trigger] groups[k]),
    ensures
        all_quads(groups) == seq![
            (0int, (p, 1u32, 1u32)),
            (1int, (p, 1u32, 1u32)),
            (2int, (p, 1u32, 1u32)),
            (3int, (p, 1u32, 1u32)),
            (4int, (p, 1u32, 1u32)),
            (5int, (p, 1u32, 1u32)),
        ],
        forall|k: int| 0 <= k < 6 ==> quad_voxel(g, #[trigger] all_quads(groups)[k]) == g[linear_index(p)],
        positions_of(all_quads(groups)).len() == 24,
        indices_of(all_quads(groups)).len() == 36,
{
    let u = (p, 1u32, 1u32);
    lemma_lone_voxel_group(g, groups[0], p, 0);
    lemma_lone_voxel_group(g, groups[1], p, 1);
    lemma_lone_voxel_group(g, groups[2], p, 2);
    lemma_lone_voxel_group(g, groups[3], p, 3);
    lemma_lone_voxel_group(g, groups[4], p, 4);
    lemma_lone_voxel_group(g, groups[5], p, 5);
    assert(quads_upto(groups, 0) =~= Seq::empty());
    assert(quads_upto(groups, 1) =~= seq![(0int, u)]);
    assert(quads_upto(groups, 2) =~= seq![(0int, u), (1int, u)]);
    assert(quads_upto(groups, 3) =~= seq![(0int, u), (1int, u), (2int, u)]);
    assert(quads_upto(groups, 4) =~= seq![(0int, u), (1int, u), (2int, u), (3int, u)]);
    assert(quads_upto(groups, 5) =~= seq![(0int, u), (1int, u), (2int, u), (3int, u), (4int, u)]);
    assert(quads_upto(groups, 6) =~= seq![(0int, u), (1int, u), (2int, u), (3int, u), (4int, u), (5int, u)]);
    lemma_buffer_lengths(g, frames, all_quads(groups));
}

proof fn lemma_indices_below(qs: Seq<(int, Quad)>)
    requires
        4 * qs.len() + 3 <= 0xffff_ffff,
    ensures
        forall|i: int| 0 <= i < indices_of(qs).len() ==> (#[trigger] indices_of(qs)[i]) < 4 * qs.len(),
    decreases qs.len(),
{
    if qs.len() > 0 {
        let rest = qs.drop_last();
        lemma_indices_below(rest);
        lemma_buffer_lengths(Seq::empty(), Seq::empty(), rest);
        assert forall|i: int| 0 <= i < indices_of(qs).len() implies (#[trigger] indices_of(qs)[i]) < 4 * qs.len() by {
            if i < indices_of(rest).len() {
                assert(indices_of(qs)[i] == indices_of(rest)[i]);
            }
        }
    }
}

/// In a mesh lowered from merged quads, the indices come in whole triangles and each names a vertex.
pub proof fn lemma_mesh_indices_in_range(m: &ChunkMesh, g: Seq<VoxelType>, groups: Seq<Seq<Quad>>, frames: Seq<(Seq<char>, Frame)>)
    requires
        m.lowers(g, all_quads(groups), frames),
        forall|k: int| 0 <= k < 6 ==> merges_faces(g, k, #[trigger] groups[k]),
    ensures
        m.indices_in_range(),
{
    lemma_quads_upto_members(g, groups, 6);
    lemma_buffer_lengths(g, frames, all_quads(groups));
    lemma_indices_below(all_quads(groups));
}

/// The triangles of a mesh for its collision shape: for each triangle, the positions of its
/// three vertices.
pub fn collider_triangles(mesh: &ChunkMesh) -> (r: Vec<[[u32; 3]; 3]>)
    requires
        mesh.indices_in_range(),
    ensures
        3 * r@.len() == mesh.indices@.len(),
        forall|t: int| 0 <= t < r@.len() ==> #[trigger] r@[t] == [
            mesh.positions@[mesh.indices@[3 * t] as int],
            mesh.positions@[mesh.indices@[3 * t + 1] as int],
            mesh.positions@[mesh.indices@[3 * t + 2] as int],
        ],
{
    let mut triangles: Vec<[[u32; 3]; 3]> = Vec::new();
    let len = mesh.indices.len();
    let n = len / 3;
    let mut t: usize = 0;
    while t < n
        invariant
            mesh.indices_in_range(),
            len == mesh.indices@.len(),
            3 * n == len,
            t <= n,
            triangles@.len() == t,
            forall|s: int| 0 <= s < t ==> #[trigger] triangles@[s] == [
                mesh.positions@[mesh.indices@[3 * s] as int],
                mesh.positions@[mesh.indices@[3 * s + 1] as int],
                mesh.positions@[mesh.indices@[3 * s + 2] as int],
            ],
        decreases n - t,
    {
        let a = mesh.indices[3 * t];
        let b = mesh.indices[3 * t + 1];
        let c = mesh.indices[3 * t + 2];
        triangles.push([mesh.positions[a as usize], mesh.positions[b as usize], mesh.positions[c as usize]]);
        t = t + 1;
    }
    triangles
}

} // verus!
