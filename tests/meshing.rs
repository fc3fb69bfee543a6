use voxel_world::atlas::{Frame, TextureAtlas, Tint};
use voxel_world::grid::{delinearize, linearize, VoxelGrid, GRID_SIZE};
use voxel_world::mesher::{collider_triangles, generate_simple_mesh};
use voxel_world::voxel::VoxelType;

const FRAME_NAMES: [&str; 9] = [
    "grass_block_top.png",
    "dirt.png",
    "grass_block_side.png",
    "stone.png",
    "sand.png",
    "oak_log_top.png",
    "oak_log.png",
    "oak_leaves.png",
    "cobblestone.png",
];

fn test_atlas() -> TextureAtlas {
    let mut frames = Vec::new();
    for (k, name) in FRAME_NAMES.iter().enumerate() {
        frames.push((name.to_string(), Frame { x: 16 * k as u32, y: 8, w: 16, h: 16 }));
    }
    TextureAtlas::new(frames, 256, 32).unwrap()
}

fn frame_x(name: &str) -> u64 {
    16 * FRAME_NAMES.iter().position(|n| *n == name).unwrap() as u64
}

fn lone_voxel_grid(p: [u32; 3], t: VoxelType) -> VoxelGrid {
    let mut g = VoxelGrid::new_empty();
    g.set(p, t);
    g
}

#[test]
fn linearize_round_trips_every_cell() {
    for i in 0..GRID_SIZE {
        let c = delinearize(i);
        assert!(c[0] < 34 && c[1] < 34 && c[2] < 34);
        assert_eq!(linearize(c), i);
    }
    assert_eq!(linearize([1, 2, 3]), 1 + 34 * 2 + 1156 * 3);
    assert_eq!(delinearize(1 + 34 * 2 + 1156 * 3), [1, 2, 3]);
    assert_eq!(delinearize(GRID_SIZE - 1), [33, 33, 33]);
}

#[test]
fn empty_grid_has_no_quads() {
    let atlas = test_atlas();
    let (mesh, generated) = generate_simple_mesh(&VoxelGrid::new_empty(), &atlas);
    assert_eq!(generated, 0);
    assert!(mesh.positions.is_empty());
    assert!(mesh.indices.is_empty());
}

#[test]
fn solid_interior_draws_only_faces_against_halo() {
    let atlas = test_atlas();
    let mut g = VoxelGrid::new_empty();
    for z in 1..33u32 {
        for y in 1..33u32 {
            for x in 1..33u32 {
                g.set([x, y, z], VoxelType::Stone);
            }
        }
    }
    let (mesh, generated) = generate_simple_mesh(&g, &atlas);
    // Each side of the cube is one 32 by 32 quad.
    assert_eq!(generated, 6 * 4);
    assert_eq!(mesh.indices.len(), 6 * 6);
    for q in 0..6 {
        let n = mesh.normals[4 * q];
        let lo = (0..3).map(|a| mesh.positions[4 * q..4 * q + 4].iter().map(|c| c[a]).min().unwrap());
        let hi = (0..3).map(|a| mesh.positions[4 * q..4 * q + 4].iter().map(|c| c[a]).max().unwrap());
        for (a, (l, h)) in lo.zip(hi).enumerate() {
            if n[a] == 0 {
                assert_eq!((l, h), (1, 33));
            }
        }
    }
    for q in 0..generated / 4 {
        let n = mesh.normals[4 * q];
        let c = mesh.positions[4 * q];
        // A face on the low side of a cell lies on plane 1, on the high side on plane 33.
        for a in 0..3 {
            if n[a] == -1 {
                assert_eq!(c[a], 1);
            }
            if n[a] == 1 {
                assert_eq!(c[a], 33);
            }
        }
    }
}

#[test]
fn meshing_twice_gives_the_same_mesh() {
    let atlas = test_atlas();
    let mut g = VoxelGrid::new_empty();
    for x in 1..20u32 {
        g.set([x, 5, 7], VoxelType::Grass);
        g.set([x, 6, 7], VoxelType::OakLeaves);
    }
    let (a, na) = generate_simple_mesh(&g, &atlas);
    let (b, nb) = generate_simple_mesh(&g, &atlas);
    assert_eq!(na, nb);
    assert_eq!(a.positions, b.positions);
    assert_eq!(a.normals, b.normals);
    assert_eq!(a.uvs, b.uvs);
    assert_eq!(a.colors, b.colors);
    assert_eq!(a.indices, b.indices);
}

#[test]
fn lone_voxel_draws_six_faces() {
    let atlas = test_atlas();
    let p = [10, 11, 12];
    let (mesh, generated) = generate_simple_mesh(&lone_voxel_grid(p, VoxelType::Stone), &atlas);
    assert_eq!(generated, 24);
    assert_eq!(mesh.positions.len(), 24);
    assert_eq!(mesh.normals.len(), 24);
    assert_eq!(mesh.uvs.len(), 24);
    assert_eq!(mesh.colors.len(), 24);
    assert_eq!(mesh.indices.len(), 36);
    let normals = [[-1, 0, 0], [0, -1, 0], [0, 0, -1], [1, 0, 0], [0, 1, 0], [0, 0, 1]];
    for f in 0..6 {
        for v in 0..4 {
            assert_eq!(mesh.normals[4 * f + v], normals[f]);
            assert_eq!(mesh.colors[4 * f + v], Tint::White);
        }
    }
    let x = frame_x("stone.png");
    for f in 0..6 {
        assert_eq!(&mesh.uvs[4 * f..4 * f + 4], &[[x, 24], [x + 16, 24], [x, 8], [x + 16, 8]]);
    }
    assert!(mesh.indices.iter().all(|&i| (i as usize) < generated));
}

#[test]
fn lone_voxel_corners_and_winding() {
    let atlas = test_atlas();
    let (mesh, _) = generate_simple_mesh(&lone_voxel_grid([10, 11, 12], VoxelType::Stone), &atlas);
    // -X face: the lower corner, then along +Z, along +Y, and both.
    assert_eq!(&mesh.positions[0..4], &[[10, 11, 12], [10, 11, 13], [10, 12, 12], [10, 12, 13]]);
    // +Y face starts one step up and runs along +Z, then +X.
    assert_eq!(&mesh.positions[16..20], &[[10, 12, 12], [10, 12, 13], [11, 12, 12], [11, 12, 13]]);
    // -X is wound counter-clockwise, -Y clockwise.
    assert_eq!(&mesh.indices[0..6], &[0, 1, 2, 1, 3, 2]);
    assert_eq!(&mesh.indices[6..12], &[4, 6, 5, 5, 6, 7]);
}

#[test]
fn grass_top_is_green_and_textured_apart() {
    let atlas = test_atlas();
    let (mesh, _) = generate_simple_mesh(&lone_voxel_grid([3, 3, 3], VoxelType::Grass), &atlas);
    // Faces: -X, -Y, -Z, +X, +Y, +Z.
    let names = [
        "grass_block_side.png",
        "dirt.png",
        "grass_block_side.png",
        "grass_block_side.png",
        "grass_block_top.png",
        "grass_block_side.png",
    ];
    for f in 0..6 {
        assert_eq!(mesh.uvs[4 * f][0], frame_x(names[f]));
        let tint = if f == 4 { Tint::Green } else { Tint::White };
        assert_eq!(mesh.colors[4 * f], tint);
    }
}

#[test]
fn leaves_cull_against_leaves_but_not_solid_against_leaves() {
    let atlas = test_atlas();
    let mut g = VoxelGrid::new_empty();
    g.set([5, 5, 5], VoxelType::OakLeaves);
    g.set([6, 5, 5], VoxelType::OakLeaves);
    let (_, two_leaves) = generate_simple_mesh(&g, &atlas);
    // The outer ends stay single; the four long sides merge across both cells.
    assert_eq!(two_leaves, 6 * 4);
    g.set([6, 5, 5], VoxelType::OakLog);
    let (mesh, leaf_and_log) = generate_simple_mesh(&g, &atlas);
    // The log shows its face toward the leaves; the leaves hide theirs toward the log.
    assert_eq!(leaf_and_log, 11 * 4);
    assert!(mesh.colors.iter().filter(|c| **c == Tint::Green).count() == 5 * 4);
}

#[test]
fn halo_cells_are_not_meshed() {
    let atlas = test_atlas();
    let (_, generated) = generate_simple_mesh(&lone_voxel_grid([0, 5, 5], VoxelType::Stone), &atlas);
    assert_eq!(generated, 0);
    let (_, generated) = generate_simple_mesh(&lone_voxel_grid([32, 32, 32], VoxelType::Stone), &atlas);
    assert_eq!(generated, 24);
}

#[test]
fn collider_takes_each_triangle_from_the_mesh() {
    let atlas = test_atlas();
    let (mesh, _) = generate_simple_mesh(&lone_voxel_grid([10, 11, 12], VoxelType::Stone), &atlas);
    let tris = collider_triangles(&mesh);
    assert_eq!(tris.len(), 12);
    assert_eq!(tris[0], [[10, 11, 12], [10, 11, 13], [10, 12, 12]]);
    assert_eq!(tris[2], [mesh.positions[4], mesh.positions[6], mesh.positions[5]]);
    assert!(collider_triangles(&generate_simple_mesh(&VoxelGrid::new_empty(), &atlas).0).is_empty());
}

#[test]
fn adjacent_faces_merge_only_within_one_type() {
    let atlas = test_atlas();
    let mut g = VoxelGrid::new_empty();
    g.set([5, 5, 5], VoxelType::Stone);
    g.set([6, 5, 5], VoxelType::Stone);
    let (mesh, generated) = generate_simple_mesh(&g, &atlas);
    assert_eq!(generated, 6 * 4);
    // The -Y face runs along +Z then +X: one quad two cells high.
    assert_eq!(&mesh.positions[4..8], &[[5, 5, 5], [5, 5, 6], [7, 5, 5], [7, 5, 6]]);
    g.set([6, 5, 5], VoxelType::Dirt);
    let (_, generated) = generate_simple_mesh(&g, &atlas);
    assert_eq!(generated, 10 * 4);
}
