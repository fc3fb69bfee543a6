use voxel_world::atlas::{AtlasError, Frame, TextureAtlas};
use voxel_world::edit::{dig_event_handler, edit_request, voxel_position_from_world, DigEvent, DigEventType, MouseButton};
use voxel_world::grid::{delinearize, linearize, VoxelGrid, GRID_SIZE};
use voxel_world::mesher::generate_simple_mesh;
use voxel_world::registry::ChunkRegistry;
use voxel_world::terrain::{generate_chunk, generate_terrain, Biome, ColumnSample, TerrainField};
use voxel_world::vegetation::{change_voxel, generate_tree, tree_voxels, TreeShape};
use voxel_world::voxel::{MaterialVoxel, VoxelType};
use voxel_world::world::{build_world, generate_world, plant_trees, plant_trees_with, tree_columns};

const FRAME_NAMES: [&str; 9] = [
    "grass_block_top.png",
    "dirt.png",
    "grass_block_side.png",
    "stone.png",
    "sand.png",
    "oak_log_top.png",
    "oak_log.png",
    "oak_leaves.png",
    "cobblestone.png",
];

fn full_atlas() -> TextureAtlas {
    let frames = FRAME_NAMES
        .iter()
        .enumerate()
        .map(|(k, n)| (n.to_string(), Frame { x: 16 * k as u32, y: 0, w: 16, h: 16 }))
        .collect();
    TextureAtlas::new(frames, 256, 16).unwrap()
}

/// Columns from `min` to `min + size - 1` on both axes, with the height and biome given per column.
fn field_with(min: i64, size: u32, col: impl Fn(i64, i64) -> ColumnSample) -> TerrainField {
    let mut columns = Vec::new();
    for dz in 0..size as i64 {
        for dx in 0..size as i64 {
            columns.push(col(min + dx, min + dz));
        }
    }
    TerrainField::new(min, min, size, size, columns).unwrap()
}

fn varied_column(x: i64, z: i64) -> ColumnSample {
    let biome = match (x + z).rem_euclid(3) {
        0 => Biome::Dirt,
        1 => Biome::Grass,
        _ => Biome::Stone,
    };
    ColumnSample { height: (x * 7 + z * 3).rem_euclid(20) - 10, biome }
}

fn registry_with(coord: [i32; 3], grid: VoxelGrid) -> ChunkRegistry {
    let mut reg = ChunkRegistry::new();
    reg.insert(coord, grid);
    reg
}

#[test]
fn fresh_chunk_is_empty_exactly_above_the_surface() {
    let field = field_with(-40, 120, varied_column);
    for coord in [[0, 0, 0], [-1, -1, 1], [1, 0, -1]] {
        let g = generate_chunk(&field, coord).unwrap();
        for i in 0..GRID_SIZE {
            let p = delinearize(i);
            let x = 32 * coord[0] as i64 + p[0] as i64 - 1;
            let y = 32 * coord[1] as i64 + p[1] as i64 - 1;
            let z = 32 * coord[2] as i64 + p[2] as i64 - 1;
            let col = varied_column(x, z);
            let t = g.get(p);
            assert_eq!(t == VoxelType::Empty, y > col.height);
            if y == col.height {
                let surface = match col.biome {
                    Biome::Dirt => VoxelType::Dirt,
                    Biome::Grass => VoxelType::Grass,
                    Biome::Stone => VoxelType::Stone,
                };
                assert_eq!(t, surface);
            } else if y < col.height {
                assert_eq!(t, VoxelType::Sand);
            }
        }
    }
}

#[test]
fn missing_columns_stop_generation() {
    let field = field_with(-1, 34, varied_column);
    assert!(generate_chunk(&field, [0, 0, 0]).is_some());
    assert!(generate_chunk(&field, [1, 0, 0]).is_none());
    assert!(generate_terrain(&field, 1).is_none());
    assert!(TerrainField::new(0, 0, 2, 2, vec![varied_column(0, 0); 3]).is_none());
}

#[test]
fn terrain_window_holds_each_chunk_once() {
    let field = field_with(-33, 98, varied_column);
    let reg = generate_terrain(&field, 1).unwrap();
    assert_eq!(reg.len(), 27);
    for x in -1..=1 {
        for y in -1..=1 {
            for z in -1..=1 {
                let k = reg.find([x, y, z]).unwrap();
                assert_eq!(reg.coord(k), [x, y, z]);
            }
        }
    }
    assert!(reg.find([2, 0, 0]).is_none());
}

#[test]
fn atlas_without_a_needed_frame_is_refused() {
    let frames: Vec<(String, Frame)> = FRAME_NAMES[..8]
        .iter()
        .map(|n| (n.to_string(), Frame { x: 0, y: 0, w: 16, h: 16 }))
        .collect();
    match TextureAtlas::new(frames, 16, 16) {
        Err(AtlasError::MissingAtlasFrame(name)) => assert_eq!(name, "cobblestone.png"),
        Ok(_) => panic!("an atlas without cobblestone was accepted"),
    }
    let atlas = full_atlas();
    assert_eq!(atlas.frame("sand.png"), Some(Frame { x: 64, y: 0, w: 16, h: 16 }));
    assert_eq!(atlas.frame("debug.png"), None);
    assert_eq!(atlas.image_size(), (256, 16));
}

#[test]
fn edit_location_is_bounded_by_the_padded_grid() {
    assert_eq!(voxel_position_from_world([1, 0, -1], [32, 0, -32]), Some([0, 0, 0]));
    assert_eq!(voxel_position_from_world([1, 0, -1], [65, 33, 1]), Some([33, 33, 33]));
    assert_eq!(voxel_position_from_world([1, 0, -1], [31, 5, -30]), None);
    assert_eq!(voxel_position_from_world([1, 0, -1], [40, 34, -30]), None);
}

#[test]
fn edit_outside_a_chunk_leaves_it_alone() {
    let atlas = full_atlas();
    let field = field_with(-33, 98, varied_column);
    let mut reg = registry_with([0, 0, 0], generate_chunk(&field, [0, 0, 0]).unwrap());
    let before: Vec<MaterialVoxel> = reg.grid(0).samples().clone();
    for cell in [[-1, 5, 5], [5, 34, 5], [5, 5, 100]] {
        let ev = DigEvent { event_type: DigEventType::Dig, world_cell: cell };
        let updates = dig_event_handler(&mut reg, &atlas, &ev);
        assert!(updates.is_empty());
        assert!(reg.grid(0).samples() == &before);
    }
}

#[test]
fn dig_then_build_puts_cobblestone_back() {
    let atlas = full_atlas();
    let field = field_with(-33, 98, |_, _| ColumnSample { height: 10, biome: Biome::Grass });
    let mut reg = registry_with([0, 0, 0], generate_chunk(&field, [0, 0, 0]).unwrap());
    // World height 10 is padded cell 11; an edit names the padded cell directly.
    let cell = [7, 11, 7];
    assert_eq!(reg.grid(0).get([7, 11, 7]), VoxelType::Grass);
    let dig = DigEvent { event_type: DigEventType::Dig, world_cell: cell };
    let updates = dig_event_handler(&mut reg, &atlas, &dig);
    assert_eq!(reg.grid(0).get([7, 11, 7]), VoxelType::Empty);
    assert_eq!(updates.len(), 1);
    let build = DigEvent { event_type: DigEventType::Build, world_cell: cell };
    let updates = dig_event_handler(&mut reg, &atlas, &build);
    assert_eq!(reg.grid(0).get([7, 11, 7]), VoxelType::Cobblestone);
    assert_eq!(updates.len(), 1);
    assert_eq!(updates[0].coord, [0, 0, 0]);
    assert!(updates[0].generated > 0);
    assert_eq!(updates[0].generated, updates[0].mesh.positions.len());
}

#[test]
fn digging_the_lone_voxel_empties_the_mesh() {
    let atlas = full_atlas();
    let mut g = VoxelGrid::new_empty();
    g.set([4, 5, 6], VoxelType::Dirt);
    let (_, generated) = generate_simple_mesh(&g, &atlas);
    assert_eq!(generated, 24);
    let mut reg = registry_with([0, 0, 0], g);
    let ev = DigEvent { event_type: DigEventType::Dig, world_cell: [4, 5, 6] };
    let updates = dig_event_handler(&mut reg, &atlas, &ev);
    assert!(updates.is_empty());
    let (mesh, generated) = generate_simple_mesh(reg.grid(0), &atlas);
    assert_eq!(generated, 0);
    assert!(mesh.indices.is_empty());
}

#[test]
fn edits_reach_every_chunk_holding_the_cell() {
    let atlas = full_atlas();
    let mut reg = ChunkRegistry::new();
    reg.insert([0, 0, 0], VoxelGrid::filled(VoxelType::Stone));
    reg.insert([1, 0, 0], VoxelGrid::filled(VoxelType::Stone));
    // World x = 32 is interior cell 32 of chunk 0 and halo cell 0 of chunk 1.
    let ev = DigEvent { event_type: DigEventType::Dig, world_cell: [32, 5, 5] };
    let updates = dig_event_handler(&mut reg, &atlas, &ev);
    assert_eq!(reg.grid(0).get([32, 5, 5]), VoxelType::Empty);
    assert_eq!(reg.grid(1).get([0, 5, 5]), VoxelType::Empty);
    // Chunk 0 now shows the five faces around the hole; chunk 1's hole is in its halo,
    // so its interior cell (1, 5, 5) shows one face toward it.
    assert_eq!(updates.len(), 2);
    assert_eq!(updates[0].coord, [0, 0, 0]);
    assert_eq!(updates[0].generated, 5 * 4);
    assert_eq!(updates[1].coord, [1, 0, 0]);
    assert_eq!(updates[1].generated, 4);
}

#[test]
fn clicks_map_to_edits_and_builds_are_gated() {
    let dig = edit_request(MouseButton::Left, [1, 2, 3], [1, 3, 3], false).unwrap();
    assert_eq!(dig.event_type, DigEventType::Dig);
    assert_eq!(dig.world_cell, [1, 2, 3]);
    let build = edit_request(MouseButton::Right, [1, 2, 3], [1, 3, 3], true).unwrap();
    assert_eq!(build.event_type, DigEventType::Build);
    assert_eq!(build.world_cell, [1, 3, 3]);
    assert!(edit_request(MouseButton::Right, [1, 2, 3], [1, 3, 3], false).is_none());
}

#[test]
fn tree_shapes_have_their_voxels() {
    let small = tree_voxels(TreeShape::Small);
    assert_eq!(small.len(), 13);
    assert_eq!(small[0], ([0, 4, 0], VoxelType::OakLeaves));
    assert_eq!(small[1], ([-1, 3, -1], VoxelType::OakLeaves));
    assert_eq!(small[12], ([0, 2, 0], VoxelType::OakLog));
    let tall = tree_voxels(TreeShape::Tall);
    assert_eq!(tall.len(), 1 + 18 + 25 + 5);
    assert_eq!(tall[1], ([-1, 3, -1], VoxelType::OakLeaves));
    assert_eq!(tall[2], ([-1, 5, -1], VoxelType::OakLeaves));
    assert_eq!(tall[19], ([-2, 4, -2], VoxelType::OakLeaves));
    assert_eq!(tall[48], ([0, 4, 0], VoxelType::OakLog));
}

#[test]
fn trees_land_in_the_owning_chunk() {
    let mut reg = ChunkRegistry::new();
    reg.insert([0, 0, 0], VoxelGrid::new_empty());
    generate_tree([10, 3, 10], TreeShape::Small, &mut reg);
    let g = reg.grid(0);
    // World cell w of chunk 0 is stored at padded cell w + 1.
    assert_eq!(g.get([11, 4, 11]), VoxelType::OakLog);
    assert_eq!(g.get([11, 6, 11]), VoxelType::OakLog);
    // The leaf layer at height 6 sits above the trunk's top log at height 5.
    assert_eq!(g.get([11, 7, 11]), VoxelType::OakLeaves);
    assert_eq!(g.get([10, 7, 12]), VoxelType::OakLeaves);
    assert_eq!(g.get([11, 8, 11]), VoxelType::OakLeaves);
    assert_eq!(g.get([11, 9, 11]), VoxelType::Empty);
    // World cells 0..=31 belong to chunk 0, at padded 1..=32; 32 and -1 to absent chunks.
    assert!(change_voxel([31, 1, 1], VoxelType::OakLog, &mut reg));
    assert_eq!(reg.grid(0).get([32, 2, 2]), VoxelType::OakLog);
    assert!(change_voxel([0, 1, 1], VoxelType::OakLog, &mut reg));
    assert_eq!(reg.grid(0).get([1, 2, 2]), VoxelType::OakLog);
    let before: Vec<MaterialVoxel> = reg.grid(0).samples().clone();
    assert!(!change_voxel([32, 1, 1], VoxelType::OakLog, &mut reg));
    assert!(!change_voxel([-1, 1, 1], VoxelType::OakLog, &mut reg));
    assert!(!change_voxel([32, 32, 32], VoxelType::OakLog, &mut reg));
    assert!(reg.grid(0).samples() == &before);
}

#[test]
fn planted_trees_only_add_tree_voxels() {
    let field = field_with(-33, 98, |_, _| ColumnSample { height: 4, biome: Biome::Grass });
    let mut reg = generate_terrain(&field, 0).unwrap();
    let before: Vec<MaterialVoxel> = reg.grid(0).samples().clone();
    plant_trees(&mut reg, &field, &vec![[10, 10], [20, 25], [500, 500]]);
    let after = reg.grid(0).samples();
    let mut changed = 0;
    for i in 0..GRID_SIZE as usize {
        if after[i] != before[i] {
            changed += 1;
            assert!(after[i].0 == VoxelType::OakLog || after[i].0 == VoxelType::OakLeaves);
        }
    }
    assert!(changed >= 2 * 13);
    // Each trunk stands on the grass of its column.
    assert_eq!(reg.grid(0).get([11, 6, 11]), VoxelType::OakLog);
    assert_eq!(reg.grid(0).get([11, 5, 11]), VoxelType::Grass);
}

#[test]
fn world_generation_meshes_the_chunks_with_faces() {
    let atlas = full_atlas();
    let field = field_with(-33, 98, |_, _| ColumnSample { height: 10, biome: Biome::Stone });
    let (reg, updates) = build_world(&field, 1, &vec![], &vec![], &atlas).unwrap();
    assert_eq!(reg.len(), 27);
    // Only the nine chunks at y = 0 hold the surface; the chunks below are solid inside,
    // with solid halos, and the ones above are empty.
    assert_eq!(updates.len(), 9);
    for u in &updates {
        assert_eq!(u.coord[1], 0);
        // The flat top merges into one quad.
        assert_eq!(u.generated, 4);
    }
    let small = field_with(0, 10, varied_column);
    assert!(build_world(&small, 1, &vec![], &vec![], &atlas).is_none());
    assert!(generate_world(&small, 1, &atlas).is_none());
}

#[test]
fn built_world_has_the_given_trees() {
    let atlas = full_atlas();
    let field = field_with(-33, 98, |_, _| ColumnSample { height: 10, biome: Biome::Grass });
    let (reg, updates) = build_world(&field, 1, &vec![[5, 5]], &vec![TreeShape::Small], &atlas).unwrap();
    let k = reg.find([0, 0, 0]).unwrap();
    assert_eq!(reg.grid(k).get([6, 12, 6]), VoxelType::OakLog);
    assert_eq!(reg.grid(k).get([6, 16, 6]), VoxelType::OakLeaves);
    let u = updates.iter().find(|u| u.coord == [0, 0, 0]).unwrap();
    // The flat top, split around the trunk, and the tree's faces.
    assert!(u.generated > 4 * 4);
}

#[test]
fn random_world_keeps_terrain_under_its_trees() {
    let atlas = full_atlas();
    let field = field_with(-33, 98, |_, _| ColumnSample { height: 3, biome: Biome::Dirt });
    let (reg, updates) = generate_world(&field, 1, &atlas).unwrap();
    assert_eq!(reg.len(), 27);
    assert!(!updates.is_empty());
    for k in 0..reg.len() {
        let c = reg.coord(k);
        let g = reg.grid(k);
        for i in 0..GRID_SIZE {
            let p = delinearize(i);
            let y = 32 * c[1] as i64 + p[1] as i64 - 1;
            let t = g.get_index(i);
            if t != VoxelType::OakLog && t != VoxelType::OakLeaves {
                let expected = if y == 3 {
                    VoxelType::Dirt
                } else if y < 3 {
                    VoxelType::Sand
                } else {
                    VoxelType::Empty
                };
                assert_eq!(t, expected);
            }
        }
    }
}

#[test]
fn tree_columns_stay_in_the_window() {
    for radius in [0u32, 1, 2] {
        let cols = tree_columns(radius);
        assert!(!cols.is_empty());
        let r = radius as i64;
        for c in &cols {
            assert!(-32 * r <= c[0] && c[0] < 32 * r + 32);
            assert!(-32 * r <= c[1] && c[1] < 32 * r + 32);
        }
    }
}

#[test]
fn grid_from_samples_needs_the_full_size() {
    assert!(VoxelGrid::from_samples(vec![MaterialVoxel::empty(); 10]).is_none());
    let g = VoxelGrid::from_samples(vec![MaterialVoxel(VoxelType::Sand); GRID_SIZE as usize]).unwrap();
    assert_eq!(g.get([33, 0, 12]), VoxelType::Sand);
    assert_eq!(g.get_index(linearize([1, 1, 1])), VoxelType::Sand);
}

#[test]
fn chosen_tree_shapes_are_stamped_on_their_columns() {
    let field = field_with(-33, 98, |_, _| ColumnSample { height: 4, biome: Biome::Grass });
    let mut reg = generate_terrain(&field, 0).unwrap();
    let points = vec![[10, 10], [20, 20], [900, 0]];
    let shapes = vec![TreeShape::Small, TreeShape::Tall, TreeShape::Small];
    plant_trees_with(&mut reg, &field, &points, &shapes);
    let g = reg.grid(0);
    // Padded cells are world cells plus one. The small tree: logs at heights 5 to 7, a 3 by 3 layer at 8, one leaf at 9.
    assert_eq!(g.get([11, 6, 11]), VoxelType::OakLog);
    assert_eq!(g.get([11, 8, 11]), VoxelType::OakLog);
    assert_eq!(g.get([11, 9, 11]), VoxelType::OakLeaves);
    assert_eq!(g.get([12, 9, 10]), VoxelType::OakLeaves);
    assert_eq!(g.get([13, 9, 11]), VoxelType::Empty);
    assert_eq!(g.get([11, 10, 11]), VoxelType::OakLeaves);
    assert_eq!(g.get([11, 11, 11]), VoxelType::Empty);
    // The tall tree: logs at heights 5 to 9 through a 5 by 5 layer at 9, one leaf at 11.
    assert_eq!(g.get([21, 10, 21]), VoxelType::OakLog);
    assert_eq!(g.get([19, 10, 23]), VoxelType::OakLeaves);
    assert_eq!(g.get([22, 9, 22]), VoxelType::OakLeaves);
    assert_eq!(g.get([22, 11, 20]), VoxelType::OakLeaves);
    assert_eq!(g.get([21, 11, 21]), VoxelType::OakLeaves);
    assert_eq!(g.get([21, 12, 21]), VoxelType::OakLeaves);
    assert_eq!(g.get([21, 13, 21]), VoxelType::Empty);
}

#[test]
fn stamped_cells_follow_the_local_cell_layout() {
    let mut reg = ChunkRegistry::new();
    reg.insert([0, 0, 0], VoxelGrid::new_empty());
    assert!(change_voxel([0, 0, 0], VoxelType::OakLog, &mut reg));
    assert_eq!(reg.grid(0).get_index(1191), VoxelType::OakLog);
    assert_eq!(delinearize(1191), [1, 1, 1]);
    let mut reg = ChunkRegistry::new();
    reg.insert([-1, 0, 0], VoxelGrid::new_empty());
    assert!(change_voxel([-1, 0, 31], VoxelType::OakLeaves, &mut reg));
    assert_eq!(reg.grid(0).get_index(37058), VoxelType::OakLeaves);
    assert_eq!(delinearize(37058), [32, 1, 32]);
}
