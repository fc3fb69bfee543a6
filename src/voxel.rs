use vstd::prelude::*;

verus! {

/// The material of one voxel cell.
#[derive(Clone, Copy, PartialEq, Eq, Debug, Structural)]
pub enum VoxelType {
    Empty,
    Grass,
    Stone,
    Cobblestone,
    Dirt,
    Sand,
    OakLog,
    OakLeaves,
}

/// How a voxel takes part in face culling.
#[derive(Clone, Copy, PartialEq, Eq, Debug, Structural)]
pub enum Visibility {
    Empty,
    Translucent,
    Opaque,
}

/// `Empty` is the only non-solid type; leaves let light through; all else is opaque.
pub open spec fn visibility_of(t: VoxelType) -> Visibility {
    match t {
        VoxelType::Empty => Visibility::Empty,
        VoxelType::OakLeaves => Visibility::Translucent,
        _ => Visibility::Opaque,
    }
}

/// One cell of a chunk grid.
#[derive(Clone, Copy, PartialEq, Eq, Debug, Structural)]
pub struct MaterialVoxel(pub VoxelType);

/// The voxel types of a run of cells.
pub open spec fn cells_of(s: Seq<MaterialVoxel>) -> Seq<VoxelType> {
    s.map_values(|v: MaterialVoxel| v.0)
}

impl MaterialVoxel {
    /// The canonical empty cell.
    pub fn empty() -> (r: MaterialVoxel)
        ensures
            r.0 == VoxelType::Empty,
    {
        MaterialVoxel(VoxelType::Empty)
    }

    /// The culling class of this cell.
    pub fn visibility(&self) -> (r: Visibility)
        ensures
            r == visibility_of(self.0),
    {
        match self.0 {
            VoxelType::Empty => Visibility::Empty,
            VoxelType::OakLeaves => Visibility::Translucent,
            _ => Visibility::Opaque,
        }
    }
}

/// block_mesh's culling classes, carried opaquely through `get_visibility`.
#[verifier::external_type_specification]
#[verifier::external_body]
pub struct ExVoxelVisibility(block_mesh::VoxelVisibility);

/// How block_mesh's meshers classify a cell: through `MaterialVoxel::visibility`, each of our
/// classes mapped to the block_mesh variant of the same name.
impl block_mesh::Voxel for MaterialVoxel {
    /// Relies on block_mesh::VoxelVisibility having the variants `Empty`, `Translucent` and
    /// `Opaque`, which block_mesh's meshers read as ours are defined.
    #[verifier::external_body]
    fn get_visibility(&self) -> block_mesh::VoxelVisibility {
        match self.visibility() {
            Visibility::Empty => block_mesh::VoxelVisibility::Empty,
            Visibility::Translucent => block_mesh::VoxelVisibility::Translucent,
            Visibility::Opaque => block_mesh::VoxelVisibility::Opaque,
        }
    }
}

/// Cells merge into one greedy quad when they have the same voxel type.
impl block_mesh::MergeVoxel for MaterialVoxel {
    type MergeValue = VoxelType;

    fn merge_value(&self) -> VoxelType {
        self.0
    }
}

} // verus!
