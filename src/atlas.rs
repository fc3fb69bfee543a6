use vstd::prelude::*;
use vstd::string::StringExecFns;
use crate::voxel::VoxelType;

verus! {

/// A frame's rectangle in the atlas image, in pixels; y grows downward.
#[derive(Clone, Copy, PartialEq, Eq, Debug, Structural)]
pub struct Frame {
    pub x: u32,
    pub y: u32,
    pub w: u32,
    pub h: u32,
}

/// Vertex colour multiplier.
#[derive(Clone, Copy, PartialEq, Eq, Debug, Structural)]
pub enum Tint {
    White,
    Green,
}

/// Why an atlas cannot texture every voxel face.
#[derive(PartialEq, Eq, Debug)]
pub enum AtlasError {
    /// A frame that some voxel face is textured with is not in the atlas.
    MissingAtlasFrame(String),
}

/// Named frames of a packed texture image, together with the image's size in pixels.
pub struct TextureAtlas {
    frames: Vec<(String, Frame)>,
    width: u32,
    height: u32,
}

/// Named frames as names and rectangles.
pub open spec fn frame_entries(v: Seq<(String, Frame)>) -> Seq<(Seq<char>, Frame)> {
    v.map_values(|e: (String, Frame)| (e.0@, e.1))
}

/// The first frame stored under `name`.
pub open spec fn find_frame(frames: Seq<(Seq<char>, Frame)>, name: Seq<char>) -> Option<Frame>
    decreases frames.len(),
{
    if frames.len() == 0 {
        None
    } else if frames[0].0 == name {
        Some(frames[0].1)
    } else {
        find_frame(frames.drop_first(), name)
    }
}

/// The frame a face is textured with, from its voxel type and the y component of its normal.
pub open spec fn texture_name(normal_y: int, t: VoxelType) -> Seq<char> {
    match t {
        VoxelType::Grass => if normal_y == 1 {
            "grass_block_top.png"@
        } else if normal_y == -1 {
            "dirt.png"@
        } else {
            "grass_block_side.png"@
        },
        VoxelType::Dirt => "dirt.png"@,
        VoxelType::Stone => "stone.png"@,
        VoxelType::Empty => "debug.png"@,
        VoxelType::Sand => "sand.png"@,
        VoxelType::OakLog => if normal_y == 1 || normal_y == -1 {
            "oak_log_top.png"@
        } else {
            "oak_log.png"@
        },
        VoxelType::OakLeaves => "oak_leaves.png"@,
        VoxelType::Cobblestone => "cobblestone.png"@,
    }
}

/// The frames that the faces of non-empty voxels are textured with.
pub open spec fn required_frames() -> Seq<Seq<char>> {
    seq![
        "grass_block_top.png"@,
        "dirt.png"@,
        "grass_block_side.png"@,
        "stone.png"@,
        "sand.png"@,
        "oak_log_top.png"@,
        "oak_log.png"@,
        "oak_leaves.png"@,
        "cobblestone.png"@,
    ]
}

/// Grass tops and leaves are tinted green; everything else is left white.
pub open spec fn tint_of(normal_y: int, t: VoxelType) -> Tint {
    match t {
        VoxelType::Grass => if normal_y == 1 {
            Tint::Green
        } else {
            Tint::White
        },
        VoxelType::OakLeaves => Tint::Green,
        _ => Tint::White,
    }
}

/// Texture coordinates of a quad's four corners, in atlas pixels, in the corner order of the
/// mesh: the bottom edge of the frame at `y + h` goes to the quad's lower corners.
pub open spec fn frame_corners(f: Frame) -> [[u64; 2]; 4] {
    [
        [f.x as u64, (f.y + f.h) as u64],
        [(f.x + f.w) as u64, (f.y + f.h) as u64],
        [f.x as u64, f.y as u64],
        [(f.x + f.w) as u64, f.y as u64],
    ]
}

/// Every face of a non-empty voxel names a frame that the atlas has.
pub open spec fn textures_all(frames: Seq<(Seq<char>, Frame)>) -> bool {
    forall|k: int| 0 <= k < 9 ==> #[trigger] find_frame(frames, required_frames()[k]).is_some()
}

/// Every face of a non-empty voxel names one of the required frames.
pub proof fn lemma_texture_name_required(normal_y: int, t: VoxelType)
    requires
        t != VoxelType::Empty,
    ensures
        exists|k: int| 0 <= k < 9 && required_frames()[k] == #[trigger] texture_name(normal_y, t),
{
    let n = texture_name(normal_y, t);
    let rf = required_frames();
    if n == rf[0] {
    } else if n == rf[1] {
    } else if n == rf[2] {
    } else if n == rf[3] {
    } else if n == rf[4] {
    } else if n == rf[5] {
    } else if n == rf[6] {
    } else if n == rf[7] {
    } else {
        assert(n == rf[8]);
    }
}

impl TextureAtlas {
    /// The named frames, in the order given.
    pub closed spec fn frames(&self) -> Seq<(Seq<char>, Frame)> {
        frame_entries(self.frames@)
    }

    /// Width and height of the atlas image, in pixels.
    pub closed spec fn size(&self) -> (u32, u32) {
        (self.width, self.height)
    }

    /// An atlas that has a frame for every face of every non-empty voxel.
    pub open spec fn wf(&self) -> bool {
        textures_all(self.frames())
    }

    /// The frame stored under `name`.
    pub fn frame(&self, name: &str) -> (r: Option<Frame>)
        ensures
            r == find_frame(self.frames(), name@),
    {
        let key = String::from_str(name);
        let mut i: usize = 0;
        assert(self.frames().subrange(0, self.frames().len() as int) =~= self.frames());
        while i < self.frames.len()
            invariant
                i <= self.frames@.len(),
                key@ == name@,
                find_frame(self.frames(), name@) == find_frame(self.frames().subrange(i as int, self.frames().len() as int), name@),
            decreases self.frames@.len() - i,
        {
            let ghost rest = self.frames().subrange(i as int, self.frames().len() as int);
            assert(rest[0] == self.frames()[i as int]);
            if self.frames[i].0 == key {
                return Some(self.frames[i].1);
            }
            assert(rest.drop_first() =~= self.frames().subrange(i + 1, self.frames().len() as int));
            i = i + 1;
        }
        assert(self.frames().subrange(i as int, self.frames().len() as int).len() == 0);
        None
    }

    /// An atlas of `width` by `height` pixels with the given named frames. Fails with the first
    /// frame that a voxel face needs and the list lacks. Where a name is given twice, lookups find
    /// its first frame.
    pub fn new(frames: Vec<(String, Frame)>, width: u32, height: u32) -> (r: Result<TextureAtlas, AtlasError>)
        ensures
            r.is_ok() <==> textures_all(frame_entries(frames@)),
            r.is_ok() ==> r.unwrap().wf() && r.unwrap().frames() == frame_entries(frames@) && r.unwrap().size() == (width, height),
            r matches Err(AtlasError::MissingAtlasFrame(n)) ==> (exists|k: int|
                0 <= k < 9 && required_frames()[k] == n@) && find_frame(
                frame_entries(frames@),
                n@,
            ).is_none(),
    {
        let atlas = TextureAtlas { frames, width, height };
        let names: [&str; 9] = [
            "grass_block_top.png",
            "dirt.png",
            "grass_block_side.png",
            "stone.png",
            "sand.png",
            "oak_log_top.png",
            "oak_log.png",
            "oak_leaves.png",
            "cobblestone.png",
        ];
        assert(forall|k: int| 0 <= k < 9 ==> names[k]@ == #[trigger] required_frames()[k]);
        let mut k: usize = 0;
        while k < 9
            invariant
                k <= 9,
                atlas.frames() == frame_entries(frames@),
                forall|k: int| 0 <= k < 9 ==> names[k]@ == #[trigger] required_frames()[k],
                forall|j: int| 0 <= j < k ==> #[trigger] find_frame(atlas.frames(), required_frames()[j]).is_some(),
            decreases 9 - k,
        {
            if atlas.frame(names[k]).is_none() {
                assert(find_frame(atlas.frames(), required_frames()[k as int]).is_none());
                proof {
                    if textures_all(atlas.frames()) {
                        assert(find_frame(atlas.frames(), required_frames()[k as int]).is_some());
                    }
                }
                return Err(AtlasError::MissingAtlasFrame(String::from_str(names[k])));
            }
            k = k + 1;
        }
        Ok(atlas)
    }

    /// Width and height of the atlas image, in pixels.
    pub fn image_size(&self) -> (r: (u32, u32))
        ensures
            r == self.size(),
    {
        (self.width, self.height)
    }
}

/// The name of the frame that a face of a `voxel_type` voxel with the given normal shows.
pub fn voxel_texture_name(normal: [i32; 3], voxel_type: VoxelType) -> (r: &'static str)
    ensures
        r@ == texture_name(normal[1] as int, voxel_type),
{
    match voxel_type {
        VoxelType::Grass => {
            if normal[1] == 1 {
                "grass_block_top.png"
            } else if normal[1] == -1 {
                "dirt.png"
            } else {
                "grass_block_side.png"
            }
        },
        VoxelType::Dirt => "dirt.png",
        VoxelType::Stone => "stone.png",
        VoxelType::Empty => "debug.png",
        VoxelType::Sand => "sand.png",
        VoxelType::OakLog => {
            if normal[1] == 1 || normal[1] == -1 {
                "oak_log_top.png"
            } else {
                "oak_log.png"
            }
        },
        VoxelType::OakLeaves => "oak_leaves.png",
        VoxelType::Cobblestone => "cobblestone.png",
    }
}

/// The colour of a face of a `voxel_type` voxel with the given normal.
pub fn face_tint(normal: [i32; 3], voxel_type: VoxelType) -> (r: Tint)
    ensures
        r == tint_of(normal[1] as int, voxel_type),
{
    match voxel_type {
        VoxelType::Grass => if normal[1] == 1 {
            Tint::Green
        } else {
            Tint::White
        },
        VoxelType::OakLeaves => Tint::Green,
        _ => Tint::White,
    }
}

/// Texture coordinates of a frame's corners, in atlas pixels; divided by the atlas size they
/// give the normalised coordinates.
pub fn atlas_uv(desc: &Frame) -> (r: [[u64; 2]; 4])
    ensures
        r == frame_corners(*desc),
{
    let x = desc.x as u64;
    let y = desc.y as u64;
    let w = desc.w as u64;
    let h = desc.h as u64;
    [[x, y + h], [x + w, y + h], [x, y], [x + w, y]]
}

} // verus!
