//! What a frame asks of Metal, as data: passes, bindings and draws in the order they are
//! encoded.

use crate::instance_buffer::InstanceBinding;
use crate::surfaces::YCbCrMatrix;
use vstd::prelude::*;

verus! {

/// A size in device pixels.
#[derive(Debug, Clone, Copy, PartialEq, Eq, Structural)]
pub struct DeviceSize {
    pub width: i32,
    pub height: i32,
}

impl DeviceSize {
    /// Metal makes no texture of such a size.
    pub open spec fn is_blank(self) -> bool {
        self.width <= 0 || self.height <= 0
    }

    /// Whether no texture can have this size.
    pub fn blank(self) -> (blank: bool)
        ensures
            blank == self.is_blank(),
    {
        self.width <= 0 || self.height <= 0
    }
}

/// Consecutive elements of one of a scene's arrays.
#[derive(Debug, Clone, Copy, PartialEq, Eq, Structural)]
pub struct InstanceRange {
    pub start: usize,
    pub end: usize,
}

impl InstanceRange {
    /// How many elements lie in the range.
    pub open spec fn count(self) -> nat {
        if self.start < self.end {
            (self.end - self.start) as nat
        } else {
            0
        }
    }

    pub fn len(self) -> (count: usize)
        ensures
            count == self.count(),
    {
        if self.start < self.end {
            self.end - self.start
        } else {
            0
        }
    }
}

/// The vertices of the two triangles every rectangle is drawn with.
pub const UNIT_VERTEX_COUNT: usize = 6;

/// The render pipelines of a renderer.
#[derive(Debug, Clone, Copy, PartialEq, Eq, Structural)]
pub enum Pipeline {
    PathRasterization,
    PathSprites,
    Shadows,
    Quads,
    Underlines,
    MonochromeSprites,
    PolychromeSprites,
    Surfaces,
}

/// Where the shaders of shadows, quads and underlines read their input.
#[derive(Debug, Clone, Copy, PartialEq, Eq, Structural)]
pub enum PrimitiveInputIndex {
    Vertices,
    Instances,
    ViewportSize,
}

impl PrimitiveInputIndex {
    pub open spec fn slot(self) -> u64 {
        match self {
            PrimitiveInputIndex::Vertices => 0,
            PrimitiveInputIndex::Instances => 1,
            PrimitiveInputIndex::ViewportSize => 2,
        }
    }

    /// The index Metal binds this input at.
    pub fn index(self) -> (index: u64)
        ensures
            index == self.slot(),
    {
        match self {
            PrimitiveInputIndex::Vertices => 0,
            PrimitiveInputIndex::Instances => 1,
            PrimitiveInputIndex::ViewportSize => 2,
        }
    }
}

/// Where the sprite shaders read their input.
#[derive(Debug, Clone, Copy, PartialEq, Eq, Structural)]
pub enum SpriteInputIndex {
    Vertices,
    Sprites,
    ViewportSize,
    AtlasTextureSize,
    AtlasTexture,
}

impl SpriteInputIndex {
    pub open spec fn slot(self) -> u64 {
        match self {
            SpriteInputIndex::Vertices => 0,
            SpriteInputIndex::Sprites => 1,
            SpriteInputIndex::ViewportSize => 2,
            SpriteInputIndex::AtlasTextureSize => 3,
            SpriteInputIndex::AtlasTexture => 4,
        }
    }

    /// The index Metal binds this input at.
    pub fn index(self) -> (index: u64)
        ensures
            index == self.slot(),
    {
        match self {
            SpriteInputIndex::Vertices => 0,
            SpriteInputIndex::Sprites => 1,
            SpriteInputIndex::ViewportSize => 2,
            SpriteInputIndex::AtlasTextureSize => 3,
            SpriteInputIndex::AtlasTexture => 4,
        }
    }
}

/// Where the surface shaders read their input.
#[derive(Debug, Clone, Copy, PartialEq, Eq, Structural)]
pub enum SurfaceInputIndex {
    Vertices,
    Surfaces,
    ViewportSize,
    TextureSize,
    YTexture,
    CbCrTexture,
    YCbCrToRgb,
}

impl SurfaceInputIndex {
    pub open spec fn slot(self) -> u64 {
        match self {
            SurfaceInputIndex::Vertices => 0,
            SurfaceInputIndex::Surfaces => 1,
            SurfaceInputIndex::ViewportSize => 2,
            SurfaceInputIndex::TextureSize => 3,
            SurfaceInputIndex::YTexture => 4,
            SurfaceInputIndex::CbCrTexture => 5,
            SurfaceInputIndex::YCbCrToRgb => 6,
        }
    }

    /// The index Metal binds this input at.
    pub fn index(self) -> (index: u64)
        ensures
            index == self.slot(),
    {
        match self {
            SurfaceInputIndex::Vertices => 0,
            SurfaceInputIndex::Surfaces => 1,
            SurfaceInputIndex::ViewportSize => 2,
            SurfaceInputIndex::TextureSize => 3,
            SurfaceInputIndex::YTexture => 4,
            SurfaceInputIndex::CbCrTexture => 5,
            SurfaceInputIndex::YCbCrToRgb => 6,
        }
    }
}

/// Where the path rasterization shaders read their input.
#[derive(Debug, Clone, Copy, PartialEq, Eq, Structural)]
pub enum PathRasterizationInputIndex {
    Vertices,
    ViewportSize,
}

impl PathRasterizationInputIndex {
    pub open spec fn slot(self) -> u64 {
        match self {
            PathRasterizationInputIndex::Vertices => 0,
            PathRasterizationInputIndex::ViewportSize => 1,
        }
    }

    /// The index Metal binds this input at.
    pub fn index(self) -> (index: u64)
        ensures
            index == self.slot(),
    {
        match self {
            PathRasterizationInputIndex::Vertices => 0,
            PathRasterizationInputIndex::ViewportSize => 1,
        }
    }
}

/// What a reserved range of an instance buffer is filled with.
#[derive(Debug, Clone, Copy, PartialEq, Eq, Structural)]
pub enum Contents {
    Quads,
    Shadows,
    Underlines,
    MonochromeSprites,
    PolychromeSprites,
    Surfaces,
    /// The vertices of the paths in the range, as `path_vertex_sources` lists them, each with its
    /// path's color and clipped bounds.
    PathVertices(InstanceRange),
    /// One sprite per path in the range, with its clipped bounds.
    PathSprites(InstanceRange),
    /// One sprite for the union of the clipped bounds of the paths in the range.
    SpanningSprite(InstanceRange),
}

/// A buffer a shader reads.
#[derive(Debug, Clone, Copy, PartialEq, Eq, Structural)]
pub enum BoundBuffer {
    /// The corners of the unit square.
    UnitVertices,
    Instances(InstanceBinding),
}

/// A few bytes a shader reads without a buffer.
#[derive(Debug, Clone, Copy, PartialEq, Eq, Structural)]
pub enum BoundBytes {
    Size(DeviceSize),
    /// The matrix from Y′CbCr to R′G′B′.
    YCbCrToRgb { matrix: YCbCrMatrix, full_range: bool },
}

/// A texture a shader samples.
#[derive(Debug, Clone, Copy, PartialEq, Eq, Structural)]
pub enum BoundTexture {
    /// An atlas texture, by the handle the scene names it with.
    Atlas(u64),
    /// The texture paths are rasterized into.
    PathIntermediate,
    /// The luma plane of a surface of the scene.
    Luma(usize),
    /// The chroma plane of a surface of the scene.
    Chroma(usize),
}

/// One thing to encode.
#[derive(Debug, Clone, Copy, PartialEq, Eq, Structural)]
pub enum Command {
    /// Fill a reserved range.
    Write { contents: Contents, binding: InstanceBinding },
    /// Begin a pass over the frame's target, cleared to black of that opacity or, with `None`,
    /// as earlier passes left it.
    BeginPass { clear: Option<ClearAlpha>, viewport: DeviceSize },
    /// Begin a pass over the cleared path texture, through the multisampled one where there is
    /// one.
    BeginPathPass { multisampled: bool },
    EndPass,
    SetPipeline(Pipeline),
    VertexBuffer { index: u64, buffer: BoundBuffer },
    FragmentBuffer { index: u64, buffer: BoundBuffer },
    VertexBytes { index: u64, bytes: BoundBytes },
    FragmentBytes { index: u64, bytes: BoundBytes },
    FragmentTexture { index: u64, texture: BoundTexture },
    /// Keep a surface's textures until the GPU is done with the frame: CoreVideo may hand their
    /// backing buffer to a new picture once they are released.
    HoldSurface(usize),
    /// Draw triangles of consecutive vertices.
    Draw { vertices: usize },
    /// Draw triangles of `vertices` vertices once per instance, counted from `first_instance`.
    DrawInstanced { vertices: usize, instances: usize, first_instance: usize },
}

/// The opacity a target is cleared to.
#[derive(Debug, Clone, Copy, PartialEq, Eq, Structural)]
pub enum ClearAlpha {
    Opaque,
    Transparent,
}

} // verus!
