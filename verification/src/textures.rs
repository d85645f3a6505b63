//! The textures and pipelines a renderer needs, as descriptions to make them by.

use crate::frame_model::PathTarget;
use crate::render_commands::{DeviceSize, Pipeline};
use vstd::prelude::*;

verus! {

/// Use 4x MSAA, all devices support it.
pub const PATH_SAMPLE_COUNT: u32 = 4;

/// Where a texture's pixels live.
#[derive(Debug, Clone, Copy, PartialEq, Eq, Structural)]
pub enum TextureStorage {
    /// Only the GPU reaches them.
    Private,
    /// On-chip tile memory, for the duration of one pass.
    Memoryless,
    /// Memory the CPU and the GPU share.
    Shared,
    /// A copy on either side.
    Managed,
}

/// A two-dimensional BGRA texture, eight bits each, that passes render to and shaders read.
#[derive(Debug, Clone, Copy, PartialEq, Eq, Structural)]
pub struct TextureDescription {
    pub size: DeviceSize,
    pub storage: TextureStorage,
    /// Samples per pixel; more than one makes a multisampled texture.
    pub sample_count: u32,
}

/// The texture a headless frame is rendered to and read back from.
pub open spec fn offscreen_target(size: DeviceSize, unified_memory: bool) -> TextureDescription {
    TextureDescription {
        size,
        storage: if unified_memory {
            TextureStorage::Shared
        } else {
            TextureStorage::Managed
        },
        sample_count: 1,
    }
}

/// The texture headless frames are rendered to when nobody reads them.
pub open spec fn reusable_target(size: DeviceSize) -> TextureDescription {
    TextureDescription { size, storage: TextureStorage::Private, sample_count: 1 }
}

impl TextureDescription {
    /// The texture a headless frame is rendered to and read back from.
    pub fn offscreen(size: DeviceSize, unified_memory: bool) -> (target: Self)
        ensures
            target == offscreen_target(size, unified_memory),
    {
        TextureDescription {
            size,
            storage: if unified_memory {
                TextureStorage::Shared
            } else {
                TextureStorage::Managed
            },
            sample_count: 1,
        }
    }

    /// The texture headless frames are rendered to when nobody reads them.
    pub fn reusable(size: DeviceSize) -> (target: Self)
        ensures
            target == reusable_target(size),
    {
        TextureDescription { size, storage: TextureStorage::Private, sample_count: 1 }
    }
}

/// The textures paths are rasterized through.
#[derive(Debug, Clone, Copy, PartialEq, Eq, Structural)]
pub struct PathTextures {
    /// What the rasterized paths are sampled from.
    pub resolved: Option<TextureDescription>,
    /// What they are rasterized to, resolved to the other.
    pub multisampled: Option<TextureDescription>,
}

/// The path textures for a target of `size`: none where no texture can have that size. Rendering
/// the multisampled one is done in a single pass, so it needs no memory on Apple GPUs.
pub open spec fn path_texture_set(size: DeviceSize, apple_gpu: bool) -> PathTextures {
    if size.is_blank() {
        PathTextures { resolved: None, multisampled: None }
    } else {
        PathTextures {
            resolved: Some(
                TextureDescription { size, storage: TextureStorage::Private, sample_count: 1 },
            ),
            multisampled: Some(
                TextureDescription {
                    size,
                    storage: if apple_gpu {
                        TextureStorage::Memoryless
                    } else {
                        TextureStorage::Private
                    },
                    sample_count: PATH_SAMPLE_COUNT,
                },
            ),
        }
    }
}

impl PathTextures {
    /// Which of the textures there are.
    pub open spec fn target(self) -> PathTarget {
        match (self.resolved, self.multisampled) {
            (None, _) => PathTarget::Missing,
            (Some(_), None) => PathTarget::Plain,
            (Some(_), Some(_)) => PathTarget::Multisampled,
        }
    }

    /// Which of the textures there are.
    pub fn path_target(self) -> (target: PathTarget)
        ensures
            target == self.target(),
    {
        match (self.resolved, self.multisampled) {
            (None, _) => PathTarget::Missing,
            (Some(_), None) => PathTarget::Plain,
            (Some(_), Some(_)) => PathTarget::Multisampled,
        }
    }

    /// The path textures for a target of `size`.
    pub fn fitting(size: DeviceSize, apple_gpu: bool) -> (textures: Self)
        ensures
            textures == path_texture_set(size, apple_gpu),
    {
        // A texture without an extent cannot be made; a window has such a size before its first
        // layout pass.
        if size.blank() {
            return PathTextures { resolved: None, multisampled: None };
        }
        let resolved = TextureDescription {
            size,
            storage: TextureStorage::Private,
            sample_count: 1,
        };
        let storage = if apple_gpu {
            TextureStorage::Memoryless
        } else {
            TextureStorage::Private
        };
        let multisampled = if PATH_SAMPLE_COUNT > 1 {
            Some(TextureDescription { storage, sample_count: PATH_SAMPLE_COUNT, ..resolved })
        } else {
            None
        };
        PathTextures { resolved: Some(resolved), multisampled }
    }
}

/// What a blended color is multiplied by.
#[derive(Debug, Clone, Copy, PartialEq, Eq, Structural)]
pub enum BlendFactor {
    One,
    SourceAlpha,
    OneMinusSourceAlpha,
}

/// How a pipeline adds its colors to those of the target, each multiplied by its factor.
#[derive(Debug, Clone, Copy, PartialEq, Eq, Structural)]
pub struct Blending {
    pub source_rgb: BlendFactor,
    pub source_alpha: BlendFactor,
    pub destination_rgb: BlendFactor,
    pub destination_alpha: BlendFactor,
}

/// A render pipeline to make.
#[derive(Debug, Clone, Copy)]
pub struct PipelineDescription {
    pub label: &'static str,
    pub vertex_function: &'static str,
    pub fragment_function: &'static str,
    pub blending: Blending,
    /// Samples per pixel. With more than one, alpha does not stand for coverage.
    pub sample_count: u32,
}

impl Pipeline {
    /// How the pipeline blends. Colors come unpremultiplied, but for the path texture, which
    /// holds premultiplied ones.
    pub open spec fn blending(self) -> Blending {
        Blending {
            source_rgb: if self is PathRasterization || self is PathSprites {
                BlendFactor::One
            } else {
                BlendFactor::SourceAlpha
            },
            source_alpha: BlendFactor::One,
            destination_rgb: BlendFactor::OneMinusSourceAlpha,
            destination_alpha: if self is PathRasterization {
                BlendFactor::OneMinusSourceAlpha
            } else {
                BlendFactor::One
            },
        }
    }

    /// The pipeline's label, and the names of its shaders.
    pub open spec fn names(self) -> (Seq<char>, Seq<char>, Seq<char>) {
        match self {
            Pipeline::PathRasterization => (
                "paths_rasterization"@,
                "path_rasterization_vertex"@,
                "path_rasterization_fragment"@,
            ),
            Pipeline::PathSprites => (
                "path_sprites"@,
                "path_sprite_vertex"@,
                "path_sprite_fragment"@,
            ),
            Pipeline::Shadows => ("shadows"@, "shadow_vertex"@, "shadow_fragment"@),
            Pipeline::Quads => ("quads"@, "quad_vertex"@, "quad_fragment"@),
            Pipeline::Underlines => ("underlines"@, "underline_vertex"@, "underline_fragment"@),
            Pipeline::MonochromeSprites => (
                "monochrome_sprites"@,
                "monochrome_sprite_vertex"@,
                "monochrome_sprite_fragment"@,
            ),
            Pipeline::PolychromeSprites => (
                "polychrome_sprites"@,
                "polychrome_sprite_vertex"@,
                "polychrome_sprite_fragment"@,
            ),
            Pipeline::Surfaces => ("surfaces"@, "surface_vertex"@, "surface_fragment"@),
        }
    }

    /// How to make the pipeline.
    pub fn description(self) -> (description: PipelineDescription)
        ensures
            (
                description.label@,
                description.vertex_function@,
                description.fragment_function@,
            ) == self.names(),
            description.blending == self.blending(),
            description.sample_count == if self is PathRasterization {
                PATH_SAMPLE_COUNT
            } else {
                1
            },
    {
        match self {
            Pipeline::PathRasterization => build_path_rasterization_pipeline_state(
                "paths_rasterization",
                "path_rasterization_vertex",
                "path_rasterization_fragment",
                PATH_SAMPLE_COUNT,
            ),
            Pipeline::PathSprites => build_path_sprite_pipeline_state(
                "path_sprites",
                "path_sprite_vertex",
                "path_sprite_fragment",
            ),
            Pipeline::Shadows => build_pipeline_state(
                "shadows",
                "shadow_vertex",
                "shadow_fragment",
            ),
            Pipeline::Quads => build_pipeline_state("quads", "quad_vertex", "quad_fragment"),
            Pipeline::Underlines => build_pipeline_state(
                "underlines",
                "underline_vertex",
                "underline_fragment",
            ),
            Pipeline::MonochromeSprites => build_pipeline_state(
                "monochrome_sprites",
                "monochrome_sprite_vertex",
                "monochrome_sprite_fragment",
            ),
            Pipeline::PolychromeSprites => build_pipeline_state(
                "polychrome_sprites",
                "polychrome_sprite_vertex",
                "polychrome_sprite_fragment",
            ),
            Pipeline::Surfaces => build_pipeline_state(
                "surfaces",
                "surface_vertex",
                "surface_fragment",
            ),
        }
    }
}

/// A pipeline for unpremultiplied colors.
fn build_pipeline_state(
    label: &'static str,
    vertex_function: &'static str,
    fragment_function: &'static str,
) -> (description: PipelineDescription)
    ensures
        description == (PipelineDescription {
            label,
            vertex_function,
            fragment_function,
            blending: Pipeline::Quads.blending(),
            sample_count: 1,
        }),
{
    let blending = Blending {
        source_rgb: BlendFactor::SourceAlpha,
        source_alpha: BlendFactor::One,
        destination_rgb: BlendFactor::OneMinusSourceAlpha,
        destination_alpha: BlendFactor::One,
    };
    PipelineDescription { label, vertex_function, fragment_function, blending, sample_count: 1 }
}

/// A pipeline for premultiplied colors.
fn build_path_sprite_pipeline_state(
    label: &'static str,
    vertex_function: &'static str,
    fragment_function: &'static str,
) -> (description: PipelineDescription)
    ensures
        description == (PipelineDescription {
            label,
            vertex_function,
            fragment_function,
            blending: Pipeline::PathSprites.blending(),
            sample_count: 1,
        }),
{
    let blending = Blending {
        source_rgb: BlendFactor::One,
        source_alpha: BlendFactor::One,
        destination_rgb: BlendFactor::OneMinusSourceAlpha,
        destination_alpha: BlendFactor::One,
    };
    PipelineDescription { label, vertex_function, fragment_function, blending, sample_count: 1 }
}

/// A pipeline that accumulates premultiplied colors over several samples per pixel.
fn build_path_rasterization_pipeline_state(
    label: &'static str,
    vertex_function: &'static str,
    fragment_function: &'static str,
    path_sample_count: u32,
) -> (description: PipelineDescription)
    ensures
        description == (PipelineDescription {
            label,
            vertex_function,
            fragment_function,
            blending: Pipeline::PathRasterization.blending(),
            sample_count: path_sample_count,
        }),
{
    let blending = Blending {
        source_rgb: BlendFactor::One,
        source_alpha: BlendFactor::One,
        destination_rgb: BlendFactor::OneMinusSourceAlpha,
        destination_alpha: BlendFactor::OneMinusSourceAlpha,
    };
    PipelineDescription {
        label,
        vertex_function,
        fragment_function,
        blending,
        sample_count: path_sample_count,
    }
}

/// The bits of the 32-bit float 1, as the shaders read it.
pub const ONE_BITS: u32 = 0x3f80_0000;

/// A pair of 32-bit words as Metal lays out a `float2`: `x` in the low half.
pub fn to_float2_bits(x: u32, y: u32) -> (bits: u64)
    ensures
        bits == x + 0x1_0000_0000 * y,
{
    let low: u64 = x as u64;
    let high: u64 = y as u64;
    proof {
        assert((high << 32) | low == low + 0x1_0000_0000 * high) by (bit_vector)
            requires
                low <= 0xffff_ffff,
                high <= 0xffff_ffff,
        ;
    }
    (high << 32) | low
}

/// The corners of the unit square's two triangles.
pub open spec fn unit_corners() -> Seq<(bool, bool)> {
    seq![
        (false, false),
        (true, false),
        (false, true),
        (false, true),
        (true, false),
        (true, true),
    ]
}

/// The bits of a coordinate of the unit square.
pub open spec fn unit_bits(one: bool) -> int {
    if one {
        ONE_BITS as int
    } else {
        0
    }
}

/// The vertices every rectangle is drawn with, each a `float2`.
pub fn unit_vertices() -> (vertices: Vec<u64>)
    ensures
        vertices@.len() == unit_corners().len(),
        forall|i: int|
            0 <= i < vertices@.len() ==> #[trigger] vertices@[i] == unit_bits(unit_corners()[i].0)
                + 0x1_0000_0000 * unit_bits(unit_corners()[i].1),
{
    let mut vertices: Vec<u64> = Vec::new();
    vertices.push(to_float2_bits(0, 0));
    vertices.push(to_float2_bits(ONE_BITS, 0));
    vertices.push(to_float2_bits(0, ONE_BITS));
    vertices.push(to_float2_bits(0, ONE_BITS));
    vertices.push(to_float2_bits(ONE_BITS, 0));
    vertices.push(to_float2_bits(ONE_BITS, ONE_BITS));
    vertices
}

} // verus!
