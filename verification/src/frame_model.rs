//! What a frame is: the commands a scene turns into, the buffers they take and the errors that
//! stop them.

use crate::instance_buffer::{
    reserve_all, InstanceBinding, InstanceError, PoolState, Reservations, WriterState,
};
use crate::render_commands::{
    BoundBuffer, BoundBytes, BoundTexture, ClearAlpha, Command, Contents, DeviceSize,
    InstanceRange, PathRasterizationInputIndex, Pipeline, PrimitiveInputIndex, SpriteInputIndex,
    SurfaceInputIndex, UNIT_VERTEX_COUNT,
};
use crate::scene::{vertex_total, AtlasTexture, PrimitiveBatch, Scene, ScenePath, SceneSurface};
use crate::surfaces::{surface_range, SurfaceSkip};
use crate::text::{decimal_digits, push_decimal};
use vstd::prelude::*;
use vstd::string::*;

verus! {

/// How many of each primitive a scene has.
#[derive(Debug, Clone, Copy, PartialEq, Eq, Structural)]
pub struct SceneCounts {
    pub paths: usize,
    pub shadows: usize,
    pub quads: usize,
    pub underlines: usize,
    pub monochrome_sprites: usize,
    pub polychrome_sprites: usize,
    pub surfaces: usize,
}

/// Why a frame could not be encoded.
#[derive(Debug, Clone, Copy, PartialEq, Eq, Structural)]
pub enum EncodeError {
    /// The scene's arrays do not fit the largest instance buffers.
    SceneTooLarge { counts: SceneCounts, cause: InstanceError },
    /// What a batch of paths needs does not fit beside them.
    PathsTooLarge(InstanceError),
    /// There is no texture to rasterize paths into.
    MissingPathTexture,
}

impl SceneCounts {
    /// The counts in words.
    pub open spec fn words(self) -> Seq<char> {
        decimal_digits(self.paths as nat) + " paths, "@ + decimal_digits(self.shadows as nat)
            + " shadows, "@ + decimal_digits(self.quads as nat) + " quads, "@ + decimal_digits(
            self.underlines as nat,
        ) + " underlines, "@ + decimal_digits(self.monochrome_sprites as nat) + " mono, "@
            + decimal_digits(self.polychrome_sprites as nat) + " poly, "@ + decimal_digits(
            self.surfaces as nat,
        ) + " surfaces"@
    }

    /// The counts in words.
    pub fn message(&self) -> (text: String)
        ensures
            text@ == self.words(),
    {
        let mut text = String::new();
        push_decimal(&mut text, self.paths);
        text.append(" paths, ");
        push_decimal(&mut text, self.shadows);
        text.append(" shadows, ");
        push_decimal(&mut text, self.quads);
        text.append(" quads, ");
        push_decimal(&mut text, self.underlines);
        text.append(" underlines, ");
        push_decimal(&mut text, self.monochrome_sprites);
        text.append(" mono, ");
        push_decimal(&mut text, self.polychrome_sprites);
        text.append(" poly, ");
        push_decimal(&mut text, self.surfaces);
        text.append(" surfaces");
        proof {
            assert(text@ =~= self.words());
        }
        text
    }
}

impl EncodeError {
    /// The error in words, followed by its cause.
    pub open spec fn words(self) -> Seq<char> {
        match self {
            EncodeError::SceneTooLarge { counts, cause } => "scene too large: "@ + counts.words()
                + ": "@ + cause.words(),
            EncodeError::PathsTooLarge(cause) => cause.words(),
            EncodeError::MissingPathTexture => "missing path intermediate texture"@,
        }
    }

    /// The error in words, followed by its cause.
    pub fn message(&self) -> (text: String)
        ensures
            text@ == self.words(),
    {
        match self {
            EncodeError::SceneTooLarge { counts, cause } => {
                let mut text = "scene too large: ".to_string();
                text.append(counts.message().as_str());
                text.append(": ");
                text.append(cause.message().as_str());
                text
            },
            EncodeError::PathsTooLarge(cause) => cause.message(),
            EncodeError::MissingPathTexture => "missing path intermediate texture".to_string(),
        }
    }
}

/// The textures paths are rasterized through.
#[derive(Debug, Clone, Copy, PartialEq, Eq, Structural)]
pub enum PathTarget {
    Missing,
    Plain,
    Multisampled,
}

/// Where the arrays of a scene lie.
#[derive(Debug, Clone, Copy, PartialEq, Eq, Structural)]
pub struct InstanceBindings {
    pub quads: InstanceBinding,
    pub shadows: InstanceBinding,
    pub underlines: InstanceBinding,
    pub monochrome_sprites: InstanceBinding,
    pub polychrome_sprites: InstanceBinding,
    pub surfaces: InstanceBinding,
}

/// What shadows, quads and underlines are drawn with: one rectangle per instance of the range.
pub open spec fn primitive_commands(
    pipeline: Pipeline,
    range: InstanceRange,
    binding: InstanceBinding,
    viewport: DeviceSize,
) -> Seq<Command> {
    if range.count() == 0 {
        seq![]
    } else {
        let vertices = PrimitiveInputIndex::Vertices.slot();
        let instances = PrimitiveInputIndex::Instances.slot();
        let size = PrimitiveInputIndex::ViewportSize.slot();
        seq![
            Command::SetPipeline(pipeline),
            Command::VertexBuffer { index: vertices, buffer: BoundBuffer::UnitVertices },
            Command::VertexBuffer { index: instances, buffer: BoundBuffer::Instances(binding) },
            Command::FragmentBuffer { index: instances, buffer: BoundBuffer::Instances(binding) },
            Command::VertexBytes { index: size, bytes: BoundBytes::Size(viewport) },
            Command::DrawInstanced {
                vertices: UNIT_VERTEX_COUNT,
                instances: range.count() as usize,
                first_instance: range.start,
            },
        ]
    }
}

/// What sprites of one atlas texture are drawn with; nothing where the atlas has lost it.
pub open spec fn sprite_commands(
    pipeline: Pipeline,
    texture: Option<AtlasTexture>,
    range: InstanceRange,
    binding: InstanceBinding,
    viewport: DeviceSize,
) -> Seq<Command> {
    match texture {
        None => seq![],
        Some(texture) => if range.count() == 0 {
            seq![]
        } else {
            let vertices = SpriteInputIndex::Vertices.slot();
            let sprites = SpriteInputIndex::Sprites.slot();
            let size = SpriteInputIndex::ViewportSize.slot();
            let atlas_size = SpriteInputIndex::AtlasTextureSize.slot();
            let atlas = SpriteInputIndex::AtlasTexture.slot();
            seq![
                Command::SetPipeline(pipeline),
                Command::VertexBuffer { index: vertices, buffer: BoundBuffer::UnitVertices },
                Command::VertexBuffer { index: sprites, buffer: BoundBuffer::Instances(binding) },
                Command::VertexBytes { index: size, bytes: BoundBytes::Size(viewport) },
                Command::VertexBytes { index: atlas_size, bytes: BoundBytes::Size(texture.size) },
                Command::FragmentBuffer {
                    index: sprites,
                    buffer: BoundBuffer::Instances(binding),
                },
                Command::FragmentTexture {
                    index: atlas,
                    texture: BoundTexture::Atlas(texture.handle),
                },
                Command::DrawInstanced {
                    vertices: UNIT_VERTEX_COUNT,
                    instances: range.count() as usize,
                    first_instance: range.start,
                },
            ]
        },
    }
}

/// What every surface of a batch shares.
pub open spec fn surface_setup(binding: InstanceBinding, viewport: DeviceSize) -> Seq<Command> {
    seq![
        Command::SetPipeline(Pipeline::Surfaces),
        Command::VertexBuffer {
            index: SurfaceInputIndex::Vertices.slot(),
            buffer: BoundBuffer::UnitVertices,
        },
        Command::VertexBuffer {
            index: SurfaceInputIndex::Surfaces.slot(),
            buffer: BoundBuffer::Instances(binding),
        },
        Command::VertexBytes {
            index: SurfaceInputIndex::ViewportSize.slot(),
            bytes: BoundBytes::Size(viewport),
        },
    ]
}

/// What the `index`th surface of a scene is drawn with; nothing where it is skipped.
pub open spec fn surface_commands(surface: SceneSurface, index: usize) -> Seq<Command> {
    match surface_range(surface.format, surface.luma, surface.chroma) {
        Err(_) => seq![],
        Ok(full_range) => seq![
            Command::VertexBytes {
                index: SurfaceInputIndex::TextureSize.slot(),
                bytes: BoundBytes::Size(surface.size),
            },
            Command::FragmentTexture {
                index: SurfaceInputIndex::YTexture.slot(),
                texture: BoundTexture::Luma(index),
            },
            Command::FragmentTexture {
                index: SurfaceInputIndex::CbCrTexture.slot(),
                texture: BoundTexture::Chroma(index),
            },
            Command::FragmentBytes {
                index: SurfaceInputIndex::YCbCrToRgb.slot(),
                bytes: BoundBytes::YCbCrToRgb { matrix: surface.matrix, full_range },
            },
            Command::HoldSurface(index),
            Command::DrawInstanced {
                vertices: UNIT_VERTEX_COUNT,
                instances: 1,
                first_instance: index,
            },
        ],
    }
}

/// The first reason a surface was skipped for.
pub open spec fn skip_after(skip: Option<SurfaceSkip>, surface: SceneSurface) -> Option<
    SurfaceSkip,
> {
    match (skip, surface_range(surface.format, surface.luma, surface.chroma)) {
        (None, Err(reason)) => Some(reason),
        _ => skip,
    }
}

/// What is drawn of the `count` surfaces from `start` on.
pub open spec fn surfaces_commands(
    surfaces: Seq<SceneSurface>,
    start: int,
    count: int,
) -> Seq<Command>
    decreases count,
{
    if count <= 0 {
        seq![]
    } else {
        surfaces_commands(surfaces, start, count - 1) + surface_commands(
            surfaces[start + count - 1],
            (start + count - 1) as usize,
        )
    }
}

/// The first reason one of the `count` surfaces from `start` on was skipped for, or one that was
/// known before.
pub open spec fn surfaces_skip(
    skip: Option<SurfaceSkip>,
    surfaces: Seq<SceneSurface>,
    start: int,
    count: int,
) -> Option<SurfaceSkip>
    decreases count,
{
    if count <= 0 {
        skip
    } else {
        skip_after(
            surfaces_skip(skip, surfaces, start, count - 1),
            surfaces[start + count - 1],
        )
    }
}

/// What rasterizes paths into the path texture.
pub open spec fn rasterization_commands(
    multisampled: bool,
    binding: InstanceBinding,
    vertices: usize,
    viewport: DeviceSize,
) -> Seq<Command> {
    seq![
        Command::BeginPathPass { multisampled },
        Command::SetPipeline(Pipeline::PathRasterization),
        Command::VertexBuffer {
            index: PathRasterizationInputIndex::Vertices.slot(),
            buffer: BoundBuffer::Instances(binding),
        },
        Command::VertexBytes {
            index: PathRasterizationInputIndex::ViewportSize.slot(),
            bytes: BoundBytes::Size(viewport),
        },
        Command::FragmentBuffer {
            index: PathRasterizationInputIndex::Vertices.slot(),
            buffer: BoundBuffer::Instances(binding),
        },
        Command::Draw { vertices },
        Command::EndPass,
    ]
}

/// What binds everything but the sprites to copy the path texture to the target.
pub open spec fn path_copy_setup(viewport: DeviceSize) -> Seq<Command> {
    seq![
        Command::SetPipeline(Pipeline::PathSprites),
        Command::VertexBuffer {
            index: SpriteInputIndex::Vertices.slot(),
            buffer: BoundBuffer::UnitVertices,
        },
        Command::VertexBytes {
            index: SpriteInputIndex::ViewportSize.slot(),
            bytes: BoundBytes::Size(viewport),
        },
        Command::FragmentTexture {
            index: SpriteInputIndex::AtlasTexture.slot(),
            texture: BoundTexture::PathIntermediate,
        },
    ]
}

/// What copies `sprites` rectangles of the path texture to the target.
pub open spec fn path_copy_commands(binding: InstanceBinding, sprites: usize) -> Seq<Command> {
    seq![
        Command::VertexBuffer {
            index: SpriteInputIndex::Sprites.slot(),
            buffer: BoundBuffer::Instances(binding),
        },
        Command::DrawInstanced {
            vertices: UNIT_VERTEX_COUNT,
            instances: sprites,
            first_instance: 0,
        },
    ]
}

/// Whether each path of a batch is copied on its own. Each pixel must be copied only once, in
/// case of transparent paths. Paths of one draw order are disjoint, so their bounds can be
/// copied one by one; a batch that combines different draw orders is copied as one minimal
/// spanning rectangle.
pub open spec fn copied_singly(paths: Seq<ScenePath>) -> bool {
    paths.first().order == paths.last().order
}

/// A frame encoded so far.
pub struct Encoded {
    pub commands: Seq<Command>,
    /// The bytes of every reservation, in order.
    pub sizes: Seq<usize>,
    /// The first reason a surface was skipped for.
    pub skip: Option<SurfaceSkip>,
    pub error: Option<EncodeError>,
}

/// The buffers a frame starts with.
pub struct Origin<B> {
    pub writer: WriterState<B>,
    pub pool: PoolState<B>,
}

impl<B> Origin<B> {
    /// What a frame from `pool` starts with.
    pub open spec fn of(pool: PoolState<B>) -> Self {
        Origin { writer: WriterState::starting_with(pool.next()), pool: pool.without_next() }
    }

    pub open spec fn reserve(self, sizes: Seq<usize>) -> Reservations<B> {
        reserve_all(self.writer, self.pool, sizes)
    }
}

impl Encoded {
    pub open spec fn emit(self, commands: Seq<Command>) -> Self {
        Encoded { commands: self.commands + commands, ..self }
    }

    pub open spec fn fail(self, error: EncodeError) -> Self {
        Encoded { error: Some(error), ..self }
    }

    /// The frame once it has tried to reserve `size` bytes more.
    pub open spec fn reserved<B>(self, origin: Origin<B>, size: usize) -> Self {
        let tried = Encoded { sizes: self.sizes.push(size), ..self };
        match origin.reserve(tried.sizes).error {
            Some(error) => tried.fail(EncodeError::PathsTooLarge(error)),
            None => tried,
        }
    }

    /// Where the last reservation lies.
    pub open spec fn last_binding<B>(self, origin: Origin<B>) -> InstanceBinding {
        origin.reserve(self.sizes).bindings.last()
    }

    /// Rasterizes a batch of paths, unless it is empty.
    pub open spec fn rasterize<B>(
        self,
        origin: Origin<B>,
        scene: Scene,
        range: InstanceRange,
        target: PathTarget,
        viewport: DeviceSize,
    ) -> Self {
        if range.count() == 0 {
            self
        } else if target is Missing {
            self.fail(EncodeError::MissingPathTexture)
        } else {
            let placed = self.reserved(origin, scene.path_bytes(range) as usize);
            if placed.error is Some {
                placed
            } else {
                let binding = placed.last_binding(origin);
                placed.emit(
                    seq![Command::Write { contents: Contents::PathVertices(range), binding }]
                        + rasterization_commands(
                        target is Multisampled,
                        binding,
                        vertex_total(scene.batch_paths(range)) as usize,
                        viewport,
                    ),
                )
            }
        }
    }

    /// Copies a batch of rasterized paths to the target, unless it is empty.
    pub open spec fn copy_paths<B>(
        self,
        origin: Origin<B>,
        scene: Scene,
        range: InstanceRange,
        target: PathTarget,
        viewport: DeviceSize,
    ) -> Self {
        if range.count() == 0 {
            self
        } else if target is Missing {
            self.fail(EncodeError::MissingPathTexture)
        } else {
            let singly = copied_singly(scene.batch_paths(range));
            let sprites = if singly {
                range.count() as usize
            } else {
                1
            };
            let placed = self.emit(path_copy_setup(viewport)).reserved(
                origin,
                (scene.path_sprite_size * sprites) as usize,
            );
            if placed.error is Some {
                placed
            } else {
                let binding = placed.last_binding(origin);
                placed.emit(
                    seq![
                        Command::Write {
                            contents: if singly {
                                Contents::PathSprites(range)
                            } else {
                                Contents::SpanningSprite(range)
                            },
                            binding,
                        },
                    ] + path_copy_commands(binding, sprites),
                )
            }
        }
    }

    /// Draws a batch of paths: the pass over the target ends, the paths are rasterized in a pass
    /// of their own, and a new pass over the target copies them.
    pub open spec fn draw_paths<B>(
        self,
        origin: Origin<B>,
        scene: Scene,
        range: InstanceRange,
        target: PathTarget,
        viewport: DeviceSize,
    ) -> Self {
        let rasterized = self.emit(seq![Command::EndPass]).rasterize(
            origin,
            scene,
            range,
            target,
            viewport,
        );
        if rasterized.error is Some {
            rasterized
        } else {
            rasterized.emit(seq![Command::BeginPass { clear: None, viewport }]).copy_paths(
                origin,
                scene,
                range,
                target,
                viewport,
            )
        }
    }

    /// Draws a batch of surfaces, leaving out those that cannot be sampled.
    pub open spec fn draw_surfaces(
        self,
        scene: Scene,
        range: InstanceRange,
        binding: InstanceBinding,
        viewport: DeviceSize,
    ) -> Self {
        if range.count() == 0 {
            self
        } else {
            let count = range.count() as int;
            Encoded {
                skip: surfaces_skip(self.skip, scene.surfaces@, range.start as int, count),
                ..self
            }.emit(
                surface_setup(binding, viewport) + surfaces_commands(
                    scene.surfaces@,
                    range.start as int,
                    count,
                ),
            )
        }
    }

    /// Draws one batch.
    pub open spec fn draw_batch<B>(
        self,
        origin: Origin<B>,
        scene: Scene,
        batch: PrimitiveBatch,
        bindings: InstanceBindings,
        target: PathTarget,
        viewport: DeviceSize,
    ) -> Self {
        match batch {
            PrimitiveBatch::Shadows(range) => self.emit(
                primitive_commands(Pipeline::Shadows, range, bindings.shadows, viewport),
            ),
            PrimitiveBatch::Quads(range) => self.emit(
                primitive_commands(Pipeline::Quads, range, bindings.quads, viewport),
            ),
            PrimitiveBatch::Paths(range) => self.draw_paths(
                origin,
                scene,
                range,
                target,
                viewport,
            ),
            PrimitiveBatch::Underlines(range) => self.emit(
                primitive_commands(Pipeline::Underlines, range, bindings.underlines, viewport),
            ),
            PrimitiveBatch::MonochromeSprites { texture, range } => self.emit(
                sprite_commands(
                    Pipeline::MonochromeSprites,
                    texture,
                    range,
                    bindings.monochrome_sprites,
                    viewport,
                ),
            ),
            PrimitiveBatch::PolychromeSprites { texture, range } => self.emit(
                sprite_commands(
                    Pipeline::PolychromeSprites,
                    texture,
                    range,
                    bindings.polychrome_sprites,
                    viewport,
                ),
            ),
            PrimitiveBatch::SubpixelSprites { .. } => self,
            PrimitiveBatch::Surfaces(range) => self.draw_surfaces(
                scene,
                range,
                bindings.surfaces,
                viewport,
            ),
        }
    }

    /// Draws the first `count` batches of a scene, up to the first that fails.
    pub open spec fn draw_batches<B>(
        self,
        origin: Origin<B>,
        scene: Scene,
        count: int,
        bindings: InstanceBindings,
        target: PathTarget,
        viewport: DeviceSize,
    ) -> Self
        decreases count,
    {
        if count <= 0 {
            self
        } else {
            let earlier = self.draw_batches(origin, scene, count - 1, bindings, target, viewport);
            if earlier.error is Some {
                earlier
            } else {
                earlier.draw_batch(
                    origin,
                    scene,
                    scene.batches@[count - 1],
                    bindings,
                    target,
                    viewport,
                )
            }
        }
    }
}

/// The bytes of a scene's arrays, in the order they are written.
pub open spec fn array_sizes(scene: Scene) -> Seq<usize> {
    seq![
        scene.quads.bytes() as usize,
        scene.shadows.bytes() as usize,
        scene.underlines.bytes() as usize,
        scene.monochrome_sprites.bytes() as usize,
        scene.polychrome_sprites.bytes() as usize,
        scene.surface_array().bytes() as usize,
    ]
}

/// A scene's arrays, in the order they are written.
pub open spec fn array_contents() -> Seq<Contents> {
    seq![
        Contents::Quads,
        Contents::Shadows,
        Contents::Underlines,
        Contents::MonochromeSprites,
        Contents::PolychromeSprites,
        Contents::Surfaces,
    ]
}

/// The writes of the first arrays of a scene to `bindings`.
pub open spec fn array_writes(bindings: Seq<InstanceBinding>) -> Seq<Command> {
    Seq::new(
        bindings.len(),
        |i: int| Command::Write { contents: array_contents()[i], binding: bindings[i] },
    )
}

/// The places of a scene's arrays.
pub open spec fn array_bindings(bindings: Seq<InstanceBinding>) -> InstanceBindings {
    InstanceBindings {
        quads: bindings[0],
        shadows: bindings[1],
        underlines: bindings[2],
        monochrome_sprites: bindings[3],
        polychrome_sprites: bindings[4],
        surfaces: bindings[5],
    }
}

/// How many of each primitive a scene has.
pub open spec fn scene_counts(scene: Scene) -> SceneCounts {
    SceneCounts {
        paths: scene.paths@.len() as usize,
        shadows: scene.shadows.count,
        quads: scene.quads.count,
        underlines: scene.underlines.count,
        monochrome_sprites: scene.monochrome_sprites.count,
        polychrome_sprites: scene.polychrome_sprites.count,
        surfaces: scene.surfaces@.len() as usize,
    }
}

/// A whole frame: the scene's arrays are written, a pass clears the target, every batch is
/// drawn, and the pass ends.
pub open spec fn encode_frame<B>(
    origin: Origin<B>,
    scene: Scene,
    opaque: bool,
    target: PathTarget,
    viewport: DeviceSize,
    skip: Option<SurfaceSkip>,
) -> Encoded {
    let sizes = array_sizes(scene);
    let written = origin.reserve(sizes);
    let start = Encoded { commands: array_writes(written.bindings), sizes, skip, error: None };
    match written.error {
        Some(cause) => start.fail(
            EncodeError::SceneTooLarge { counts: scene_counts(scene), cause },
        ),
        None => {
            let clear = Some(
                if opaque {
                    ClearAlpha::Opaque
                } else {
                    ClearAlpha::Transparent
                },
            );
            let drawn = start.emit(seq![Command::BeginPass { clear, viewport }]).draw_batches(
                origin,
                scene,
                scene.batches@.len() as int,
                array_bindings(written.bindings),
                target,
                viewport,
            );
            if drawn.error is Some {
                drawn
            } else {
                drawn.emit(seq![Command::EndPass])
            }
        },
    }
}

} // verus!
