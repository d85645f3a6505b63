//! Turns a scene into the commands that draw it.

use crate::frame_model::{
    array_bindings, array_contents, array_sizes, array_writes, encode_frame, path_copy_setup,
    primitive_commands, skip_after, sprite_commands, surface_commands, surface_setup,
    surfaces_commands, surfaces_skip, Encoded, EncodeError, InstanceBindings, Origin, PathTarget,
    SceneCounts,
};
use crate::instance_buffer::{
    FrameBuffers, InstanceBinding, InstanceBufferPool, InstanceBufferWriter, InstanceError,
    PoolState, WriterState,
};
use crate::render_commands::{
    BoundBuffer, BoundBytes, BoundTexture, ClearAlpha, Command, Contents, DeviceSize,
    InstanceRange, PathRasterizationInputIndex, Pipeline, PrimitiveInputIndex, SpriteInputIndex,
    SurfaceInputIndex, UNIT_VERTEX_COUNT,
};
use crate::scene::{ArrayShape, AtlasTexture, PrimitiveBatch, Scene, SceneSurface};
use crate::surfaces::{sample_surface, SurfaceSkip};
use vstd::prelude::*;

verus! {

/// Once a reservation has failed, later ones change nothing.
proof fn lemma_reservations_stop<B>(origin: Origin<B>, sizes: Seq<usize>, n: int)
    requires
        0 <= n <= sizes.len(),
        origin.reserve(sizes.take(n)).error is Some,
    ensures
        origin.reserve(sizes) == origin.reserve(sizes.take(n)),
    decreases sizes.len() - n,
{
    if n < sizes.len() {
        assert(sizes.take(n + 1).drop_last() =~= sizes.take(n));
        lemma_reservations_stop(origin, sizes, n + 1);
    } else {
        assert(sizes.take(n) =~= sizes);
    }
}

/// A scene's arrays, in the order they are written.
fn scene_arrays(scene: &Scene) -> (arrays: Vec<(Contents, ArrayShape)>)
    requires
        scene.valid(),
    ensures
        arrays@.len() == 6,
        forall|i: int|
            0 <= i < 6 ==> {
                &&& (#[trigger] arrays@[i]).0 == array_contents()[i]
                &&& arrays@[i].1.bytes() == array_sizes(*scene)[i]
                &&& 0 <= arrays@[i].1.bytes() <= isize::MAX
            },
{
    let surfaces = ArrayShape {
        element_size: scene.surface_bounds_size,
        count: scene.surfaces.len(),
    };
    let mut arrays: Vec<(Contents, ArrayShape)> = Vec::new();
    arrays.push((Contents::Quads, scene.quads));
    arrays.push((Contents::Shadows, scene.shadows));
    arrays.push((Contents::Underlines, scene.underlines));
    arrays.push((Contents::MonochromeSprites, scene.monochrome_sprites));
    arrays.push((Contents::PolychromeSprites, scene.polychrome_sprites));
    arrays.push((Contents::Surfaces, surfaces));
    proof {
        assert forall|i: int| 0 <= i < 6 implies 0 <= (#[trigger] arrays@[i]).1.bytes() by {
            assert(arrays@[i].1.element_size * arrays@[i].1.count >= 0) by (nonlinear_arith);
        }
    }
    arrays
}

/// A frame ready for the GPU.
#[derive(Debug)]
pub struct Frame<B> {
    pub commands: Vec<Command>,
    pub buffers: FrameBuffers<B>,
}

/// Encodes one frame.
pub struct FrameEncoder<B> {
    writer: InstanceBufferWriter<B>,
    commands: Vec<Command>,
    skip: Option<SurfaceSkip>,
    origin: Ghost<Origin<B>>,
    sizes: Ghost<Seq<usize>>,
}

impl<B> FrameEncoder<B> {
    /// The buffers the frame started with.
    pub closed spec fn origin(self) -> Origin<B> {
        self.origin@
    }

    /// The frame so far.
    pub closed spec fn encoded(self) -> Encoded {
        Encoded {
            commands: self.commands@,
            sizes: self.sizes@,
            skip: self.skip,
            error: None,
        }
    }

    /// Whether the CPU and the GPU share the memory written to.
    pub closed spec fn shares_memory(self) -> bool {
        self.writer.shares_memory()
    }

    /// The buffers the frame has taken up.
    pub closed spec fn writer_state(self) -> WriterState<B> {
        self.writer@
    }

    /// Whether the encoder and its pool are where the frame's reservations leave them.
    pub open spec fn in_step(self, pool: PoolState<B>) -> bool {
        let reserved = self.origin().reserve(self.encoded().sizes);
        &&& reserved.error is None
        &&& self.writer_state() == reserved.writer
        &&& pool == reserved.pool
        &&& self.writer_state().valid()
        &&& pool.valid()
        &&& self.encoded().error is None
    }

    /// Starts a frame.
    pub fn new(
        pool: &mut InstanceBufferPool<B>,
        unified_memory: bool,
        skip: Option<SurfaceSkip>,
    ) -> (encoder: Self)
        requires
            old(pool)@.valid(),
        ensures
            encoder.in_step(final(pool)@),
            encoder.origin() == Origin::of(old(pool)@),
            encoder.encoded() == (Encoded { commands: seq![], sizes: seq![], skip, error: None }),
            encoder.shares_memory() == unified_memory,
    {
        let ghost origin = Origin::of(pool@);
        let writer = InstanceBufferWriter::new(pool, unified_memory);
        FrameEncoder {
            writer,
            commands: Vec::new(),
            skip,
            origin: Ghost(origin),
            sizes: Ghost(Seq::empty()),
        }
    }

    fn emit(&mut self, command: Command)
        ensures
            final(self).encoded() == old(self).encoded().emit(seq![command]),
            final(self).origin() == old(self).origin(),
            final(self).writer_state() == old(self).writer_state(),
            final(self).shares_memory() == old(self).shares_memory(),
    {
        self.commands.push(command);
        proof {
            assert(self.commands@ =~= old(self).commands@ + seq![command]);
        }
    }

    /// Reserves room for `count` elements of `element_size` bytes each.
    fn reserve(
        &mut self,
        pool: &mut InstanceBufferPool<B>,
        element_size: usize,
        count: usize,
    ) -> (placed: Result<InstanceBinding, InstanceError>)
        requires
            old(self).in_step(old(pool)@),
            element_size * count <= isize::MAX,
        ensures
            final(self).origin() == old(self).origin(),
            final(self).shares_memory() == old(self).shares_memory(),
            final(pool)@.valid(),
            ({
                let sizes = old(self).encoded().sizes.push((element_size * count) as usize);
                let reserved = old(self).origin().reserve(sizes);
                match placed {
                    Ok(binding) => {
                        &&& reserved.error is None
                        &&& reserved.bindings == old(self).origin().reserve(
                            old(self).encoded().sizes,
                        ).bindings.push(binding)
                        &&& final(self).encoded() == (Encoded { sizes, ..old(self).encoded() })
                        &&& final(self).in_step(final(pool)@)
                    },
                    Err(error) => {
                        &&& reserved.error == Some(error)
                        &&& final(pool)@ == reserved.pool
                        &&& final(self).encoded() == old(self).encoded()
                    },
                }
            }),
    {
        let ghost sizes = self.sizes@.push((element_size * count) as usize);
        proof {
            assert(sizes.drop_last() =~= self.sizes@);
        }
        let placed = self.writer.allocate(pool, element_size, count);
        if placed.is_ok() {
            self.sizes = Ghost(sizes);
        }
        placed
    }

    /// Writes a scene's arrays.
    pub fn write_instances(&mut self, pool: &mut InstanceBufferPool<B>, scene: &Scene) -> (written:
        Result<InstanceBindings, InstanceError>)
        requires
            old(self).in_step(old(pool)@),
            old(self).encoded().commands.len() == 0,
            old(self).encoded().sizes.len() == 0,
            scene.valid(),
        ensures
            final(self).origin() == old(self).origin(),
            final(self).shares_memory() == old(self).shares_memory(),
            final(pool)@.valid(),
            ({
                let reserved = old(self).origin().reserve(array_sizes(*scene));
                match written {
                    Ok(bindings) => {
                        &&& reserved.error is None
                        &&& reserved.bindings.len() == 6
                        &&& bindings == array_bindings(reserved.bindings)
                        &&& final(self).in_step(final(pool)@)
                        &&& final(self).encoded() == (Encoded {
                            commands: array_writes(reserved.bindings),
                            sizes: array_sizes(*scene),
                            ..old(self).encoded()
                        })
                    },
                    Err(error) => {
                        &&& reserved.error == Some(error)
                        &&& final(pool)@ == reserved.pool
                        &&& final(self).encoded().skip == old(self).encoded().skip
                    },
                }
            }),
    {
        let arrays = scene_arrays(scene);
        let mut bindings: Vec<InstanceBinding> = Vec::new();
        let ghost sizes = array_sizes(*scene);
        let mut i: usize = 0;
        proof {
            assert(self.encoded().sizes =~= sizes.take(0));
            assert(array_writes(bindings@) =~= self.encoded().commands);
        }
        while i < 6
            invariant
                i <= 6,
                sizes == array_sizes(*scene),
                arrays@.len() == 6,
                forall|j: int|
                    0 <= j < 6 ==> {
                        &&& (#[trigger] arrays@[j]).0 == array_contents()[j]
                        &&& arrays@[j].1.bytes() == sizes[j]
                        &&& 0 <= arrays@[j].1.bytes() <= isize::MAX
                    },
                self.in_step(pool@),
                self.origin() == old(self).origin(),
                self.shares_memory() == old(self).shares_memory(),
                bindings@.len() == i,
                bindings@ == self.origin().reserve(sizes.take(i as int)).bindings,
                self.encoded() == (Encoded {
                    commands: array_writes(bindings@),
                    sizes: sizes.take(i as int),
                    ..old(self).encoded()
                }),
            decreases 6 - i,
        {
            let (contents, shape) = arrays[i];
            proof {
                assert(arrays@[i as int].1.bytes() == sizes[i as int]);
                assert(sizes.take(i + 1) =~= sizes.take(i as int).push(sizes[i as int]));
            }
            match self.reserve(pool, shape.element_size, shape.count) {
                Ok(binding) => {
                    let ghost before = bindings@;
                    self.emit(Command::Write { contents, binding });
                    bindings.push(binding);
                    proof {
                        assert(array_writes(before) + seq![Command::Write { contents, binding }]
                            =~= array_writes(bindings@));
                    }
                },
                Err(error) => {
                    proof {
                        lemma_reservations_stop(self.origin(), sizes, i + 1);
                    }
                    return Err(error);
                },
            }
            i = i + 1;
        }
        proof {
            assert(sizes.take(6) =~= sizes);
        }
        Ok(
            InstanceBindings {
                quads: bindings[0],
                shadows: bindings[1],
                underlines: bindings[2],
                monochrome_sprites: bindings[3],
                polychrome_sprites: bindings[4],
                surfaces: bindings[5],
            },
        )
    }

    /// Draws one rectangle per instance of the range.
    fn draw_primitives(
        &mut self,
        pipeline: Pipeline,
        range: InstanceRange,
        binding: InstanceBinding,
        viewport: DeviceSize,
    )
        ensures
            final(self).encoded() == old(self).encoded().emit(
                primitive_commands(pipeline, range, binding, viewport),
            ),
            final(self).origin() == old(self).origin(),
            final(self).writer_state() == old(self).writer_state(),
            final(self).shares_memory() == old(self).shares_memory(),
    {
        let instances: usize = range.len();
        if instances > 0 {
            self.emit(Command::SetPipeline(pipeline));
            self.emit(
                Command::VertexBuffer {
                    index: PrimitiveInputIndex::Vertices.index(),
                    buffer: BoundBuffer::UnitVertices,
                },
            );
            self.emit(
                Command::VertexBuffer {
                    index: PrimitiveInputIndex::Instances.index(),
                    buffer: BoundBuffer::Instances(binding),
                },
            );
            self.emit(
                Command::FragmentBuffer {
                    index: PrimitiveInputIndex::Instances.index(),
                    buffer: BoundBuffer::Instances(binding),
                },
            );
            self.emit(
                Command::VertexBytes {
                    index: PrimitiveInputIndex::ViewportSize.index(),
                    bytes: BoundBytes::Size(viewport),
                },
            );
            self.emit(
                Command::DrawInstanced {
                    vertices: UNIT_VERTEX_COUNT,
                    instances,
                    first_instance: range.start,
                },
            );
        }
        proof {
            assert(self.encoded().commands =~= old(self).encoded().emit(
                primitive_commands(pipeline, range, binding, viewport),
            ).commands);
        }
    }

    pub fn draw_shadows(
        &mut self,
        range: InstanceRange,
        bindings: &InstanceBindings,
        viewport: DeviceSize,
    )
        ensures
            final(self).encoded() == old(self).encoded().emit(
                primitive_commands(Pipeline::Shadows, range, bindings.shadows, viewport),
            ),
            final(self).origin() == old(self).origin(),
            final(self).writer_state() == old(self).writer_state(),
            final(self).shares_memory() == old(self).shares_memory(),
    {
        self.draw_primitives(Pipeline::Shadows, range, bindings.shadows, viewport);
    }

    pub fn draw_quads(
        &mut self,
        range: InstanceRange,
        bindings: &InstanceBindings,
        viewport: DeviceSize,
    )
        ensures
            final(self).encoded() == old(self).encoded().emit(
                primitive_commands(Pipeline::Quads, range, bindings.quads, viewport),
            ),
            final(self).origin() == old(self).origin(),
            final(self).writer_state() == old(self).writer_state(),
            final(self).shares_memory() == old(self).shares_memory(),
    {
        self.draw_primitives(Pipeline::Quads, range, bindings.quads, viewport);
    }

    pub fn draw_underlines(
        &mut self,
        range: InstanceRange,
        bindings: &InstanceBindings,
        viewport: DeviceSize,
    )
        ensures
            final(self).encoded() == old(self).encoded().emit(
                primitive_commands(Pipeline::Underlines, range, bindings.underlines, viewport),
            ),
            final(self).origin() == old(self).origin(),
            final(self).writer_state() == old(self).writer_state(),
            final(self).shares_memory() == old(self).shares_memory(),
    {
        self.draw_primitives(Pipeline::Underlines, range, bindings.underlines, viewport);
    }

    /// Draws the sprites of one atlas texture.
    fn draw_sprites(
        &mut self,
        pipeline: Pipeline,
        texture: Option<AtlasTexture>,
        range: InstanceRange,
        binding: InstanceBinding,
        viewport: DeviceSize,
    )
        ensures
            final(self).encoded() == old(self).encoded().emit(
                sprite_commands(pipeline, texture, range, binding, viewport),
            ),
            final(self).origin() == old(self).origin(),
            final(self).writer_state() == old(self).writer_state(),
            final(self).shares_memory() == old(self).shares_memory(),
    {
        let instances: usize = range.len();
        if instances > 0 {
            if let Some(texture) = texture {
                self.emit(Command::SetPipeline(pipeline));
                self.emit(
                    Command::VertexBuffer {
                        index: SpriteInputIndex::Vertices.index(),
                        buffer: BoundBuffer::UnitVertices,
                    },
                );
                self.emit(
                    Command::VertexBuffer {
                        index: SpriteInputIndex::Sprites.index(),
                        buffer: BoundBuffer::Instances(binding),
                    },
                );
                self.emit(
                    Command::VertexBytes {
                        index: SpriteInputIndex::ViewportSize.index(),
                        bytes: BoundBytes::Size(viewport),
                    },
                );
                self.emit(
                    Command::VertexBytes {
                        index: SpriteInputIndex::AtlasTextureSize.index(),
                        bytes: BoundBytes::Size(texture.size),
                    },
                );
                self.emit(
                    Command::FragmentBuffer {
                        index: SpriteInputIndex::Sprites.index(),
                        buffer: BoundBuffer::Instances(binding),
                    },
                );
                self.emit(
                    Command::FragmentTexture {
                        index: SpriteInputIndex::AtlasTexture.index(),
                        texture: BoundTexture::Atlas(texture.handle),
                    },
                );
                self.emit(
                    Command::DrawInstanced {
                        vertices: UNIT_VERTEX_COUNT,
                        instances,
                        first_instance: range.start,
                    },
                );
            }
        }
        proof {
            assert(self.encoded().commands =~= old(self).encoded().emit(
                sprite_commands(pipeline, texture, range, binding, viewport),
            ).commands);
        }
    }

    pub fn draw_monochrome_sprites(
        &mut self,
        texture: Option<AtlasTexture>,
        range: InstanceRange,
        bindings: &InstanceBindings,
        viewport: DeviceSize,
    )
        ensures
            final(self).encoded() == old(self).encoded().emit(
                sprite_commands(
                    Pipeline::MonochromeSprites,
                    texture,
                    range,
                    bindings.monochrome_sprites,
                    viewport,
                ),
            ),
            final(self).origin() == old(self).origin(),
            final(self).writer_state() == old(self).writer_state(),
            final(self).shares_memory() == old(self).shares_memory(),
    {
        let binding = bindings.monochrome_sprites;
        self.draw_sprites(Pipeline::MonochromeSprites, texture, range, binding, viewport);
    }

    pub fn draw_polychrome_sprites(
        &mut self,
        texture: Option<AtlasTexture>,
        range: InstanceRange,
        bindings: &InstanceBindings,
        viewport: DeviceSize,
    )
        ensures
            final(self).encoded() == old(self).encoded().emit(
                sprite_commands(
                    Pipeline::PolychromeSprites,
                    texture,
                    range,
                    bindings.polychrome_sprites,
                    viewport,
                ),
            ),
            final(self).origin() == old(self).origin(),
            final(self).writer_state() == old(self).writer_state(),
            final(self).shares_memory() == old(self).shares_memory(),
    {
        let binding = bindings.polychrome_sprites;
        self.draw_sprites(Pipeline::PolychromeSprites, texture, range, binding, viewport);
    }

    /// Leaves a surface out of this frame rather than abort over it, and remembers the first
    /// reason.
    fn skip_surface(&mut self, why: SurfaceSkip)
        ensures
            final(self).encoded() == (Encoded {
                skip: match old(self).encoded().skip {
                    Some(first) => Some(first),
                    None => Some(why),
                },
                ..old(self).encoded()
            }),
            final(self).origin() == old(self).origin(),
            final(self).writer_state() == old(self).writer_state(),
            final(self).shares_memory() == old(self).shares_memory(),
    {
        if self.skip.is_none() {
            self.skip = Some(why);
        }
    }

    /// Draws one surface, or skips it.
    fn draw_surface(&mut self, surface: &SceneSurface, index: usize)
        ensures
            final(self).encoded() == (Encoded {
                skip: skip_after(old(self).encoded().skip, *surface),
                ..old(self).encoded()
            }.emit(surface_commands(*surface, index))),
            final(self).origin() == old(self).origin(),
            final(self).writer_state() == old(self).writer_state(),
            final(self).shares_memory() == old(self).shares_memory(),
    {
        match sample_surface(surface.format, surface.luma, surface.chroma) {
            Err(why) => self.skip_surface(why),
            Ok(full_range) => {
                self.emit(
                    Command::VertexBytes {
                        index: SurfaceInputIndex::TextureSize.index(),
                        bytes: BoundBytes::Size(surface.size),
                    },
                );
                self.emit(
                    Command::FragmentTexture {
                        index: SurfaceInputIndex::YTexture.index(),
                        texture: BoundTexture::Luma(index),
                    },
                );
                self.emit(
                    Command::FragmentTexture {
                        index: SurfaceInputIndex::CbCrTexture.index(),
                        texture: BoundTexture::Chroma(index),
                    },
                );
                self.emit(
                    Command::FragmentBytes {
                        index: SurfaceInputIndex::YCbCrToRgb.index(),
                        bytes: BoundBytes::YCbCrToRgb { matrix: surface.matrix, full_range },
                    },
                );
                self.emit(Command::HoldSurface(index));
                self.emit(
                    Command::DrawInstanced {
                        vertices: UNIT_VERTEX_COUNT,
                        instances: 1,
                        first_instance: index,
                    },
                );
            },
        }
        proof {
            assert(self.encoded().commands =~= old(self).encoded().commands + surface_commands(
                *surface,
                index,
            ));
        }
    }

    /// Draws a batch of surfaces.
    pub fn draw_surfaces(
        &mut self,
        scene: &Scene,
        range: InstanceRange,
        bindings: &InstanceBindings,
        viewport: DeviceSize,
    )
        requires
            range.start <= range.end <= scene.surfaces@.len(),
        ensures
            final(self).encoded() == old(self).encoded().draw_surfaces(
                *scene,
                range,
                bindings.surfaces,
                viewport,
            ),
            final(self).origin() == old(self).origin(),
            final(self).writer_state() == old(self).writer_state(),
            final(self).shares_memory() == old(self).shares_memory(),
    {
        let count: usize = range.len();
        if count == 0 {
            return;
        }
        self.emit(Command::SetPipeline(Pipeline::Surfaces));
        self.emit(
            Command::VertexBuffer {
                index: SurfaceInputIndex::Vertices.index(),
                buffer: BoundBuffer::UnitVertices,
            },
        );
        self.emit(
            Command::VertexBuffer {
                index: SurfaceInputIndex::Surfaces.index(),
                buffer: BoundBuffer::Instances(bindings.surfaces),
            },
        );
        self.emit(
            Command::VertexBytes {
                index: SurfaceInputIndex::ViewportSize.index(),
                bytes: BoundBytes::Size(viewport),
            },
        );
        let ghost setup = surface_setup(bindings.surfaces, viewport);
        let mut i: usize = 0;
        proof {
            assert(self.encoded().commands =~= old(self).encoded().commands + (setup
                + surfaces_commands(scene.surfaces@, range.start as int, 0)));
        }
        while i < count
            invariant
                i <= count,
                count == range.count(),
                range.start <= range.end <= scene.surfaces@.len(),
                self.encoded() == (Encoded {
                    commands: old(self).encoded().commands + (setup + surfaces_commands(
                        scene.surfaces@,
                        range.start as int,
                        i as int,
                    )),
                    skip: surfaces_skip(
                        old(self).encoded().skip,
                        scene.surfaces@,
                        range.start as int,
                        i as int,
                    ),
                    ..old(self).encoded()
                }),
                self.origin() == old(self).origin(),
                self.writer_state() == old(self).writer_state(),
                self.shares_memory() == old(self).shares_memory(),
            decreases count - i,
        {
            let index: usize = range.start + i;
            self.draw_surface(&scene.surfaces[index], index);
            proof {
                assert(self.encoded().commands =~= old(self).encoded().commands + (setup
                    + surfaces_commands(scene.surfaces@, range.start as int, i + 1)));
            }
            i = i + 1;
        }
    }

    /// Rasterizes a batch of paths into the path texture. Returns whether there were any.
    pub fn draw_paths_to_intermediate(
        &mut self,
        pool: &mut InstanceBufferPool<B>,
        scene: &Scene,
        range: InstanceRange,
        target: PathTarget,
        viewport: DeviceSize,
    ) -> (drawn: Result<bool, EncodeError>)
        requires
            old(self).in_step(old(pool)@),
            scene.batch_valid(PrimitiveBatch::Paths(range)),
        ensures
            final(self).origin() == old(self).origin(),
            final(self).shares_memory() == old(self).shares_memory(),
            final(pool)@.valid(),
            ({
                let encoded = old(self).encoded().rasterize(
                    old(self).origin(),
                    *scene,
                    range,
                    target,
                    viewport,
                );
                match drawn {
                    Ok(any) => {
                        &&& any == (range.count() > 0)
                        &&& final(self).encoded() == encoded
                        &&& final(self).in_step(final(pool)@)
                    },
                    Err(error) => {
                        &&& encoded.error == Some(error)
                        &&& final(pool)@ == old(self).origin().reserve(encoded.sizes).pool
                        &&& final(self).encoded().skip == encoded.skip
                    },
                }
            }),
    {
        if range.len() == 0 {
            return Ok(false);
        }
        if target == PathTarget::Missing {
            return Err(EncodeError::MissingPathTexture);
        }
        let vertices: usize = scene.count_vertices(range).unwrap();
        let binding = match self.reserve(pool, scene.path_vertex_size, vertices) {
            Ok(binding) => binding,
            Err(error) => return Err(EncodeError::PathsTooLarge(error)),
        };
        let multisampled = target == PathTarget::Multisampled;
        self.emit(Command::Write { contents: Contents::PathVertices(range), binding });
        self.emit(Command::BeginPathPass { multisampled });
        self.emit(Command::SetPipeline(Pipeline::PathRasterization));
        self.emit(
            Command::VertexBuffer {
                index: PathRasterizationInputIndex::Vertices.index(),
                buffer: BoundBuffer::Instances(binding),
            },
        );
        self.emit(
            Command::VertexBytes {
                index: PathRasterizationInputIndex::ViewportSize.index(),
                bytes: BoundBytes::Size(viewport),
            },
        );
        self.emit(
            Command::FragmentBuffer {
                index: PathRasterizationInputIndex::Vertices.index(),
                buffer: BoundBuffer::Instances(binding),
            },
        );
        self.emit(Command::Draw { vertices });
        self.emit(Command::EndPass);
        proof {
            let encoded = old(self).encoded().rasterize(
                old(self).origin(),
                *scene,
                range,
                target,
                viewport,
            );
            assert(self.encoded().commands =~= encoded.commands);
        }
        Ok(true)
    }

    /// Copies a batch of rasterized paths from the path texture to the target.
    pub fn draw_paths_from_intermediate(
        &mut self,
        pool: &mut InstanceBufferPool<B>,
        scene: &Scene,
        range: InstanceRange,
        target: PathTarget,
        viewport: DeviceSize,
    ) -> (drawn: Result<(), EncodeError>)
        requires
            old(self).in_step(old(pool)@),
            scene.batch_valid(PrimitiveBatch::Paths(range)),
        ensures
            final(self).origin() == old(self).origin(),
            final(self).shares_memory() == old(self).shares_memory(),
            final(pool)@.valid(),
            ({
                let encoded = old(self).encoded().copy_paths(
                    old(self).origin(),
                    *scene,
                    range,
                    target,
                    viewport,
                );
                match drawn {
                    Ok(()) => {
                        &&& final(self).encoded() == encoded
                        &&& final(self).in_step(final(pool)@)
                    },
                    Err(error) => {
                        &&& encoded.error == Some(error)
                        &&& final(pool)@ == old(self).origin().reserve(encoded.sizes).pool
                        &&& final(self).encoded().skip == encoded.skip
                    },
                }
            }),
    {
        if range.len() == 0 {
            return Ok(());
        }
        if target == PathTarget::Missing {
            return Err(EncodeError::MissingPathTexture);
        }
        self.emit(Command::SetPipeline(Pipeline::PathSprites));
        self.emit(
            Command::VertexBuffer {
                index: SpriteInputIndex::Vertices.index(),
                buffer: BoundBuffer::UnitVertices,
            },
        );
        self.emit(
            Command::VertexBytes {
                index: SpriteInputIndex::ViewportSize.index(),
                bytes: BoundBytes::Size(viewport),
            },
        );
        self.emit(
            Command::FragmentTexture {
                index: SpriteInputIndex::AtlasTexture.index(),
                texture: BoundTexture::PathIntermediate,
            },
        );
        proof {
            assert(self.encoded().commands =~= old(self).encoded().commands + path_copy_setup(
                viewport,
            ));
        }
        let singly = scene.paths[range.end - 1].order == scene.paths[range.start].order;
        let sprites: usize = if singly {
            range.len()
        } else {
            1
        };
        let contents = if singly {
            Contents::PathSprites(range)
        } else {
            Contents::SpanningSprite(range)
        };
        let binding = match self.reserve(pool, scene.path_sprite_size, sprites) {
            Ok(binding) => binding,
            Err(error) => return Err(EncodeError::PathsTooLarge(error)),
        };
        self.emit(Command::Write { contents, binding });
        self.emit(
            Command::VertexBuffer {
                index: SpriteInputIndex::Sprites.index(),
                buffer: BoundBuffer::Instances(binding),
            },
        );
        self.emit(
            Command::DrawInstanced {
                vertices: UNIT_VERTEX_COUNT,
                instances: sprites,
                first_instance: 0,
            },
        );
        proof {
            let encoded = old(self).encoded().copy_paths(
                old(self).origin(),
                *scene,
                range,
                target,
                viewport,
            );
            assert(self.encoded().commands =~= encoded.commands);
        }
        Ok(())
    }

    /// Draws a batch of paths.
    fn draw_paths(
        &mut self,
        pool: &mut InstanceBufferPool<B>,
        scene: &Scene,
        range: InstanceRange,
        target: PathTarget,
        viewport: DeviceSize,
    ) -> (drawn: Result<(), EncodeError>)
        requires
            old(self).in_step(old(pool)@),
            scene.batch_valid(PrimitiveBatch::Paths(range)),
        ensures
            final(self).origin() == old(self).origin(),
            final(self).shares_memory() == old(self).shares_memory(),
            final(pool)@.valid(),
            ({
                let encoded = old(self).encoded().draw_paths(
                    old(self).origin(),
                    *scene,
                    range,
                    target,
                    viewport,
                );
                match drawn {
                    Ok(()) => {
                        &&& final(self).encoded() == encoded
                        &&& final(self).in_step(final(pool)@)
                    },
                    Err(error) => {
                        &&& encoded.error == Some(error)
                        &&& final(pool)@ == old(self).origin().reserve(encoded.sizes).pool
                        &&& final(self).encoded().skip == encoded.skip
                    },
                }
            }),
    {
        self.emit(Command::EndPass);
        let any = match self.draw_paths_to_intermediate(pool, scene, range, target, viewport) {
            Ok(any) => any,
            Err(error) => return Err(error),
        };
        self.emit(Command::BeginPass { clear: None, viewport });
        if any {
            self.draw_paths_from_intermediate(pool, scene, range, target, viewport)
        } else {
            Ok(())
        }
    }

    /// Draws every batch of a scene, in a pass that clears the target first.
    pub fn draw_primitives_to_texture(
        &mut self,
        pool: &mut InstanceBufferPool<B>,
        scene: &Scene,
        bindings: &InstanceBindings,
        opaque: bool,
        target: PathTarget,
        viewport: DeviceSize,
    ) -> (drawn: Result<(), EncodeError>)
        requires
            old(self).in_step(old(pool)@),
            scene.valid(),
        ensures
            final(self).origin() == old(self).origin(),
            final(self).shares_memory() == old(self).shares_memory(),
            final(pool)@.valid(),
            ({
                let clear = Some(
                    if opaque {
                        ClearAlpha::Opaque
                    } else {
                        ClearAlpha::Transparent
                    },
                );
                let encoded = old(self).encoded().emit(
                    seq![Command::BeginPass { clear, viewport }],
                ).draw_batches(
                    old(self).origin(),
                    *scene,
                    scene.batches@.len() as int,
                    *bindings,
                    target,
                    viewport,
                );
                match drawn {
                    Ok(()) => {
                        &&& encoded.error is None
                        &&& final(self).encoded() == encoded.emit(seq![Command::EndPass])
                        &&& final(self).in_step(final(pool)@)
                    },
                    Err(error) => {
                        &&& encoded.error == Some(error)
                        &&& final(pool)@ == old(self).origin().reserve(encoded.sizes).pool
                        &&& final(self).encoded().skip == encoded.skip
                    },
                }
            }),
    {
        let clear = Some(
            if opaque {
                ClearAlpha::Opaque
            } else {
                ClearAlpha::Transparent
            },
        );
        self.emit(Command::BeginPass { clear, viewport });
        let ghost start = self.encoded();
        let ghost origin = self.origin();
        let count: usize = scene.batches.len();
        let mut i: usize = 0;
        while i < count
            invariant
                i <= count,
                count == scene.batches@.len(),
                scene.valid(),
                origin == old(self).origin(),
                self.origin() == origin,
                self.shares_memory() == old(self).shares_memory(),
                self.in_step(pool@),
                start.error is None,
                self.encoded() == start.draw_batches(
                    origin,
                    *scene,
                    i as int,
                    *bindings,
                    target,
                    viewport,
                ),
                clear == Some(
                    if opaque {
                        ClearAlpha::Opaque
                    } else {
                        ClearAlpha::Transparent
                    },
                ),
                start == old(self).encoded().emit(seq![Command::BeginPass { clear, viewport }]),
            decreases count - i,
        {
            let batch = scene.batches[i];
            proof {
                assert(scene.batch_valid(scene.batches@[i as int]));
            }
            match batch {
                PrimitiveBatch::Shadows(range) => self.draw_shadows(range, bindings, viewport),
                PrimitiveBatch::Quads(range) => self.draw_quads(range, bindings, viewport),
                PrimitiveBatch::Paths(range) => {
                    match self.draw_paths(pool, scene, range, target, viewport) {
                        Ok(()) => {},
                        Err(error) => {
                            proof {
                                lemma_batches_stop(
                                    start,
                                    origin,
                                    *scene,
                                    i + 1,
                                    *bindings,
                                    target,
                                    viewport,
                                );
                            }
                            return Err(error);
                        },
                    }
                },
                PrimitiveBatch::Underlines(range) => self.draw_underlines(
                    range,
                    bindings,
                    viewport,
                ),
                PrimitiveBatch::MonochromeSprites { texture, range } => {
                    self.draw_monochrome_sprites(texture, range, bindings, viewport)
                },
                PrimitiveBatch::PolychromeSprites { texture, range } => {
                    self.draw_polychrome_sprites(texture, range, bindings, viewport)
                },
                PrimitiveBatch::SubpixelSprites { .. } => {},
                PrimitiveBatch::Surfaces(range) => self.draw_surfaces(
                    scene,
                    range,
                    bindings,
                    viewport,
                ),
            }
            i = i + 1;
        }
        self.emit(Command::EndPass);
        Ok(())
    }

    /// The commands and the buffers they use.
    pub fn finish(self) -> (frame: Frame<B>)
        requires
            self.writer_state().valid(),
        ensures
            frame.commands@ == self.encoded().commands,
            frame.buffers.buffers@ == self.writer_state().buffers,
            frame.buffers.modified@ == if self.shares_memory() {
                seq![]
            } else {
                self.writer_state().modified()
            },
    {
        let FrameEncoder { writer, commands, .. } = self;
        Frame { commands, buffers: writer.finish() }
    }

    /// The first reason a surface was skipped for.
    pub fn skip(&self) -> (skip: Option<SurfaceSkip>)
        ensures
            skip == self.encoded().skip,
    {
        self.skip
    }
}

impl<B> Frame<B> {
    /// Whether this is what `encoded` asks of the GPU, with the buffers it took from `origin`.
    pub open spec fn renders(self, encoded: Encoded, origin: Origin<B>, unified_memory: bool) -> bool {
        let writer = origin.reserve(encoded.sizes).writer;
        &&& self.commands@ == encoded.commands
        &&& self.buffers.buffers@ == writer.buffers
        &&& self.buffers.modified@ == if unified_memory {
            seq![]
        } else {
            writer.modified()
        }
    }
}

/// Encodes a scene: the frame, or why there is none, beside the first reason a surface was
/// skipped for. `skip` is a reason known from an earlier frame.
pub fn encode_scene<B>(
    pool: &mut InstanceBufferPool<B>,
    unified_memory: bool,
    scene: &Scene,
    opaque: bool,
    target: PathTarget,
    viewport: DeviceSize,
    skip: Option<SurfaceSkip>,
) -> (outcome: (Result<Frame<B>, EncodeError>, Option<SurfaceSkip>))
    requires
        old(pool)@.valid(),
        scene.valid(),
    ensures
        final(pool)@.valid(),
        ({
            let origin = Origin::of(old(pool)@);
            let encoded = encode_frame(origin, *scene, opaque, target, viewport, skip);
            &&& final(pool)@ == origin.reserve(encoded.sizes).pool
            &&& outcome.1 == encoded.skip
            &&& match outcome.0 {
                Ok(frame) => encoded.error is None && frame.renders(
                    encoded,
                    origin,
                    unified_memory,
                ),
                Err(error) => encoded.error == Some(error),
            }
        }),
{
    let mut encoder = FrameEncoder::new(pool, unified_memory, skip);
    let bindings = match encoder.write_instances(pool, scene) {
        Ok(bindings) => bindings,
        Err(cause) => {
            let counts = SceneCounts {
                paths: scene.paths.len(),
                shadows: scene.shadows.count,
                quads: scene.quads.count,
                underlines: scene.underlines.count,
                monochrome_sprites: scene.monochrome_sprites.count,
                polychrome_sprites: scene.polychrome_sprites.count,
                surfaces: scene.surfaces.len(),
            };
            return (Err(EncodeError::SceneTooLarge { counts, cause }), encoder.skip());
        },
    };
    let drawn = encoder.draw_primitives_to_texture(
        pool,
        scene,
        &bindings,
        opaque,
        target,
        viewport,
    );
    let skip = encoder.skip();
    match drawn {
        Ok(()) => (Ok(encoder.finish()), skip),
        Err(error) => (Err(error), skip),
    }
}

/// Once a batch has failed, later ones change nothing.
proof fn lemma_batches_stop<B>(
    start: Encoded,
    origin: Origin<B>,
    scene: Scene,
    n: int,
    bindings: InstanceBindings,
    target: PathTarget,
    viewport: DeviceSize,
)
    requires
        0 <= n <= scene.batches@.len(),
        start.draw_batches(origin, scene, n, bindings, target, viewport).error is Some,
    ensures
        start.draw_batches(
            origin,
            scene,
            scene.batches@.len() as int,
            bindings,
            target,
            viewport,
        ) == start.draw_batches(origin, scene, n, bindings, target, viewport),
    decreases scene.batches@.len() - n,
{
    if n < scene.batches@.len() {
        lemma_batches_stop(start, origin, scene, n + 1, bindings, target, viewport);
    }
}

} // verus!
