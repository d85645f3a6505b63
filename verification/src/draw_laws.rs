//! What a frame puts on the screen, by running its commands.
//!
//! A [`Machine`] does what Metal does with commands: it binds, and remembers at each draw what
//! was bound. The laws compare what it drew with what the scene asked for.

use crate::frame_model::{
    array_bindings, array_sizes, array_writes, encode_frame, path_copy_commands, path_copy_setup,
    primitive_commands, rasterization_commands, sprite_commands, surface_commands, surface_setup,
    surfaces_commands, Encoded, InstanceBindings, Origin, PathTarget,
};
use crate::frame_memory_laws::lemma_one_binding_each;
use crate::instance_buffer::InstanceBinding;
use crate::render_commands::{
    BoundBuffer, BoundBytes, BoundTexture, ClearAlpha, Command, Contents, DeviceSize,
    InstanceRange, Pipeline,
};
use crate::scene::{
    lemma_sources_counted, vertex_sources, vertex_total, AtlasTexture, PrimitiveBatch, Scene,
    SceneSurface,
};
use crate::surfaces::SurfaceSkip;
use vstd::prelude::*;

verus! {

/// What a pass draws to.
pub enum Pass {
    Target { viewport: DeviceSize },
    Paths { multisampled: bool },
}

/// What is bound, where everything was last written, and which surfaces are held.
pub struct Gpu {
    pub pass: Option<Pass>,
    pub pipeline: Option<Pipeline>,
    pub vertex_buffers: Map<u64, BoundBuffer>,
    pub fragment_buffers: Map<u64, BoundBuffer>,
    pub vertex_bytes: Map<u64, BoundBytes>,
    pub fragment_bytes: Map<u64, BoundBytes>,
    pub fragment_textures: Map<u64, BoundTexture>,
    pub places: Map<Contents, InstanceBinding>,
    pub held: Set<usize>,
}

/// One draw, with all that was bound for it.
pub struct Draw {
    pub gpu: Gpu,
    pub vertices: usize,
    pub instances: usize,
    pub first_instance: usize,
}

/// What shows on the target, or on the path texture.
pub enum Mark {
    /// The whole target was cleared.
    Cleared { alpha: ClearAlpha, viewport: DeviceSize },
    Drawn(Draw),
}

/// A GPU, every mark it made, and all that was written for it to read.
pub struct Machine {
    pub gpu: Gpu,
    pub marks: Seq<Mark>,
    pub written: Seq<Contents>,
}

impl Gpu {
    /// Nothing bound, nothing written.
    pub open spec fn idle() -> Self {
        Gpu {
            pass: None,
            pipeline: None,
            vertex_buffers: Map::empty(),
            fragment_buffers: Map::empty(),
            vertex_bytes: Map::empty(),
            fragment_bytes: Map::empty(),
            fragment_textures: Map::empty(),
            places: Map::empty(),
            held: Set::empty(),
        }
    }

    /// A pass starts with nothing bound.
    pub open spec fn begin(self, pass: Pass) -> Self {
        Gpu { pass: Some(pass), places: self.places, held: self.held, ..Gpu::idle() }
    }
}

impl Machine {
    /// A machine that has done nothing yet.
    pub open spec fn idle() -> Self {
        Machine { gpu: Gpu::idle(), marks: seq![], written: seq![] }
    }

    pub open spec fn apply(self, command: Command) -> Self {
        let gpu = self.gpu;
        match command {
            Command::Write { contents, binding } => Machine {
                gpu: Gpu { places: gpu.places.insert(contents, binding), ..gpu },
                written: self.written.push(contents),
                ..self
            },
            Command::BeginPass { clear, viewport } => Machine {
                gpu: gpu.begin(Pass::Target { viewport }),
                marks: match clear {
                    Some(alpha) => self.marks.push(Mark::Cleared { alpha, viewport }),
                    None => self.marks,
                },
                ..self
            },
            Command::BeginPathPass { multisampled } => Machine {
                gpu: gpu.begin(Pass::Paths { multisampled }),
                ..self
            },
            Command::EndPass => Machine { gpu: Gpu { pass: None, ..gpu }, ..self },
            Command::SetPipeline(pipeline) => Machine {
                gpu: Gpu { pipeline: Some(pipeline), ..gpu },
                ..self
            },
            Command::VertexBuffer { index, buffer } => Machine {
                gpu: Gpu { vertex_buffers: gpu.vertex_buffers.insert(index, buffer), ..gpu },
                ..self
            },
            Command::FragmentBuffer { index, buffer } => Machine {
                gpu: Gpu { fragment_buffers: gpu.fragment_buffers.insert(index, buffer), ..gpu },
                ..self
            },
            Command::VertexBytes { index, bytes } => Machine {
                gpu: Gpu { vertex_bytes: gpu.vertex_bytes.insert(index, bytes), ..gpu },
                ..self
            },
            Command::FragmentBytes { index, bytes } => Machine {
                gpu: Gpu { fragment_bytes: gpu.fragment_bytes.insert(index, bytes), ..gpu },
                ..self
            },
            Command::FragmentTexture { index, texture } => Machine {
                gpu: Gpu {
                    fragment_textures: gpu.fragment_textures.insert(index, texture),
                    ..gpu
                },
                ..self
            },
            Command::HoldSurface(surface) => Machine {
                gpu: Gpu { held: gpu.held.insert(surface), ..gpu },
                ..self
            },
            Command::Draw { vertices } => Machine {
                marks: self.marks.push(
                    Mark::Drawn(Draw { gpu, vertices, instances: 1, first_instance: 0 }),
                ),
                ..self
            },
            Command::DrawInstanced { vertices, instances, first_instance } => Machine {
                marks: self.marks.push(
                    Mark::Drawn(Draw { gpu, vertices, instances, first_instance }),
                ),
                ..self
            },
        }
    }

    /// The machine after every command, in order.
    pub open spec fn run(self, commands: Seq<Command>) -> Self
        decreases commands.len(),
    {
        if commands.len() == 0 {
            self
        } else {
            self.run(commands.drop_last()).apply(commands.last())
        }
    }
}

/// All that a frame's commands show, in order.
pub open spec fn shown(commands: Seq<Command>) -> Seq<Mark> {
    Machine::idle().run(commands).marks
}

/// One mark that a frame is to make.
pub enum Wanted {
    /// A cleared target, black or see-through.
    Cleared { opaque: bool },
    /// Rectangles `range` of the array `contents`.
    Rectangles { pipeline: Pipeline, contents: Contents, range: InstanceRange },
    /// Sprites `range` of the array `contents`, out of one atlas texture.
    Sprites {
        pipeline: Pipeline,
        contents: Contents,
        texture: AtlasTexture,
        range: InstanceRange,
    },
    /// The triangles of the paths `range`.
    Rasterized(InstanceRange),
    /// Their pixels.
    Copied(InstanceRange),
    /// The surface at this place.
    Surface(int),
}

/// Whether a surface is one the shader can sample: `420f` or `420v`, with a texture of each plane.
pub open spec fn sampleable(surface: SceneSurface) -> bool {
    &&& surface.format == 0x3432_3066 || surface.format == 0x3432_3076
    &&& surface.luma is Made
    &&& surface.chroma is Made
}

/// The surfaces `start` to `end` that can be sampled.
pub open spec fn wanted_surfaces(surfaces: Seq<SceneSurface>, start: int, end: int) -> Seq<Wanted>
    decreases end - start,
{
    if end <= start {
        seq![]
    } else if sampleable(surfaces[end - 1]) {
        wanted_surfaces(surfaces, start, end - 1).push(Wanted::Surface(end - 1))
    } else {
        wanted_surfaces(surfaces, start, end - 1)
    }
}

/// What one batch asks for: nothing where it is empty or its texture is lost.
pub open spec fn wanted_of(scene: Scene, batch: PrimitiveBatch) -> Seq<Wanted> {
    match batch {
        PrimitiveBatch::Shadows(range) => if range.start < range.end {
            seq![
                Wanted::Rectangles { pipeline: Pipeline::Shadows, contents: Contents::Shadows, range },
            ]
        } else {
            seq![]
        },
        PrimitiveBatch::Quads(range) => if range.start < range.end {
            seq![Wanted::Rectangles { pipeline: Pipeline::Quads, contents: Contents::Quads, range }]
        } else {
            seq![]
        },
        PrimitiveBatch::Underlines(range) => if range.start < range.end {
            seq![
                Wanted::Rectangles {
                    pipeline: Pipeline::Underlines,
                    contents: Contents::Underlines,
                    range,
                },
            ]
        } else {
            seq![]
        },
        PrimitiveBatch::MonochromeSprites { texture: Some(texture), range } => if range.start
            < range.end {
            seq![
                Wanted::Sprites {
                    pipeline: Pipeline::MonochromeSprites,
                    contents: Contents::MonochromeSprites,
                    texture,
                    range,
                },
            ]
        } else {
            seq![]
        },
        PrimitiveBatch::PolychromeSprites { texture: Some(texture), range } => if range.start
            < range.end {
            seq![
                Wanted::Sprites {
                    pipeline: Pipeline::PolychromeSprites,
                    contents: Contents::PolychromeSprites,
                    texture,
                    range,
                },
            ]
        } else {
            seq![]
        },
        PrimitiveBatch::Paths(range) => if range.start < range.end {
            seq![Wanted::Rasterized(range), Wanted::Copied(range)]
        } else {
            seq![]
        },
        PrimitiveBatch::Surfaces(range) => wanted_surfaces(
            scene.surfaces@,
            range.start as int,
            range.end as int,
        ),
        _ => seq![],
    }
}

/// A cleared target, and then what the first `count` batches of a scene ask for, in order.
pub open spec fn wanted(scene: Scene, opaque: bool, count: int) -> Seq<Wanted>
    decreases count,
{
    if count <= 0 {
        seq![Wanted::Cleared { opaque }]
    } else {
        wanted(scene, opaque, count - 1) + wanted_of(scene, scene.batches@[count - 1])
    }
}

impl Gpu {
    /// Whether a buffer holds what was last written of `contents`.
    pub open spec fn holds(self, buffer: BoundBuffer, contents: Contents) -> bool {
        self.places.contains_key(contents) && buffer == BoundBuffer::Instances(
            self.places[contents],
        )
    }

    /// Whether the vertex shader finds `contents` at `index`.
    pub open spec fn vertices_from(self, index: u64, contents: Contents) -> bool {
        self.vertex_buffers.contains_key(index) && self.holds(self.vertex_buffers[index], contents)
    }

    /// Whether the fragment shader finds `contents` at `index`.
    pub open spec fn fragments_from(self, index: u64, contents: Contents) -> bool {
        self.fragment_buffers.contains_key(index) && self.holds(
            self.fragment_buffers[index],
            contents,
        )
    }

    /// Whether the vertex shader finds a size at `index`.
    pub open spec fn told_size(self, index: u64, size: DeviceSize) -> bool {
        self.vertex_bytes.contains_key(index) && self.vertex_bytes[index] == BoundBytes::Size(size)
    }

    /// Whether the fragment shader samples `texture` at `index`.
    pub open spec fn samples(self, index: u64, texture: BoundTexture) -> bool {
        self.fragment_textures.contains_key(index) && self.fragment_textures[index] == texture
    }

    /// Whether the rectangles of a pass over the target are drawn with the unit square.
    pub open spec fn over_target(self, pipeline: Pipeline, viewport: DeviceSize) -> bool {
        &&& self.pass == Some(Pass::Target { viewport })
        &&& self.pipeline == Some(pipeline)
        &&& self.vertex_buffers.contains_key(0)
        &&& self.vertex_buffers[0] == BoundBuffer::UnitVertices
        &&& self.told_size(2, viewport)
    }
}

/// Whether a mark is the one wanted.
pub open spec fn fulfils(
    mark: Mark,
    wanted: Wanted,
    scene: Scene,
    target: PathTarget,
    viewport: DeviceSize,
) -> bool {
    let draw = mark->Drawn_0;
    let gpu = draw.gpu;
    &&& mark is Cleared <==> wanted is Cleared
    &&& match wanted {
        Wanted::Cleared { opaque } => {
            &&& mark->alpha is Opaque <==> opaque
            &&& mark->viewport == viewport
        },
        Wanted::Rectangles { pipeline, contents, range } => {
            &&& gpu.over_target(pipeline, viewport)
            &&& gpu.vertices_from(1, contents)
            &&& gpu.fragments_from(1, contents)
            &&& draw.vertices == 6
            &&& draw.first_instance == range.start
            &&& draw.first_instance + draw.instances == range.end
        },
        Wanted::Sprites { pipeline, contents, texture, range } => {
            &&& gpu.over_target(pipeline, viewport)
            &&& gpu.vertices_from(1, contents)
            &&& gpu.fragments_from(1, contents)
            &&& gpu.told_size(3, texture.size)
            &&& gpu.samples(4, BoundTexture::Atlas(texture.handle))
            &&& draw.vertices == 6
            &&& draw.first_instance == range.start
            &&& draw.first_instance + draw.instances == range.end
        },
        Wanted::Rasterized(range) => {
            &&& gpu.pass == Some(Pass::Paths { multisampled: target is Multisampled })
            &&& gpu.pipeline == Some(Pipeline::PathRasterization)
            &&& gpu.vertices_from(0, Contents::PathVertices(range))
            &&& gpu.fragments_from(0, Contents::PathVertices(range))
            &&& gpu.told_size(1, viewport)
            &&& draw.vertices == vertex_sources(
                scene.paths@.subrange(range.start as int, range.end as int),
                range.start as int,
            ).len()
            &&& draw.instances == 1
            &&& draw.first_instance == 0
        },
        Wanted::Copied(range) => {
            let singly = scene.paths@[range.start as int].order == scene.paths@[range.end
                - 1].order;
            &&& gpu.over_target(Pipeline::PathSprites, viewport)
            &&& gpu.samples(4, BoundTexture::PathIntermediate)
            &&& draw.vertices == 6
            &&& draw.first_instance == 0
            &&& singly ==> {
                &&& gpu.vertices_from(1, Contents::PathSprites(range))
                &&& draw.instances == range.end - range.start
            }
            &&& !singly ==> {
                &&& gpu.vertices_from(1, Contents::SpanningSprite(range))
                &&& draw.instances == 1
            }
        },
        Wanted::Surface(place) => {
            let surface = scene.surfaces@[place];
            &&& gpu.over_target(Pipeline::Surfaces, viewport)
            &&& gpu.vertices_from(1, Contents::Surfaces)
            &&& gpu.told_size(3, surface.size)
            &&& gpu.samples(4, BoundTexture::Luma(place as usize))
            &&& gpu.samples(5, BoundTexture::Chroma(place as usize))
            &&& gpu.fragment_bytes.contains_key(6)
            &&& gpu.fragment_bytes[6] == BoundBytes::YCbCrToRgb {
                matrix: surface.matrix,
                full_range: surface.format == 0x3432_3066,
            }
            &&& gpu.held.contains(place as usize)
            &&& draw.vertices == 6
            &&& draw.instances == 1
            &&& draw.first_instance == place
        },
    }
}

/// Whether the marks are the ones wanted, one for one and in order.
pub open spec fn all_fulfilled(
    marks: Seq<Mark>,
    wanted: Seq<Wanted>,
    scene: Scene,
    target: PathTarget,
    viewport: DeviceSize,
) -> bool {
    &&& marks.len() == wanted.len()
    &&& forall|i: int|
        0 <= i < marks.len() ==> fulfils(#[trigger] marks[i], wanted[i], scene, target, viewport)
}

proof fn lemma_run_concat(machine: Machine, a: Seq<Command>, b: Seq<Command>)
    ensures
        machine.run(a + b) == machine.run(a).run(b),
    decreases b.len(),
{
    if b.len() == 0 {
        assert(a + b =~= a);
    } else {
        lemma_run_concat(machine, a, b.drop_last());
        assert((a + b).drop_last() =~= a + b.drop_last());
    }
}

proof fn lemma_run_take(machine: Machine, commands: Seq<Command>, count: int)
    requires
        0 <= count < commands.len(),
    ensures
        machine.run(commands.take(count + 1)) == machine.run(commands.take(count)).apply(
            commands[count],
        ),
{
    assert(commands.take(count + 1).drop_last() =~= commands.take(count));
}

/// A short list of commands is run one after another.
proof fn lemma_run_short(machine: Machine, commands: Seq<Command>)
    ensures
        commands.len() == 1 ==> machine.run(commands) == machine.apply(commands[0]),
        commands.len() == 2 ==> machine.run(commands) == machine.apply(commands[0]).apply(
            commands[1],
        ),
        commands.len() == 4 ==> machine.run(commands) == machine.apply(commands[0]).apply(
            commands[1],
        ).apply(commands[2]).apply(commands[3]),
        commands.len() == 6 ==> machine.run(commands) == machine.apply(commands[0]).apply(
            commands[1],
        ).apply(commands[2]).apply(commands[3]).apply(commands[4]).apply(commands[5]),
        commands.len() == 7 ==> machine.run(commands) == machine.apply(commands[0]).apply(
            commands[1],
        ).apply(commands[2]).apply(commands[3]).apply(commands[4]).apply(commands[5]).apply(
            commands[6],
        ),
        commands.len() == 8 ==> machine.run(commands) == machine.apply(commands[0]).apply(
            commands[1],
        ).apply(commands[2]).apply(commands[3]).apply(commands[4]).apply(commands[5]).apply(
            commands[6],
        ).apply(commands[7]),
{
    assert(commands.take(0).len() == 0);
    assert(commands.take(commands.len() as int) =~= commands);
    if commands.len() >= 1 {
        lemma_run_take(machine, commands, 0);
    }
    if commands.len() >= 2 {
        lemma_run_take(machine, commands, 1);
    }
    if commands.len() >= 3 {
        lemma_run_take(machine, commands, 2);
    }
    if commands.len() >= 4 {
        lemma_run_take(machine, commands, 3);
    }
    if commands.len() >= 5 {
        lemma_run_take(machine, commands, 4);
    }
    if commands.len() >= 6 {
        lemma_run_take(machine, commands, 5);
    }
    if commands.len() >= 7 {
        lemma_run_take(machine, commands, 6);
    }
    if commands.len() >= 8 {
        lemma_run_take(machine, commands, 7);
    }
}

/// Whether one machine goes on from another in the same pass, with `count` more marks.
spec fn goes_on(before: Machine, after: Machine, count: nat) -> bool {
    &&& after.gpu.pass == before.gpu.pass
    &&& after.gpu.places == before.gpu.places
    &&& after.written == before.written
    &&& after.marks.len() == before.marks.len() + count
    &&& forall|i: int| 0 <= i < before.marks.len() ==> after.marks[i] == before.marks[i]
}

proof fn lemma_primitives_drawn(
    machine: Machine,
    pipeline: Pipeline,
    contents: Contents,
    range: InstanceRange,
    binding: InstanceBinding,
    scene: Scene,
    target: PathTarget,
    viewport: DeviceSize,
)
    requires
        machine.gpu.pass == Some(Pass::Target { viewport }),
        machine.gpu.holds(BoundBuffer::Instances(binding), contents),
        range.start < range.end,
    ensures
        ({
            let after = machine.run(primitive_commands(pipeline, range, binding, viewport));
            &&& goes_on(machine, after, 1)
            &&& fulfils(
                after.marks.last(),
                Wanted::Rectangles { pipeline, contents, range },
                scene,
                target,
                viewport,
            )
        }),
{
    lemma_run_short(machine, primitive_commands(pipeline, range, binding, viewport));
}

proof fn lemma_sprites_drawn(
    machine: Machine,
    pipeline: Pipeline,
    contents: Contents,
    texture: AtlasTexture,
    range: InstanceRange,
    binding: InstanceBinding,
    scene: Scene,
    target: PathTarget,
    viewport: DeviceSize,
)
    requires
        machine.gpu.pass == Some(Pass::Target { viewport }),
        machine.gpu.holds(BoundBuffer::Instances(binding), contents),
        range.start < range.end,
    ensures
        ({
            let after = machine.run(
                sprite_commands(pipeline, Some(texture), range, binding, viewport),
            );
            &&& goes_on(machine, after, 1)
            &&& fulfils(
                after.marks.last(),
                Wanted::Sprites { pipeline, contents, texture, range },
                scene,
                target,
                viewport,
            )
        }),
{
    let commands = sprite_commands(pipeline, Some(texture), range, binding, viewport);
    lemma_run_short(machine, commands);
}

/// What the surfaces of a batch find bound.
spec fn surfaces_ready(machine: Machine, viewport: DeviceSize) -> bool {
    &&& machine.gpu.over_target(Pipeline::Surfaces, viewport)
    &&& machine.gpu.vertices_from(1, Contents::Surfaces)
}

proof fn lemma_one_surface_drawn(
    machine: Machine,
    scene: Scene,
    place: int,
    target: PathTarget,
    viewport: DeviceSize,
)
    requires
        surfaces_ready(machine, viewport),
        0 <= place < scene.surfaces@.len(),
    ensures
        ({
            let surface = scene.surfaces@[place];
            let after = machine.run(surface_commands(surface, place as usize));
            &&& surfaces_ready(after, viewport)
            &&& !sampleable(surface) ==> goes_on(machine, after, 0)
            &&& sampleable(surface) ==> {
                &&& goes_on(machine, after, 1)
                &&& fulfils(
                    after.marks.last(),
                    Wanted::Surface(place),
                    scene,
                    target,
                    viewport,
                )
            }
        }),
{
    let surface = scene.surfaces@[place];
    assert(scene.surfaces.len() == scene.surfaces@.len());
    lemma_run_short(machine, surface_commands(surface, place as usize));
}

proof fn lemma_surfaces_drawn(
    machine: Machine,
    scene: Scene,
    start: int,
    count: int,
    target: PathTarget,
    viewport: DeviceSize,
)
    requires
        surfaces_ready(machine, viewport),
        0 <= start,
        0 <= count,
        start + count <= scene.surfaces@.len(),
    ensures
        ({
            let wanted = wanted_surfaces(scene.surfaces@, start, start + count);
            let after = machine.run(surfaces_commands(scene.surfaces@, start, count));
            &&& surfaces_ready(after, viewport)
            &&& goes_on(machine, after, wanted.len())
            &&& all_fulfilled(
                after.marks.skip(machine.marks.len() as int),
                wanted,
                scene,
                target,
                viewport,
            )
        }),
    decreases count,
{
    if count > 0 {
        lemma_surfaces_drawn(machine, scene, start, count - 1, target, viewport);
        let place = start + count - 1;
        let earlier = surfaces_commands(scene.surfaces@, start, count - 1);
        let last = surface_commands(scene.surfaces@[place], place as usize);
        lemma_run_concat(machine, earlier, last);
        let before = machine.run(earlier);
        lemma_one_surface_drawn(before, scene, place, target, viewport);
        let after = before.run(last);
        let wanted = wanted_surfaces(scene.surfaces@, start, start + count);
        let drawn = before.marks.len() - machine.marks.len();
        assert forall|i: int| 0 <= i < wanted.len() implies fulfils(
            #[trigger] after.marks.skip(machine.marks.len() as int)[i],
            wanted[i],
            scene,
            target,
            viewport,
        ) by {
            if i < drawn {
                assert(before.marks.skip(machine.marks.len() as int)[i] == before.marks[i
                    + machine.marks.len()]);
            }
        }
    }
}

proof fn lemma_rasterization_drawn(
    machine: Machine,
    scene: Scene,
    range: InstanceRange,
    binding: InstanceBinding,
    vertices: usize,
    target: PathTarget,
    viewport: DeviceSize,
)
    requires
        machine.gpu.holds(BoundBuffer::Instances(binding), Contents::PathVertices(range)),
        vertices == vertex_sources(
            scene.paths@.subrange(range.start as int, range.end as int),
            range.start as int,
        ).len(),
    ensures
        ({
            let after = machine.run(
                rasterization_commands(target is Multisampled, binding, vertices, viewport),
            );
            &&& goes_on(
                Machine { gpu: Gpu { pass: None, ..machine.gpu }, ..machine },
                after,
                1,
            )
            &&& fulfils(
                after.marks.last(),
                Wanted::Rasterized(range),
                scene,
                target,
                viewport,
            )
        }),
{
    let commands = rasterization_commands(target is Multisampled, binding, vertices, viewport);
    lemma_run_short(machine, commands);
}

proof fn lemma_copy_set_up(machine: Machine, viewport: DeviceSize)
    requires
        machine.gpu.pass == Some(Pass::Target { viewport }),
    ensures
        ({
            let after = machine.run(path_copy_setup(viewport));
            &&& goes_on(machine, after, 0)
            &&& after.gpu.over_target(Pipeline::PathSprites, viewport)
            &&& after.gpu.samples(4, BoundTexture::PathIntermediate)
        }),
{
    lemma_run_short(machine, path_copy_setup(viewport));
}

proof fn lemma_copy_drawn(
    machine: Machine,
    scene: Scene,
    range: InstanceRange,
    contents: Contents,
    binding: InstanceBinding,
    sprites: usize,
    target: PathTarget,
    viewport: DeviceSize,
)
    requires
        machine.gpu.over_target(Pipeline::PathSprites, viewport),
        machine.gpu.samples(4, BoundTexture::PathIntermediate),
        machine.gpu.holds(BoundBuffer::Instances(binding), contents),
        ({
            let singly = scene.paths@[range.start as int].order == scene.paths@[range.end
                - 1].order;
            if singly {
                contents == Contents::PathSprites(range) && sprites == range.end - range.start
            } else {
                contents == Contents::SpanningSprite(range) && sprites == 1
            }
        }),
    ensures
        ({
            let after = machine.run(path_copy_commands(binding, sprites));
            &&& goes_on(machine, after, 1)
            &&& fulfils(after.marks.last(), Wanted::Copied(range), scene, target, viewport)
        }),
{
    lemma_run_short(machine, path_copy_commands(binding, sprites));
}

/// The bytes that `contents` take, by what they hold.
pub open spec fn content_bytes(scene: Scene, contents: Contents) -> int {
    match contents {
        Contents::Quads => scene.quads.element_size * scene.quads.count,
        Contents::Shadows => scene.shadows.element_size * scene.shadows.count,
        Contents::Underlines => scene.underlines.element_size * scene.underlines.count,
        Contents::MonochromeSprites => scene.monochrome_sprites.element_size
            * scene.monochrome_sprites.count,
        Contents::PolychromeSprites => scene.polychrome_sprites.element_size
            * scene.polychrome_sprites.count,
        Contents::Surfaces => scene.surface_bounds_size * scene.surfaces@.len(),
        Contents::PathVertices(range) => scene.path_vertex_size * vertex_sources(
            scene.paths@.subrange(range.start as int, range.end as int),
            range.start as int,
        ).len(),
        Contents::PathSprites(range) => scene.path_sprite_size * (range.end - range.start),
        Contents::SpanningSprite(_) => scene.path_sprite_size as int,
    }
}

/// Whether each reservation has the bytes of what is written to it.
pub open spec fn all_sized(sizes: Seq<usize>, written: Seq<Contents>, scene: Scene) -> bool {
    &&& sizes.len() == written.len()
    &&& forall|i: int|
        0 <= i < sizes.len() ==> #[trigger] sizes[i] == content_bytes(scene, written[i])
}

/// Whether a machine finds each array where it was written.
spec fn finds_arrays(machine: Machine, bindings: InstanceBindings) -> bool {
    let gpu = machine.gpu;
    &&& gpu.holds(BoundBuffer::Instances(bindings.quads), Contents::Quads)
    &&& gpu.holds(BoundBuffer::Instances(bindings.shadows), Contents::Shadows)
    &&& gpu.holds(BoundBuffer::Instances(bindings.underlines), Contents::Underlines)
    &&& gpu.holds(
        BoundBuffer::Instances(bindings.monochrome_sprites),
        Contents::MonochromeSprites,
    )
    &&& gpu.holds(
        BoundBuffer::Instances(bindings.polychrome_sprites),
        Contents::PolychromeSprites,
    )
    &&& gpu.holds(BoundBuffer::Instances(bindings.surfaces), Contents::Surfaces)
}

/// Whether a frame so far drew what was wanted, in a pass over the target that goes on.
spec fn on_course(
    encoded: Encoded,
    wanted: Seq<Wanted>,
    scene: Scene,
    bindings: InstanceBindings,
    target: PathTarget,
    viewport: DeviceSize,
) -> bool {
    let machine = Machine::idle().run(encoded.commands);
    &&& encoded.error is None
    &&& machine.gpu.pass == Some(Pass::Target { viewport })
    &&& finds_arrays(machine, bindings)
    &&& all_fulfilled(machine.marks, wanted, scene, target, viewport)
    &&& all_sized(encoded.sizes, machine.written, scene)
}

proof fn lemma_paths_drawn<B>(
    encoded: Encoded,
    wanted: Seq<Wanted>,
    origin: Origin<B>,
    scene: Scene,
    range: InstanceRange,
    bindings: InstanceBindings,
    target: PathTarget,
    viewport: DeviceSize,
)
    requires
        on_course(encoded, wanted, scene, bindings, target, viewport),
        scene.batch_valid(PrimitiveBatch::Paths(range)),
        encoded.draw_paths(origin, scene, range, target, viewport).error is None,
    ensures
        on_course(
            encoded.draw_paths(origin, scene, range, target, viewport),
            wanted + wanted_of(scene, PrimitiveBatch::Paths(range)),
            scene,
            bindings,
            target,
            viewport,
        ),
{
    let idle = Machine::idle();
    let machine = idle.run(encoded.commands);
    let ended = encoded.emit(seq![Command::EndPass]);
    lemma_run_concat(idle, encoded.commands, seq![Command::EndPass]);
    lemma_run_short(machine, seq![Command::EndPass]);
    let rasterized = ended.rasterize(origin, scene, range, target, viewport);
    let begin = seq![Command::BeginPass { clear: None::<ClearAlpha>, viewport }];
    let begun = rasterized.emit(begin);
    lemma_run_concat(idle, rasterized.commands, begin);
    lemma_run_short(idle.run(rasterized.commands), begin);
    if range.count() > 0 {
        let paths = scene.batch_paths(range);
        lemma_sources_counted(paths, range.start as int);
        let placed = ended.reserved(origin, scene.path_bytes(range) as usize);
        let binding = placed.last_binding(origin);
        let vertices = vertex_total(paths) as usize;
        let write = seq![Command::Write { contents: Contents::PathVertices(range), binding }];
        let drawing = rasterization_commands(target is Multisampled, binding, vertices, viewport);
        lemma_run_concat(idle, ended.commands, write + drawing);
        lemma_run_concat(idle.run(ended.commands), write, drawing);
        lemma_run_short(idle.run(ended.commands), write);
        let ready = idle.run(ended.commands).run(write);
        lemma_rasterization_drawn(ready, scene, range, binding, vertices, target, viewport);
        let half = wanted.push(Wanted::Rasterized(range));
        assert(on_course(begun, half, scene, bindings, target, viewport)) by {
            let after = idle.run(begun.commands);
            assert(after.marks.last() == after.marks[after.marks.len() - 1]);
        }
        lemma_copies_drawn(begun, half, origin, scene, range, bindings, target, viewport);
        assert(wanted + wanted_of(scene, PrimitiveBatch::Paths(range)) =~= half.push(
            Wanted::Copied(range),
        ));
    } else {
        assert(wanted + wanted_of(scene, PrimitiveBatch::Paths(range)) =~= wanted);
    }
}

proof fn lemma_copies_drawn<B>(
    encoded: Encoded,
    wanted: Seq<Wanted>,
    origin: Origin<B>,
    scene: Scene,
    range: InstanceRange,
    bindings: InstanceBindings,
    target: PathTarget,
    viewport: DeviceSize,
)
    requires
        on_course(encoded, wanted, scene, bindings, target, viewport),
        scene.batch_valid(PrimitiveBatch::Paths(range)),
        range.start < range.end,
        encoded.copy_paths(origin, scene, range, target, viewport).error is None,
    ensures
        on_course(
            encoded.copy_paths(origin, scene, range, target, viewport),
            wanted.push(Wanted::Copied(range)),
            scene,
            bindings,
            target,
            viewport,
        ),
{
    let idle = Machine::idle();
    let machine = idle.run(encoded.commands);
    let paths = scene.batch_paths(range);
    let setup = path_copy_setup(viewport);
    lemma_run_concat(idle, encoded.commands, setup);
    lemma_copy_set_up(machine, viewport);
    let set = encoded.emit(setup);
    let singly = paths.first().order == paths.last().order;
    let sprites = if singly {
        range.count() as usize
    } else {
        1
    };
    let contents = if singly {
        Contents::PathSprites(range)
    } else {
        Contents::SpanningSprite(range)
    };
    let placed = set.reserved(origin, (scene.path_sprite_size * sprites) as usize);
    let binding = placed.last_binding(origin);
    let write = seq![Command::Write { contents, binding }];
    let copy = path_copy_commands(binding, sprites);
    lemma_run_concat(idle, set.commands, write + copy);
    lemma_run_concat(idle.run(set.commands), write, copy);
    lemma_run_short(idle.run(set.commands), write);
    let ready = idle.run(set.commands).run(write);
    lemma_copy_drawn(ready, scene, range, contents, binding, sprites, target, viewport);
    let after = ready.run(copy);
    assert(after.marks.last() == after.marks[after.marks.len() - 1]);
}

/// Commands that draw one thing wanted keep a frame on course.
proof fn lemma_one_more(
    encoded: Encoded,
    commands: Seq<Command>,
    wanted: Seq<Wanted>,
    more: Wanted,
    scene: Scene,
    bindings: InstanceBindings,
    target: PathTarget,
    viewport: DeviceSize,
)
    requires
        on_course(encoded, wanted, scene, bindings, target, viewport),
        ({
            let machine = Machine::idle().run(encoded.commands);
            let after = machine.run(commands);
            &&& goes_on(machine, after, 1)
            &&& fulfils(after.marks.last(), more, scene, target, viewport)
        }),
    ensures
        on_course(
            encoded.emit(commands),
            wanted.push(more),
            scene,
            bindings,
            target,
            viewport,
        ),
{
    lemma_run_concat(Machine::idle(), encoded.commands, commands);
}

/// A batch of rectangles keeps a frame on course.
proof fn lemma_rectangles_drawn(
    encoded: Encoded,
    wanted: Seq<Wanted>,
    pipeline: Pipeline,
    contents: Contents,
    range: InstanceRange,
    binding: InstanceBinding,
    scene: Scene,
    bindings: InstanceBindings,
    target: PathTarget,
    viewport: DeviceSize,
)
    requires
        on_course(encoded, wanted, scene, bindings, target, viewport),
        Machine::idle().run(encoded.commands).gpu.holds(BoundBuffer::Instances(binding), contents),
    ensures
        on_course(
            encoded.emit(primitive_commands(pipeline, range, binding, viewport)),
            wanted + if range.start < range.end {
                seq![Wanted::Rectangles { pipeline, contents, range }]
            } else {
                seq![]
            },
            scene,
            bindings,
            target,
            viewport,
        ),
{
    let machine = Machine::idle().run(encoded.commands);
    let commands = primitive_commands(pipeline, range, binding, viewport);
    if range.start < range.end {
        let more = Wanted::Rectangles { pipeline, contents, range };
        lemma_primitives_drawn(
            machine,
            pipeline,
            contents,
            range,
            binding,
            scene,
            target,
            viewport,
        );
        lemma_one_more(encoded, commands, wanted, more, scene, bindings, target, viewport);
        assert(wanted + seq![more] =~= wanted.push(more));
    } else {
        assert(encoded.commands + commands =~= encoded.commands);
        assert(wanted + Seq::<Wanted>::empty() =~= wanted);
    }
}

/// A batch of sprites keeps a frame on course.
proof fn lemma_sprite_batch_drawn(
    encoded: Encoded,
    wanted: Seq<Wanted>,
    pipeline: Pipeline,
    contents: Contents,
    texture: Option<AtlasTexture>,
    range: InstanceRange,
    binding: InstanceBinding,
    scene: Scene,
    bindings: InstanceBindings,
    target: PathTarget,
    viewport: DeviceSize,
)
    requires
        on_course(encoded, wanted, scene, bindings, target, viewport),
        Machine::idle().run(encoded.commands).gpu.holds(BoundBuffer::Instances(binding), contents),
    ensures
        on_course(
            encoded.emit(sprite_commands(pipeline, texture, range, binding, viewport)),
            wanted + if texture is Some && range.start < range.end {
                seq![Wanted::Sprites { pipeline, contents, texture: texture->0, range }]
            } else {
                seq![]
            },
            scene,
            bindings,
            target,
            viewport,
        ),
{
    let machine = Machine::idle().run(encoded.commands);
    let commands = sprite_commands(pipeline, texture, range, binding, viewport);
    if texture is Some && range.start < range.end {
        let more = Wanted::Sprites { pipeline, contents, texture: texture->0, range };
        lemma_sprites_drawn(
            machine,
            pipeline,
            contents,
            texture->0,
            range,
            binding,
            scene,
            target,
            viewport,
        );
        lemma_one_more(encoded, commands, wanted, more, scene, bindings, target, viewport);
        assert(wanted + seq![more] =~= wanted.push(more));
    } else {
        assert(encoded.commands + commands =~= encoded.commands);
        assert(wanted + Seq::<Wanted>::empty() =~= wanted);
    }
}

/// A batch of surfaces keeps a frame on course.
proof fn lemma_surface_batch_drawn(
    encoded: Encoded,
    wanted: Seq<Wanted>,
    range: InstanceRange,
    scene: Scene,
    bindings: InstanceBindings,
    target: PathTarget,
    viewport: DeviceSize,
)
    requires
        on_course(encoded, wanted, scene, bindings, target, viewport),
        scene.batch_valid(PrimitiveBatch::Surfaces(range)),
    ensures
        on_course(
            encoded.draw_surfaces(scene, range, bindings.surfaces, viewport),
            wanted + wanted_of(scene, PrimitiveBatch::Surfaces(range)),
            scene,
            bindings,
            target,
            viewport,
        ),
{
    let more = wanted_of(scene, PrimitiveBatch::Surfaces(range));
    if range.count() == 0 {
        assert(wanted + more =~= wanted);
    } else {
        let machine = Machine::idle().run(encoded.commands);
        let start = range.start as int;
        let count = range.count() as int;
        let setup = surface_setup(bindings.surfaces, viewport);
        let each = surfaces_commands(scene.surfaces@, start, count);
        lemma_run_concat(Machine::idle(), encoded.commands, setup + each);
        lemma_run_concat(machine, setup, each);
        lemma_run_short(machine, setup);
        let ready = machine.run(setup);
        assert(surfaces_ready(ready, viewport));
        lemma_surfaces_drawn(ready, scene, start, count, target, viewport);
        let after = ready.run(each);
        assert forall|i: int| 0 <= i < after.marks.len() implies fulfils(
            #[trigger] after.marks[i],
            (wanted + more)[i],
            scene,
            target,
            viewport,
        ) by {
            if i < machine.marks.len() {
                assert(after.marks[i] == machine.marks[i]);
            } else {
                let tail = after.marks.skip(ready.marks.len() as int);
                assert(tail[i - machine.marks.len()] == after.marks[i]);
            }
        }
    }
}

proof fn lemma_batch_drawn<B>(
    encoded: Encoded,
    wanted: Seq<Wanted>,
    origin: Origin<B>,
    scene: Scene,
    batch: PrimitiveBatch,
    bindings: InstanceBindings,
    target: PathTarget,
    viewport: DeviceSize,
)
    requires
        on_course(encoded, wanted, scene, bindings, target, viewport),
        scene.batch_valid(batch),
        encoded.draw_batch(origin, scene, batch, bindings, target, viewport).error is None,
    ensures
        on_course(
            encoded.draw_batch(origin, scene, batch, bindings, target, viewport),
            wanted + wanted_of(scene, batch),
            scene,
            bindings,
            target,
            viewport,
        ),
{
    match batch {
        PrimitiveBatch::Shadows(range) => {
            lemma_rectangles_drawn(
                encoded,
                wanted,
                Pipeline::Shadows,
                Contents::Shadows,
                range,
                bindings.shadows,
                scene,
                bindings,
                target,
                viewport,
            );
        },
        PrimitiveBatch::Quads(range) => {
            lemma_rectangles_drawn(
                encoded,
                wanted,
                Pipeline::Quads,
                Contents::Quads,
                range,
                bindings.quads,
                scene,
                bindings,
                target,
                viewport,
            );
        },
        PrimitiveBatch::Underlines(range) => {
            lemma_rectangles_drawn(
                encoded,
                wanted,
                Pipeline::Underlines,
                Contents::Underlines,
                range,
                bindings.underlines,
                scene,
                bindings,
                target,
                viewport,
            );
        },
        PrimitiveBatch::MonochromeSprites { texture, range } => {
            lemma_sprite_batch_drawn(
                encoded,
                wanted,
                Pipeline::MonochromeSprites,
                Contents::MonochromeSprites,
                texture,
                range,
                bindings.monochrome_sprites,
                scene,
                bindings,
                target,
                viewport,
            );
        },
        PrimitiveBatch::PolychromeSprites { texture, range } => {
            lemma_sprite_batch_drawn(
                encoded,
                wanted,
                Pipeline::PolychromeSprites,
                Contents::PolychromeSprites,
                texture,
                range,
                bindings.polychrome_sprites,
                scene,
                bindings,
                target,
                viewport,
            );
        },
        PrimitiveBatch::Paths(range) => {
            lemma_paths_drawn(
                encoded,
                wanted,
                origin,
                scene,
                range,
                bindings,
                target,
                viewport,
            );
        },
        PrimitiveBatch::Surfaces(range) => {
            lemma_surface_batch_drawn(
                encoded,
                wanted,
                range,
                scene,
                bindings,
                target,
                viewport,
            );
        },
        PrimitiveBatch::SubpixelSprites { .. } => {},
    }
}

proof fn lemma_batches_drawn<B>(
    encoded: Encoded,
    origin: Origin<B>,
    scene: Scene,
    opaque: bool,
    count: int,
    bindings: InstanceBindings,
    target: PathTarget,
    viewport: DeviceSize,
)
    requires
        on_course(encoded, seq![Wanted::Cleared { opaque }], scene, bindings, target, viewport),
        scene.valid(),
        0 <= count <= scene.batches@.len(),
        encoded.draw_batches(origin, scene, count, bindings, target, viewport).error is None,
    ensures
        on_course(
            encoded.draw_batches(origin, scene, count, bindings, target, viewport),
            wanted(scene, opaque, count),
            scene,
            bindings,
            target,
            viewport,
        ),
    decreases count,
{
    if count > 0 {
        lemma_batches_drawn(encoded, origin, scene, opaque, count - 1, bindings, target, viewport);
        let earlier = encoded.draw_batches(origin, scene, count - 1, bindings, target, viewport);
        lemma_batch_drawn(
            earlier,
            wanted(scene, opaque, count - 1),
            origin,
            scene,
            scene.batches@[count - 1],
            bindings,
            target,
            viewport,
        );
    }
}

/// A frame begins by writing the arrays, and then clears the target.
proof fn lemma_frame_begins<B>(
    origin: Origin<B>,
    scene: Scene,
    opaque: bool,
    clear: ClearAlpha,
    target: PathTarget,
    viewport: DeviceSize,
    skip: Option<SurfaceSkip>,
)
    requires
        scene.valid(),
        origin.reserve(array_sizes(scene)).error is None,
        clear is Opaque <==> opaque,
    ensures
        ({
            let sizes = array_sizes(scene);
            let bindings = origin.reserve(sizes).bindings;
            let start = Encoded { commands: array_writes(bindings), sizes, skip, error: None };
            on_course(
                start.emit(seq![Command::BeginPass { clear: Some(clear), viewport }]),
                seq![Wanted::Cleared { opaque }],
                scene,
                array_bindings(bindings),
                target,
                viewport,
            )
        }),
{
    let sizes = array_sizes(scene);
    let bindings = origin.reserve(sizes).bindings;
    lemma_one_binding_each(origin, sizes);
    let writes = array_writes(bindings);
    let begin = seq![Command::BeginPass { clear: Some(clear), viewport }];
    assert(scene.surfaces.len() == scene.surfaces@.len());
    assert(scene.quads.bytes() >= 0 && scene.shadows.bytes() >= 0 && scene.underlines.bytes() >= 0
        && scene.monochrome_sprites.bytes() >= 0 && scene.polychrome_sprites.bytes() >= 0
        && scene.surface_array().bytes() >= 0) by (nonlinear_arith);
    lemma_run_concat(Machine::idle(), writes, begin);
    lemma_run_short(Machine::idle(), writes);
    lemma_run_short(Machine::idle().run(writes), begin);
}

/// A frame clears its target once, before anything else, to black where it is opaque and to
/// nothing where it is not. Then every batch draws what it names and nothing else: instances `start` to `end` of the
/// array of its own kind, with the texture it names; each surface of a range that can be sampled,
/// and only those, with its own planes and colors; the triangles of a batch of paths, and then
/// their pixels. The draws come in the order of the batches.
pub proof fn law_every_batch_draws_what_it_names<B>(
    origin: Origin<B>,
    scene: Scene,
    opaque: bool,
    target: PathTarget,
    viewport: DeviceSize,
    skip: Option<SurfaceSkip>,
)
    requires
        scene.valid(),
        encode_frame(origin, scene, opaque, target, viewport, skip).error is None,
    ensures
        all_fulfilled(
            shown(encode_frame(origin, scene, opaque, target, viewport, skip).commands),
            wanted(scene, opaque, scene.batches@.len() as int),
            scene,
            target,
            viewport,
        ),
{
    lemma_frame_on_course(origin, scene, opaque, target, viewport, skip);
}

/// A frame reserves for each thing it writes the bytes that thing takes.
pub proof fn law_every_reservation_holds_what_is_written<B>(
    origin: Origin<B>,
    scene: Scene,
    opaque: bool,
    target: PathTarget,
    viewport: DeviceSize,
    skip: Option<SurfaceSkip>,
)
    requires
        scene.valid(),
        encode_frame(origin, scene, opaque, target, viewport, skip).error is None,
    ensures
        ({
            let frame = encode_frame(origin, scene, opaque, target, viewport, skip);
            all_sized(frame.sizes, Machine::idle().run(frame.commands).written, scene)
        }),
{
    lemma_frame_on_course(origin, scene, opaque, target, viewport, skip);
}

proof fn lemma_frame_on_course<B>(
    origin: Origin<B>,
    scene: Scene,
    opaque: bool,
    target: PathTarget,
    viewport: DeviceSize,
    skip: Option<SurfaceSkip>,
)
    requires
        scene.valid(),
        encode_frame(origin, scene, opaque, target, viewport, skip).error is None,
    ensures
        ({
            let frame = encode_frame(origin, scene, opaque, target, viewport, skip);
            let machine = Machine::idle().run(frame.commands);
            &&& all_fulfilled(
                machine.marks,
                wanted(scene, opaque, scene.batches@.len() as int),
                scene,
                target,
                viewport,
            )
            &&& all_sized(frame.sizes, machine.written, scene)
        }),
{
    let sizes = array_sizes(scene);
    let bindings = origin.reserve(sizes).bindings;
    let clear = if opaque {
        ClearAlpha::Opaque
    } else {
        ClearAlpha::Transparent
    };
    lemma_frame_begins(origin, scene, opaque, clear, target, viewport, skip);
    let start = Encoded { commands: array_writes(bindings), sizes, skip, error: None };
    let begun = start.emit(seq![Command::BeginPass { clear: Some(clear), viewport }]);
    let count = scene.batches@.len() as int;
    let arrays = array_bindings(bindings);
    lemma_batches_drawn(begun, origin, scene, opaque, count, arrays, target, viewport);
    let drawn = begun.draw_batches(origin, scene, count, arrays, target, viewport);
    lemma_run_concat(Machine::idle(), drawn.commands, seq![Command::EndPass]);
    lemma_run_short(Machine::idle().run(drawn.commands), seq![Command::EndPass]);
}

/// How many of the marks draw instance `instance` with `pipeline`.
pub open spec fn times_drawn(marks: Seq<Mark>, pipeline: Pipeline, instance: int) -> nat
    decreases marks.len(),
{
    if marks.len() == 0 {
        0
    } else {
        let earlier = times_drawn(marks.drop_last(), pipeline, instance);
        match marks.last() {
            Mark::Drawn(draw) => if draw.gpu.pipeline == Some(pipeline) && draw.first_instance
                <= instance < draw.first_instance + draw.instances {
                earlier + 1
            } else {
                earlier
            },
            Mark::Cleared { .. } => earlier,
        }
    }
}

/// Whether a batch names instance `instance` of the array `pipeline` draws.
pub open spec fn names(
    scene: Scene,
    batch: PrimitiveBatch,
    pipeline: Pipeline,
    instance: int,
) -> bool {
    match batch {
        PrimitiveBatch::Shadows(range) => pipeline is Shadows && range.start <= instance
            < range.end,
        PrimitiveBatch::Quads(range) => pipeline is Quads && range.start <= instance < range.end,
        PrimitiveBatch::Underlines(range) => pipeline is Underlines && range.start <= instance
            < range.end,
        PrimitiveBatch::MonochromeSprites { texture, range } => pipeline is MonochromeSprites
            && texture is Some && range.start <= instance < range.end,
        PrimitiveBatch::PolychromeSprites { texture, range } => pipeline is PolychromeSprites
            && texture is Some && range.start <= instance < range.end,
        PrimitiveBatch::Surfaces(range) => pipeline is Surfaces && range.start <= instance
            < range.end && sampleable(scene.surfaces@[instance]),
        _ => false,
    }
}

/// How many of the first `count` batches name instance `instance` of the array `pipeline` draws.
pub open spec fn times_named(
    scene: Scene,
    count: int,
    pipeline: Pipeline,
    instance: int,
) -> nat
    decreases count,
{
    if count <= 0 {
        0
    } else {
        times_named(scene, count - 1, pipeline, instance) + if names(
            scene,
            scene.batches@[count - 1],
            pipeline,
            instance,
        ) {
            1nat
        } else {
            0nat
        }
    }
}

/// Whether what is wanted shows instance `instance` of the array `pipeline` draws.
spec fn wants(wanted: Wanted, pipeline: Pipeline, instance: int) -> bool {
    match wanted {
        Wanted::Rectangles { pipeline: own, range, .. } => own == pipeline && range.start
            <= instance < range.end,
        Wanted::Sprites { pipeline: own, range, .. } => own == pipeline && range.start <= instance
            < range.end,
        Wanted::Surface(place) => pipeline is Surfaces && place == instance,
        _ => false,
    }
}

spec fn times_wanted(wanted: Seq<Wanted>, pipeline: Pipeline, instance: int) -> nat
    decreases wanted.len(),
{
    if wanted.len() == 0 {
        0
    } else {
        times_wanted(wanted.drop_last(), pipeline, instance) + if wants(
            wanted.last(),
            pipeline,
            instance,
        ) {
            1nat
        } else {
            0nat
        }
    }
}

/// Whether a pipeline draws one of the scene's arrays.
pub open spec fn draws_an_array(pipeline: Pipeline) -> bool {
    !(pipeline is PathRasterization) && !(pipeline is PathSprites)
}

proof fn lemma_drawn_as_wanted(
    marks: Seq<Mark>,
    wanted: Seq<Wanted>,
    scene: Scene,
    target: PathTarget,
    viewport: DeviceSize,
    pipeline: Pipeline,
    instance: int,
)
    requires
        all_fulfilled(marks, wanted, scene, target, viewport),
        draws_an_array(pipeline),
    ensures
        times_drawn(marks, pipeline, instance) == times_wanted(wanted, pipeline, instance),
    decreases marks.len(),
{
    if marks.len() > 0 {
        lemma_drawn_as_wanted(
            marks.drop_last(),
            wanted.drop_last(),
            scene,
            target,
            viewport,
            pipeline,
            instance,
        );
        assert(fulfils(marks[marks.len() - 1], wanted.last(), scene, target, viewport));
    }
}

proof fn lemma_wanted_concat(
    a: Seq<Wanted>,
    b: Seq<Wanted>,
    pipeline: Pipeline,
    instance: int,
)
    ensures
        times_wanted(a + b, pipeline, instance) == times_wanted(a, pipeline, instance)
            + times_wanted(b, pipeline, instance),
    decreases b.len(),
{
    if b.len() == 0 {
        assert(a + b =~= a);
    } else {
        lemma_wanted_concat(a, b.drop_last(), pipeline, instance);
        assert((a + b).drop_last() =~= a + b.drop_last());
    }
}

proof fn lemma_surfaces_wanted(
    surfaces: Seq<SceneSurface>,
    start: int,
    end: int,
    pipeline: Pipeline,
    instance: int,
)
    ensures
        times_wanted(wanted_surfaces(surfaces, start, end), pipeline, instance) == if pipeline
            is Surfaces && start <= instance < end && sampleable(surfaces[instance]) {
            1nat
        } else {
            0nat
        },
    decreases end - start,
{
    if start < end {
        lemma_surfaces_wanted(surfaces, start, end - 1, pipeline, instance);
        let earlier = wanted_surfaces(surfaces, start, end - 1);
        assert(earlier.push(Wanted::Surface(end - 1)).drop_last() =~= earlier);
    }
}

proof fn lemma_wanted_as_named(
    scene: Scene,
    opaque: bool,
    count: int,
    pipeline: Pipeline,
    instance: int,
)
    requires
        0 <= count <= scene.batches@.len(),
    ensures
        times_wanted(wanted(scene, opaque, count), pipeline, instance) == times_named(
            scene,
            count,
            pipeline,
            instance,
        ),
    decreases count,
{
    reveal_with_fuel(times_wanted, 3);
    if count > 0 {
        lemma_wanted_as_named(scene, opaque, count - 1, pipeline, instance);
        let batch = scene.batches@[count - 1];
        lemma_wanted_concat(
            wanted(scene, opaque, count - 1),
            wanted_of(scene, batch),
            pipeline,
            instance,
        );
        if let PrimitiveBatch::Surfaces(range) = batch {
            lemma_surfaces_wanted(
                scene.surfaces@,
                range.start as int,
                range.end as int,
                pipeline,
                instance,
            );
        }
    }
}

/// An instance of an array is drawn as often as batches name it: where the batches of its kind
/// share an array out among them, exactly once.
pub proof fn law_an_instance_is_drawn_as_often_as_it_is_named<B>(
    origin: Origin<B>,
    scene: Scene,
    opaque: bool,
    target: PathTarget,
    viewport: DeviceSize,
    skip: Option<SurfaceSkip>,
    pipeline: Pipeline,
    instance: int,
)
    requires
        scene.valid(),
        encode_frame(origin, scene, opaque, target, viewport, skip).error is None,
        draws_an_array(pipeline),
    ensures
        times_drawn(
            shown(encode_frame(origin, scene, opaque, target, viewport, skip).commands),
            pipeline,
            instance,
        ) == times_named(scene, scene.batches@.len() as int, pipeline, instance),
{
    let count = scene.batches@.len() as int;
    law_every_batch_draws_what_it_names(origin, scene, opaque, target, viewport, skip);
    lemma_drawn_as_wanted(
        shown(encode_frame(origin, scene, opaque, target, viewport, skip).commands),
        wanted(scene, opaque, count),
        scene,
        target,
        viewport,
        pipeline,
        instance,
    );
    lemma_wanted_as_named(scene, opaque, count, pipeline, instance);
}

} // verus!
