//! What holds of the memory every frame writes and reads.

use crate::frame_model::{
    array_bindings, array_sizes, array_writes, copied_singly, encode_frame, path_copy_commands,
    path_copy_setup, primitive_commands, rasterization_commands, sprite_commands, surface_commands,
    surface_setup, surfaces_commands, surfaces_skip, Encoded, InstanceBindings, Origin, PathTarget,
};
use crate::instance_buffer::{used_ranges, InstanceBinding, ModifiedRange, PoolState};
use crate::instance_laws::{law_reservations_never_overlap, lemma_reservations_are_used};
use crate::render_commands::{
    BoundBuffer, ClearAlpha, Command, Contents, DeviceSize, InstanceRange, Pipeline,
};
use crate::scene::{vertex_total, AtlasTexture, PrimitiveBatch, Scene, SceneSurface};
use crate::surfaces::SurfaceSkip;
use vstd::prelude::*;

verus! {

/// The places that are written, in order.
pub open spec fn written(commands: Seq<Command>) -> Seq<InstanceBinding>
    decreases commands.len(),
{
    if commands.len() == 0 {
        seq![]
    } else {
        match commands.last() {
            Command::Write { binding, .. } => written(commands.drop_last()).push(binding),
            _ => written(commands.drop_last()),
        }
    }
}

/// The place a command binds for a shader to read.
pub open spec fn bound(command: Command) -> Option<InstanceBinding> {
    match command {
        Command::VertexBuffer { buffer: BoundBuffer::Instances(binding), .. } => Some(binding),
        Command::FragmentBuffer { buffer: BoundBuffer::Instances(binding), .. } => Some(binding),
        _ => None,
    }
}

/// Whether shaders read only what was written before.
pub open spec fn reads_what_was_written(commands: Seq<Command>) -> bool {
    forall|i: int|
        0 <= i < commands.len() ==> (bound(#[trigger] commands[i]) matches Some(binding)
            ==> written(commands.take(i)).contains(binding))
}

proof fn lemma_written_concat(a: Seq<Command>, b: Seq<Command>)
    ensures
        written(a + b) == written(a) + written(b),
    decreases b.len(),
{
    if b.len() == 0 {
        assert(a + b =~= a);
        assert(written(a) + written(b) =~= written(a));
    } else {
        lemma_written_concat(a, b.drop_last());
        assert((a + b).drop_last() =~= a + b.drop_last());
        assert(written(a + b) =~= written(a) + written(b));
    }
}

proof fn lemma_nothing_written(commands: Seq<Command>)
    requires
        forall|i: int| 0 <= i < commands.len() ==> !(#[trigger] commands[i] is Write),
    ensures
        written(commands) == Seq::<InstanceBinding>::empty(),
    decreases commands.len(),
{
    if commands.len() > 0 {
        lemma_nothing_written(commands.drop_last());
        assert(!(commands[commands.len() - 1] is Write));
    }
}

/// Commands that write nothing and bind nothing but `bindings`.
spec fn reads_from(commands: Seq<Command>, bindings: Set<InstanceBinding>) -> bool {
    forall|i: int|
        0 <= i < commands.len() ==> {
            &&& !(#[trigger] commands[i] is Write)
            &&& bound(commands[i]) matches Some(binding) ==> bindings.contains(binding)
        }
}

/// A frame so far accounts for its reservations: each is written, in order, before it is read.
spec fn accounts<B>(encoded: Encoded, origin: Origin<B>) -> bool {
    &&& origin.reserve(encoded.sizes).error is None
    &&& written(encoded.commands) == origin.reserve(encoded.sizes).bindings
    &&& reads_what_was_written(encoded.commands)
}

proof fn lemma_emit_reads<B>(
    encoded: Encoded,
    origin: Origin<B>,
    commands: Seq<Command>,
    bindings: Set<InstanceBinding>,
)
    requires
        accounts(encoded, origin),
        reads_from(commands, bindings),
        forall|binding: InstanceBinding|
            #[trigger] bindings.contains(binding) ==> written(encoded.commands).contains(binding),
    ensures
        accounts(encoded.emit(commands), origin),
        written(encoded.emit(commands).commands) == written(encoded.commands),
{
    let before = encoded.commands;
    let all = before + commands;
    lemma_nothing_written(commands);
    lemma_written_concat(before, commands);
    assert(written(before) + written(commands) =~= written(before));
    assert forall|i: int| 0 <= i < all.len() implies (bound(#[trigger] all[i]) matches Some(binding)
        ==> written(all.take(i)).contains(binding)) by {
        if i < before.len() {
            assert(all[i] == before[i]);
            assert(all.take(i) =~= before.take(i));
        } else {
            let part = commands.take(i - before.len());
            assert(all[i] == commands[i - before.len()]);
            assert(all.take(i) =~= before + part);
            lemma_nothing_written(part);
            lemma_written_concat(before, part);
            assert(written(before) + written(part) =~= written(before));
        }
    }
}

/// Reserving room and filling it.
proof fn lemma_emit_write<B>(encoded: Encoded, origin: Origin<B>, size: usize, contents: Contents)
    requires
        accounts(encoded, origin),
        encoded.error is None,
        encoded.reserved(origin, size).error is None,
    ensures
        ({
            let placed = encoded.reserved(origin, size);
            let binding = placed.last_binding(origin);
            let after = placed.emit(seq![Command::Write { contents, binding }]);
            &&& accounts(after, origin)
            &&& written(after.commands) == written(encoded.commands).push(binding)
        }),
{
    let sizes = encoded.sizes.push(size);
    assert(sizes.drop_last() =~= encoded.sizes);
    let placed = encoded.reserved(origin, size);
    let binding = placed.last_binding(origin);
    let write = Command::Write { contents, binding };
    let before = encoded.commands;
    let all = before + seq![write];
    assert(all.drop_last() =~= before);
    assert forall|i: int| 0 <= i < all.len() implies (bound(#[trigger] all[i]) matches Some(bound)
        ==> written(all.take(i)).contains(bound)) by {
        if i < before.len() {
            assert(all[i] == before[i]);
            assert(all.take(i) =~= before.take(i));
        }
    }
}

proof fn lemma_surfaces_read_nothing(surfaces: Seq<SceneSurface>, start: int, count: int)
    ensures
        reads_from(surfaces_commands(surfaces, start, count), Set::empty()),
    decreases count,
{
    if count > 0 {
        lemma_surfaces_read_nothing(surfaces, start, count - 1);
        let earlier = surfaces_commands(surfaces, start, count - 1);
        let last = surface_commands(
            surfaces[start + count - 1],
            (start + count - 1) as usize,
        );
        let all = surfaces_commands(surfaces, start, count);
        assert forall|i: int| 0 <= i < all.len() implies !(#[trigger] all[i] is Write) && (bound(
            all[i],
        ) matches Some(binding) ==> Set::<InstanceBinding>::empty().contains(binding)) by {
            if i < earlier.len() {
                assert(all[i] == earlier[i]);
            } else {
                assert(all[i] == last[i - earlier.len()]);
            }
        }
    }
}

proof fn lemma_primitives_read(
    pipeline: Pipeline,
    range: InstanceRange,
    binding: InstanceBinding,
    viewport: DeviceSize,
)
    ensures
        reads_from(primitive_commands(pipeline, range, binding, viewport), set![binding]),
{
}

proof fn lemma_sprites_read(
    pipeline: Pipeline,
    texture: Option<AtlasTexture>,
    range: InstanceRange,
    binding: InstanceBinding,
    viewport: DeviceSize,
)
    ensures
        reads_from(sprite_commands(pipeline, texture, range, binding, viewport), set![binding]),
{
}

proof fn lemma_surface_batch_reads(
    surfaces: Seq<SceneSurface>,
    range: InstanceRange,
    binding: InstanceBinding,
    viewport: DeviceSize,
)
    ensures
        reads_from(
            surface_setup(binding, viewport) + surfaces_commands(
                surfaces,
                range.start as int,
                range.count() as int,
            ),
            set![binding],
        ),
{
    let setup = surface_setup(binding, viewport);
    let each = surfaces_commands(surfaces, range.start as int, range.count() as int);
    lemma_surfaces_read_nothing(surfaces, range.start as int, range.count() as int);
    assert forall|i: int| 0 <= i < (setup + each).len() implies !(#[trigger] (setup + each)[i]
        is Write) && (bound((setup + each)[i]) matches Some(other) ==> set![binding].contains(
        other,
    )) by {
        if i >= setup.len() {
            assert((setup + each)[i] == each[i - setup.len()]);
        } else {
            assert((setup + each)[i] == setup[i]);
        }
    }
}

proof fn lemma_rasterization_reads(
    multisampled: bool,
    binding: InstanceBinding,
    vertices: usize,
    viewport: DeviceSize,
)
    ensures
        reads_from(
            rasterization_commands(multisampled, binding, vertices, viewport),
            set![binding],
        ),
{
}

proof fn lemma_copy_reads(binding: InstanceBinding, sprites: usize, viewport: DeviceSize)
    ensures
        reads_from(path_copy_setup(viewport), Set::empty()),
        reads_from(path_copy_commands(binding, sprites), set![binding]),
{
}

/// What a frame has written stays written.
spec fn keeps(earlier: Encoded, later: Encoded) -> bool {
    forall|binding: InstanceBinding| #[trigger]
        written(earlier.commands).contains(binding) ==> written(later.commands).contains(binding)
}

proof fn lemma_push_keeps(bindings: Seq<InstanceBinding>, last: InstanceBinding)
    ensures
        bindings.push(last).contains(last),
        forall|binding: InstanceBinding| #[trigger]
            bindings.contains(binding) ==> bindings.push(last).contains(binding),
{
    let pushed = bindings.push(last);
    assert(pushed[bindings.len() as int] == last);
    assert forall|binding: InstanceBinding| #[trigger]
        bindings.contains(binding) implies pushed.contains(binding) by {
        let i = choose|i: int| 0 <= i < bindings.len() && bindings[i] == binding;
        assert(pushed[i] == binding);
    }
}

proof fn lemma_rasterizing_accounts<B>(
    encoded: Encoded,
    origin: Origin<B>,
    scene: Scene,
    range: InstanceRange,
    target: PathTarget,
    viewport: DeviceSize,
)
    requires
        accounts(encoded, origin),
        encoded.error is None,
        encoded.rasterize(origin, scene, range, target, viewport).error is None,
    ensures
        accounts(encoded.rasterize(origin, scene, range, target, viewport), origin),
        keeps(encoded, encoded.rasterize(origin, scene, range, target, viewport)),
{
    if range.count() > 0 {
        let size = scene.path_bytes(range) as usize;
        let placed = encoded.reserved(origin, size);
        let binding = placed.last_binding(origin);
        let contents = Contents::PathVertices(range);
        let write = seq![Command::Write { contents, binding }];
        lemma_emit_write(encoded, origin, size, contents);
        let after = placed.emit(write);
        let vertices = vertex_total(scene.batch_paths(range)) as usize;
        let commands = rasterization_commands(target is Multisampled, binding, vertices, viewport);
        lemma_rasterization_reads(target is Multisampled, binding, vertices, viewport);
        lemma_push_keeps(written(encoded.commands), binding);
        lemma_emit_reads(after, origin, commands, set![binding]);
        assert(after.emit(commands).commands =~= placed.emit(write + commands).commands);
    }
}

proof fn lemma_copying_accounts<B>(
    encoded: Encoded,
    origin: Origin<B>,
    scene: Scene,
    range: InstanceRange,
    target: PathTarget,
    viewport: DeviceSize,
)
    requires
        accounts(encoded, origin),
        encoded.error is None,
        encoded.copy_paths(origin, scene, range, target, viewport).error is None,
    ensures
        accounts(encoded.copy_paths(origin, scene, range, target, viewport), origin),
        keeps(encoded, encoded.copy_paths(origin, scene, range, target, viewport)),
{
    if range.count() > 0 {
        let singly = copied_singly(scene.batch_paths(range));
        let sprites = if singly {
            range.count() as usize
        } else {
            1
        };
        let contents = if singly {
            Contents::PathSprites(range)
        } else {
            Contents::SpanningSprite(range)
        };
        let setup = path_copy_setup(viewport);
        let set = encoded.emit(setup);
        let size = (scene.path_sprite_size * sprites) as usize;
        let placed = set.reserved(origin, size);
        let binding = placed.last_binding(origin);
        lemma_copy_reads(binding, sprites, viewport);
        lemma_emit_reads(encoded, origin, setup, Set::empty());
        lemma_emit_write(set, origin, size, contents);
        let write = seq![Command::Write { contents, binding }];
        let after = placed.emit(write);
        let commands = path_copy_commands(binding, sprites);
        lemma_push_keeps(written(set.commands), binding);
        lemma_emit_reads(after, origin, commands, set![binding]);
        assert(after.emit(commands).commands =~= placed.emit(write + commands).commands);
    }
}

proof fn lemma_paths_account<B>(
    encoded: Encoded,
    origin: Origin<B>,
    scene: Scene,
    range: InstanceRange,
    target: PathTarget,
    viewport: DeviceSize,
)
    requires
        accounts(encoded, origin),
        encoded.error is None,
        encoded.draw_paths(origin, scene, range, target, viewport).error is None,
    ensures
        accounts(encoded.draw_paths(origin, scene, range, target, viewport), origin),
        keeps(encoded, encoded.draw_paths(origin, scene, range, target, viewport)),
{
    let end = seq![Command::EndPass];
    let begin = seq![Command::BeginPass { clear: None, viewport }];
    lemma_emit_reads(encoded, origin, end, Set::empty());
    let ended = encoded.emit(end);
    lemma_rasterizing_accounts(ended, origin, scene, range, target, viewport);
    let rasterized = ended.rasterize(origin, scene, range, target, viewport);
    lemma_emit_reads(rasterized, origin, begin, Set::empty());
    lemma_copying_accounts(rasterized.emit(begin), origin, scene, range, target, viewport);
}

/// Whether a frame has written the arrays its batches read.
spec fn has_arrays(encoded: Encoded, bindings: InstanceBindings) -> bool {
    &&& written(encoded.commands).contains(bindings.quads)
    &&& written(encoded.commands).contains(bindings.shadows)
    &&& written(encoded.commands).contains(bindings.underlines)
    &&& written(encoded.commands).contains(bindings.monochrome_sprites)
    &&& written(encoded.commands).contains(bindings.polychrome_sprites)
    &&& written(encoded.commands).contains(bindings.surfaces)
}

proof fn lemma_batch_accounts<B>(
    encoded: Encoded,
    origin: Origin<B>,
    scene: Scene,
    batch: PrimitiveBatch,
    bindings: InstanceBindings,
    target: PathTarget,
    viewport: DeviceSize,
)
    requires
        accounts(encoded, origin),
        has_arrays(encoded, bindings),
        encoded.error is None,
        encoded.draw_batch(origin, scene, batch, bindings, target, viewport).error is None,
    ensures
        accounts(encoded.draw_batch(origin, scene, batch, bindings, target, viewport), origin),
        has_arrays(encoded.draw_batch(origin, scene, batch, bindings, target, viewport), bindings),
{
    match batch {
        PrimitiveBatch::Shadows(range) => {
            let binding = bindings.shadows;
            lemma_primitives_read(Pipeline::Shadows, range, binding, viewport);
            lemma_emit_reads(
                encoded,
                origin,
                primitive_commands(Pipeline::Shadows, range, binding, viewport),
                set![binding],
            );
        },
        PrimitiveBatch::Quads(range) => {
            let binding = bindings.quads;
            lemma_primitives_read(Pipeline::Quads, range, binding, viewport);
            lemma_emit_reads(
                encoded,
                origin,
                primitive_commands(Pipeline::Quads, range, binding, viewport),
                set![binding],
            );
        },
        PrimitiveBatch::Underlines(range) => {
            let binding = bindings.underlines;
            lemma_primitives_read(Pipeline::Underlines, range, binding, viewport);
            lemma_emit_reads(
                encoded,
                origin,
                primitive_commands(Pipeline::Underlines, range, binding, viewport),
                set![binding],
            );
        },
        PrimitiveBatch::Paths(range) => {
            lemma_paths_account(encoded, origin, scene, range, target, viewport);
        },
        PrimitiveBatch::MonochromeSprites { texture, range } => {
            let pipeline = Pipeline::MonochromeSprites;
            let binding = bindings.monochrome_sprites;
            lemma_sprites_read(pipeline, texture, range, binding, viewport);
            lemma_emit_reads(
                encoded,
                origin,
                sprite_commands(pipeline, texture, range, binding, viewport),
                set![binding],
            );
        },
        PrimitiveBatch::PolychromeSprites { texture, range } => {
            let pipeline = Pipeline::PolychromeSprites;
            let binding = bindings.polychrome_sprites;
            lemma_sprites_read(pipeline, texture, range, binding, viewport);
            lemma_emit_reads(
                encoded,
                origin,
                sprite_commands(pipeline, texture, range, binding, viewport),
                set![binding],
            );
        },
        PrimitiveBatch::SubpixelSprites { .. } => {},
        PrimitiveBatch::Surfaces(range) => {
            if range.count() > 0 {
                let binding = bindings.surfaces;
                let count = range.count() as int;
                let skip = surfaces_skip(
                    encoded.skip,
                    scene.surfaces@,
                    range.start as int,
                    count,
                );
                lemma_surface_batch_reads(scene.surfaces@, range, binding, viewport);
                lemma_emit_reads(
                    Encoded { skip, ..encoded },
                    origin,
                    surface_setup(binding, viewport) + surfaces_commands(
                        scene.surfaces@,
                        range.start as int,
                        count,
                    ),
                    set![binding],
                );
            }
        },
    }
}

proof fn lemma_batches_account<B>(
    encoded: Encoded,
    origin: Origin<B>,
    scene: Scene,
    count: int,
    bindings: InstanceBindings,
    target: PathTarget,
    viewport: DeviceSize,
)
    requires
        accounts(encoded, origin),
        has_arrays(encoded, bindings),
        encoded.error is None,
        encoded.draw_batches(origin, scene, count, bindings, target, viewport).error is None,
    ensures
        accounts(encoded.draw_batches(origin, scene, count, bindings, target, viewport), origin),
        has_arrays(
            encoded.draw_batches(origin, scene, count, bindings, target, viewport),
            bindings,
        ),
    decreases count,
{
    if count > 0 {
        lemma_batches_account(encoded, origin, scene, count - 1, bindings, target, viewport);
        lemma_batch_accounts(
            encoded.draw_batches(origin, scene, count - 1, bindings, target, viewport),
            origin,
            scene,
            scene.batches@[count - 1],
            bindings,
            target,
            viewport,
        );
    }
}

proof fn lemma_array_writes(bindings: Seq<InstanceBinding>)
    ensures
        written(array_writes(bindings)) == bindings,
        reads_what_was_written(array_writes(bindings)),
    decreases bindings.len(),
{
    let writes = array_writes(bindings);
    if bindings.len() > 0 {
        lemma_array_writes(bindings.drop_last());
        assert(writes.drop_last() =~= array_writes(bindings.drop_last()));
        assert(written(writes) =~= bindings);
    }
}

/// A frame writes each of its reservations once, in the order they were made, and its shaders
/// read nothing that was not written before.
pub proof fn law_a_frame_reads_what_it_wrote<B>(
    origin: Origin<B>,
    scene: Scene,
    opaque: bool,
    target: PathTarget,
    viewport: DeviceSize,
    skip: Option<SurfaceSkip>,
)
    requires
        encode_frame(origin, scene, opaque, target, viewport, skip).error is None,
    ensures
        ({
            let frame = encode_frame(origin, scene, opaque, target, viewport, skip);
            &&& origin.reserve(frame.sizes).error is None
            &&& written(frame.commands) == origin.reserve(frame.sizes).bindings
            &&& reads_what_was_written(frame.commands)
        }),
{
    let sizes = array_sizes(scene);
    let made = origin.reserve(sizes);
    let first = Encoded { commands: array_writes(made.bindings), sizes, skip, error: None };
    lemma_array_writes(made.bindings);
    lemma_one_binding_each(origin, sizes);
    let clear = Some(
        if opaque {
            ClearAlpha::Opaque
        } else {
            ClearAlpha::Transparent
        },
    );
    let begin = seq![Command::BeginPass { clear, viewport }];
    lemma_emit_reads(first, origin, begin, Set::empty());
    let begun = first.emit(begin);
    let bindings = array_bindings(made.bindings);
    let count = scene.batches@.len() as int;
    assert(has_arrays(begun, bindings)) by {
        assert(made.bindings.len() == 6);
    }
    lemma_batches_account(begun, origin, scene, count, bindings, target, viewport);
    let drawn = begun.draw_batches(origin, scene, count, bindings, target, viewport);
    lemma_emit_reads(drawn, origin, seq![Command::EndPass], Set::empty());
}

/// Reservations that all fit have a place each.
pub(crate) proof fn lemma_one_binding_each<B>(origin: Origin<B>, sizes: Seq<usize>)
    requires
        origin.reserve(sizes).error is None,
    ensures
        origin.reserve(sizes).bindings.len() == sizes.len(),
    decreases sizes.len(),
{
    if sizes.len() > 0 {
        lemma_one_binding_each(origin, sizes.drop_last());
    }
}

/// No two writes of a frame overlap: each starts where Metal can bind it, ends within its buffer,
/// and lies behind the earlier ones in the same buffer.
pub proof fn law_writes_never_overlap<B>(
    pool: PoolState<B>,
    scene: Scene,
    opaque: bool,
    target: PathTarget,
    viewport: DeviceSize,
    skip: Option<SurfaceSkip>,
)
    requires
        pool.valid(),
        encode_frame(Origin::of(pool), scene, opaque, target, viewport, skip).error is None,
        encode_frame(Origin::of(pool), scene, opaque, target, viewport, skip).sizes.len()
            < usize::MAX,
    ensures
        ({
            let frame = encode_frame(Origin::of(pool), scene, opaque, target, viewport, skip);
            let places = written(frame.commands);
            let buffers = Origin::of(pool).reserve(frame.sizes).writer.buffers;
            &&& places.len() == frame.sizes.len()
            &&& forall|i: int|
                #![trigger places[i]]
                0 <= i < places.len() ==> {
                    &&& places[i].offset % 256 == 0
                    &&& places[i].buffer < buffers.len()
                    &&& places[i].offset + frame.sizes[i] <= buffers[places[i].buffer as int].size
                }
            &&& forall|i: int, j: int|
                #![trigger places[i], places[j]]
                0 <= i < j < places.len() ==> {
                    ||| places[i].buffer < places[j].buffer
                    ||| places[i].buffer == places[j].buffer && places[i].offset + frame.sizes[i]
                        <= places[j].offset
                }
        }),
{
    let origin = Origin::of(pool);
    let frame = encode_frame(origin, scene, opaque, target, viewport, skip);
    law_a_frame_reads_what_it_wrote(origin, scene, opaque, target, viewport, skip);
    law_reservations_never_overlap(pool.next(), pool.without_next(), frame.sizes);
}

/// Where the CPU and the GPU do not share memory, the GPU is told of every byte the CPU wrote.
pub proof fn law_every_write_is_reported<B>(
    pool: PoolState<B>,
    scene: Scene,
    opaque: bool,
    target: PathTarget,
    viewport: DeviceSize,
    skip: Option<SurfaceSkip>,
    i: int,
)
    requires
        pool.valid(),
        encode_frame(Origin::of(pool), scene, opaque, target, viewport, skip).error is None,
        encode_frame(Origin::of(pool), scene, opaque, target, viewport, skip).sizes.len()
            < usize::MAX,
        0 <= i < written(
            encode_frame(Origin::of(pool), scene, opaque, target, viewport, skip).commands,
        ).len(),
        encode_frame(Origin::of(pool), scene, opaque, target, viewport, skip).sizes[i] > 0,
    ensures
        ({
            let frame = encode_frame(Origin::of(pool), scene, opaque, target, viewport, skip);
            let place = written(frame.commands)[i];
            exists|range: ModifiedRange| #[trigger]
                Origin::of(pool).reserve(frame.sizes).writer.modified().contains(range)
                    && range.buffer == place.buffer && place.offset + frame.sizes[i]
                    <= range.length
        }),
{
    let origin = Origin::of(pool);
    let frame = encode_frame(origin, scene, opaque, target, viewport, skip);
    let made = origin.reserve(frame.sizes);
    law_a_frame_reads_what_it_wrote(origin, scene, opaque, target, viewport, skip);
    law_reservations_never_overlap(pool.next(), pool.without_next(), frame.sizes);
    lemma_reservations_are_used(pool.next(), pool.without_next(), frame.sizes);
    let used = made.writer.written.push(made.writer.offset);
    let place = made.bindings[i];
    lemma_used_range(used, place.buffer as int);
    let range = ModifiedRange { buffer: place.buffer, length: used[place.buffer as int] };
    assert(made.writer.modified().contains(range));
}

proof fn lemma_used_range(used: Seq<usize>, buffer: int)
    requires
        0 <= buffer < used.len() <= usize::MAX,
        used[buffer] > 0,
    ensures
        used_ranges(used).contains(
            ModifiedRange { buffer: buffer as usize, length: used[buffer] },
        ),
    decreases used.len(),
{
    let range = ModifiedRange { buffer: buffer as usize, length: used[buffer] };
    let earlier = used_ranges(used.drop_last());
    let all = used_ranges(used);
    if buffer < used.len() - 1 {
        lemma_used_range(used.drop_last(), buffer);
        let at = choose|at: int| 0 <= at < earlier.len() && earlier[at] == range;
        assert(all[at] == range);
    } else {
        assert(all[earlier.len() as int] == range);
    }
}

} // verus!
