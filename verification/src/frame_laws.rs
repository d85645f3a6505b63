//! What holds of every frame.

use crate::frame_model::{
    array_bindings, array_sizes, array_writes, copied_singly, encode_frame, path_copy_commands,
    path_copy_setup, primitive_commands, rasterization_commands, skip_after, sprite_commands,
    surface_commands, surface_setup, surfaces_commands, surfaces_skip, Encoded, InstanceBindings,
    Origin, PathTarget,
};
use crate::instance_buffer::InstanceBinding;
use crate::render_commands::{
    ClearAlpha, Command, Contents, DeviceSize, InstanceRange, Pipeline,
};
use crate::scene::{vertex_total, AtlasTexture, PrimitiveBatch, Scene, ScenePath, SceneSurface};
use crate::surfaces::SurfaceSkip;
use vstd::prelude::*;

verus! {

/// Where a command encoder stands.
pub enum PassState {
    /// Nothing was drawn yet.
    Start,
    /// In a pass over the target, with a pipeline set or not.
    Drawing { ready: bool },
    /// In a pass over the path texture.
    Rasterizing { ready: bool },
    /// Between two passes, or behind the last.
    Between,
}

/// What Metal makes of a command, `None` where it has no business: passes follow one another
/// without overlap, only the first pass over the target clears it, and everything else happens
/// in a pass, draws only once a pipeline is set.
pub open spec fn step(state: PassState, command: Command) -> Option<PassState> {
    match (command, state) {
        (Command::Write { .. }, _) => Some(state),
        (Command::BeginPass { clear: Some(_), .. }, PassState::Start) => Some(
            PassState::Drawing { ready: false },
        ),
        (Command::BeginPass { clear: None, .. }, PassState::Between) => Some(
            PassState::Drawing { ready: false },
        ),
        (Command::BeginPathPass { .. }, PassState::Between) => Some(
            PassState::Rasterizing { ready: false },
        ),
        (Command::EndPass, PassState::Drawing { .. }) => Some(PassState::Between),
        (Command::EndPass, PassState::Rasterizing { .. }) => Some(PassState::Between),
        (Command::SetPipeline(Pipeline::PathRasterization), PassState::Rasterizing { .. }) => Some(
            PassState::Rasterizing { ready: true },
        ),
        (Command::SetPipeline(pipeline), PassState::Drawing { .. }) => if pipeline
            is PathRasterization {
            None
        } else {
            Some(PassState::Drawing { ready: true })
        },
        (Command::Draw { .. }, PassState::Rasterizing { ready: true }) => Some(state),
        (Command::DrawInstanced { .. }, PassState::Drawing { ready: true }) => Some(state),
        (Command::VertexBuffer { .. }, PassState::Drawing { .. }) => Some(state),
        (Command::VertexBuffer { .. }, PassState::Rasterizing { .. }) => Some(state),
        (Command::FragmentBuffer { .. }, PassState::Drawing { .. }) => Some(state),
        (Command::FragmentBuffer { .. }, PassState::Rasterizing { .. }) => Some(state),
        (Command::VertexBytes { .. }, PassState::Drawing { .. }) => Some(state),
        (Command::VertexBytes { .. }, PassState::Rasterizing { .. }) => Some(state),
        (Command::FragmentBytes { .. }, PassState::Drawing { .. }) => Some(state),
        (Command::FragmentTexture { .. }, PassState::Drawing { .. }) => Some(state),
        (Command::HoldSurface(_), PassState::Drawing { .. }) => Some(state),
        _ => None,
    }
}

/// What Metal makes of `commands`, in order.
pub open spec fn run(state: Option<PassState>, commands: Seq<Command>) -> Option<PassState>
    decreases commands.len(),
{
    if commands.len() == 0 {
        state
    } else {
        match run(state, commands.drop_last()) {
            Some(earlier) => step(earlier, commands.last()),
            None => None,
        }
    }
}

proof fn lemma_run_concat(state: Option<PassState>, a: Seq<Command>, b: Seq<Command>)
    ensures
        run(state, a + b) == run(run(state, a), b),
    decreases b.len(),
{
    if b.len() == 0 {
        assert(a + b =~= a);
    } else {
        lemma_run_concat(state, a, b.drop_last());
        assert((a + b).drop_last() =~= a + b.drop_last());
    }
}

/// Commands that belong in a pass over the target leave the encoder in one.
spec fn stays_drawing(commands: Seq<Command>) -> bool {
    forall|ready: bool|
        run(Some(#[trigger] drawing(ready)), commands) matches Some(PassState::Drawing { .. })
}

spec fn drawing(ready: bool) -> PassState {
    PassState::Drawing { ready }
}

proof fn lemma_primitives_stay(
    pipeline: Pipeline,
    range: InstanceRange,
    binding: InstanceBinding,
    viewport: DeviceSize,
)
    requires
        !(pipeline is PathRasterization),
    ensures
        stays_drawing(primitive_commands(pipeline, range, binding, viewport)),
{
    reveal_with_fuel(run, 8);
}

proof fn lemma_sprites_stay(
    pipeline: Pipeline,
    texture: Option<AtlasTexture>,
    range: InstanceRange,
    binding: InstanceBinding,
    viewport: DeviceSize,
)
    requires
        !(pipeline is PathRasterization),
    ensures
        stays_drawing(sprite_commands(pipeline, texture, range, binding, viewport)),
{
    reveal_with_fuel(run, 10);
}

proof fn lemma_surfaces_stay(surfaces: Seq<SceneSurface>, start: int, count: int)
    ensures
        run(Some(drawing(true)), surfaces_commands(surfaces, start, count)) == Some(drawing(true)),
    decreases count,
{
    if count > 0 {
        lemma_surfaces_stay(surfaces, start, count - 1);
        let earlier = surfaces_commands(surfaces, start, count - 1);
        let last = surface_commands(
            surfaces[start + count - 1],
            (start + count - 1) as usize,
        );
        lemma_run_concat(Some(drawing(true)), earlier, last);
        reveal_with_fuel(run, 8);
    }
}

proof fn lemma_surface_batch_stays(
    surfaces: Seq<SceneSurface>,
    range: InstanceRange,
    binding: InstanceBinding,
    viewport: DeviceSize,
)
    ensures
        stays_drawing(
            surface_setup(binding, viewport) + surfaces_commands(
                surfaces,
                range.start as int,
                range.count() as int,
            ),
        ),
{
    let setup = surface_setup(binding, viewport);
    let each = surfaces_commands(surfaces, range.start as int, range.count() as int);
    assert forall|ready: bool|
        run(Some(#[trigger] drawing(ready)), setup + each) matches Some(
            PassState::Drawing { .. },
        ) by {
        assert(run(Some(drawing(ready)), setup) == Some(drawing(true))) by {
            reveal_with_fuel(run, 6);
        }
        lemma_run_concat(Some(drawing(ready)), setup, each);
        lemma_surfaces_stay(surfaces, range.start as int, range.count() as int);
    }
}

/// Whether an encoder that encoded so much is in a pass over the target.
spec fn in_pass(encoded: Encoded) -> bool {
    run(Some(PassState::Start), encoded.commands) matches Some(PassState::Drawing { .. })
}

proof fn lemma_emit_stays(encoded: Encoded, commands: Seq<Command>)
    requires
        in_pass(encoded),
        stays_drawing(commands),
    ensures
        in_pass(encoded.emit(commands)),
{
    lemma_run_concat(Some(PassState::Start), encoded.commands, commands);
    let ready = run(Some(PassState::Start), encoded.commands)->0->Drawing_ready;
    assert(run(Some(PassState::Start), encoded.commands) == Some(drawing(ready)));
}

proof fn lemma_rasterization_runs(
    multisampled: bool,
    binding: InstanceBinding,
    vertices: usize,
    viewport: DeviceSize,
)
    ensures
        run(
            Some(PassState::Between),
            rasterization_commands(multisampled, binding, vertices, viewport),
        ) == Some(PassState::Between),
{
    reveal_with_fuel(run, 8);
}

proof fn lemma_copy_setup_runs(viewport: DeviceSize)
    ensures
        run(Some(drawing(false)), path_copy_setup(viewport)) == Some(drawing(true)),
{
    reveal_with_fuel(run, 6);
}

proof fn lemma_copy_runs(binding: InstanceBinding, sprites: usize)
    ensures
        run(Some(drawing(true)), path_copy_commands(binding, sprites)) == Some(drawing(true)),
{
    reveal_with_fuel(run, 4);
}

proof fn lemma_one_runs(state: PassState, command: Command)
    ensures
        run(Some(state), seq![command]) == step(state, command),
{
    reveal_with_fuel(run, 2);
}

/// Rasterizing a batch of paths happens between passes over the target.
proof fn lemma_rasterizing_runs<B>(
    encoded: Encoded,
    origin: Origin<B>,
    scene: Scene,
    range: InstanceRange,
    target: PathTarget,
    viewport: DeviceSize,
)
    requires
        run(Some(PassState::Start), encoded.commands) == Some(PassState::Between),
        encoded.error is None,
        encoded.rasterize(origin, scene, range, target, viewport).error is None,
    ensures
        run(
            Some(PassState::Start),
            encoded.rasterize(origin, scene, range, target, viewport).commands,
        ) == Some(PassState::Between),
{
    if range.count() > 0 {
        let binding = encoded.reserved(origin, scene.path_bytes(range) as usize).last_binding(
            origin,
        );
        let write = Command::Write { contents: Contents::PathVertices(range), binding };
        let vertices = vertex_total(scene.batch_paths(range)) as usize;
        let commands = rasterization_commands(target is Multisampled, binding, vertices, viewport);
        lemma_run_concat(Some(PassState::Start), encoded.commands, seq![write] + commands);
        lemma_run_concat(Some(PassState::Between), seq![write], commands);
        lemma_one_runs(PassState::Between, write);
        lemma_rasterization_runs(target is Multisampled, binding, vertices, viewport);
    }
}

/// Copying a batch of paths happens in a pass over the target.
proof fn lemma_copying_runs<B>(
    encoded: Encoded,
    origin: Origin<B>,
    scene: Scene,
    range: InstanceRange,
    target: PathTarget,
    viewport: DeviceSize,
)
    requires
        run(Some(PassState::Start), encoded.commands) == Some(drawing(false)),
        encoded.error is None,
        encoded.copy_paths(origin, scene, range, target, viewport).error is None,
    ensures
        in_pass(encoded.copy_paths(origin, scene, range, target, viewport)),
{
    if range.count() > 0 {
        let start = Some(PassState::Start);
        let setup = path_copy_setup(viewport);
        lemma_run_concat(start, encoded.commands, setup);
        lemma_copy_setup_runs(viewport);
        let set = encoded.emit(setup);
        let singly = copied_singly(scene.batch_paths(range));
        let sprites = if singly {
            range.count() as usize
        } else {
            1
        };
        let contents = if singly {
            Contents::PathSprites(range)
        } else {
            Contents::SpanningSprite(range)
        };
        let placed = set.reserved(origin, (scene.path_sprite_size * sprites) as usize);
        let binding = placed.last_binding(origin);
        let write = Command::Write { contents, binding };
        let copy = path_copy_commands(binding, sprites);
        lemma_run_concat(start, set.commands, seq![write] + copy);
        lemma_run_concat(Some(drawing(true)), seq![write], copy);
        lemma_one_runs(drawing(true), write);
        lemma_copy_runs(binding, sprites);
    }
}

proof fn lemma_paths_stay<B>(
    encoded: Encoded,
    origin: Origin<B>,
    scene: Scene,
    range: InstanceRange,
    target: PathTarget,
    viewport: DeviceSize,
)
    requires
        in_pass(encoded),
        encoded.error is None,
        encoded.draw_paths(origin, scene, range, target, viewport).error is None,
    ensures
        in_pass(encoded.draw_paths(origin, scene, range, target, viewport)),
{
    let start = Some(PassState::Start);
    let ended = encoded.emit(seq![Command::EndPass]);
    lemma_run_concat(start, encoded.commands, seq![Command::EndPass]);
    lemma_one_runs(run(start, encoded.commands)->0, Command::EndPass);
    let rasterized = ended.rasterize(origin, scene, range, target, viewport);
    lemma_rasterizing_runs(ended, origin, scene, range, target, viewport);
    let begin = Command::BeginPass { clear: None, viewport };
    lemma_run_concat(start, rasterized.commands, seq![begin]);
    lemma_one_runs(PassState::Between, begin);
    lemma_copying_runs(rasterized.emit(seq![begin]), origin, scene, range, target, viewport);
}

proof fn lemma_batch_stays<B>(
    encoded: Encoded,
    origin: Origin<B>,
    scene: Scene,
    batch: PrimitiveBatch,
    bindings: InstanceBindings,
    target: PathTarget,
    viewport: DeviceSize,
)
    requires
        in_pass(encoded),
        encoded.error is None,
        encoded.draw_batch(origin, scene, batch, bindings, target, viewport).error is None,
    ensures
        in_pass(encoded.draw_batch(origin, scene, batch, bindings, target, viewport)),
{
    match batch {
        PrimitiveBatch::Shadows(range) => {
            let binding = bindings.shadows;
            lemma_primitives_stay(Pipeline::Shadows, range, binding, viewport);
            lemma_emit_stays(
                encoded,
                primitive_commands(Pipeline::Shadows, range, binding, viewport),
            );
        },
        PrimitiveBatch::Quads(range) => {
            let binding = bindings.quads;
            lemma_primitives_stay(Pipeline::Quads, range, binding, viewport);
            lemma_emit_stays(
                encoded,
                primitive_commands(Pipeline::Quads, range, binding, viewport),
            );
        },
        PrimitiveBatch::Underlines(range) => {
            let binding = bindings.underlines;
            lemma_primitives_stay(Pipeline::Underlines, range, binding, viewport);
            lemma_emit_stays(
                encoded,
                primitive_commands(Pipeline::Underlines, range, binding, viewport),
            );
        },
        PrimitiveBatch::Paths(range) => lemma_paths_stay(
            encoded,
            origin,
            scene,
            range,
            target,
            viewport,
        ),
        PrimitiveBatch::MonochromeSprites { texture, range } => {
            let pipeline = Pipeline::MonochromeSprites;
            let binding = bindings.monochrome_sprites;
            lemma_sprites_stay(pipeline, texture, range, binding, viewport);
            lemma_emit_stays(
                encoded,
                sprite_commands(pipeline, texture, range, binding, viewport),
            );
        },
        PrimitiveBatch::PolychromeSprites { texture, range } => {
            let pipeline = Pipeline::PolychromeSprites;
            let binding = bindings.polychrome_sprites;
            lemma_sprites_stay(pipeline, texture, range, binding, viewport);
            lemma_emit_stays(
                encoded,
                sprite_commands(pipeline, texture, range, binding, viewport),
            );
        },
        PrimitiveBatch::SubpixelSprites { .. } => {},
        PrimitiveBatch::Surfaces(range) => {
            if range.count() > 0 {
                let count = range.count() as int;
                lemma_surface_batch_stays(scene.surfaces@, range, bindings.surfaces, viewport);
                let skipped = Encoded {
                    skip: surfaces_skip(
                        encoded.skip,
                        scene.surfaces@,
                        range.start as int,
                        count,
                    ),
                    ..encoded
                };
                lemma_emit_stays(
                    skipped,
                    surface_setup(bindings.surfaces, viewport) + surfaces_commands(
                        scene.surfaces@,
                        range.start as int,
                        count,
                    ),
                );
            }
        },
    }
}

proof fn lemma_batches_stay<B>(
    encoded: Encoded,
    origin: Origin<B>,
    scene: Scene,
    count: int,
    bindings: InstanceBindings,
    target: PathTarget,
    viewport: DeviceSize,
)
    requires
        in_pass(encoded),
        encoded.error is None,
        encoded.draw_batches(origin, scene, count, bindings, target, viewport).error is None,
    ensures
        in_pass(encoded.draw_batches(origin, scene, count, bindings, target, viewport)),
    decreases count,
{
    if count > 0 {
        lemma_batches_stay(encoded, origin, scene, count - 1, bindings, target, viewport);
        lemma_batch_stays(
            encoded.draw_batches(origin, scene, count - 1, bindings, target, viewport),
            origin,
            scene,
            scene.batches@[count - 1],
            bindings,
            target,
            viewport,
        );
    }
}

proof fn lemma_writes_run(bindings: Seq<InstanceBinding>)
    ensures
        run(Some(PassState::Start), array_writes(bindings)) == Some(PassState::Start),
    decreases bindings.len(),
{
    if bindings.len() > 0 {
        lemma_writes_run(bindings.drop_last());
        assert(array_writes(bindings).drop_last() =~= array_writes(bindings.drop_last()));
    }
}

/// Every frame is made of whole passes: they follow one another, the first one over the target
/// clears it and no other does, and nothing is bound or drawn outside of them or before a
/// pipeline is set.
pub proof fn law_every_frame_is_made_of_whole_passes<B>(
    origin: Origin<B>,
    scene: Scene,
    opaque: bool,
    target: PathTarget,
    viewport: DeviceSize,
    skip: Option<SurfaceSkip>,
)
    requires
        encode_frame(origin, scene, opaque, target, viewport, skip).error is None,
    ensures
        run(
            Some(PassState::Start),
            encode_frame(origin, scene, opaque, target, viewport, skip).commands,
        ) == Some(PassState::Between),
{
    let start = Some(PassState::Start);
    let sizes = array_sizes(scene);
    let written = origin.reserve(sizes);
    let first = Encoded { commands: array_writes(written.bindings), sizes, skip, error: None };
    let frame = encode_frame(origin, scene, opaque, target, viewport, skip);
    lemma_writes_run(written.bindings);
    let clear = Some(
        if opaque {
            ClearAlpha::Opaque
        } else {
            ClearAlpha::Transparent
        },
    );
    let begin = seq![Command::BeginPass { clear, viewport }];
    let begun = first.emit(begin);
    lemma_run_concat(start, first.commands, begin);
    assert(run(start, begun.commands) == Some(drawing(false))) by {
        reveal_with_fuel(run, 2);
    }
    let count = scene.batches@.len() as int;
    let bindings = array_bindings(written.bindings);
    let drawn = begun.draw_batches(origin, scene, count, bindings, target, viewport);
    lemma_batches_stay(begun, origin, scene, count, bindings, target, viewport);
    let end = seq![Command::EndPass];
    lemma_run_concat(start, drawn.commands, end);
    assert(run(start, frame.commands) == Some(PassState::Between)) by {
        reveal_with_fuel(run, 2);
    }
}

/// In a batch sorted by draw order, each path is copied on its own exactly when all are of one
/// order, and so disjoint.
pub proof fn law_only_paths_of_one_order_are_copied_singly(paths: Seq<ScenePath>)
    requires
        paths.len() > 0,
        forall|i: int, j: int|
            0 <= i <= j < paths.len() ==> (#[trigger] paths[i]).order <= (#[trigger] paths[j]).order,
    ensures
        copied_singly(paths) <==> forall|i: int, j: int|
            0 <= i < paths.len() && 0 <= j < paths.len() ==> (#[trigger] paths[i]).order == (
            #[trigger] paths[j]).order,
{
    let last = paths.len() - 1;
    if copied_singly(paths) {
        assert forall|i: int, j: int| 0 <= i < paths.len() && 0 <= j < paths.len() implies (
        #[trigger] paths[i]).order == (#[trigger] paths[j]).order by {
            assert(paths[0].order <= paths[i].order <= paths[last].order);
            assert(paths[0].order <= paths[j].order <= paths[last].order);
        }
    } else {
        assert(paths[0].order != paths[last].order);
    }
}

/// A surface is drawn or is a reason to skip one, never both and never neither.
pub proof fn law_a_surface_is_drawn_or_skipped(surface: SceneSurface, index: usize)
    ensures
        surface_commands(surface, index).len() == 0 <==> skip_after(None, surface) is Some,
{
}

proof fn lemma_surfaces_keep_skip(
    skip: Option<SurfaceSkip>,
    surfaces: Seq<SceneSurface>,
    start: int,
    count: int,
)
    ensures
        skip is Some ==> surfaces_skip(skip, surfaces, start, count) == skip,
        skip is None ==> (surfaces_skip(skip, surfaces, start, count) matches Some(why) ==> exists|
            i: int,
        |
            start <= i < start + count && skip_after(None, #[trigger] surfaces[i]) == Some(why)),
    decreases count,
{
    if count > 0 {
        lemma_surfaces_keep_skip(skip, surfaces, start, count - 1);
        let last = surfaces[start + count - 1];
        if skip is None && surfaces_skip(skip, surfaces, start, count - 1) is None {
            assert(skip_after(None, last) == surfaces_skip(skip, surfaces, start, count));
        }
    }
}

proof fn lemma_batches_keep_skip<B>(
    encoded: Encoded,
    origin: Origin<B>,
    scene: Scene,
    count: int,
    bindings: InstanceBindings,
    target: PathTarget,
    viewport: DeviceSize,
)
    requires
        scene.valid(),
        count <= scene.batches@.len(),
    ensures
        ({
            let skip = encoded.draw_batches(origin, scene, count, bindings, target, viewport).skip;
            &&& encoded.skip is Some ==> skip == encoded.skip
            &&& encoded.skip is None ==> (skip matches Some(why) ==> exists|i: int|
                0 <= i < scene.surfaces@.len() && skip_after(
                    None,
                    #[trigger] scene.surfaces@[i],
                ) == Some(why))
        }),
    decreases count,
{
    if count > 0 {
        lemma_batches_keep_skip(encoded, origin, scene, count - 1, bindings, target, viewport);
        let earlier = encoded.draw_batches(origin, scene, count - 1, bindings, target, viewport);
        let batch = scene.batches@[count - 1];
        assert(scene.batch_valid(batch));
        if let PrimitiveBatch::Surfaces(range) = batch {
            lemma_surfaces_keep_skip(
                earlier.skip,
                scene.surfaces@,
                range.start as int,
                range.count() as int,
            );
        }
    }
}

/// The first reason a surface was skipped for is kept from frame to frame, and a new one is that
/// of a surface of the scene.
pub proof fn law_the_first_skip_is_kept<B>(
    origin: Origin<B>,
    scene: Scene,
    opaque: bool,
    target: PathTarget,
    viewport: DeviceSize,
    skip: Option<SurfaceSkip>,
)
    requires
        scene.valid(),
    ensures
        ({
            let after = encode_frame(origin, scene, opaque, target, viewport, skip).skip;
            &&& skip is Some ==> after == skip
            &&& skip is None ==> (after matches Some(why) ==> exists|i: int|
                0 <= i < scene.surfaces@.len() && skip_after(
                    None,
                    #[trigger] scene.surfaces@[i],
                ) == Some(why))
        }),
{
    let sizes = array_sizes(scene);
    let made = origin.reserve(sizes);
    let first = Encoded { commands: array_writes(made.bindings), sizes, skip, error: None };
    let clear = Some(
        if opaque {
            ClearAlpha::Opaque
        } else {
            ClearAlpha::Transparent
        },
    );
    lemma_batches_keep_skip(
        first.emit(seq![Command::BeginPass { clear, viewport }]),
        origin,
        scene,
        scene.batches@.len() as int,
        array_bindings(made.bindings),
        target,
        viewport,
    );
}

} // verus!
