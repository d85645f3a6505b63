//! How a frame ends: which surfaces it left out, and why it failed where it did.

use crate::frame_model::{
    array_bindings, array_sizes, array_writes, encode_frame, surfaces_skip, EncodeError, Encoded,
    InstanceBindings, Origin, PathTarget, SceneCounts,
};
use crate::render_commands::{ClearAlpha, Command, DeviceSize};
use crate::scene::{
    lemma_sources_counted, vertex_sources, PrimitiveBatch, Scene, SceneSurface,
};
use crate::surfaces::{Plane, SurfaceSkip};
use vstd::prelude::*;

verus! {

/// Whether `batch` has paths to draw.
pub open spec fn has_paths(batch: PrimitiveBatch) -> bool {
    batch matches PrimitiveBatch::Paths(range) && range.start < range.end
}

proof fn lemma_batches_fail<B>(
    encoded: Encoded,
    origin: Origin<B>,
    scene: Scene,
    count: int,
    bindings: InstanceBindings,
    target: PathTarget,
    viewport: DeviceSize,
)
    requires
        encoded.error is None,
        0 <= count <= scene.batches@.len(),
    ensures
        ({
            let drawn = encoded.draw_batches(origin, scene, count, bindings, target, viewport);
            &&& drawn.error matches Some(EncodeError::PathsTooLarge(cause))
                ==> origin.reserve(drawn.sizes).error == Some(cause)
            &&& drawn.error == Some(EncodeError::MissingPathTexture) ==> target is Missing
                && exists|i: int| 0 <= i < count && has_paths(#[trigger] scene.batches@[i])
            &&& !(drawn.error matches Some(EncodeError::SceneTooLarge { .. }))
            &&& drawn.error is None && target is Missing ==> forall|i: int|
                0 <= i < count ==> !has_paths(#[trigger] scene.batches@[i])
        }),
    decreases count,
{
    if count > 0 {
        lemma_batches_fail(encoded, origin, scene, count - 1, bindings, target, viewport);
        let earlier = encoded.draw_batches(origin, scene, count - 1, bindings, target, viewport);
        let batch = scene.batches@[count - 1];
        if let PrimitiveBatch::Paths(range) = batch {
            assert(has_paths(batch) <==> range.count() > 0);
        }
    }
}

/// A frame fails because its arrays do not fit, which names how many of each there are; because
/// what its paths need does not fit beside them; or because it has paths and no texture to
/// rasterize them into. It fails for no other reason, and never draws such paths.
pub proof fn law_a_frame_fails_for_want_of_room_or_of_a_path_texture<B>(
    origin: Origin<B>,
    scene: Scene,
    opaque: bool,
    target: PathTarget,
    viewport: DeviceSize,
    skip: Option<SurfaceSkip>,
)
    ensures
        ({
            let frame = encode_frame(origin, scene, opaque, target, viewport, skip);
            let arrays = origin.reserve(
                seq![
                    (scene.quads.element_size * scene.quads.count) as usize,
                    (scene.shadows.element_size * scene.shadows.count) as usize,
                    (scene.underlines.element_size * scene.underlines.count) as usize,
                    (scene.monochrome_sprites.element_size * scene.monochrome_sprites.count) as usize,
                    (scene.polychrome_sprites.element_size * scene.polychrome_sprites.count) as usize,
                    (scene.surface_bounds_size * (scene.surfaces@.len() as usize)) as usize,
                ],
            );
            let counts = SceneCounts {
                paths: scene.paths@.len() as usize,
                shadows: scene.shadows.count,
                quads: scene.quads.count,
                underlines: scene.underlines.count,
                monochrome_sprites: scene.monochrome_sprites.count,
                polychrome_sprites: scene.polychrome_sprites.count,
                surfaces: scene.surfaces@.len() as usize,
            };
            let paths_named = exists|i: int|
                0 <= i < scene.batches@.len() && has_paths(#[trigger] scene.batches@[i]);
            &&& arrays.error matches Some(cause) ==> frame.error == Some(
                EncodeError::SceneTooLarge { counts, cause },
            )
            &&& frame.error matches Some(EncodeError::SceneTooLarge { .. }) ==> arrays.error is Some
            &&& frame.error matches Some(EncodeError::PathsTooLarge(cause)) ==> origin.reserve(
                frame.sizes,
            ).error == Some(cause)
            &&& frame.error == Some(EncodeError::MissingPathTexture) ==> target is Missing
                && paths_named
            &&& target is Missing && paths_named ==> frame.error is Some
        }),
{
    let sizes = array_sizes(scene);
    let made = origin.reserve(sizes);
    let first = Encoded { commands: array_writes(made.bindings), sizes, skip, error: None };
    let clear = Some(
        if opaque {
            ClearAlpha::Opaque
        } else {
            ClearAlpha::Transparent
        },
    );
    lemma_batches_fail(
        first.emit(seq![Command::BeginPass { clear, viewport }]),
        origin,
        scene,
        scene.batches@.len() as int,
        array_bindings(made.bindings),
        target,
        viewport,
    );
    assert(sizes =~= seq![
        (scene.quads.element_size * scene.quads.count) as usize,
        (scene.shadows.element_size * scene.shadows.count) as usize,
        (scene.underlines.element_size * scene.underlines.count) as usize,
        (scene.monochrome_sprites.element_size * scene.monochrome_sprites.count) as usize,
        (scene.polychrome_sprites.element_size * scene.polychrome_sprites.count) as usize,
        (scene.surface_bounds_size * (scene.surfaces@.len() as usize)) as usize,
    ]);
}

/// Whether `why` is what keeps a surface out of a frame, if anything does: its format is neither
/// `420f` nor `420v`; or else its luma plane, or else its chroma plane, could not be made.
pub open spec fn kept_out(surface: SceneSurface, why: Option<SurfaceSkip>) -> bool {
    if surface.format != 0x3432_3066 && surface.format != 0x3432_3076 {
        why == Some(SurfaceSkip::ForeignFormat(surface.format))
    } else if let Plane::Failed(status) = surface.luma {
        why == Some(SurfaceSkip::TextureFailed(status))
    } else if let Plane::Failed(status) = surface.chroma {
        why == Some(SurfaceSkip::TextureFailed(status))
    } else {
        why is None
    }
}

/// The places of the surfaces that the first `count` batches name, in order.
pub open spec fn surfaces_named(scene: Scene, count: int) -> Seq<int>
    decreases count,
{
    if count <= 0 {
        seq![]
    } else {
        let earlier = surfaces_named(scene, count - 1);
        match scene.batches@[count - 1] {
            PrimitiveBatch::Surfaces(range) => earlier + places(
                range.start as int,
                range.end - range.start,
            ),
            _ => earlier,
        }
    }
}

/// The places from `start` on.
pub open spec fn places(start: int, count: int) -> Seq<int> {
    Seq::new(
        if count < 0 {
            0
        } else {
            count as nat
        },
        |i: int| start + i,
    )
}

/// Whether `why` is the first reason among the surfaces at `places`, or none where none is kept
/// out.
pub open spec fn first_reason(
    surfaces: Seq<SceneSurface>,
    places: Seq<int>,
    why: Option<SurfaceSkip>,
) -> bool {
    match why {
        None => forall|i: int|
            0 <= i < places.len() ==> kept_out(surfaces[#[trigger] places[i]], None),
        Some(_) => exists|at: int|
            {
                &&& 0 <= at < places.len()
                &&& kept_out(surfaces[#[trigger] places[at]], why)
                &&& forall|i: int|
                    0 <= i < at ==> kept_out(surfaces[#[trigger] places[i]], None)
            },
    }
}

proof fn lemma_one_more_place(
    surfaces: Seq<SceneSurface>,
    places: Seq<int>,
    more: Seq<int>,
    why: Option<SurfaceSkip>,
    then: Option<SurfaceSkip>,
)
    requires
        first_reason(surfaces, places, why),
        why is Some ==> then == why,
        why is None ==> first_reason(surfaces, more, then),
    ensures
        first_reason(surfaces, places + more, then),
{
    let all = places + more;
    if why is Some {
        let at = choose|at: int|
            {
                &&& 0 <= at < places.len()
                &&& kept_out(surfaces[#[trigger] places[at]], why)
                &&& forall|i: int|
                    0 <= i < at ==> kept_out(surfaces[#[trigger] places[i]], None)
            };
        assert(all[at] == places[at]);
        assert forall|i: int| 0 <= i < at implies kept_out(surfaces[#[trigger] all[i]], None) by {
            assert(all[i] == places[i]);
        }
    } else {
        assert forall|i: int| 0 <= i < places.len() implies kept_out(
            surfaces[#[trigger] all[i]],
            None,
        ) by {
            assert(all[i] == places[i]);
        }
        match then {
            None => {
                assert forall|i: int| 0 <= i < all.len() implies kept_out(
                    surfaces[#[trigger] all[i]],
                    None,
                ) by {
                    if i >= places.len() {
                        assert(all[i] == more[i - places.len()]);
                    }
                }
            },
            Some(_) => {
                let at = choose|at: int|
                    {
                        &&& 0 <= at < more.len()
                        &&& kept_out(surfaces[#[trigger] more[at]], then)
                        &&& forall|i: int|
                            0 <= i < at ==> kept_out(surfaces[#[trigger] more[i]], None)
                    };
                assert(all[places.len() + at] == more[at]);
                assert forall|i: int| 0 <= i < places.len() + at implies kept_out(
                    surfaces[#[trigger] all[i]],
                    None,
                ) by {
                    if i >= places.len() {
                        assert(all[i] == more[i - places.len()]);
                    }
                }
            },
        }
    }
}

proof fn lemma_surfaces_reason(
    surfaces: Seq<SceneSurface>,
    start: int,
    count: int,
)
    requires
        0 <= count,
    ensures
        first_reason(surfaces, places(start, count), surfaces_skip(None, surfaces, start, count)),
    decreases count,
{
    if count > 0 {
        lemma_surfaces_reason(surfaces, start, count - 1);
        let why = surfaces_skip(None, surfaces, start, count - 1);
        let then = surfaces_skip(None, surfaces, start, count);
        let last = seq![start + count - 1];
        assert(places(start, count) =~= places(start, count - 1) + last);
        if why is None {
            assert(last[0] == start + count - 1);
            assert(kept_out(surfaces[last[0]], then));
            assert(first_reason(surfaces, last, then));
        }
        lemma_one_more_place(surfaces, places(start, count - 1), last, why, then);
    }
}

proof fn lemma_surfaces_keep(
    skip: Option<SurfaceSkip>,
    surfaces: Seq<SceneSurface>,
    start: int,
    count: int,
)
    requires
        skip is Some,
    ensures
        surfaces_skip(skip, surfaces, start, count) == skip,
    decreases count,
{
    if count > 0 {
        lemma_surfaces_keep(skip, surfaces, start, count - 1);
    }
}

proof fn lemma_batches_reason<B>(
    encoded: Encoded,
    origin: Origin<B>,
    scene: Scene,
    count: int,
    bindings: InstanceBindings,
    target: PathTarget,
    viewport: DeviceSize,
)
    requires
        encoded.skip is None,
        encoded.error is None,
        0 <= count <= scene.batches@.len(),
        encoded.draw_batches(origin, scene, count, bindings, target, viewport).error is None,
    ensures
        first_reason(
            scene.surfaces@,
            surfaces_named(scene, count),
            encoded.draw_batches(origin, scene, count, bindings, target, viewport).skip,
        ),
    decreases count,
{
    if count > 0 {
        lemma_batches_reason(encoded, origin, scene, count - 1, bindings, target, viewport);
        let earlier = encoded.draw_batches(origin, scene, count - 1, bindings, target, viewport);
        let later = encoded.draw_batches(origin, scene, count, bindings, target, viewport);
        let named = surfaces_named(scene, count - 1);
        if let PrimitiveBatch::Surfaces(range) = scene.batches@[count - 1] {
            let start = range.start as int;
            let more = places(start, range.end - range.start);
            if range.count() > 0 {
                if earlier.skip is None {
                    lemma_surfaces_reason(scene.surfaces@, start, range.count() as int);
                } else {
                    lemma_surfaces_keep(
                        earlier.skip,
                        scene.surfaces@,
                        start,
                        range.count() as int,
                    );
                }
                lemma_one_more_place(scene.surfaces@, named, more, earlier.skip, later.skip);
            } else {
                assert(named + more =~= named);
            }
        } else {
            assert(later.skip == earlier.skip);
        }
    }
}

/// A renderer that has skipped no surface learns from a frame the reason of the first surface,
/// in the order the batches name them, that cannot be sampled; and nothing where all can.
pub proof fn law_the_first_surface_kept_out_is_the_reason<B>(
    origin: Origin<B>,
    scene: Scene,
    opaque: bool,
    target: PathTarget,
    viewport: DeviceSize,
)
    requires
        encode_frame(origin, scene, opaque, target, viewport, None).error is None,
    ensures
        first_reason(
            scene.surfaces@,
            surfaces_named(scene, scene.batches@.len() as int),
            encode_frame(origin, scene, opaque, target, viewport, None).skip,
        ),
{
    let sizes = array_sizes(scene);
    let made = origin.reserve(sizes);
    let first = Encoded { commands: array_writes(made.bindings), sizes, skip: None, error: None };
    let clear = Some(
        if opaque {
            ClearAlpha::Opaque
        } else {
            ClearAlpha::Transparent
        },
    );
    lemma_batches_reason(
        first.emit(seq![Command::BeginPass { clear, viewport }]),
        origin,
        scene,
        scene.batches@.len() as int,
        array_bindings(made.bindings),
        target,
        viewport,
    );
}

/// Whether a batch names only what the scene has and asks for no more than memory can hold.
pub open spec fn can_be_drawn(scene: Scene, batch: PrimitiveBatch) -> bool {
    match batch {
        PrimitiveBatch::Paths(range) => {
            let vertices = vertex_sources(
                scene.paths@.subrange(range.start as int, range.end as int),
                range.start as int,
            ).len();
            &&& range.start <= range.end
            &&& range.end <= scene.paths@.len()
            &&& vertices <= usize::MAX
            &&& scene.path_vertex_size * vertices <= isize::MAX
            &&& scene.path_sprite_size * (range.end - range.start) <= isize::MAX
            &&& scene.path_sprite_size <= isize::MAX
        },
        PrimitiveBatch::Surfaces(range) => range.start <= range.end && range.end
            <= scene.surfaces@.len(),
        PrimitiveBatch::SubpixelSprites { .. } => false,
        _ => true,
    }
}

/// A scene is refused only for an array, or for what a batch needs, that exceeds `isize::MAX`
/// bytes; for a batch of paths or surfaces the scene does not have; or for subpixel text.
pub proof fn law_a_scene_is_valid_where_every_batch_can_be_drawn(scene: Scene)
    ensures
        scene.valid() <==> {
            &&& scene.quads.element_size * scene.quads.count <= isize::MAX
            &&& scene.shadows.element_size * scene.shadows.count <= isize::MAX
            &&& scene.underlines.element_size * scene.underlines.count <= isize::MAX
            &&& scene.monochrome_sprites.element_size * scene.monochrome_sprites.count
                <= isize::MAX
            &&& scene.polychrome_sprites.element_size * scene.polychrome_sprites.count
                <= isize::MAX
            &&& scene.surface_bounds_size * scene.surfaces@.len() <= isize::MAX
            &&& forall|i: int|
                0 <= i < scene.batches@.len() ==> can_be_drawn(scene, #[trigger] scene.batches@[i])
        },
{
    assert(scene.surfaces.len() == scene.surfaces@.len());
    assert forall|i: int| 0 <= i < scene.batches@.len() implies can_be_drawn(
        scene,
        #[trigger] scene.batches@[i],
    ) == scene.batch_valid(scene.batches@[i]) by {
        if let PrimitiveBatch::Paths(range) = scene.batches@[i] {
            lemma_sources_counted(scene.batch_paths(range), range.start as int);
        }
    }
}

} // verus!
