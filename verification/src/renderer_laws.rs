//! What holds of a renderer from one frame to the next, and of what it asks Metal to make.

use crate::draw_laws::{all_fulfilled, law_every_batch_draws_what_it_names, shown, wanted, Mark};
use crate::frame_laws::law_the_first_skip_is_kept;
use crate::frame_model::{EncodeError, Origin, PathTarget, SceneCounts};
use crate::instance_buffer::{InstanceError, PoolState};
use crate::metal_renderer::{DeviceChoice, DeviceTraits, RenderError, RendererState, Rendering};
use crate::outcome_laws::law_a_frame_fails_for_want_of_room_or_of_a_path_texture;
use crate::presentation_laws::PacerEvent;
use crate::presentation_pacing::{PacerState, PresentedFrame};
use crate::readback::channels_swapped;
use crate::render_commands::{ClearAlpha, DeviceSize, Pipeline};
use crate::scene::Scene;
use crate::surfaces::{luma_range, surface_range, tagged_matrix, Plane, SurfaceSkip};
use crate::text::decimal_digits;
use crate::textures::{
    offscreen_target, path_texture_set, reusable_target, BlendFactor, PathTextures,
};
use crate::time::{moment, shown_at, span, Duration, HostTime};
use vstd::prelude::*;
use vstd::string::*;

verus! {

/// A new renderer assumes a display that refreshes every 8.333 ms, has no path textures and has
/// skipped nothing.
pub proof fn law_a_new_renderer_knows_nothing(device: DeviceTraits, has_layer: bool, opaque: bool)
    ensures
        ({
            let new = RendererState::starting(device, has_layer, opaque);
            &&& new.pacer == PacerState::starting_at(8_333_000)
            &&& new.path_textures.target() is Missing
            &&& new.first_skip is None
            &&& new.headless_target is None
            &&& !new.presents_with_transaction
            &&& new.opaque == opaque
            &&& new.has_layer == has_layer
            &&& new.device == device
        }),
{
}

/// A texture can have a size exactly where both its sides are positive.
pub proof fn law_textures_have_an_extent(size: DeviceSize)
    ensures
        size.is_blank() <==> !(size.width > 0 && size.height > 0),
{
}

/// A target with an extent gets two path textures of its own size: one that is sampled, and one
/// of four samples to a pixel that is rasterized to, on the chip alone where the GPU is Apple's.
/// A target without one gets none.
pub proof fn law_path_textures_fit_their_target(size: DeviceSize, apple_gpu: bool)
    ensures
        ({
            let textures = path_texture_set(size, apple_gpu);
            let resolved = textures.resolved.unwrap();
            let multisampled = textures.multisampled.unwrap();
            &&& size.width > 0 && size.height > 0 ==> {
                &&& textures.target() is Multisampled
                &&& textures.resolved is Some
                &&& resolved.size == size
                &&& resolved.sample_count == 1
                &&& resolved.storage is Private
                &&& textures.multisampled is Some
                &&& multisampled.size == size
                &&& multisampled.sample_count == 4
                &&& apple_gpu ==> multisampled.storage is Memoryless
                &&& !apple_gpu ==> multisampled.storage is Private
            }
            &&& size.width <= 0 || size.height <= 0 ==> {
                &&& textures.target() is Missing
                &&& textures.resolved is None
                &&& textures.multisampled is None
            }
        }),
{
}

/// Paths can be drawn exactly where there is a texture to sample them from, and through several
/// samples a pixel exactly where there is one of those too.
pub proof fn law_path_targets_are_the_textures_there_are(textures: PathTextures)
    ensures
        textures.target() is Missing <==> textures.resolved is None,
        textures.target() is Multisampled <==> textures.resolved is Some
            && textures.multisampled is Some,
{
}

/// To fit a renderer to a target with an extent leaves all else as it was, and no frame fails for
/// want of a path texture then.
pub proof fn law_a_fitted_renderer_draws_paths<B>(
    state: RendererState,
    size: DeviceSize,
    origin: Origin<B>,
    scene: Scene,
    viewport: DeviceSize,
)
    ensures
        ({
            let fitted = state.with_path_textures(size);
            &&& fitted == RendererState { path_textures: fitted.path_textures, ..state }
            &&& size.width > 0 && size.height > 0 ==> fitted.encode(origin, scene, viewport).error
                != Some(EncodeError::MissingPathTexture)
        }),
{
    let fitted = state.with_path_textures(size);
    law_a_frame_fails_for_want_of_room_or_of_a_path_texture(
        origin,
        scene,
        fitted.opaque,
        fitted.path_textures.target(),
        viewport,
        fitted.first_skip,
    );
}

/// A frame of a renderer first clears its target, to black where the renderer is opaque, and then
/// draws what the batches of the scene name.
pub proof fn law_a_renderer_draws_what_the_scene_names<B>(
    state: RendererState,
    origin: Origin<B>,
    scene: Scene,
    viewport: DeviceSize,
)
    requires
        scene.valid(),
        state.encode(origin, scene, viewport).error is None,
    ensures
        ({
            let marks = shown(state.encode(origin, scene, viewport).commands);
            let target = if state.path_textures.resolved is None {
                PathTarget::Missing
            } else if state.path_textures.multisampled is None {
                PathTarget::Plain
            } else {
                PathTarget::Multisampled
            };
            &&& marks.len() > 0
            &&& marks[0] == Mark::Cleared {
                alpha: if state.opaque {
                    ClearAlpha::Opaque
                } else {
                    ClearAlpha::Transparent
                },
                viewport,
            }
            &&& all_fulfilled(
                marks,
                wanted(scene, state.opaque, scene.batches@.len() as int),
                scene,
                target,
                viewport,
            )
        }),
{
    let target = state.path_textures.target();
    law_every_batch_draws_what_it_names(
        origin,
        scene,
        state.opaque,
        target,
        viewport,
        state.first_skip,
    );
    lemma_wanted_begins(scene, state.opaque, scene.batches@.len() as int);
    let marks = shown(state.encode(origin, scene, viewport).commands);
    assert(crate::draw_laws::fulfils(
        marks[0],
        wanted(scene, state.opaque, scene.batches@.len() as int)[0],
        scene,
        target,
        viewport,
    ));
}

proof fn lemma_wanted_begins(scene: Scene, opaque: bool, count: int)
    ensures
        wanted(scene, opaque, count).len() > 0,
        wanted(scene, opaque, count)[0] == (crate::draw_laws::Wanted::Cleared { opaque }),
    decreases count,
{
    if count > 0 {
        lemma_wanted_begins(scene, opaque, count - 1);
    }
}

/// A renderer tells of one skipped surface in its life, the first; it keeps quiet of all others.
pub proof fn law_a_skip_is_told_once<B>(
    state: RendererState,
    first_origin: Origin<B>,
    first_scene: Scene,
    first_viewport: DeviceSize,
    first: Rendering<B>,
    origin: Origin<B>,
    scene: Scene,
    viewport: DeviceSize,
    next: Rendering<B>,
)
    requires
        first_scene.valid(),
        scene.valid(),
        state.renders(first_origin, first_scene, first_viewport, first),
        state.rendered(first_origin, first_scene, first_viewport).renders(
            origin,
            scene,
            viewport,
            next,
        ),
    ensures
        ({
            let after = state.rendered(first_origin, first_scene, first_viewport);
            &&& first.first_skip is Some ==> next.first_skip is None
            &&& state.first_skip is Some ==> first.first_skip is None && next.first_skip is None
                && after.first_skip == state.first_skip
            &&& state.first_skip is None ==> after.first_skip == first.first_skip
            &&& after == RendererState { first_skip: after.first_skip, ..state }
        }),
{
    law_the_first_skip_is_kept(
        first_origin,
        first_scene,
        state.opaque,
        state.path_textures.target(),
        first_viewport,
        state.first_skip,
    );
}

/// What a renderer hands over is the encoded frame, command for command, with the buffers it took
/// up; and the ranges that were modified only where memory is not shared, which on iOS it is.
pub proof fn law_a_rendering_is_the_encoded_frame<B>(
    state: RendererState,
    origin: Origin<B>,
    scene: Scene,
    viewport: DeviceSize,
    rendering: Rendering<B>,
)
    requires
        state.renders(origin, scene, viewport, rendering),
    ensures
        ({
            let encoded = state.encode(origin, scene, viewport);
            let writer = origin.reserve(encoded.sizes).writer;
            &&& rendering.frame is Ok <==> encoded.error is None
            &&& rendering.frame matches Err(error) ==> encoded.error == Some(error)
            &&& rendering.frame matches Ok(frame) ==> {
                &&& frame.commands@ == encoded.commands
                &&& frame.buffers.buffers@ == writer.buffers
                &&& state.device.on_ios || state.device.unified_memory
                    ==> frame.buffers.modified@.len() == 0
                &&& !state.device.on_ios && !state.device.unified_memory
                    ==> frame.buffers.modified@ == writer.modified()
            }
        }),
{
}

/// A frame starts at the front of the buffer its pool handed out.
pub proof fn law_a_frame_starts_with_one_buffer<B>(pool: PoolState<B>)
    ensures
        ({
            let origin = Origin::of(pool);
            &&& origin.writer.buffers.len() == 1
            &&& origin.writer.buffers[0] == pool.next()
            &&& origin.writer.offset == 0
            &&& origin.writer.written.len() == 0
            &&& origin.pool == pool.without_next()
        }),
{
}

/// A drawing to a layer fails exactly where there is no layer, or where it has no drawable; then
/// nothing has changed, and the error says which.
pub proof fn law_only_a_layer_with_a_drawable_is_drawn_to<B>(
    state: RendererState,
    pool: PoolState<B>,
    scene: Scene,
    viewport: DeviceSize,
    drawable: bool,
    drawn: Result<Rendering<B>, RenderError>,
    after: RendererState,
    left: PoolState<B>,
)
    requires
        state.draws_to_layer(pool, scene, viewport, drawable, drawn, after, left),
    ensures
        drawn is Ok <==> state.has_layer && drawable,
        !state.has_layer ==> drawn == Err::<Rendering<B>, RenderError>(RenderError::NotLayerBacked),
        state.has_layer && !drawable ==> drawn == Err::<Rendering<B>, RenderError>(
            RenderError::NoDrawable { size: viewport },
        ),
        drawn is Err ==> after == state && left == pool,
        drawn matches Ok(rendering) ==> {
            &&& state.renders(Origin::of(pool), scene, viewport, rendering)
            &&& after == RendererState { first_skip: after.first_skip, ..state }
            &&& after.first_skip == state.encode(Origin::of(pool), scene, viewport).skip
            &&& left == Origin::of(pool).reserve(
                state.encode(Origin::of(pool), scene, viewport).sizes,
            ).pool
        },
{
}

/// The reports that a tick brings, as calls on the pacer.
pub open spec fn reports_of(frames: Seq<PresentedFrame>) -> Seq<PacerEvent> {
    Seq::new(
        frames.len(),
        |i: int|
            PacerEvent::Presented {
                submitted_at: frames[i].submitted_at@,
                presented_at: moment(frames[i].presented_at),
            },
    )
}

/// The pacer hears of every frame that a tick brings word of, once each and in order.
pub proof fn law_every_report_is_heard(state: RendererState, frames: Seq<PresentedFrame>)
    ensures
        state.heard(frames, frames.len() as int) == state.pacer.run(reports_of(frames)),
    decreases frames.len(),
{
    if frames.len() > 0 {
        let earlier = frames.drop_last();
        law_every_report_is_heard(state, earlier);
        assert(reports_of(frames).drop_last() =~= reports_of(earlier));
        lemma_heard(state, frames, earlier.len() as int);
    }
}

/// What is heard first does not depend on what comes later.
proof fn lemma_heard(state: RendererState, frames: Seq<PresentedFrame>, count: int)
    requires
        count < frames.len(),
    ensures
        state.heard(frames, count) == state.heard(frames.drop_last(), count),
    decreases count,
{
    if count > 0 {
        lemma_heard(state, frames, count - 1);
    }
}

/// A texture that is read back lies where the CPU reaches it, one that is not lies with the GPU
/// alone; either has the size asked for and one sample a pixel. Memory is shared on iOS, and
/// elsewhere where the device says so.
pub proof fn law_only_textures_that_are_read_are_reachable(size: DeviceSize, device: DeviceTraits)
    ensures
        ({
            let read = offscreen_target(size, device.shares_memory());
            let unread = reusable_target(size);
            &&& read.size == size
            &&& read.sample_count == 1
            &&& device.on_ios || device.unified_memory ==> read.storage is Shared
            &&& !device.on_ios && !device.unified_memory ==> read.storage is Managed
            &&& unread.size == size
            &&& unread.sample_count == 1
            &&& unread.storage is Private
        }),
{
}

/// A built-in device is wanted before a removable one, and among either a low-power one first.
/// Nothing else tells two devices apart.
pub proof fn law_built_in_low_power_devices_come_first(a: DeviceChoice, b: DeviceChoice)
    ensures
        a.rank() < b.rank() <==> (!a.removable && b.removable) || (a.removable == b.removable
            && a.low_power && !b.low_power),
{
}

/// Each pipeline has its own label and the two shaders of its kind.
pub proof fn law_each_pipeline_has_its_shaders()
    ensures
        Pipeline::PathRasterization.names().0 == "paths_rasterization"@,
        Pipeline::PathRasterization.names().1 == "path_rasterization_vertex"@,
        Pipeline::PathRasterization.names().2 == "path_rasterization_fragment"@,
        Pipeline::PathSprites.names().0 == "path_sprites"@,
        Pipeline::PathSprites.names().1 == "path_sprite_vertex"@,
        Pipeline::PathSprites.names().2 == "path_sprite_fragment"@,
        Pipeline::Shadows.names().0 == "shadows"@,
        Pipeline::Shadows.names().1 == "shadow_vertex"@,
        Pipeline::Shadows.names().2 == "shadow_fragment"@,
        Pipeline::Quads.names().0 == "quads"@,
        Pipeline::Quads.names().1 == "quad_vertex"@,
        Pipeline::Quads.names().2 == "quad_fragment"@,
        Pipeline::Underlines.names().0 == "underlines"@,
        Pipeline::Underlines.names().1 == "underline_vertex"@,
        Pipeline::Underlines.names().2 == "underline_fragment"@,
        Pipeline::MonochromeSprites.names().0 == "monochrome_sprites"@,
        Pipeline::MonochromeSprites.names().1 == "monochrome_sprite_vertex"@,
        Pipeline::MonochromeSprites.names().2 == "monochrome_sprite_fragment"@,
        Pipeline::PolychromeSprites.names().0 == "polychrome_sprites"@,
        Pipeline::PolychromeSprites.names().1 == "polychrome_sprite_vertex"@,
        Pipeline::PolychromeSprites.names().2 == "polychrome_sprite_fragment"@,
        Pipeline::Surfaces.names().0 == "surfaces"@,
        Pipeline::Surfaces.names().1 == "surface_vertex"@,
        Pipeline::Surfaces.names().2 == "surface_fragment"@,
{
}

/// Colors are laid over what is there: the target keeps what the source's alpha leaves of it.
/// Only what comes premultiplied, into the path texture and out of it, is not multiplied by its
/// alpha again. Alpha adds up, but in the path texture, where it is laid over like a color.
pub proof fn law_colors_are_laid_over_each_other(pipeline: Pipeline)
    ensures
        ({
            let blending = pipeline.blending();
            let paths = pipeline is PathRasterization || pipeline is PathSprites;
            &&& blending.source_rgb == if paths {
                BlendFactor::One
            } else {
                BlendFactor::SourceAlpha
            }
            &&& blending.destination_rgb is OneMinusSourceAlpha
            &&& blending.source_alpha is One
            &&& blending.destination_alpha is OneMinusSourceAlpha <==> pipeline
                is PathRasterization
            &&& blending.destination_alpha is One <==> !(pipeline is PathRasterization)
        }),
{
}

/// A pixel of blue, green, red and alpha becomes one of red, green, blue and alpha; what is left
/// over behind the last whole pixel stays.
pub proof fn law_bgra_becomes_rgba(pixels: Seq<u8>, pixel: int, i: int)
    requires
        0 <= pixel,
        4 * pixel + 4 <= pixels.len(),
        0 <= i < pixels.len(),
    ensures
        ({
            let swapped = channels_swapped(pixels);
            &&& swapped.len() == pixels.len()
            &&& swapped[4 * pixel] == pixels[4 * pixel + 2]
            &&& swapped[4 * pixel + 1] == pixels[4 * pixel + 1]
            &&& swapped[4 * pixel + 2] == pixels[4 * pixel]
            &&& swapped[4 * pixel + 3] == pixels[4 * pixel + 3]
            &&& i >= pixels.len() - pixels.len() % 4 ==> swapped[i] == pixels[i]
        }),
{
}

/// A surface is drawn exactly where its format is `420f` or `420v` and both planes were made, at
/// full range exactly for `420f`. Any other format is the reason whatever its planes are, and a
/// failed luma plane is named before a failed chroma plane.
pub proof fn law_surfaces_are_sampled_by_format_and_planes(format: u32, luma: Plane, chroma: Plane)
    ensures
        ({
            let range = surface_range(format, luma, chroma);
            let known = format == 0x3432_3066 || format == 0x3432_3076;
            &&& luma_range(format) is Some <==> known
            &&& known ==> luma_range(format) == Some(format == 0x3432_3066)
            &&& range is Ok <==> known && luma is Made && chroma is Made
            &&& range matches Ok(full) ==> (full <==> format == 0x3432_3066)
            &&& !known ==> range == Err::<bool, SurfaceSkip>(SurfaceSkip::ForeignFormat(format))
            &&& known ==> (luma matches Plane::Failed(status) ==> range == Err::<bool, SurfaceSkip>(
                SurfaceSkip::TextureFailed(status),
            ))
            &&& known && luma is Made ==> (chroma matches Plane::Failed(status) ==> range == Err::<
                bool,
                SurfaceSkip,
            >(SurfaceSkip::TextureFailed(status)))
        }),
{
}

/// The words for a scene name the number of each kind beside that kind.
pub proof fn law_counts_are_named_by_kind(counts: SceneCounts)
    ensures
        counts.words() == decimal_digits(counts.paths as nat) + " paths, "@ + decimal_digits(
            counts.shadows as nat,
        ) + " shadows, "@ + decimal_digits(counts.quads as nat) + " quads, "@ + decimal_digits(
            counts.underlines as nat,
        ) + " underlines, "@ + decimal_digits(counts.monochrome_sprites as nat) + " mono, "@
            + decimal_digits(counts.polychrome_sprites as nat) + " poly, "@ + decimal_digits(
            counts.surfaces as nat,
        ) + " surfaces"@,
{
}

/// The words for a failed frame end with those for its cause, and begin with the scene's counts
/// where its arrays do not fit. The maximum they name is 256 MiB.
pub proof fn law_errors_name_their_cause(counts: SceneCounts, cause: InstanceError, required: usize)
    ensures
        (EncodeError::SceneTooLarge { counts, cause }).words() == "scene too large: "@
            + counts.words() + ": "@ + cause.words(),
        EncodeError::PathsTooLarge(cause).words() == cause.words(),
        EncodeError::MissingPathTexture.words() == "missing path intermediate texture"@,
        (InstanceError::ArrayTooLarge { required }).words() == "instance buffer needs "@
            + decimal_digits(required as nat) + " bytes, above the maximum of "@ + decimal_digits(
            268_435_456,
        ),
        InstanceError::FrameTooLarge.words() == "frame instance data exceeds the "@
            + decimal_digits(268_435_456) + "-byte maximum"@,
{
}

/// The span between two moments is what the earlier one lacks of the later one, and none where
/// they come in the other order.
pub proof fn law_a_span_is_what_the_earlier_moment_lacks(earlier: nat, later: nat)
    ensures
        earlier <= later ==> earlier + span(earlier, later) == later,
        later <= earlier ==> span(earlier, later) == 0,
{
}

/// A headless frame that nobody reads needs a new texture unless the one at hand has its width and
/// its height; the new one then has both.
pub proof fn law_a_target_is_reused_at_its_own_size(state: RendererState, size: DeviceSize)
    ensures
        state.missing_target(size) is None <==> (state.headless_target matches Some(at_hand)
            && at_hand.width == size.width && at_hand.height == size.height),
        state.missing_target(size) matches Some(made) ==> made.size.width == size.width
            && made.size.height == size.height,
        (RendererState { headless_target: Some(size), ..state }).missing_target(size) is None,
{
}

/// A frame waits for its transaction exactly where the renderer presents with one.
pub proof fn law_transactions_are_waited_for(state: RendererState)
    ensures
        state.present_order() is CommitThenPresent <==> state.presents_with_transaction,
        RendererState::starting(state.device, state.has_layer, state.opaque).present_order()
            is PresentThenCommit,
{
}

/// A tag names BT.601 or BT.2020, and everything else is BT.709: no tag, whatever it would equal,
/// and every other tag.
pub proof fn law_untagged_surfaces_are_bt709(tagged: bool, is_601: bool, is_2020: bool)
    ensures
        !tagged ==> tagged_matrix(tagged, is_601, is_2020) is Bt709,
        tagged && is_601 ==> tagged_matrix(tagged, is_601, is_2020) is Bt601,
        tagged && !is_601 && is_2020 ==> tagged_matrix(tagged, is_601, is_2020) is Bt2020,
        tagged && !is_601 && !is_2020 ==> tagged_matrix(tagged, is_601, is_2020) is Bt709,
{
}

/// A moment so long ago, that much later, is now; one so far ahead is that much after now. There
/// is none before the clock's epoch, behind its end, or where nothing was ever shown.
pub proof fn law_moments_lie_where_they_are_said_to(now: nat, by: Duration)
    ensures
        shown_at(now, HostTime::Never) is None,
        shown_at(now, HostTime::Ago(by)) matches Some(at) ==> at + by.nanos == now,
        shown_at(now, HostTime::Ago(by)) is None <==> by.nanos > now,
        shown_at(now, HostTime::Ahead(by)) matches Some(at) ==> at == now + by.nanos,
        shown_at(now, HostTime::Ahead(by)) is None <==> now + by.nanos > u64::MAX,
{
}

} // verus!
