//! What a renderer remembers between frames, and what it asks of Metal for each.
//!
//! The renderer owns no GPU object. It says what to make (layer settings, pipelines, textures),
//! what to encode, and in which order to commit and present; whoever holds the device does so.

use crate::frame_encoding::{encode_scene, Frame};
use crate::frame_model::{encode_frame, EncodeError, Encoded, Origin};
use crate::instance_buffer::{InstanceBufferPool, PoolState};
use crate::presentation_pacing::{PacerState, PresentationPacer, PresentedFrame};
use crate::render_commands::DeviceSize;
use crate::scene::Scene;
use crate::surfaces::SurfaceSkip;
use crate::textures::{
    offscreen_target, path_texture_set, reusable_target, PathTextures, TextureDescription,
};
use crate::time::{moment, Duration, Instant};
use vstd::prelude::*;

verus! {

/// Until the platform names the display's refresh, assume the fastest Apple panel's.
pub const DEFAULT_REFRESH_NANOS: u64 = 8_333_000;

/// What a renderer must know of its device.
#[derive(Debug, Clone, Copy, PartialEq, Eq, Structural)]
pub struct DeviceTraits {
    pub on_ios: bool,
    /// Whether the device says that the CPU and the GPU share their memory.
    pub unified_memory: bool,
    /// Whether the device is of an Apple GPU family.
    pub apple_gpu: bool,
}

impl DeviceTraits {
    /// Whether resources use memory the CPU and the GPU share.
    pub open spec fn shares_memory(self) -> bool {
        self.on_ios || self.unified_memory
    }

    /// Shared memory can be used only if the CPU and the GPU share the same memory space. iOS
    /// does not support managed resources. Its simulator may report a non-unified host GPU even
    /// though resources must still use shared storage.
    pub fn is_unified_memory(self) -> (unified: bool)
        ensures
            unified == self.shares_memory(),
    {
        self.on_ios || self.unified_memory
    }

    /// Whether the sprite atlas may keep its textures in shared storage.
    pub fn supports_shared_storage(self) -> (supported: bool)
        ensures
            supported == (self.on_ios || self.apple_gpu),
    {
        self.on_ios || self.apple_gpu
    }
}

/// A GPU to choose from.
#[derive(Debug, Clone, Copy, PartialEq, Eq, Structural)]
pub struct DeviceChoice {
    pub removable: bool,
    pub low_power: bool,
}

impl DeviceChoice {
    /// How little a device is wanted: built-in devices before removable ones, and low-power
    /// devices first among either.
    pub open spec fn rank(self) -> int {
        (if self.removable {
            2int
        } else {
            0
        }) + (if self.low_power {
            0int
        } else {
            1
        })
    }

    fn ranked(self) -> (rank: u8)
        ensures
            rank == self.rank(),
    {
        (if self.removable {
            2
        } else {
            0
        }) + (if self.low_power {
            0
        } else {
            1
        })
    }
}

/// The device to render on: the first of those that rank lowest, `None` when there is none to
/// choose from and the system default must do.
pub fn preferred_device(devices: &Vec<DeviceChoice>) -> (chosen: Option<usize>)
    ensures
        chosen is None <==> devices@.len() == 0,
        chosen matches Some(best) ==> {
            &&& best < devices@.len()
            &&& forall|i: int|
                0 <= i < devices@.len() ==> devices@[best as int].rank() <= (
                #[trigger] devices@[i]).rank()
            &&& forall|i: int|
                0 <= i < best ==> devices@[best as int].rank() < (#[trigger] devices@[i]).rank()
        },
{
    if devices.len() == 0 {
        return None;
    }
    let mut best: usize = 0;
    let mut i: usize = 1;
    while i < devices.len()
        invariant
            best < i <= devices@.len(),
            forall|j: int|
                0 <= j < i ==> devices@[best as int].rank() <= (#[trigger] devices@[j]).rank(),
            forall|j: int|
                0 <= j < best ==> devices@[best as int].rank() < (#[trigger] devices@[j]).rank(),
        decreases devices.len() - i,
    {
        if devices[i].ranked() < devices[best].ranked() {
            best = i;
        }
        i = i + 1;
    }
    Some(best)
}

/// How the layer of a window is set up. Its pixel format is BGRA, eight bits each.
#[derive(Debug, Clone, Copy, PartialEq, Eq, Structural)]
pub struct LayerSettings {
    pub opaque: bool,
    pub maximum_drawable_count: u64,
    /// Whether its drawables are only ever rendered to, and never read back.
    pub framebuffer_only: bool,
    pub allows_next_drawable_timeout: bool,
    pub needs_display_on_bounds_change: bool,
    /// `CAAutoresizingMask`, where layers have one.
    pub autoresizing_mask: Option<u32>,
}

/// `kCALayerWidthSizable | kCALayerHeightSizable`.
pub const WIDTH_AND_HEIGHT_SIZABLE: u32 = 18;

/// The settings of a window's layer; `read_back` tells whether its drawables will be read.
pub fn configure_layer(transparent: bool, read_back: bool, on_macos: bool) -> (settings:
    LayerSettings)
    ensures
        settings == (LayerSettings {
            opaque: !transparent,
            maximum_drawable_count: 3,
            framebuffer_only: !read_back,
            allows_next_drawable_timeout: false,
            needs_display_on_bounds_change: true,
            autoresizing_mask: if on_macos {
                Some(WIDTH_AND_HEIGHT_SIZABLE)
            } else {
                None
            },
        }),
{
    LayerSettings {
        opaque: !transparent,
        maximum_drawable_count: 3,
        framebuffer_only: !read_back,
        allows_next_drawable_timeout: false,
        needs_display_on_bounds_change: true,
        autoresizing_mask: if on_macos {
            Some(WIDTH_AND_HEIGHT_SIZABLE)
        } else {
            None
        },
    }
}

/// Why a renderer encodes no frame at all.
#[derive(Debug, Clone, Copy, PartialEq, Eq, Structural)]
pub enum RenderError {
    /// A headless renderer has no layer to draw to.
    NotLayerBacked,
    /// The layer had no drawable of this size.
    NoDrawable { size: DeviceSize },
    /// No texture can have this size.
    InvalidSize { size: DeviceSize },
}

impl RenderError {
    /// Why nothing can be rendered to a texture of `size`, `None` if something can.
    pub fn of_size(size: DeviceSize) -> (error: Option<RenderError>)
        ensures
            error == if size.is_blank() {
                Some(RenderError::InvalidSize { size })
            } else {
                None
            },
    {
        if size.blank() {
            Some(RenderError::InvalidSize { size })
        } else {
            None
        }
    }
}

/// One frame, or why the scene could not be encoded.
#[derive(Debug)]
pub struct Rendering<B> {
    pub frame: Result<Frame<B>, EncodeError>,
    /// Why a surface was skipped, for the first one this renderer ever skips.
    pub first_skip: Option<SurfaceSkip>,
}

/// A frame for a texture that is made for it and read back.
#[derive(Debug)]
pub struct OffscreenRendering<B> {
    pub target: TextureDescription,
    /// On discrete GPUs managed textures must be synchronized before the CPU can read what was
    /// rendered; without this it reads stale zeros.
    pub synchronize: bool,
    pub rendering: Rendering<B>,
}

/// A frame for the texture that headless rendering reuses.
#[derive(Debug)]
pub struct ReusedRendering<B> {
    /// A texture to make first, in place of the one used before.
    pub new_target: Option<TextureDescription>,
    pub rendering: Rendering<B>,
}

/// How a submitted frame gets to the display.
#[derive(Debug, Clone, Copy, PartialEq, Eq, Structural)]
pub enum PresentOrder {
    /// Commit the command buffer, wait until it is scheduled, then present the drawable, so that
    /// it appears with the transaction that is open.
    CommitThenPresent,
    /// Let the command buffer present the drawable, then commit it.
    PresentThenCommit,
}

/// What a [`MetalRenderer`] remembers.
pub struct RendererState {
    pub has_layer: bool,
    pub device: DeviceTraits,
    pub presents_with_transaction: bool,
    pub pacer: PacerState,
    pub opaque: bool,
    pub path_textures: PathTextures,
    pub first_skip: Option<SurfaceSkip>,
    pub headless_target: Option<DeviceSize>,
}

impl RendererState {
    /// A renderer that has drawn nothing.
    pub open spec fn starting(device: DeviceTraits, has_layer: bool, opaque: bool) -> Self {
        RendererState {
            has_layer,
            device,
            presents_with_transaction: false,
            pacer: PacerState::starting_at(DEFAULT_REFRESH_NANOS as nat),
            opaque,
            path_textures: PathTextures { resolved: None, multisampled: None },
            first_skip: None,
            headless_target: None,
        }
    }

    pub open spec fn valid(self) -> bool {
        self.pacer.valid()
    }

    /// The renderer once its path textures fit a target of `size`.
    pub open spec fn with_path_textures(self, size: DeviceSize) -> Self {
        RendererState { path_textures: path_texture_set(size, self.device.apple_gpu), ..self }
    }

    /// The frame that draws `scene`.
    pub open spec fn encode<B>(self, origin: Origin<B>, scene: Scene, viewport: DeviceSize) -> Encoded {
        encode_frame(
            origin,
            scene,
            self.opaque,
            self.path_textures.target(),
            viewport,
            self.first_skip,
        )
    }

    /// The renderer once it has encoded `scene`.
    pub open spec fn rendered<B>(self, origin: Origin<B>, scene: Scene, viewport: DeviceSize) -> Self {
        RendererState { first_skip: self.encode(origin, scene, viewport).skip, ..self }
    }

    /// Whether `rendering` is what this renderer makes of `scene`.
    pub open spec fn renders<B>(
        self,
        origin: Origin<B>,
        scene: Scene,
        viewport: DeviceSize,
        rendering: Rendering<B>,
    ) -> bool {
        let encoded = self.encode(origin, scene, viewport);
        &&& rendering.first_skip == if self.first_skip is None {
            encoded.skip
        } else {
            None
        }
        &&& match rendering.frame {
            Ok(frame) => encoded.error is None && frame.renders(
                encoded,
                origin,
                self.device.shares_memory(),
            ),
            Err(error) => encoded.error == Some(error),
        }
    }

    /// The texture to make before a headless frame of `size` that nobody reads, `None` where the
    /// one at hand will do.
    pub open spec fn missing_target(self, size: DeviceSize) -> Option<TextureDescription> {
        if self.headless_target == Some(size) {
            None
        } else {
            Some(reusable_target(size))
        }
    }

    /// How a frame gets to the display.
    pub open spec fn present_order(self) -> PresentOrder {
        if self.presents_with_transaction {
            PresentOrder::CommitThenPresent
        } else {
            PresentOrder::PresentThenCommit
        }
    }

    /// Why nothing can be drawn to the layer: there is none, or it had no drawable to give.
    pub open spec fn layer_error(self, viewport: DeviceSize, drawable: bool) -> Option<RenderError> {
        if !self.has_layer {
            Some(RenderError::NotLayerBacked)
        } else if !drawable {
            Some(RenderError::NoDrawable { size: viewport })
        } else {
            None
        }
    }

    /// Whether `drawn` is what comes of drawing `scene` to the layer with the buffers of `pool`,
    /// and leaves `after` and `left` behind: the frame, or the error and nothing changed.
    pub open spec fn draws_to_layer<B>(
        self,
        pool: PoolState<B>,
        scene: Scene,
        viewport: DeviceSize,
        drawable: bool,
        drawn: Result<Rendering<B>, RenderError>,
        after: RendererState,
        left: PoolState<B>,
    ) -> bool {
        match drawn {
            Err(error) => {
                &&& self.layer_error(viewport, drawable) == Some(error)
                &&& after == self
                &&& left == pool
            },
            Ok(rendering) => {
                let origin = Origin::of(pool);
                &&& self.layer_error(viewport, drawable) is None
                &&& self.renders(origin, scene, viewport, rendering)
                &&& after == self.rendered(origin, scene, viewport)
                &&& left == origin.reserve(self.encode(origin, scene, viewport).sizes).pool
            },
        }
    }

    /// The pacer once it has heard of the first `count` of `frames`.
    pub open spec fn heard(self, frames: Seq<PresentedFrame>, count: int) -> PacerState
        decreases count,
    {
        if count <= 0 {
            self.pacer
        } else {
            let frame = frames[count - 1];
            self.heard(frames, count - 1).presented(
                frame.submitted_at@,
                moment(frame.presented_at),
            )
        }
    }
}

/// Renders scenes, to a window's layer or without one.
#[derive(Debug)]
pub struct MetalRenderer {
    has_layer: bool,
    device: DeviceTraits,
    presents_with_transaction: bool,
    pacer: PresentationPacer,
    /// Whether the background shows nothing of what lies behind.
    opaque: bool,
    path_textures: PathTextures,
    /// A surface was skipped and said so; later ones stay quiet.
    first_skip: Option<SurfaceSkip>,
    /// The size of the offscreen target reused across headless frames.
    headless_target: Option<DeviceSize>,
}

impl View for MetalRenderer {
    type V = RendererState;

    closed spec fn view(&self) -> RendererState {
        RendererState {
            has_layer: self.has_layer,
            device: self.device,
            presents_with_transaction: self.presents_with_transaction,
            pacer: self.pacer@,
            opaque: self.opaque,
            path_textures: self.path_textures,
            first_skip: self.first_skip,
            headless_target: self.headless_target,
        }
    }
}

impl MetalRenderer {
    pub open spec fn wf(self) -> bool {
        self@.valid()
    }

    /// A renderer for a window.
    pub fn new(device: DeviceTraits, transparent: bool) -> (renderer: Self)
        ensures
            renderer.wf(),
            renderer@ == RendererState::starting(device, true, !transparent),
    {
        Self::new_internal(device, true, !transparent)
    }

    /// A renderer that renders scenes to images, without a window.
    pub fn new_headless(device: DeviceTraits) -> (renderer: Self)
        ensures
            renderer.wf(),
            renderer@ == RendererState::starting(device, false, true),
    {
        Self::new_internal(device, false, true)
    }

    fn new_internal(device: DeviceTraits, has_layer: bool, opaque: bool) -> (renderer: Self)
        ensures
            renderer.wf(),
            renderer@ == RendererState::starting(device, has_layer, opaque),
    {
        MetalRenderer {
            has_layer,
            device,
            presents_with_transaction: false,
            pacer: PresentationPacer::new(Duration { nanos: DEFAULT_REFRESH_NANOS }),
            opaque,
            path_textures: PathTextures { resolved: None, multisampled: None },
            first_skip: None,
            headless_target: None,
        }
    }

    /// Whether frames appear with the transaction that is open. The layer must be told too.
    pub fn set_presents_with_transaction(&mut self, presents_with_transaction: bool)
        requires
            old(self).wf(),
        ensures
            final(self).wf(),
            final(self)@ == (RendererState { presents_with_transaction, ..old(self)@ }),
    {
        self.presents_with_transaction = presents_with_transaction;
    }

    /// The display's shortest refresh interval, which paces [`Self::ready_for_vsync_frame`].
    pub fn set_refresh_interval(&mut self, refresh: Duration)
        requires
            old(self).wf(),
        ensures
            final(self).wf(),
            final(self)@ == (RendererState {
                pacer: old(self)@.pacer.set_refresh(refresh@),
                ..old(self)@
            }),
    {
        self.pacer.set_refresh(refresh);
    }

    /// Whether a display-link tick at `now` should draw, or leave its demand to the next tick so
    /// that the frames already queued for the display can drain. `presentations` are the frames
    /// the display has shown or dropped since the last tick.
    pub fn ready_for_vsync_frame(
        &mut self,
        presentations: &Vec<PresentedFrame>,
        now: Instant,
    ) -> (ready: bool)
        requires
            old(self).wf(),
        ensures
            final(self).wf(),
            ({
                let heard = old(self)@.heard(presentations@, presentations@.len() as int);
                &&& ready == heard.draws(now@)
                &&& final(self)@ == (RendererState { pacer: heard.tick(now@), ..old(self)@ })
            }),
    {
        let mut i: usize = 0;
        while i < presentations.len()
            invariant
                i <= presentations.len(),
                self.wf(),
                self@ == (RendererState {
                    pacer: old(self)@.heard(presentations@, i as int),
                    ..old(self)@
                }),
            decreases presentations.len() - i,
        {
            self.pacer.presented(presentations[i]);
            i = i + 1;
        }
        self.pacer.should_draw(now)
    }

    /// Whether no frame began within the last refresh, so one drawn now, off the vsync tick,
    /// cannot land in the same refresh as the previous one.
    pub fn idle_for_a_refresh(&self, now: Instant) -> (idle: bool)
        ensures
            idle == self@.pacer.quiet_for(self@.pacer.refresh, now@),
    {
        self.pacer.idle_for_a_refresh(now)
    }

    /// Fits the renderer to drawables of `size`. The layer must be told too, and the textures
    /// that [`Self::path_textures`] describes made.
    pub fn update_drawable_size(&mut self, size: DeviceSize)
        requires
            old(self).wf(),
        ensures
            final(self).wf(),
            final(self)@ == old(self)@.with_path_textures(size),
    {
        self.update_path_intermediate_textures(size);
    }

    fn update_path_intermediate_textures(&mut self, size: DeviceSize)
        requires
            old(self).wf(),
        ensures
            final(self).wf(),
            final(self)@ == old(self)@.with_path_textures(size),
    {
        self.path_textures = PathTextures::fitting(size, self.device.apple_gpu);
    }

    /// The textures paths are rasterized through.
    pub fn path_textures(&self) -> (textures: PathTextures)
        ensures
            textures == self@.path_textures,
    {
        self.path_textures
    }

    /// Whether what lies behind the window shows through. The layer must be told too.
    pub fn update_transparency(&mut self, transparent: bool)
        requires
            old(self).wf(),
        ensures
            final(self).wf(),
            final(self)@ == (RendererState { opaque: !transparent, ..old(self)@ }),
    {
        self.opaque = !transparent;
    }

    /// Encodes a frame.
    fn render_frame<B>(
        &mut self,
        pool: &mut InstanceBufferPool<B>,
        scene: &Scene,
        viewport: DeviceSize,
    ) -> (rendering: Rendering<B>)
        requires
            old(self).wf(),
            old(pool)@.valid(),
            scene.valid(),
        ensures
            final(self).wf(),
            final(pool)@.valid(),
            ({
                let origin = Origin::of(old(pool)@);
                &&& final(self)@ == old(self)@.rendered(origin, *scene, viewport)
                &&& old(self)@.renders(origin, *scene, viewport, rendering)
                &&& final(pool)@ == origin.reserve(
                    old(self)@.encode(origin, *scene, viewport).sizes,
                ).pool
            }),
    {
        let known = self.first_skip;
        let (frame, skip) = encode_scene(
            pool,
            self.device.is_unified_memory(),
            scene,
            self.opaque,
            self.path_textures.path_target(),
            viewport,
            known,
        );
        self.first_skip = skip;
        Rendering {
            frame,
            first_skip: if known.is_none() {
                skip
            } else {
                None
            },
        }
    }

    /// Why nothing can be drawn to the layer, `None` if something can. `viewport` is the size of
    /// the layer's drawables; `drawable` tells whether it had one to give.
    pub fn check_layer(&self, viewport: DeviceSize, drawable: bool) -> (error: Option<RenderError>)
        ensures
            error == self@.layer_error(viewport, drawable),
    {
        if !self.has_layer {
            Some(RenderError::NotLayerBacked)
        } else if !drawable {
            Some(RenderError::NoDrawable { size: viewport })
        } else {
            None
        }
    }

    fn render_to_layer<B>(
        &mut self,
        pool: &mut InstanceBufferPool<B>,
        scene: &Scene,
        viewport: DeviceSize,
        drawable: bool,
    ) -> (drawn: Result<Rendering<B>, RenderError>)
        requires
            old(self).wf(),
            old(pool)@.valid(),
            scene.valid(),
        ensures
            final(self).wf(),
            final(pool)@.valid(),
            old(self)@.draws_to_layer(
                old(pool)@,
                *scene,
                viewport,
                drawable,
                drawn,
                final(self)@,
                final(pool)@,
            ),
    {
        match self.check_layer(viewport, drawable) {
            Some(error) => Err(error),
            None => Ok(self.render_frame(pool, scene, viewport)),
        }
    }

    /// Encodes the frame that draws `scene` to the layer. `viewport` is the size of the layer's
    /// drawables; `drawable` tells whether it had one to give.
    pub fn draw<B>(
        &mut self,
        pool: &mut InstanceBufferPool<B>,
        scene: &Scene,
        viewport: DeviceSize,
        drawable: bool,
    ) -> (drawn: Result<Rendering<B>, RenderError>)
        requires
            old(self).wf(),
            old(pool)@.valid(),
            scene.valid(),
        ensures
            final(self).wf(),
            final(pool)@.valid(),
            old(self)@.draws_to_layer(
                old(pool)@,
                *scene,
                viewport,
                drawable,
                drawn,
                final(self)@,
                final(pool)@,
            ),
    {
        self.render_to_layer(pool, scene, viewport, drawable)
    }

    /// Notes that a frame of [`Self::draw`] is on its way, and says how to hand it over.
    pub fn submitted(&mut self, now: Instant) -> (order: PresentOrder)
        requires
            old(self).wf(),
        ensures
            final(self).wf(),
            final(self)@ == (RendererState {
                pacer: old(self)@.pacer.submitted(now@),
                ..old(self)@
            }),
            order == old(self)@.present_order(),
            old(self)@.presents_with_transaction ==> order is CommitThenPresent,
            !old(self)@.presents_with_transaction ==> order is PresentThenCommit,
    {
        self.pacer.submitted(now);
        if self.presents_with_transaction {
            PresentOrder::CommitThenPresent
        } else {
            PresentOrder::PresentThenCommit
        }
    }

    /// Encodes the frame that draws `scene` to a drawable of the layer which is read back and
    /// never presented. Headless renderers use [`Self::render_scene_to_image`].
    pub fn render_to_image<B>(
        &mut self,
        pool: &mut InstanceBufferPool<B>,
        scene: &Scene,
        viewport: DeviceSize,
        drawable: bool,
    ) -> (drawn: Result<Rendering<B>, RenderError>)
        requires
            old(self).wf(),
            old(pool)@.valid(),
            scene.valid(),
        ensures
            final(self).wf(),
            final(pool)@.valid(),
            old(self)@.draws_to_layer(
                old(pool)@,
                *scene,
                viewport,
                drawable,
                drawn,
                final(self)@,
                final(pool)@,
            ),
    {
        self.render_to_layer(pool, scene, viewport, drawable)
    }

    /// Encodes the frame that draws `scene` to a texture of its own, which is read back once the
    /// GPU is done.
    pub fn render_scene_to_image<B>(
        &mut self,
        pool: &mut InstanceBufferPool<B>,
        scene: &Scene,
        size: DeviceSize,
    ) -> (drawn: Result<OffscreenRendering<B>, RenderError>)
        requires
            old(self).wf(),
            old(pool)@.valid(),
            scene.valid(),
        ensures
            final(self).wf(),
            final(pool)@.valid(),
            drawn is Ok <==> !size.is_blank(),
            drawn matches Err(error) ==> {
                &&& final(self)@ == old(self)@
                &&& final(pool)@ == old(pool)@
                &&& error == RenderError::InvalidSize { size }
            },
            drawn matches Ok(offscreen) ==> {
                let origin = Origin::of(old(pool)@);
                let fitted = old(self)@.with_path_textures(size);
                &&& final(self)@ == fitted.rendered(origin, *scene, size)
                &&& fitted.renders(origin, *scene, size, offscreen.rendering)
                &&& final(pool)@ == origin.reserve(fitted.encode(origin, *scene, size).sizes).pool
                &&& offscreen.target == offscreen_target(size, fitted.device.shares_memory())
                &&& offscreen.synchronize == !fitted.device.shares_memory()
            },
    {
        if let Some(error) = RenderError::of_size(size) {
            return Err(error);
        }
        self.update_path_intermediate_textures(size);
        let unified_memory = self.device.is_unified_memory();
        let target = TextureDescription::offscreen(size, unified_memory);
        let rendering = self.render_frame(pool, scene, size);
        Ok(OffscreenRendering { target, synchronize: !unified_memory, rendering })
    }

    /// Encodes the frame that draws `scene` to a texture that is reused and never read. This
    /// mirrors the CPU cost of presenting a frame to a window, for benchmarks that never inspect
    /// the pixels.
    pub fn render_scene<B>(
        &mut self,
        pool: &mut InstanceBufferPool<B>,
        scene: &Scene,
        size: DeviceSize,
    ) -> (drawn: Result<ReusedRendering<B>, RenderError>)
        requires
            old(self).wf(),
            old(pool)@.valid(),
            scene.valid(),
        ensures
            final(self).wf(),
            final(pool)@.valid(),
            drawn is Ok <==> !size.is_blank(),
            drawn matches Err(error) ==> {
                &&& final(self)@ == old(self)@
                &&& final(pool)@ == old(pool)@
                &&& error == RenderError::InvalidSize { size }
            },
            drawn matches Ok(reused) ==> {
                let origin = Origin::of(old(pool)@);
                let fitted = RendererState {
                    headless_target: Some(size),
                    ..old(self)@.with_path_textures(size)
                };
                &&& final(self)@ == fitted.rendered(origin, *scene, size)
                &&& fitted.renders(origin, *scene, size, reused.rendering)
                &&& final(pool)@ == origin.reserve(fitted.encode(origin, *scene, size).sizes).pool
                &&& reused.new_target == old(self)@.missing_target(size)
                &&& reused.new_target == if old(self)@.headless_target == Some(size) {
                    None
                } else {
                    Some(reusable_target(size))
                }
            },
    {
        if let Some(error) = RenderError::of_size(size) {
            return Err(error);
        }
        self.update_path_intermediate_textures(size);
        let needs_new_target = match self.headless_target {
            None => true,
            Some(target) => target.width != size.width || target.height != size.height,
        };
        let new_target = if needs_new_target {
            Some(TextureDescription::reusable(size))
        } else {
            None
        };
        self.headless_target = Some(size);
        let rendering = self.render_frame(pool, scene, size);
        Ok(ReusedRendering { new_target, rendering })
    }
}

} // verus!
