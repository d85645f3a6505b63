//! What a renderer remembers, and what it asks for.

use apple_frames::frame_model::PathTarget;
use apple_frames::instance_buffer::InstanceBufferPool;
use apple_frames::metal_renderer::{
    configure_layer, preferred_device, DeviceChoice, DeviceTraits, LayerSettings, MetalRenderer,
    PresentOrder, RenderError,
};
use apple_frames::presentation_pacing::PresentedFrame;
use apple_frames::readback::{readback_layout, read_texture_to_image, swap_blue_and_red};
use apple_frames::render_commands::{
    BoundBytes, BoundTexture, ClearAlpha, Command, DeviceSize, InstanceRange, Pipeline,
};
use apple_frames::scene::{ArrayShape, PrimitiveBatch, Scene, SceneSurface};
use apple_frames::surfaces::{
    surface_matrix, Plane, SurfaceSkip, YCbCrMatrix, BI_PLANAR_FULL_RANGE,
};
use apple_frames::textures::{
    to_float2_bits, unit_vertices, BlendFactor, TextureDescription, TextureStorage,
};
use apple_frames::time::{host_time_to_instant, Duration, HostTime, Instant};

const SIZE: DeviceSize = DeviceSize { width: 64, height: 48 };

const MAC: DeviceTraits = DeviceTraits { on_ios: false, unified_memory: true, apple_gpu: true };

const DISCRETE: DeviceTraits =
    DeviceTraits { on_ios: false, unified_memory: false, apple_gpu: false };

fn no_array() -> ArrayShape {
    ArrayShape { element_size: 16, count: 0 }
}

fn scene() -> Scene {
    Scene {
        quads: no_array(),
        shadows: no_array(),
        underlines: no_array(),
        monochrome_sprites: no_array(),
        polychrome_sprites: no_array(),
        surfaces: Vec::new(),
        surface_bounds_size: 32,
        paths: Vec::new(),
        path_vertex_size: 80,
        path_sprite_size: 16,
        batches: Vec::new(),
    }
}

fn pool() -> InstanceBufferPool<u32> {
    InstanceBufferPool::default()
}

fn at(nanos: u64) -> Instant {
    Instant { nanos }
}

#[test]
fn ios_shares_memory_whatever_its_device_says() {
    let simulator = DeviceTraits { on_ios: true, unified_memory: false, apple_gpu: false };
    assert!(simulator.is_unified_memory());
    assert!(simulator.supports_shared_storage());
    assert!(!DISCRETE.is_unified_memory());
    assert!(!DISCRETE.supports_shared_storage());
    assert!(MAC.is_unified_memory() && MAC.supports_shared_storage());
}

#[test]
fn a_built_in_low_power_device_is_preferred() {
    let device = |removable, low_power| DeviceChoice { removable, low_power };
    assert_eq!(preferred_device(&Vec::new()), None);
    assert_eq!(
        preferred_device(&vec![device(true, true), device(false, false), device(false, true)]),
        Some(2)
    );
    assert_eq!(
        preferred_device(&vec![device(true, true), device(false, false), device(false, false)]),
        Some(1)
    );
    assert_eq!(preferred_device(&vec![device(true, false), device(true, true)]), Some(1));
}

#[test]
fn a_layer_waits_for_its_drawables() {
    assert_eq!(
        configure_layer(true, true, true),
        LayerSettings {
            opaque: false,
            maximum_drawable_count: 3,
            framebuffer_only: false,
            allows_next_drawable_timeout: false,
            needs_display_on_bounds_change: true,
            autoresizing_mask: Some(18),
        }
    );
    let plain = configure_layer(false, false, false);
    assert_eq!(plain.autoresizing_mask, None);
    assert!(plain.opaque && plain.framebuffer_only);
}

#[test]
fn path_textures_follow_the_drawable() {
    let mut renderer = MetalRenderer::new(MAC, false);
    assert_eq!(renderer.path_textures().path_target(), PathTarget::Missing);
    renderer.update_drawable_size(SIZE);
    let textures = renderer.path_textures();
    assert_eq!(
        textures.resolved,
        Some(TextureDescription {
            size: SIZE,
            storage: TextureStorage::Private,
            sample_count: 1
        })
    );
    assert_eq!(
        textures.multisampled,
        Some(TextureDescription {
            size: SIZE,
            storage: TextureStorage::Memoryless,
            sample_count: 4
        })
    );
    renderer.update_drawable_size(DeviceSize { width: 64, height: 0 });
    assert_eq!(renderer.path_textures().path_target(), PathTarget::Missing);

    let mut discrete = MetalRenderer::new(DISCRETE, false);
    discrete.update_drawable_size(SIZE);
    assert_eq!(
        discrete.path_textures().multisampled.unwrap().storage,
        TextureStorage::Private
    );
}

#[test]
fn a_window_draws_to_its_drawable() {
    let mut renderer = MetalRenderer::new(MAC, true);
    let drawn = renderer.draw(&mut pool(), &scene(), SIZE, true).unwrap();
    let clear = |alpha| Command::BeginPass { clear: Some(alpha), viewport: SIZE };
    assert_eq!(drawn.frame.unwrap().commands[6], clear(ClearAlpha::Transparent));
    renderer.update_transparency(false);
    let drawn = renderer.draw(&mut pool(), &scene(), SIZE, true).unwrap();
    assert_eq!(drawn.frame.unwrap().commands[6], clear(ClearAlpha::Opaque));
    assert_eq!(
        renderer.draw(&mut pool(), &scene(), SIZE, false).unwrap_err(),
        RenderError::NoDrawable { size: SIZE }
    );
    assert_eq!(
        renderer.render_to_image(&mut pool(), &scene(), SIZE, false).unwrap_err(),
        RenderError::NoDrawable { size: SIZE }
    );
    assert!(renderer.render_to_image(&mut pool(), &scene(), SIZE, true).is_ok());
}

#[test]
fn a_headless_renderer_has_no_layer_to_draw_to() {
    let mut renderer = MetalRenderer::new_headless(MAC);
    assert_eq!(
        renderer.draw(&mut pool(), &scene(), SIZE, true).unwrap_err(),
        RenderError::NotLayerBacked
    );
    assert_eq!(
        renderer.render_to_image(&mut pool(), &scene(), SIZE, false).unwrap_err(),
        RenderError::NotLayerBacked
    );
}

#[test]
fn an_image_is_rendered_to_a_texture_the_cpu_can_read() {
    let mut renderer = MetalRenderer::new_headless(MAC);
    let drawn = renderer.render_scene_to_image(&mut pool(), &scene(), SIZE).unwrap();
    assert_eq!(drawn.target.storage, TextureStorage::Shared);
    assert!(!drawn.synchronize);
    assert!(drawn.rendering.frame.is_ok());
    assert_eq!(renderer.path_textures().path_target(), PathTarget::Multisampled);

    let mut discrete = MetalRenderer::new_headless(DISCRETE);
    let drawn = discrete.render_scene_to_image(&mut pool(), &scene(), SIZE).unwrap();
    assert_eq!(drawn.target.storage, TextureStorage::Managed);
    assert!(drawn.synchronize);

    let size = DeviceSize { width: -1, height: 4 };
    assert_eq!(
        renderer.render_scene_to_image(&mut pool(), &scene(), size).unwrap_err(),
        RenderError::InvalidSize { size }
    );
    assert_eq!(renderer.path_textures().resolved.unwrap().size, SIZE);
}

#[test]
fn a_headless_target_is_reused() {
    let mut renderer = MetalRenderer::new_headless(MAC);
    let first = renderer.render_scene(&mut pool(), &scene(), SIZE).unwrap();
    assert_eq!(
        first.new_target,
        Some(TextureDescription {
            size: SIZE,
            storage: TextureStorage::Private,
            sample_count: 1
        })
    );
    let second = renderer.render_scene(&mut pool(), &scene(), SIZE).unwrap();
    assert_eq!(second.new_target, None);
    let taller = DeviceSize { width: 64, height: 49 };
    let third = renderer.render_scene(&mut pool(), &scene(), taller).unwrap();
    assert_eq!(third.new_target.unwrap().size, taller);
    let size = DeviceSize { width: 64, height: 0 };
    assert_eq!(
        renderer.render_scene(&mut pool(), &scene(), size).unwrap_err(),
        RenderError::InvalidSize { size }
    );
}

#[test]
fn a_skipped_surface_is_reported_once() {
    let mut foreign = scene();
    foreign.surfaces = vec![SceneSurface {
        size: SIZE,
        format: 5,
        matrix: YCbCrMatrix::Bt709,
        luma: Plane::Made,
        chroma: Plane::Made,
    }];
    foreign.batches = vec![PrimitiveBatch::Surfaces(InstanceRange { start: 0, end: 1 })];
    let mut renderer = MetalRenderer::new(MAC, false);
    let first = renderer.draw(&mut pool(), &foreign, SIZE, true).unwrap();
    assert_eq!(first.first_skip, Some(SurfaceSkip::ForeignFormat(5)));
    let second = renderer.draw(&mut pool(), &foreign, SIZE, true).unwrap();
    assert_eq!(second.first_skip, None);
}

/// A full-range BT.709 red surface is drawn with the matrix of its tag, frame after frame, with
/// its textures held; a surface in a format the shader cannot sample is left out of the frame, so
/// that the clear colour shows, and is reported. The commands say all that; the pixels are the
/// GPU's.
#[test]
fn a_tagged_surface_renders_its_colour_and_a_foreign_one_is_skipped() {
    let side = 32;
    let target = DeviceSize { width: side, height: side };
    let scene_of = |format, tagged, is_601, is_2020| {
        let mut scene = scene();
        scene.surfaces = vec![SceneSurface {
            size: target,
            format,
            matrix: surface_matrix(tagged, is_601, is_2020),
            luma: Plane::Made,
            chroma: Plane::Made,
        }];
        scene.batches = vec![PrimitiveBatch::Surfaces(InstanceRange { start: 0, end: 1 })];
        scene
    };
    let mut renderer = MetalRenderer::new_headless(MAC);
    let red = scene_of(BI_PLANAR_FULL_RANGE, true, false, false);
    let begin = Command::BeginPass { clear: Some(ClearAlpha::Opaque), viewport: target };
    let drawn = Command::DrawInstanced { vertices: 6, instances: 1, first_instance: 0 };
    for _ in 0..3 {
        let image = renderer.render_scene_to_image(&mut pool(), &red, target).unwrap();
        assert_eq!(image.target.size, target);
        assert_eq!(image.rendering.first_skip, None);
        let commands = image.rendering.frame.unwrap().commands;
        assert_eq!(commands[6], begin);
        assert_eq!(
            commands[11..],
            [
                Command::VertexBytes { index: 3, bytes: BoundBytes::Size(target) },
                Command::FragmentTexture { index: 4, texture: BoundTexture::Luma(0) },
                Command::FragmentTexture { index: 5, texture: BoundTexture::Chroma(0) },
                Command::FragmentBytes {
                    index: 6,
                    bytes: BoundBytes::YCbCrToRgb {
                        matrix: YCbCrMatrix::Bt709,
                        full_range: true
                    },
                },
                Command::HoldSurface(0),
                drawn,
                Command::EndPass,
            ]
        );
    }

    let bgra = u32::from_be_bytes(*b"BGRA");
    let foreign = scene_of(bgra, false, false, false);
    let image = renderer.render_scene_to_image(&mut pool(), &foreign, target).unwrap();
    assert_eq!(image.rendering.first_skip, Some(SurfaceSkip::ForeignFormat(bgra)));
    let commands = image.rendering.frame.unwrap().commands;
    assert_eq!(commands[6], begin);
    assert!(!commands.contains(&drawn), "skipped, the clear colour shows");
    assert!(!commands.contains(&Command::HoldSurface(0)));
}

#[test]
fn what_cannot_be_drawn_to_is_known_before_anything_is_encoded() {
    let renderer = MetalRenderer::new(MAC, false);
    assert_eq!(renderer.check_layer(SIZE, true), None);
    assert_eq!(
        renderer.check_layer(SIZE, false),
        Some(RenderError::NoDrawable { size: SIZE })
    );
    let headless = MetalRenderer::new_headless(MAC);
    assert_eq!(headless.check_layer(SIZE, true), Some(RenderError::NotLayerBacked));
    assert_eq!(RenderError::of_size(SIZE), None);
    let size = DeviceSize { width: 0, height: 1 };
    assert_eq!(RenderError::of_size(size), Some(RenderError::InvalidSize { size }));
}

#[test]
fn a_transaction_decides_how_a_frame_is_presented() {
    let mut renderer = MetalRenderer::new(MAC, false);
    assert_eq!(renderer.submitted(at(5)), PresentOrder::PresentThenCommit);
    renderer.set_presents_with_transaction(true);
    assert_eq!(renderer.submitted(at(6)), PresentOrder::CommitThenPresent);
}

#[test]
fn a_submitted_frame_keeps_the_next_one_waiting() {
    let mut renderer = MetalRenderer::new(MAC, false);
    renderer.set_refresh_interval(Duration { nanos: 10_000_000 });
    assert!(renderer.idle_for_a_refresh(at(0)));
    assert!(renderer.ready_for_vsync_frame(&Vec::new(), at(1_000_000_000)));
    renderer.submitted(at(1_000_100_000));
    assert!(!renderer.ready_for_vsync_frame(&Vec::new(), at(1_004_000_000)));
    assert!(!renderer.idle_for_a_refresh(at(1_009_999_999)));
    assert!(renderer.idle_for_a_refresh(at(1_010_000_000)));
    assert!(renderer.ready_for_vsync_frame(&Vec::new(), at(1_005_000_000)));
}

#[test]
fn a_queued_presentation_holds_one_tick() {
    let mut renderer = MetalRenderer::new(MAC, false);
    renderer.set_refresh_interval(Duration { nanos: 10_000_000 });
    let start = 1_000_000_000;
    let queued = PresentedFrame {
        submitted_at: at(start),
        presented_at: Some(at(start + 25_000_000)),
    };
    let dropped = PresentedFrame { submitted_at: at(start), presented_at: None };
    let reports = vec![dropped, queued];
    assert!(!renderer.ready_for_vsync_frame(&reports, at(start + 30_000_000)));
    assert!(renderer.ready_for_vsync_frame(&Vec::new(), at(start + 40_000_000)));
}

#[test]
fn host_times_become_instants() {
    let span = |nanos| Duration { nanos };
    assert_eq!(host_time_to_instant(at(10), HostTime::Never), None);
    assert_eq!(host_time_to_instant(at(10), HostTime::Ago(span(4))), Some(at(6)));
    assert_eq!(host_time_to_instant(at(10), HostTime::Ago(span(11))), None);
    assert_eq!(host_time_to_instant(at(10), HostTime::Ahead(span(4))), Some(at(14)));
    assert_eq!(host_time_to_instant(at(10), HostTime::Ahead(span(u64::MAX))), None);
}

#[test]
fn the_unit_square_is_two_triangles() {
    let corner = |x: f32, y: f32| to_float2_bits(x.to_bits(), y.to_bits());
    assert_eq!(
        unit_vertices(),
        vec![
            corner(0., 0.),
            corner(1., 0.),
            corner(0., 1.),
            corner(0., 1.),
            corner(1., 0.),
            corner(1., 1.),
        ]
    );
    assert_eq!(to_float2_bits(1, 2), 0x2_0000_0001);
}

#[test]
fn pipelines_blend_by_what_they_draw() {
    let quads = Pipeline::Quads.description();
    assert_eq!(
        (quads.label, quads.vertex_function, quads.fragment_function),
        ("quads", "quad_vertex", "quad_fragment")
    );
    assert_eq!(quads.blending.source_rgb, BlendFactor::SourceAlpha);
    assert_eq!(quads.blending.destination_alpha, BlendFactor::One);
    assert_eq!(quads.sample_count, 1);
    let sprites = Pipeline::PathSprites.description();
    assert_eq!(sprites.blending.source_rgb, BlendFactor::One);
    assert_eq!(sprites.blending.destination_alpha, BlendFactor::One);
    let paths = Pipeline::PathRasterization.description();
    assert_eq!(paths.label, "paths_rasterization");
    assert_eq!(paths.blending.destination_alpha, BlendFactor::OneMinusSourceAlpha);
    assert_eq!(paths.sample_count, 4);
}

#[test]
fn pixels_read_back_as_rgba() {
    let layout = readback_layout(2, 1);
    assert_eq!((layout.bytes_per_row, layout.length), (8, 8));
    let image = read_texture_to_image(2, 1, vec![1, 2, 3, 4, 5, 6, 7, 8]).unwrap();
    assert_eq!(image.into_parts(), (2, 1, vec![3, 2, 1, 4, 7, 6, 5, 8]));
    assert!(read_texture_to_image(2, 2, vec![0; 15]).is_none());
    let tall = read_texture_to_image(1, 2, vec![0, 1, 2, 3, 4, 5, 6, 7]).unwrap();
    let (width, height, _) = tall.into_parts();
    assert_eq!((width, height), (1, 2));
}

#[test]
fn swapping_channels_twice_restores_the_pixels() {
    let mut pixels = vec![1, 2, 3, 4, 5, 6, 7, 8, 9, 10, 11];
    swap_blue_and_red(&mut pixels);
    assert_eq!(pixels, vec![3, 2, 1, 4, 7, 6, 5, 8, 9, 10, 11]);
    swap_blue_and_red(&mut pixels);
    assert_eq!(pixels, vec![1, 2, 3, 4, 5, 6, 7, 8, 9, 10, 11]);
}
