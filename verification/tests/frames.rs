//! Scenes as the commands that draw them.

use apple_frames::frame_encoding::{encode_scene, Frame};
use apple_frames::frame_model::{EncodeError, PathTarget, SceneCounts};
use apple_frames::instance_buffer::{
    InstanceBinding, InstanceBufferPool, InstanceError, ModifiedRange, MAX_INSTANCE_BUFFER_SIZE,
};
use apple_frames::render_commands::{
    BoundBuffer, BoundBytes, BoundTexture, ClearAlpha, Command, Contents, DeviceSize,
    InstanceRange, PathRasterizationInputIndex, Pipeline, SpriteInputIndex, SurfaceInputIndex,
};
use apple_frames::scene::{
    path_vertex_sources, ArrayShape, AtlasTexture, PrimitiveBatch, Scene, ScenePath, SceneSurface,
};
use apple_frames::surfaces::{
    full_range, sample_surface, surface_matrix, Plane, SurfaceSkip, YCbCrMatrix,
    BI_PLANAR_FULL_RANGE, BI_PLANAR_VIDEO_RANGE,
};

const VIEWPORT: DeviceSize = DeviceSize { width: 800, height: 600 };

fn array(count: usize) -> ArrayShape {
    ArrayShape { element_size: 64, count }
}

fn scene(batches: Vec<PrimitiveBatch>) -> Scene {
    Scene {
        quads: array(5),
        shadows: array(2),
        underlines: array(1),
        monochrome_sprites: array(3),
        polychrome_sprites: array(1),
        surfaces: Vec::new(),
        surface_bounds_size: 32,
        paths: Vec::new(),
        path_vertex_size: 80,
        path_sprite_size: 16,
        batches,
    }
}

fn range(start: usize, end: usize) -> InstanceRange {
    InstanceRange { start, end }
}

fn at(offset: usize) -> InstanceBinding {
    InstanceBinding { buffer: 0, offset }
}

fn encode(
    scene: &Scene,
    opaque: bool,
    target: PathTarget,
) -> (Result<Frame<u32>, EncodeError>, Option<SurfaceSkip>) {
    let mut pool: InstanceBufferPool<u32> = InstanceBufferPool::default();
    encode_scene(&mut pool, false, scene, opaque, target, VIEWPORT, None)
}

fn commands(scene: &Scene) -> Vec<Command> {
    encode(scene, true, PathTarget::Multisampled).0.unwrap().commands
}

#[test]
fn an_empty_scene_clears_the_target() {
    let mut empty = scene(Vec::new());
    empty.quads.count = 0;
    empty.shadows.count = 0;
    empty.underlines.count = 0;
    empty.monochrome_sprites.count = 0;
    empty.polychrome_sprites.count = 0;
    for (opaque, alpha) in [(true, ClearAlpha::Opaque), (false, ClearAlpha::Transparent)] {
        let frame = encode(&empty, opaque, PathTarget::Missing).0.unwrap();
        assert_eq!(
            frame.commands[6..],
            [
                Command::BeginPass { clear: Some(alpha), viewport: VIEWPORT },
                Command::EndPass,
            ]
        );
        assert!(frame.buffers.modified.is_empty());
    }
}

#[test]
fn the_arrays_are_written_first() {
    let commands = commands(&scene(Vec::new()));
    let writes: Vec<_> = [
        (Contents::Quads, 0),
        (Contents::Shadows, 512),
        (Contents::Underlines, 768),
        (Contents::MonochromeSprites, 1024),
        (Contents::PolychromeSprites, 1280),
        (Contents::Surfaces, 1536),
    ]
    .into_iter()
    .map(|(contents, offset)| Command::Write { contents, binding: at(offset) })
    .collect();
    assert_eq!(commands[..6], writes[..]);
}

#[test]
fn quads_are_drawn_from_their_array() {
    let commands = commands(&scene(vec![PrimitiveBatch::Quads(range(1, 4))]));
    let quads = BoundBuffer::Instances(at(0));
    assert_eq!(
        commands[7..],
        [
            Command::SetPipeline(Pipeline::Quads),
            Command::VertexBuffer { index: 0, buffer: BoundBuffer::UnitVertices },
            Command::VertexBuffer { index: 1, buffer: quads },
            Command::FragmentBuffer { index: 1, buffer: quads },
            Command::VertexBytes { index: 2, bytes: BoundBytes::Size(VIEWPORT) },
            Command::DrawInstanced { vertices: 6, instances: 3, first_instance: 1 },
            Command::EndPass,
        ]
    );
}

#[test]
fn shadows_and_underlines_have_pipelines_of_their_own() {
    let commands = commands(&scene(vec![
        PrimitiveBatch::Shadows(range(0, 2)),
        PrimitiveBatch::Underlines(range(0, 1)),
    ]));
    assert_eq!(commands[7], Command::SetPipeline(Pipeline::Shadows));
    assert_eq!(
        commands[9],
        Command::VertexBuffer { index: 1, buffer: BoundBuffer::Instances(at(512)) }
    );
    assert_eq!(commands[13], Command::SetPipeline(Pipeline::Underlines));
    assert_eq!(
        commands[15],
        Command::VertexBuffer { index: 1, buffer: BoundBuffer::Instances(at(768)) }
    );
}

#[test]
fn empty_batches_draw_nothing() {
    let texture = Some(AtlasTexture { handle: 9, size: VIEWPORT });
    let commands = commands(&scene(vec![
        PrimitiveBatch::Shadows(range(1, 1)),
        PrimitiveBatch::Quads(range(3, 3)),
        PrimitiveBatch::Underlines(range(0, 0)),
        PrimitiveBatch::MonochromeSprites { texture, range: range(2, 2) },
        PrimitiveBatch::PolychromeSprites { texture, range: range(1, 1) },
        PrimitiveBatch::Surfaces(range(0, 0)),
    ]));
    assert_eq!(commands.len(), 8);
}

#[test]
fn sprites_sample_their_atlas_texture() {
    let size = DeviceSize { width: 1024, height: 512 };
    let texture = Some(AtlasTexture { handle: 9, size });
    let commands = commands(&scene(vec![
        PrimitiveBatch::MonochromeSprites { texture, range: range(0, 3) },
        PrimitiveBatch::PolychromeSprites { texture: None, range: range(0, 1) },
    ]));
    let sprites = BoundBuffer::Instances(at(1024));
    assert_eq!(
        commands[7..],
        [
            Command::SetPipeline(Pipeline::MonochromeSprites),
            Command::VertexBuffer { index: 0, buffer: BoundBuffer::UnitVertices },
            Command::VertexBuffer { index: 1, buffer: sprites },
            Command::VertexBytes { index: 2, bytes: BoundBytes::Size(VIEWPORT) },
            Command::VertexBytes { index: 3, bytes: BoundBytes::Size(size) },
            Command::FragmentBuffer { index: 1, buffer: sprites },
            Command::FragmentTexture { index: 4, texture: BoundTexture::Atlas(9) },
            Command::DrawInstanced { vertices: 6, instances: 3, first_instance: 0 },
            Command::EndPass,
        ]
    );
}

fn path_scene(orders: &[u32]) -> Scene {
    let mut scene = scene(vec![PrimitiveBatch::Paths(range(0, orders.len()))]);
    scene.paths = orders.iter().map(|order| ScenePath { order: *order, vertices: 9 }).collect();
    scene
}

#[test]
fn paths_of_one_order_are_copied_one_by_one() {
    let scene = path_scene(&[4, 4]);
    let commands = commands(&scene);
    let vertices = BoundBuffer::Instances(at(1536));
    let all = range(0, 2);
    assert_eq!(
        commands[7..],
        [
            Command::EndPass,
            Command::Write { contents: Contents::PathVertices(all), binding: at(1536) },
            Command::BeginPathPass { multisampled: true },
            Command::SetPipeline(Pipeline::PathRasterization),
            Command::VertexBuffer { index: 0, buffer: vertices },
            Command::VertexBytes { index: 1, bytes: BoundBytes::Size(VIEWPORT) },
            Command::FragmentBuffer { index: 0, buffer: vertices },
            Command::Draw { vertices: 18 },
            Command::EndPass,
            Command::BeginPass { clear: None, viewport: VIEWPORT },
            Command::SetPipeline(Pipeline::PathSprites),
            Command::VertexBuffer { index: 0, buffer: BoundBuffer::UnitVertices },
            Command::VertexBytes { index: 2, bytes: BoundBytes::Size(VIEWPORT) },
            Command::FragmentTexture { index: 4, texture: BoundTexture::PathIntermediate },
            Command::Write { contents: Contents::PathSprites(all), binding: at(3072) },
            Command::VertexBuffer { index: 1, buffer: BoundBuffer::Instances(at(3072)) },
            Command::DrawInstanced { vertices: 6, instances: 2, first_instance: 0 },
            Command::EndPass,
        ]
    );
    let frame = encode(&scene, true, PathTarget::Plain).0.unwrap();
    assert_eq!(frame.commands[9], Command::BeginPathPass { multisampled: false });
    assert_eq!(
        frame.buffers.modified,
        vec![ModifiedRange { buffer: 0, length: 3072 + 32 }]
    );
}

#[test]
fn paths_of_several_orders_are_copied_as_one_rectangle() {
    let commands = commands(&path_scene(&[4, 5, 5]));
    assert!(commands.contains(&Command::Write {
        contents: Contents::SpanningSprite(range(0, 3)),
        binding: InstanceBinding { buffer: 0, offset: 3840 },
    }));
    assert!(commands.contains(&Command::DrawInstanced {
        vertices: 6,
        instances: 1,
        first_instance: 0
    }));
}

#[test]
fn path_vertices_are_listed_path_by_path() {
    let mut scene = path_scene(&[1, 1, 2, 2]);
    scene.paths[1].vertices = 3;
    scene.paths[2].vertices = 0;
    scene.paths[3].vertices = 2;
    assert_eq!(
        path_vertex_sources(&scene, range(1, 4)),
        vec![(1, 0), (1, 1), (1, 2), (3, 0), (3, 1)]
    );
    assert_eq!(path_vertex_sources(&scene, range(2, 2)), vec![]);
    assert_eq!(scene.count_vertices(range(1, 4)), Some(5));
}

#[test]
fn an_empty_batch_of_paths_still_splits_the_pass() {
    let mut scene = path_scene(&[]);
    scene.batches = vec![PrimitiveBatch::Paths(range(0, 0))];
    let commands = encode(&scene, true, PathTarget::Missing).0.unwrap().commands;
    assert_eq!(
        commands[7..],
        [
            Command::EndPass,
            Command::BeginPass { clear: None, viewport: VIEWPORT },
            Command::EndPass,
        ]
    );
}

#[test]
fn paths_need_their_texture() {
    let (frame, skip) = encode(&path_scene(&[1]), true, PathTarget::Missing);
    assert_eq!(frame.unwrap_err(), EncodeError::MissingPathTexture);
    assert_eq!(skip, None);
    assert_eq!(
        EncodeError::MissingPathTexture.message(),
        "missing path intermediate texture"
    );
}

#[test]
fn too_large_a_scene_says_what_it_holds() {
    let mut huge = scene(Vec::new());
    huge.shadows = ArrayShape { element_size: 1, count: MAX_INSTANCE_BUFFER_SIZE + 1 };
    huge.paths = vec![ScenePath { order: 0, vertices: 3 }];
    let error = encode(&huge, true, PathTarget::Plain).0.unwrap_err();
    let counts = SceneCounts {
        paths: 1,
        shadows: MAX_INSTANCE_BUFFER_SIZE + 1,
        quads: 5,
        underlines: 1,
        monochrome_sprites: 3,
        polychrome_sprites: 1,
        surfaces: 0,
    };
    let cause = InstanceError::ArrayTooLarge { required: MAX_INSTANCE_BUFFER_SIZE + 1 };
    assert_eq!(error, EncodeError::SceneTooLarge { counts, cause });
    assert_eq!(
        error.message(),
        "scene too large: 1 paths, 268435457 shadows, 5 quads, 1 underlines, 3 mono, 1 poly, \
         0 surfaces: instance buffer needs 268435457 bytes, above the maximum of 268435456"
    );
}

#[test]
fn too_many_path_vertices_are_refused() {
    let mut scene = path_scene(&[1]);
    scene.paths[0].vertices = MAX_INSTANCE_BUFFER_SIZE;
    let error = encode(&scene, true, PathTarget::Plain).0.unwrap_err();
    let cause = InstanceError::ArrayTooLarge { required: 80 * MAX_INSTANCE_BUFFER_SIZE };
    assert_eq!(error, EncodeError::PathsTooLarge(cause));
    assert_eq!(error.message(), cause.message());
}

fn surface(format: u32, luma: Plane, chroma: Plane) -> SceneSurface {
    SceneSurface {
        size: DeviceSize { width: 32, height: 32 },
        format,
        matrix: YCbCrMatrix::Bt601,
        luma,
        chroma,
    }
}

#[test]
fn a_surface_that_cannot_be_sampled_is_skipped() {
    let mut scene = scene(vec![PrimitiveBatch::Surfaces(range(0, 2))]);
    scene.surfaces = vec![
        surface(0x4247_5241, Plane::Made, Plane::Made),
        surface(BI_PLANAR_FULL_RANGE, Plane::Made, Plane::Made),
    ];
    let (frame, skip) = encode(&scene, true, PathTarget::Plain);
    assert_eq!(skip, Some(SurfaceSkip::ForeignFormat(0x4247_5241)));
    assert_eq!(
        frame.unwrap().commands[7..],
        [
            Command::SetPipeline(Pipeline::Surfaces),
            Command::VertexBuffer { index: 0, buffer: BoundBuffer::UnitVertices },
            Command::VertexBuffer { index: 1, buffer: BoundBuffer::Instances(at(1536)) },
            Command::VertexBytes { index: 2, bytes: BoundBytes::Size(VIEWPORT) },
            Command::VertexBytes {
                index: 3,
                bytes: BoundBytes::Size(DeviceSize { width: 32, height: 32 }),
            },
            Command::FragmentTexture { index: 4, texture: BoundTexture::Luma(1) },
            Command::FragmentTexture { index: 5, texture: BoundTexture::Chroma(1) },
            Command::FragmentBytes {
                index: 6,
                bytes: BoundBytes::YCbCrToRgb { matrix: YCbCrMatrix::Bt601, full_range: true },
            },
            Command::HoldSurface(1),
            Command::DrawInstanced { vertices: 6, instances: 1, first_instance: 1 },
            Command::EndPass,
        ]
    );
}

#[test]
fn the_first_skip_is_kept() {
    let mut scene = scene(vec![PrimitiveBatch::Surfaces(range(0, 1))]);
    scene.surfaces = vec![surface(1, Plane::Made, Plane::Made)];
    let mut pool: InstanceBufferPool<u32> = InstanceBufferPool::default();
    let known = Some(SurfaceSkip::TextureFailed(-6660));
    let plain = PathTarget::Plain;
    let (_, skip) = encode_scene(&mut pool, true, &scene, true, plain, VIEWPORT, known);
    assert_eq!(skip, known);
}

#[test]
fn a_scene_knows_whether_it_can_be_drawn() {
    assert!(scene(Vec::new()).is_valid());
    assert!(path_scene(&[1, 2]).is_valid());
    let mut beyond = path_scene(&[1]);
    beyond.batches = vec![PrimitiveBatch::Paths(range(0, 2))];
    assert!(!beyond.is_valid());
    let mut huge = path_scene(&[1, 1]);
    huge.paths[0].vertices = usize::MAX;
    assert!(!huge.is_valid());
    assert!(!scene(vec![PrimitiveBatch::Surfaces(range(0, 1))]).is_valid());
    let subpixel = PrimitiveBatch::SubpixelSprites { texture: None, range: range(0, 0) };
    assert!(!scene(vec![subpixel]).is_valid());
    let mut wide = scene(Vec::new());
    wide.quads = ArrayShape { element_size: usize::MAX, count: 2 };
    assert!(!wide.is_valid());
}

#[test]
fn planes_fail_in_order() {
    let video = BI_PLANAR_VIDEO_RANGE;
    assert_eq!(sample_surface(video, Plane::Made, Plane::Made), Ok(false));
    assert_eq!(
        sample_surface(video, Plane::Failed(-1), Plane::Failed(-2)),
        Err(SurfaceSkip::TextureFailed(-1))
    );
    assert_eq!(
        sample_surface(video, Plane::Made, Plane::Failed(-2)),
        Err(SurfaceSkip::TextureFailed(-2))
    );
    assert_eq!(
        sample_surface(7, Plane::Failed(-1), Plane::Made),
        Err(SurfaceSkip::ForeignFormat(7))
    );
    assert_eq!(full_range(u32::from_be_bytes(*b"420f")), Some(true));
    assert_eq!(full_range(u32::from_be_bytes(*b"420v")), Some(false));
    assert_eq!(full_range(u32::from_be_bytes(*b"BGRA")), None);
}

#[test]
fn an_untagged_surface_is_bt709() {
    assert_eq!(surface_matrix(false, false, false), YCbCrMatrix::Bt709);
    assert_eq!(surface_matrix(true, true, false), YCbCrMatrix::Bt601);
    assert_eq!(surface_matrix(true, false, true), YCbCrMatrix::Bt2020);
    assert_eq!(surface_matrix(true, false, false), YCbCrMatrix::Bt709);
}

#[test]
fn shaders_find_their_input_where_they_expect_it() {
    assert_eq!(SpriteInputIndex::AtlasTexture.index(), 4);
    assert_eq!(SurfaceInputIndex::YCbCrToRgb.index(), 6);
    assert_eq!(PathRasterizationInputIndex::ViewportSize.index(), 1);
}

/// Walks a frame as Metal would.
fn assert_whole_passes(commands: &[Command]) {
    let mut pass = None;
    let mut ready = false;
    let mut cleared = false;
    for command in commands {
        match command {
            Command::Write { .. } => {}
            Command::BeginPass { clear, .. } => {
                assert_eq!(pass, None);
                assert_eq!(clear.is_some(), !cleared);
                cleared = true;
                pass = Some("target");
                ready = false;
            }
            Command::BeginPathPass { .. } => {
                assert_eq!(pass, None);
                pass = Some("paths");
                ready = false;
            }
            Command::EndPass => {
                assert!(pass.is_some());
                pass = None;
            }
            Command::SetPipeline(_) => {
                assert!(pass.is_some());
                ready = true;
            }
            Command::Draw { .. } | Command::DrawInstanced { .. } => {
                assert!(pass.is_some() && ready);
            }
            _ => assert!(pass.is_some()),
        }
    }
    assert_eq!(pass, None);
}

#[test]
fn a_frame_is_made_of_whole_passes_and_reads_what_it_wrote() {
    let mut scene = path_scene(&[1, 1, 2]);
    scene.surfaces = vec![surface(BI_PLANAR_VIDEO_RANGE, Plane::Made, Plane::Made)];
    scene.batches = vec![
        PrimitiveBatch::Paths(range(0, 2)),
        PrimitiveBatch::Quads(range(0, 5)),
        PrimitiveBatch::Paths(range(2, 2)),
        PrimitiveBatch::Surfaces(range(0, 1)),
        PrimitiveBatch::Paths(range(2, 3)),
        PrimitiveBatch::Shadows(range(0, 2)),
    ];
    let commands = commands(&scene);
    assert_whole_passes(&commands);
    let mut written = Vec::new();
    for command in &commands {
        match command {
            Command::Write { binding, .. } => {
                assert!(!written.contains(binding));
                written.push(*binding);
            }
            Command::VertexBuffer { buffer: BoundBuffer::Instances(binding), .. }
            | Command::FragmentBuffer { buffer: BoundBuffer::Instances(binding), .. } => {
                assert!(written.contains(binding));
            }
            _ => {}
        }
    }
    assert_eq!(written.len(), 10);
}
