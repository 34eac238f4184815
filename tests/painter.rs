use egui_skia::cache::{ImageDelta, PaintError, TextureCache};
use egui_skia::color::Color32;
use egui_skia::frame::FrameState;
use egui_skia::mesh::{split_texture_meshes, split_to_u16, Mesh, Mesh16, Vertex};
use egui_skia::painter::{
    CallbackPrimitive, ClippedPrimitive, DrawCommand, MeshPaint, Painter, Primitive, RectBits,
    TexturesDelta,
};
use egui_skia::texture::{
    ColorImage, FilterMode, MipmapMode, TextureFilter, TextureHandle, TextureOptions,
};

const RED: Color32 = Color32 { r: 255, g: 0, b: 0, a: 255 };
const WHITE: Color32 = Color32 { r: 255, g: 255, b: 255, a: 255 };

fn linear() -> TextureOptions {
    TextureOptions { magnification: TextureFilter::Linear, minification: TextureFilter::Linear }
}

fn solid(w: usize, h: usize, c: Color32) -> ColorImage {
    ColorImage { width: w, height: h, pixels: vec![c; w * h] }
}

fn full(w: usize, h: usize, c: Color32) -> ImageDelta {
    ImageDelta { image: solid(w, h, c), options: linear(), pos: None }
}

fn vertex(x: f32, y: f32, u: f32, v: f32, color: Color32) -> Vertex {
    Vertex { pos_x: x.to_bits(), pos_y: y.to_bits(), uv_x: u.to_bits(), uv_y: v.to_bits(), color }
}

fn rect() -> RectBits {
    RectBits { min_x: 0, min_y: 0, max_x: 100.0f32.to_bits(), max_y: 100.0f32.to_bits() }
}

#[test]
fn full_upload_keeps_uploaded_size() {
    let mut cache = TextureCache::new();
    let h = TextureHandle::Managed(1);
    assert_eq!(cache.upload(h, full(3, 5, RED)), Ok(()));
    let t = cache.lookup(h).unwrap();
    assert_eq!((t.image.width, t.image.height), (3, 5));
    assert_eq!(t.image.pixels.len(), 15);
    assert_eq!(t.sampling.filter, FilterMode::Linear);
    assert_eq!(t.sampling.mipmap, MipmapMode::Linear);
}

#[test]
fn full_upload_replaces_earlier_image() {
    let mut cache = TextureCache::new();
    let h = TextureHandle::User(7);
    cache.upload(h, full(4, 4, RED)).unwrap();
    cache.upload(h, full(2, 1, WHITE)).unwrap();
    let t = cache.lookup(h).unwrap();
    assert_eq!((t.image.width, t.image.height), (2, 1));
    assert_eq!(t.image.pixels, vec![WHITE, WHITE]);
}

#[test]
fn sampling_follows_each_filter() {
    let mut cache = TextureCache::new();
    let h = TextureHandle::Managed(0);
    let options = TextureOptions {
        magnification: TextureFilter::Nearest,
        minification: TextureFilter::Linear,
    };
    let d = ImageDelta { image: solid(1, 1, RED), options, pos: None };
    cache.upload(h, d).unwrap();
    let t = cache.lookup(h).unwrap();
    assert_eq!(t.sampling.filter, FilterMode::Nearest);
    assert_eq!(t.sampling.mipmap, MipmapMode::Linear);
}

#[test]
fn patch_keeps_size_and_outside_pixels() {
    let mut cache = TextureCache::new();
    let h = TextureHandle::Managed(3);
    cache.upload(h, full(4, 4, RED)).unwrap();
    let patch = ImageDelta { image: solid(2, 2, WHITE), options: linear(), pos: Some((1, 1)) };
    assert_eq!(cache.upload(h, patch), Ok(()));
    let t = cache.lookup(h).unwrap();
    assert_eq!((t.image.width, t.image.height), (4, 4));
    let at = |x: usize, y: usize| t.image.pixels[y * 4 + x];
    assert_eq!(at(1, 1), WHITE);
    assert_eq!(at(2, 2), WHITE);
    assert_eq!(at(0, 0), RED);
    for y in 0..4 {
        for x in 0..4 {
            let inside = (1..3).contains(&x) && (1..3).contains(&y);
            assert_eq!(at(x, y), if inside { WHITE } else { RED });
        }
    }
}

#[test]
fn patch_past_the_edge_is_clipped() {
    let mut cache = TextureCache::new();
    let h = TextureHandle::Managed(3);
    cache.upload(h, full(2, 2, RED)).unwrap();
    let patch = ImageDelta { image: solid(3, 3, WHITE), options: linear(), pos: Some((1, 1)) };
    cache.upload(h, patch).unwrap();
    let t = cache.lookup(h).unwrap();
    assert_eq!((t.image.width, t.image.height), (2, 2));
    assert_eq!(t.image.pixels, vec![RED, RED, RED, WHITE]);
}

#[test]
fn patch_without_texture_fails() {
    let mut cache = TextureCache::new();
    let h = TextureHandle::Managed(9);
    let patch = ImageDelta { image: solid(1, 1, WHITE), options: linear(), pos: Some((0, 0)) };
    assert_eq!(cache.upload(h, patch), Err(PaintError::MissingTextureForPatch));
    assert_eq!(cache.lookup(h).err(), Some(PaintError::UnknownTexture));
}

#[test]
fn image_the_backend_cannot_build_is_refused() {
    let mut cache = TextureCache::new();
    let h = TextureHandle::Managed(2);
    assert_eq!(cache.upload(h, full(0, 3, RED)), Err(PaintError::ResourceCreationFailure));
    let bad = ImageDelta {
        image: ColorImage { width: 2, height: 2, pixels: vec![RED; 3] },
        options: linear(),
        pos: None,
    };
    assert_eq!(cache.upload(h, bad), Err(PaintError::ResourceCreationFailure));
    assert_eq!(cache.lookup(h).err(), Some(PaintError::UnknownTexture));
}

#[test]
fn freed_texture_is_unknown() {
    let mut cache = TextureCache::new();
    let a = TextureHandle::Managed(1);
    let b = TextureHandle::User(1);
    cache.upload(a, full(1, 1, RED)).unwrap();
    cache.upload(b, full(1, 1, WHITE)).unwrap();
    cache.free(a);
    assert_eq!(cache.lookup(a).err(), Some(PaintError::UnknownTexture));
    assert_eq!(cache.lookup(b).unwrap().image.pixels, vec![WHITE]);
}

#[test]
fn transparent_color_converts_to_zero() {
    for c in [0u8, 1, 128, 255] {
        let p = Color32 { r: c, g: c, b: c, a: 0 };
        assert_eq!(p.to_straight(), Color32 { r: 0, g: 0, b: 0, a: 0 });
    }
}

#[test]
fn premultiplied_color_converts_to_straight() {
    let p = Color32 { r: 64, g: 128, b: 0, a: 128 };
    assert_eq!(p.to_straight(), Color32 { r: 127, g: 255, b: 0, a: 128 });
    assert_eq!(RED.to_straight(), RED);
    let over = Color32 { r: 200, g: 10, b: 3, a: 100 };
    assert_eq!(over.to_straight(), Color32 { r: 255, g: 25, b: 7, a: 100 });
}

fn mesh_of(n: usize, indices: Vec<u32>) -> Mesh {
    let vertices = (0..n).map(|i| vertex(i as f32, 0.0, 0.5, 0.5, WHITE)).collect();
    Mesh { indices, vertices, texture: TextureHandle::Managed(0) }
}

#[test]
fn small_mesh_stays_whole() {
    let mesh = mesh_of(65536, vec![0, 1, 65535, 2, 3, 4]);
    let runs = split_to_u16(&mesh);
    assert_eq!(runs.len(), 1);
    assert_eq!(runs[0].vertices.len(), 65536);
    assert_eq!(runs[0].indices, vec![0, 1, 65535, 2, 3, 4]);
}

#[test]
fn large_mesh_is_split() {
    let mesh = mesh_of(70000, vec![0, 1, 2, 69997, 69998, 69999, 3, 4, 5]);
    let runs = split_to_u16(&mesh);
    assert!(runs.len() >= 2);
    assert_eq!(runs.len(), 3);
    let mut drawn = Vec::new();
    for run in &runs {
        assert!(run.vertices.len() <= 65536);
        for &i in &run.indices {
            assert!((i as usize) < run.vertices.len());
            drawn.push(run.vertices[i as usize]);
        }
    }
    let expected: Vec<Vertex> = mesh.indices.iter().map(|&i| mesh.vertices[i as usize]).collect();
    assert_eq!(drawn, expected);
}

#[test]
fn large_mesh_within_span_is_one_run() {
    let mesh = mesh_of(70000, vec![10, 11, 12, 13, 14, 15]);
    let runs = split_to_u16(&mesh);
    assert_eq!(runs.len(), 1);
    assert_eq!(runs[0].vertices.len(), 6);
    assert_eq!(runs[0].indices, vec![0, 1, 2, 3, 4, 5]);
}

#[test]
fn nan_position_moves_to_origin() {
    let v = vertex(f32::NAN, 3.0, 0.25, 0.75, Color32 { r: 0, g: 0, b: 0, a: 0 });
    let b = v.to_backend();
    assert_eq!((b.pos_x, b.pos_y), (0, 0));
    assert_eq!((b.uv_x, b.uv_y), (0.25f32.to_bits(), 0.75f32.to_bits()));
    let w = vertex(1.5, -2.0, 0.0, 0.0, RED);
    assert_eq!(w.to_backend(), w);
}

#[test]
fn mesh_is_cut_by_zero_texture_coordinate() {
    let vertices = vec![
        vertex(0.0, 0.0, 0.0, 0.0, WHITE),
        vertex(1.0, 0.0, -0.0, 0.0, WHITE),
        vertex(2.0, 0.0, 0.5, 0.5, WHITE),
        vertex(3.0, 0.0, 0.5, 0.0, WHITE),
    ];
    let mesh = Mesh16 { indices: vec![0, 1, 2, 2, 3, 0], vertices, texture: TextureHandle::Managed(4) };
    let parts = split_texture_meshes(&mesh);
    let lens: Vec<usize> = parts.iter().map(|p| p.vertices.len()).collect();
    assert_eq!(lens, vec![2, 3, 1]);
    assert_eq!(parts[1].indices, vec![0, 1, 2]);
    assert_eq!(parts[2].vertices[0], mesh.vertices[0]);
}

fn clipped_mesh(texture: TextureHandle, uv: f32) -> ClippedPrimitive {
    let vertices = vec![
        vertex(0.0, 0.0, uv, uv, WHITE),
        vertex(1.0, 0.0, uv, uv, WHITE),
        vertex(0.0, 1.0, uv, uv, WHITE),
    ];
    ClippedPrimitive {
        clip_rect: rect(),
        primitive: Primitive::Mesh(Mesh { indices: vec![0, 1, 2], vertices, texture }),
    }
}

#[test]
fn empty_frame_draws_nothing() {
    let mut frame: FrameState<ClippedPrimitive> = FrameState::new();
    frame.record(Vec::new(), TexturesDelta::new());
    let (shapes, delta) = frame.take();
    let mut painter = Painter::new(false);
    let out = painter.paint_and_update_textures(shapes, delta);
    assert!(out.draws.is_empty());
    assert!(out.uploads.is_empty());
    assert!(frame.is_empty());
}

#[test]
fn deltas_accumulate_until_paint() {
    let a = TextureHandle::Managed(1);
    let b = TextureHandle::Managed(2);
    let mut frame: FrameState<ClippedPrimitive> = FrameState::new();
    frame.record(Vec::new(), TexturesDelta { set: vec![(a, full(1, 1, RED))], free: vec![] });
    frame.record(Vec::new(), TexturesDelta { set: vec![(b, full(2, 2, WHITE))], free: vec![a] });
    let (shapes, delta) = frame.take();
    assert!(frame.is_empty());
    let mut painter = Painter::default();
    let out = painter.paint_and_update_textures(shapes, delta);
    assert_eq!(out.uploads, vec![Ok(()), Ok(())]);
    assert_eq!(painter.textures.lookup(a).err(), Some(PaintError::UnknownTexture));
    assert_eq!(painter.textures.lookup(b).unwrap().image.width, 2);
}

#[test]
fn frame_draws_in_order_and_skips_unknown_textures() {
    let t = TextureHandle::Managed(5);
    let missing = TextureHandle::User(6);
    let cb = CallbackPrimitive { callback: 3, rect: rect() };
    let prims = vec![
        clipped_mesh(t, 0.5),
        clipped_mesh(missing, 0.5),
        ClippedPrimitive { clip_rect: rect(), primitive: Primitive::Callback(cb) },
    ];
    let delta = TexturesDelta { set: vec![(t, full(1, 1, RED))], free: vec![t] };
    let mut painter = Painter::new(false);
    let out = painter.paint_and_update_textures(prims, delta);
    assert_eq!(out.draws.len(), 3);
    match &out.draws[0] {
        Ok(DrawCommand::Mesh { clip_rect, mesh, paint }) => {
            assert_eq!(*clip_rect, rect());
            assert_eq!(*paint, MeshPaint::Texture(t));
            assert_eq!(mesh.indices, vec![0, 1, 2]);
        }
        other => panic!("unexpected {:?}", other),
    }
    assert!(matches!(out.draws[1], Err(PaintError::UnknownTexture)));
    match &out.draws[2] {
        Ok(DrawCommand::Callback { clip_rect, callback }) => {
            assert_eq!(*clip_rect, rect());
            assert_eq!(*callback, cb);
        }
        other => panic!("unexpected {:?}", other),
    }
    assert_eq!(painter.textures.lookup(t).err(), Some(PaintError::UnknownTexture));
}

#[test]
fn workaround_draws_untextured_parts_white() {
    let missing = TextureHandle::User(8);
    let mut painter = Painter::new(true);
    let out = painter.paint_and_update_textures(vec![clipped_mesh(missing, 0.0)], TexturesDelta::new());
    assert_eq!(out.draws.len(), 1);
    match &out.draws[0] {
        Ok(DrawCommand::Mesh { paint, mesh, .. }) => {
            assert_eq!(*paint, MeshPaint::White);
            assert_eq!(mesh.vertices.len(), 3);
        }
        other => panic!("unexpected {:?}", other),
    }
    let mut plain = Painter::new(false);
    let out = plain.paint_and_update_textures(vec![clipped_mesh(missing, 0.0)], TexturesDelta::new());
    assert!(matches!(out.draws[0], Err(PaintError::UnknownTexture)));
}

#[test]
fn latest_shapes_replace_pending_ones() {
    let mut frame: FrameState<u32> = FrameState::new();
    frame.record(vec![1, 2], TexturesDelta::new());
    frame.record(vec![3], TexturesDelta { set: vec![], free: vec![TextureHandle::User(1)] });
    assert!(!frame.is_empty());
    let (shapes, delta) = frame.take();
    assert_eq!(shapes, vec![3]);
    assert_eq!(delta.free, vec![TextureHandle::User(1)]);
    assert!(frame.is_empty());
}

#[test]
fn patch_on_wide_image_lands_in_place() {
    let mut cache = TextureCache::new();
    let h = TextureHandle::Managed(11);
    cache.upload(h, full(5, 2, RED)).unwrap();
    let patch = ImageDelta { image: solid(2, 1, WHITE), options: linear(), pos: Some((3, 1)) };
    cache.upload(h, patch).unwrap();
    let t = cache.lookup(h).unwrap();
    let mut expected = vec![RED; 10];
    expected[8] = WHITE;
    expected[9] = WHITE;
    assert_eq!(t.image.pixels, expected);
}
