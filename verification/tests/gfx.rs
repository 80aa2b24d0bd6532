use gamekit::device::{
    Buffer, BufferUsage, Device, GKWindowId, GfxAttributes, GfxError, IndexFormat, Primitive, RenderPipeline,
    RenderPipelineDescriptor, Renderer, Texture, VertexLayout,
};
use gamekit::gfx::{Gfx, Pixels};
use gamekit::texture::{
    SamplerDescriptor, TextureData, TextureDescriptor, TextureFilter, TextureFormat, TextureWrap,
};

fn gfx() -> Gfx {
    Gfx::new(GfxAttributes { vsync: false }).unwrap()
}

/// A bitmap file of two pixels in one row: (0x30, 0x20, 0x10) and (0x60, 0x50, 0x40).
fn two_pixel_bitmap() -> Vec<u8> {
    let mut file = Vec::new();
    file.extend_from_slice(b"BM");
    file.extend_from_slice(&62u32.to_le_bytes()); // the size of the file
    file.extend_from_slice(&0u32.to_le_bytes());
    file.extend_from_slice(&54u32.to_le_bytes()); // where the pixels begin
    file.extend_from_slice(&40u32.to_le_bytes()); // the size of the info header
    file.extend_from_slice(&2i32.to_le_bytes()); // width
    file.extend_from_slice(&1i32.to_le_bytes()); // height
    file.extend_from_slice(&1u16.to_le_bytes()); // planes
    file.extend_from_slice(&24u16.to_le_bytes()); // bits per pixel
    file.extend_from_slice(&0u32.to_le_bytes()); // no compression
    file.extend_from_slice(&8u32.to_le_bytes()); // the size of the pixels, with padding
    file.extend_from_slice(&2835i32.to_le_bytes());
    file.extend_from_slice(&2835i32.to_le_bytes());
    file.extend_from_slice(&0u32.to_le_bytes());
    file.extend_from_slice(&0u32.to_le_bytes());
    file.extend_from_slice(&[0x10, 0x20, 0x30, 0x40, 0x50, 0x60, 0, 0]); // blue, green, red
    assert_eq!(file.len(), 62);
    file
}

#[test]
fn defaults() {
    assert_eq!(TextureFormat::default(), TextureFormat::Rgba8UnormSrgb);
    assert_eq!(TextureWrap::default(), TextureWrap::Clamp);
    assert_eq!(TextureFilter::default(), TextureFilter::Linear);
    let desc = TextureDescriptor::default();
    assert!(desc.label.is_none());
    assert_eq!(desc.format, TextureFormat::Rgba8UnormSrgb);
    let sampler = SamplerDescriptor::default();
    assert!(sampler.label.is_none());
    assert_eq!(sampler.wrap_x, TextureWrap::Clamp);
    assert_eq!(sampler.wrap_y, TextureWrap::Clamp);
    assert_eq!(sampler.wrap_z, TextureWrap::Clamp);
    assert_eq!(sampler.mag_filter, TextureFilter::Linear);
    assert_eq!(sampler.min_filter, TextureFilter::Linear);
    assert!(sampler.mipmap_filter.is_none());
    let pipeline = RenderPipelineDescriptor::default();
    assert!(pipeline.label.is_none());
    assert_eq!(pipeline.shader, "");
    assert!(pipeline.vertex_layout.is_none());
    assert_eq!(pipeline.index_format, IndexFormat::UInt16);
    assert_eq!(pipeline.primitive, Primitive::Triangles);
    let data = TextureData::default();
    assert!(data.bytes.is_empty());
    assert_eq!((data.width, data.height), (0, 0));
    assert!(GfxAttributes::default().vsync);
    assert!(Gfx::config().attrs.vsync);
}

#[test]
fn a_new_device_has_made_nothing() {
    let device = Device::new(GfxAttributes { vsync: false }).unwrap();
    assert_eq!(device.attrs(), GfxAttributes { vsync: false });
    assert_eq!(device.pipeline_count(), 0);
    assert_eq!(device.buffer_count(), 0);
    assert_eq!(device.texture_count(), 0);
    assert_eq!(device.surface_size(GKWindowId(0)), None);
}

#[test]
fn surfaces_follow_their_windows() {
    let mut gfx = gfx();
    assert_eq!(gfx.init_surface(GKWindowId(1), 800, 600), Ok(()));
    assert_eq!(gfx.init_surface(GKWindowId(2), 320, 200), Ok(()));
    assert_eq!(gfx.device().surface_size(GKWindowId(1)), Some((800, 600)));
    assert_eq!(gfx.device().surface_size(GKWindowId(2)), Some((320, 200)));
    gfx.resize(GKWindowId(1), 1024, 768);
    assert_eq!(gfx.device().surface_size(GKWindowId(1)), Some((1024, 768)));
    assert_eq!(gfx.device().surface_size(GKWindowId(2)), Some((320, 200)));
    // A window without a surface gets none by a resize.
    gfx.resize(GKWindowId(3), 10, 10);
    assert_eq!(gfx.device().surface_size(GKWindowId(3)), None);
    // A second surface for a window takes the place of the first.
    assert_eq!(gfx.init_surface(GKWindowId(2), 1, 1), Ok(()));
    assert_eq!(gfx.device().surface_size(GKWindowId(2)), Some((1, 1)));
}

#[test]
fn rendering_needs_a_surface() {
    let mut gfx = gfx();
    let renderer = Renderer { passes: Vec::new() };
    assert_eq!(gfx.render(GKWindowId(1), &renderer), Err(GfxError::NoSurface(GKWindowId(1))));
    gfx.init_surface(GKWindowId(1), 800, 600).unwrap();
    assert_eq!(gfx.render(GKWindowId(1), &renderer), Ok(()));
    assert_eq!(gfx.render(GKWindowId(2), &renderer), Err(GfxError::NoSurface(GKWindowId(2))));
}

#[test]
fn pipelines_are_numbered_in_order() {
    let mut gfx = gfx();
    let first = gfx.create_render_pipeline("shader one").build();
    assert_eq!(first, Ok(RenderPipeline { index: 0 }));
    let second = gfx
        .create_render_pipeline("shader two")
        .with_label("second")
        .with_vertex_layout(VertexLayout { stride: 12, attributes: 2 })
        .with_index_format(IndexFormat::UInt32)
        .with_primitive(Primitive::Lines)
        .build();
    assert_eq!(second, Ok(RenderPipeline { index: 1 }));
    assert_eq!(gfx.device().pipeline_count(), 2);
}

#[test]
fn the_pipeline_builder_keeps_what_it_is_told() {
    let mut gfx = gfx();
    let builder = gfx.create_render_pipeline("src");
    assert_eq!(builder.desc.shader, "src");
    assert!(builder.desc.label.is_none());
    assert!(builder.desc.vertex_layout.is_none());
    assert_eq!(builder.desc.index_format, IndexFormat::UInt16);
    assert_eq!(builder.desc.primitive, Primitive::Triangles);
    let builder = builder
        .with_label("label")
        .with_vertex_layout(VertexLayout { stride: 8, attributes: 1 })
        .with_index_format(IndexFormat::UInt32)
        .with_primitive(Primitive::TriangleStrip);
    assert_eq!(builder.desc.shader, "src");
    assert_eq!(builder.desc.label, Some("label"));
    assert_eq!(builder.desc.vertex_layout, Some(VertexLayout { stride: 8, attributes: 1 }));
    assert_eq!(builder.desc.index_format, IndexFormat::UInt32);
    assert_eq!(builder.desc.primitive, Primitive::TriangleStrip);
}

#[test]
fn a_pipeline_needs_a_shader() {
    let mut gfx = gfx();
    assert_eq!(gfx.create_render_pipeline("").with_label("none").build(), Err(GfxError::EmptyShader));
    assert_eq!(gfx.device().pipeline_count(), 0);
}

#[test]
fn buffers_are_numbered_in_order_and_keep_their_use() {
    let mut gfx = gfx();
    let vertices = [0u8; 24];
    let indices = [0u8; 6];
    let uniforms = [0u8; 64];
    assert_eq!(
        gfx.create_vertex_buffer(&vertices).build(),
        Ok(Buffer { index: 0, usage: BufferUsage::Vertex, size: 24 })
    );
    assert_eq!(
        gfx.create_index_buffer(&indices).with_label("indices").build(),
        Ok(Buffer { index: 1, usage: BufferUsage::Index, size: 6 })
    );
    assert_eq!(
        gfx.create_uniform_buffer(&uniforms).build(),
        Ok(Buffer { index: 2, usage: BufferUsage::Uniform, size: 64 })
    );
    assert_eq!(gfx.create_vertex_buffer(&[]).build(), Ok(Buffer { index: 3, usage: BufferUsage::Vertex, size: 0 }));
    assert_eq!(gfx.device().buffer_count(), 4);
}

#[test]
fn a_texture_without_an_image_has_no_size() {
    let mut gfx = gfx();
    let texture = gfx.create_texture_2d().with_label("empty").with_format(TextureFormat::Depth32Float).build();
    assert_eq!(texture, Ok(Texture { index: 0, width: 0, height: 0, format: TextureFormat::Depth32Float }));
    assert_eq!(gfx.device().texture_count(), 1);
}

#[test]
fn the_texture_builder_keeps_what_it_is_told() {
    let mut gfx = gfx();
    let builder = gfx.create_texture_2d();
    assert!(builder.desc.label.is_none());
    assert_eq!(builder.desc.format, TextureFormat::Rgba8UnormSrgb);
    let builder = builder.with_format(TextureFormat::Depth32Float).with_label("depth");
    assert_eq!(builder.desc.label, Some("depth"));
    assert_eq!(builder.desc.format, TextureFormat::Depth32Float);
}

#[test]
fn a_texture_takes_its_size_from_the_image() {
    let mut gfx = gfx();
    let file = two_pixel_bitmap();
    let texture = gfx.create_texture_2d().from_image(&file).build();
    assert_eq!(texture, Ok(Texture { index: 0, width: 2, height: 1, format: TextureFormat::Rgba8UnormSrgb }));
    assert_eq!(gfx.device().texture_count(), 1);
    let again = gfx.create_texture_2d().from_image(&file).build();
    assert_eq!(again, Ok(Texture { index: 1, width: 2, height: 1, format: TextureFormat::Rgba8UnormSrgb }));
}

#[test]
fn an_image_that_does_not_decode_makes_no_texture() {
    let mut gfx = gfx();
    let garbage = [1u8, 2, 3, 4, 5, 6, 7, 8];
    match gfx.create_texture_2d().from_image(&garbage).build() {
        Err(GfxError::Decode(words)) => assert!(!words.is_empty()),
        other => panic!("expected a decoding failure, got {:?}", other),
    }
    assert_eq!(gfx.device().texture_count(), 0);
}

#[test]
fn a_texture_from_decoded_pixels() {
    let mut gfx = gfx();
    let pixels = Pixels { bytes: vec![0x30, 0x20, 0x10, 0xFF, 0x60, 0x50, 0x40, 0xFF], width: 2, height: 1 };
    let texture = gfx.create_texture_2d().build_from(Some(Ok(pixels)));
    assert_eq!(texture, Ok(Texture { index: 0, width: 2, height: 1, format: TextureFormat::Rgba8UnormSrgb }));
    let texture = gfx.create_texture_2d().build_from(None);
    assert_eq!(texture, Ok(Texture { index: 1, width: 0, height: 0, format: TextureFormat::Rgba8UnormSrgb }));
    let texture = gfx.create_texture_2d().build_from(Some(Err("broken".to_string())));
    assert_eq!(texture, Err(GfxError::Decode("broken".to_string())));
    assert_eq!(gfx.device().texture_count(), 2);
}

#[test]
fn pixels_must_be_four_bytes_each() {
    let mut gfx = gfx();
    let pixels = Pixels { bytes: vec![0; 7], width: 2, height: 1 };
    let texture = gfx.create_texture_2d().build_from(Some(Ok(pixels)));
    assert_eq!(texture, Err(GfxError::DataSize { width: 2, height: 1, found: 7 }));
    let pixels = Pixels { bytes: vec![0; 12], width: 2, height: 1 };
    let texture = gfx.create_texture_2d().build_from(Some(Ok(pixels)));
    assert_eq!(texture, Err(GfxError::DataSize { width: 2, height: 1, found: 12 }));
    assert_eq!(gfx.device().texture_count(), 0);
}

#[test]
fn texture_data_is_complete() {
    let bytes = [0u8; 24];
    assert!(TextureData { bytes: &bytes, width: 3, height: 2 }.is_complete());
    assert!(TextureData { bytes: &bytes, width: 6, height: 1 }.is_complete());
    assert!(!TextureData { bytes: &bytes, width: 3, height: 3 }.is_complete());
    assert!(!TextureData { bytes: &bytes[..23], width: 3, height: 2 }.is_complete());
    assert!(TextureData { bytes: &[], width: 0, height: 7 }.is_complete());
    assert!(!TextureData { bytes: &bytes, width: u32::MAX, height: u32::MAX }.is_complete());
}

#[test]
fn the_device_makes_textures_with_pixels() {
    let mut device = Device::new(GfxAttributes::default()).unwrap();
    let bytes = [0u8; 16];
    let desc = TextureDescriptor { label: Some("t"), format: TextureFormat::Rgba8UnormSrgb };
    let texture = device.create_texture(desc, Some(TextureData { bytes: &bytes, width: 2, height: 2 }));
    assert_eq!(texture, Ok(Texture { index: 0, width: 2, height: 2, format: TextureFormat::Rgba8UnormSrgb }));
    let texture = device.create_texture(desc, Some(TextureData { bytes: &bytes, width: 2, height: 3 }));
    assert_eq!(texture, Err(GfxError::DataSize { width: 2, height: 3, found: 16 }));
    assert_eq!(device.texture_count(), 1);
}
