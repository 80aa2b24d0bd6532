use vstd::prelude::*;
use image::EncodableLayout;
use crate::device::{
    Buffer, BufferDescriptor, BufferUsage, Device, DeviceModel, GKWindowId, GfxAttributes, GfxConfig,
    GfxError, IndexFormat, Primitive, RenderPipeline, RenderPipelineDescriptor, Renderer, Texture,
    VertexLayout,
};
use crate::texture::{TextureData, TextureDescriptor, TextureFormat};

verus! {

/// The graphics plugin: a device and the builders of its resources.
pub struct Gfx {
    pub(crate) raw: Device,
}

impl View for Gfx {
    type V = DeviceModel;

    closed spec fn view(&self) -> DeviceModel {
        self.raw@
    }
}

/// An image decoded to four bytes per pixel, row after row.
#[derive(Debug)]
pub struct Pixels {
    pub bytes: Vec<u8>,
    pub width: u32,
    pub height: u32,
}

/// What decoding an encoded image yields: the pixels as RGBA bytes with the image's
/// width and height, or the decoder's words on why it could not.
pub uninterp spec fn decoded_rgba8(encoded: Seq<u8>) -> Result<(Seq<u8>, u32, u32), Seq<char>>;

/// `image::load_from_memory`, and `DynamicImage::to_rgba8` on what it loaded: the
/// result is the decoding of the bytes given. Nothing is claimed of what the decoding
/// is, only that the same bytes decode to the same. The conversion allocates four
/// bytes for each pixel of an image that is in memory already.
#[verifier::external_body]
fn decode_rgba8(encoded: &[u8]) -> (r: Result<Pixels, String>)
    ensures
        match r {
            Ok(pixels) => decoded_rgba8(encoded@) == Ok::<(Seq<u8>, u32, u32), Seq<char>>(
                (pixels.bytes@, pixels.width, pixels.height),
            ),
            Err(message) => decoded_rgba8(encoded@) == Err::<(Seq<u8>, u32, u32), Seq<char>>(message@),
        },
{
    let img = image::load_from_memory(encoded).map_err(|e| e.to_string())?;
    let rgba = img.to_rgba8();
    Ok(Pixels { bytes: rgba.as_bytes().to_vec(), width: rgba.width(), height: rgba.height() })
}

/// A decoding, as the contracts take it.
pub open spec fn decoding_view(decoded: Result<Pixels, String>) -> Result<(Seq<u8>, u32, u32), Seq<char>> {
    match decoded {
        Ok(pixels) => Ok((pixels.bytes@, pixels.width, pixels.height)),
        Err(message) => Err(message@),
    }
}

/// How a texture comes out of what its builder holds: without an image it has no
/// pixels; an image that does not decode ends the build with the decoder's words and
/// leaves the device alone; one that decodes gives the texture its pixels.
pub open spec fn texture_built(
    before: DeviceModel,
    after: DeviceModel,
    desc: TextureDescriptor,
    decoded: Option<Result<(Seq<u8>, u32, u32), Seq<char>>>,
    r: Result<Texture, GfxError>,
) -> bool {
    match decoded {
        None => after == before.create_texture(desc, None).0 && r == before.create_texture(desc, None).1,
        Some(Ok(pixels)) => after == before.create_texture(desc, Some(pixels)).0 && r
            == before.create_texture(desc, Some(pixels)).1,
        Some(Err(message)) => after == before && (r matches Err(GfxError::Decode(words)) && words@
            == message),
    }
}

impl Gfx {
    /// The plugin on a device on which nothing has been made.
    pub fn new(attrs: GfxAttributes) -> (r: Result<Self, GfxError>)
        ensures
            r matches Ok(gfx) && gfx@ == DeviceModel::fresh(attrs),
    {
        let raw = Device::new(attrs)?;
        Ok(Self { raw })
    }

    /// The device, for reading.
    pub fn device(&self) -> (device: &Device)
        ensures
            device@ == self@,
    {
        &self.raw
    }

    /// The configuration that brings the plugin to an app.
    pub fn config() -> (config: GfxConfig)
        ensures
            config.attrs.vsync,
    {
        GfxConfig::default()
    }

    /// Gives the window a surface of the given size.
    pub fn init_surface(&mut self, window: GKWindowId, width: u32, height: u32) -> (r: Result<(), GfxError>)
        ensures
            r is Ok,
            final(self)@ == old(self)@.init_surface(window, width, height),
    {
        self.raw.init_surface(window, width, height)
    }

    /// Starts a render pipeline with the given shader.
    pub fn create_render_pipeline<'a>(&'a mut self, shader: &'a str) -> (b: RenderPipelineBuilder<'a>)
        ensures
            *b.gfx == *old(self),
            *final(self) == *final(b.gfx),
            b.desc.shader == shader,
            b.desc.label.is_none(),
            b.desc.vertex_layout.is_none(),
            b.desc.index_format == IndexFormat::UInt16,
            b.desc.primitive == Primitive::Triangles,
    {
        RenderPipelineBuilder::new(self, shader)
    }

    /// Starts a vertex buffer with the given content.
    pub fn create_vertex_buffer<'a>(&'a mut self, content: &'a [u8]) -> (b: BufferBuilder<'a>)
        ensures
            *b.gfx == *old(self),
            *final(self) == *final(b.gfx),
            b.desc.label.is_none(),
            b.desc.usage == BufferUsage::Vertex,
            b.desc.content == content,
    {
        BufferBuilder::new(self, BufferUsage::Vertex, content)
    }

    /// Starts an index buffer with the given content.
    pub fn create_index_buffer<'a>(&'a mut self, content: &'a [u8]) -> (b: BufferBuilder<'a>)
        ensures
            *b.gfx == *old(self),
            *final(self) == *final(b.gfx),
            b.desc.label.is_none(),
            b.desc.usage == BufferUsage::Index,
            b.desc.content == content,
    {
        BufferBuilder::new(self, BufferUsage::Index, content)
    }

    /// Starts a uniform buffer with the given content.
    pub fn create_uniform_buffer<'a>(&'a mut self, content: &'a [u8]) -> (b: BufferBuilder<'a>)
        ensures
            *b.gfx == *old(self),
            *final(self) == *final(b.gfx),
            b.desc.label.is_none(),
            b.desc.usage == BufferUsage::Uniform,
            b.desc.content == content,
    {
        BufferBuilder::new(self, BufferUsage::Uniform, content)
    }

    /// Starts a texture.
    pub fn create_texture_2d<'a>(&'a mut self) -> (b: TextureBuilder<'a>)
        ensures
            *b.gfx == *old(self),
            *final(self) == *final(b.gfx),
            b.desc.label.is_none(),
            b.desc.format == TextureFormat::Rgba8UnormSrgb,
            b.data is Empty,
    {
        TextureBuilder::new(self)
    }

    /// Gives the surface of the window a new size.
    pub fn resize(&mut self, id: GKWindowId, width: u32, height: u32)
        ensures
            final(self)@ == old(self)@.resize(id, width, height),
    {
        self.raw.resize(id, width, height);
    }

    /// Renders a frame to the window.
    pub fn render(&mut self, window: GKWindowId, renderer: &Renderer) -> (r: Result<(), GfxError>)
        ensures
            final(self)@ == old(self)@,
            r == old(self)@.render(window),
    {
        self.raw.render(window, renderer)
    }
}

/// Builds a render pipeline.
pub struct RenderPipelineBuilder<'a> {
    pub gfx: &'a mut Gfx,
    pub desc: RenderPipelineDescriptor<'a>,
}

impl<'a> RenderPipelineBuilder<'a> {
    fn new(gfx: &'a mut Gfx, shader: &'a str) -> (b: Self)
        ensures
            *b.gfx == *old(gfx),
            *final(gfx) == *final(b.gfx),
            b.desc.shader == shader,
            b.desc.label.is_none(),
            b.desc.vertex_layout.is_none(),
            b.desc.index_format == IndexFormat::UInt16,
            b.desc.primitive == Primitive::Triangles,
    {
        let desc = RenderPipelineDescriptor {
            label: None,
            shader,
            vertex_layout: None,
            index_format: IndexFormat::UInt16,
            primitive: Primitive::Triangles,
        };
        Self { desc, gfx }
    }

    pub fn with_label(self, label: &'a str) -> (b: Self)
        ensures
            b.gfx == self.gfx,
            b.desc == (RenderPipelineDescriptor { label: Some(label), ..self.desc }),
    {
        let mut b = self;
        b.desc.label = Some(label);
        b
    }

    pub fn with_vertex_layout(self, layout: VertexLayout) -> (b: Self)
        ensures
            b.gfx == self.gfx,
            b.desc == (RenderPipelineDescriptor { vertex_layout: Some(layout), ..self.desc }),
    {
        let mut b = self;
        b.desc.vertex_layout = Some(layout);
        b
    }

    pub fn with_index_format(self, format: IndexFormat) -> (b: Self)
        ensures
            b.gfx == self.gfx,
            b.desc == (RenderPipelineDescriptor { index_format: format, ..self.desc }),
    {
        let mut b = self;
        b.desc.index_format = format;
        b
    }

    pub fn with_primitive(self, primitive: Primitive) -> (b: Self)
        ensures
            b.gfx == self.gfx,
            b.desc == (RenderPipelineDescriptor { primitive, ..self.desc }),
    {
        let mut b = self;
        b.desc.primitive = primitive;
        b
    }

    /// Makes the pipeline on the device.
    pub fn build(self) -> (r: Result<RenderPipeline, GfxError>)
        ensures
            final(self.gfx)@ == old(self.gfx)@.create_render_pipeline(self.desc).0,
            r == old(self.gfx)@.create_render_pipeline(self.desc).1,
    {
        let Self { desc, gfx } = self;
        gfx.raw.create_render_pipeline(desc)
    }
}

/// Builds a buffer.
pub struct BufferBuilder<'a> {
    pub gfx: &'a mut Gfx,
    pub desc: BufferDescriptor<'a>,
}

impl<'a> BufferBuilder<'a> {
    fn new(gfx: &'a mut Gfx, usage: BufferUsage, content: &'a [u8]) -> (b: Self)
        ensures
            *b.gfx == *old(gfx),
            *final(gfx) == *final(b.gfx),
            b.desc.label.is_none(),
            b.desc.usage == usage,
            b.desc.content == content,
    {
        let desc = BufferDescriptor { label: None, usage, content };
        Self { gfx, desc }
    }

    pub fn with_label(self, label: &'a str) -> (b: Self)
        ensures
            b.gfx == self.gfx,
            b.desc == (BufferDescriptor { label: Some(label), ..self.desc }),
    {
        let mut b = self;
        b.desc.label = Some(label);
        b
    }

    /// Makes the buffer on the device.
    pub fn build(self) -> (r: Result<Buffer, GfxError>)
        ensures
            final(self.gfx)@ == old(self.gfx)@.create_buffer(self.desc).0,
            r == Ok::<Buffer, GfxError>(old(self.gfx)@.create_buffer(self.desc).1),
    {
        let Self { gfx, desc } = self;
        gfx.raw.create_buffer(desc)
    }
}

/// Where the pixels of a texture come from.
pub enum TextureRawData<'a> {
    Empty,
    Image(&'a [u8]),
}

/// Builds a texture.
pub struct TextureBuilder<'a> {
    pub gfx: &'a mut Gfx,
    pub desc: TextureDescriptor<'a>,
    pub data: TextureRawData<'a>,
}

impl<'a> TextureBuilder<'a> {
    pub fn new(gfx: &'a mut Gfx) -> (b: Self)
        ensures
            *b.gfx == *old(gfx),
            *final(gfx) == *final(b.gfx),
            b.desc.label.is_none(),
            b.desc.format == TextureFormat::Rgba8UnormSrgb,
            b.data is Empty,
    {
        let desc = TextureDescriptor::default();
        let data = TextureRawData::Empty;
        Self { gfx, desc, data }
    }

    /// The texture takes its pixels from an encoded image.
    pub fn from_image(self, image: &'a [u8]) -> (b: Self)
        ensures
            b.gfx == self.gfx,
            b.desc == self.desc,
            b.data == TextureRawData::Image(image),
    {
        let mut b = self;
        b.data = TextureRawData::Image(image);
        b
    }

    pub fn with_label(self, label: &'a str) -> (b: Self)
        ensures
            b.gfx == self.gfx,
            b.desc == (TextureDescriptor { label: Some(label), ..self.desc }),
            b.data == self.data,
    {
        let mut b = self;
        b.desc.label = Some(label);
        b
    }

    pub fn with_format(self, format: TextureFormat) -> (b: Self)
        ensures
            b.gfx == self.gfx,
            b.desc == (TextureDescriptor { format, ..self.desc }),
            b.data == self.data,
    {
        let mut b = self;
        b.desc.format = format;
        b
    }

    /// Makes the texture on the device from what the image, if there is one, decoded
    /// to.
    pub fn build_from(self, decoded: Option<Result<Pixels, String>>) -> (r: Result<Texture, GfxError>)
        ensures
            texture_built(
                old(self.gfx)@,
                final(self.gfx)@,
                self.desc,
                match decoded {
                    Some(d) => Some(decoding_view(d)),
                    None => None,
                },
                r,
            ),
    {
        let Self { gfx, desc, data } = self;
        match decoded {
            None => gfx.raw.create_texture(desc, None),
            Some(Ok(pixels)) => gfx.raw.create_texture(
                desc,
                Some(TextureData { bytes: pixels.bytes.as_slice(), width: pixels.width, height: pixels.height }),
            ),
            Some(Err(message)) => Err(GfxError::Decode(message)),
        }
    }

    /// Makes the texture on the device: without pixels, or with the pixels that the
    /// image decodes to.
    pub fn build(self) -> (r: Result<Texture, GfxError>)
        ensures
            texture_built(
                old(self.gfx)@,
                final(self.gfx)@,
                self.desc,
                match self.data {
                    TextureRawData::Empty => None,
                    TextureRawData::Image(encoded) => Some(decoded_rgba8(encoded@)),
                },
                r,
            ),
    {
        let decoded = match self.data {
            TextureRawData::Empty => None,
            TextureRawData::Image(encoded) => Some(decode_rgba8(encoded)),
        };
        self.build_from(decoded)
    }
}

} // verus!
