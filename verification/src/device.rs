use vstd::prelude::*;
use std::collections::HashMap;
use crate::texture::{TextureData, TextureDescriptor, TextureFormat};

verus! {

/// Names a window of the platform.
#[derive(Debug, Copy, Clone, PartialEq, Eq, Structural)]
pub struct GKWindowId(pub u64);

/// What the device is asked to be.
#[derive(Debug, Copy, Clone, PartialEq, Eq, Structural)]
pub struct GfxAttributes {
    pub vsync: bool,
}

impl Default for GfxAttributes {
    fn default() -> (attrs: Self)
        ensures
            attrs.vsync,
    {
        GfxAttributes { vsync: true }
    }
}

/// The configuration that brings graphics to an app.
#[derive(Debug, Copy, Clone, PartialEq, Eq, Structural)]
pub struct GfxConfig {
    pub attrs: GfxAttributes,
}

impl Default for GfxConfig {
    fn default() -> (config: Self)
        ensures
            config.attrs.vsync,
    {
        GfxConfig { attrs: GfxAttributes { vsync: true } }
    }
}

/// The width of the indices of an index buffer.
#[derive(Debug, Copy, Clone, PartialEq, Eq, Structural)]
pub enum IndexFormat {
    UInt16,
    UInt32,
}

/// What the vertices of a draw call make up.
#[derive(Debug, Copy, Clone, PartialEq, Eq, Structural)]
pub enum Primitive {
    Points,
    Lines,
    LineStrip,
    Triangles,
    TriangleStrip,
}

/// What a buffer is used for.
#[derive(Debug, Copy, Clone, PartialEq, Eq, Structural)]
pub enum BufferUsage {
    Vertex,
    Index,
    Uniform,
}

/// How the vertices lie in a vertex buffer: the bytes from one vertex to the next and
/// the number of attributes of a vertex.
#[derive(Debug, Copy, Clone, PartialEq, Eq, Structural)]
pub struct VertexLayout {
    pub stride: u32,
    pub attributes: u32,
}

/// What a render pipeline is asked to be.
#[derive(Debug, Copy, Clone)]
pub struct RenderPipelineDescriptor<'a> {
    pub label: Option<&'a str>,
    pub shader: &'a str,
    pub vertex_layout: Option<VertexLayout>,
    pub index_format: IndexFormat,
    pub primitive: Primitive,
}

impl<'a> Default for RenderPipelineDescriptor<'a> {
    fn default() -> (desc: Self)
        ensures
            desc.label.is_none(),
            desc.shader@.len() == 0,
            desc.vertex_layout.is_none(),
            desc.index_format == IndexFormat::UInt16,
            desc.primitive == Primitive::Triangles,
    {
        let shader = "";
        proof {
            reveal_strlit("");
        }
        RenderPipelineDescriptor {
            label: None,
            shader,
            vertex_layout: None,
            index_format: IndexFormat::UInt16,
            primitive: Primitive::Triangles,
        }
    }
}

/// What a buffer is asked to be.
#[derive(Debug, Copy, Clone)]
pub struct BufferDescriptor<'a> {
    pub label: Option<&'a str>,
    pub usage: BufferUsage,
    pub content: &'a [u8],
}

/// A render pipeline of the device.
#[derive(Debug, Copy, Clone, PartialEq, Eq, Structural)]
pub struct RenderPipeline {
    pub index: usize,
}

/// A buffer of the device.
#[derive(Debug, Copy, Clone, PartialEq, Eq, Structural)]
pub struct Buffer {
    pub index: usize,
    pub usage: BufferUsage,
    pub size: usize,
}

/// A texture of the device.
#[derive(Debug, Copy, Clone, PartialEq, Eq, Structural)]
pub struct Texture {
    pub index: usize,
    pub width: u32,
    pub height: u32,
    pub format: TextureFormat,
}

/// What the device did not do.
#[derive(Debug, PartialEq, Eq)]
pub enum GfxError {
    /// A render pipeline was asked for without a shader.
    EmptyShader,
    /// The window has no surface.
    NoSurface(GKWindowId),
    /// The pixels handed over are not four bytes for each pixel of the size given.
    DataSize { width: u32, height: u32, found: usize },
    /// The image could not be decoded; the decoder's words.
    Decode(String),
}

/// The label of a resource, as the device keeps it.
pub open spec fn label_view(label: Option<&str>) -> Option<Seq<char>> {
    match label {
        Some(text) => Some(text@),
        None => None,
    }
}

/// What the device keeps of a render pipeline.
pub ghost struct PipelineRecord {
    pub label: Option<Seq<char>>,
    pub shader: Seq<char>,
    pub vertex_layout: Option<VertexLayout>,
    pub index_format: IndexFormat,
    pub primitive: Primitive,
}

/// What the device keeps of a buffer.
pub ghost struct BufferRecord {
    pub label: Option<Seq<char>>,
    pub usage: BufferUsage,
    pub size: nat,
}

/// What the device keeps of a texture.
pub ghost struct TextureRecord {
    pub label: Option<Seq<char>>,
    pub format: TextureFormat,
    pub width: u32,
    pub height: u32,
    pub size: nat,
}

/// The mathematical content of a device.
pub ghost struct DeviceModel {
    pub attrs: GfxAttributes,
    /// The size of the surface of each window that has one.
    pub surfaces: Map<GKWindowId, (u32, u32)>,
    pub pipelines: Seq<PipelineRecord>,
    pub buffers: Seq<BufferRecord>,
    pub textures: Seq<TextureRecord>,
}

struct StoredPipeline {
    label: Option<String>,
    shader: String,
    vertex_layout: Option<VertexLayout>,
    index_format: IndexFormat,
    primitive: Primitive,
}

struct StoredBuffer {
    label: Option<String>,
    usage: BufferUsage,
    size: usize,
}

struct StoredTexture {
    label: Option<String>,
    format: TextureFormat,
    width: u32,
    height: u32,
    size: usize,
}

spec fn stored_label(label: Option<String>) -> Option<Seq<char>> {
    match label {
        Some(text) => Some(text@),
        None => None,
    }
}

impl View for StoredPipeline {
    type V = PipelineRecord;

    closed spec fn view(&self) -> PipelineRecord {
        PipelineRecord {
            label: stored_label(self.label),
            shader: self.shader@,
            vertex_layout: self.vertex_layout,
            index_format: self.index_format,
            primitive: self.primitive,
        }
    }
}

impl View for StoredBuffer {
    type V = BufferRecord;

    closed spec fn view(&self) -> BufferRecord {
        BufferRecord { label: stored_label(self.label), usage: self.usage, size: self.size as nat }
    }
}

impl View for StoredTexture {
    type V = TextureRecord;

    closed spec fn view(&self) -> TextureRecord {
        TextureRecord {
            label: stored_label(self.label),
            format: self.format,
            width: self.width,
            height: self.height,
            size: self.size as nat,
        }
    }
}

fn keep_label(label: Option<&str>) -> (kept: Option<String>)
    ensures
        stored_label(kept) == label_view(label),
{
    match label {
        Some(text) => Some(text.to_owned()),
        None => None,
    }
}

/// A device without a screen: it keeps the size of every surface and a record of
/// every resource it was asked for, and numbers the resources of a kind in the order
/// in which they were made.
pub struct Device {
    attrs: GfxAttributes,
    surfaces: HashMap<u64, (u32, u32)>,
    pipelines: Vec<StoredPipeline>,
    buffers: Vec<StoredBuffer>,
    textures: Vec<StoredTexture>,
}

impl View for Device {
    type V = DeviceModel;

    closed spec fn view(&self) -> DeviceModel {
        DeviceModel {
            attrs: self.attrs,
            surfaces: Map::new(
                |window: GKWindowId| self.surfaces@.contains_key(window.0),
                |window: GKWindowId| self.surfaces@[window.0],
            ),
            pipelines: self.pipelines@.map_values(|p: StoredPipeline| p@),
            buffers: self.buffers@.map_values(|b: StoredBuffer| b@),
            textures: self.textures@.map_values(|t: StoredTexture| t@),
        }
    }
}

impl DeviceModel {
    /// A device on which nothing has been made.
    pub open spec fn fresh(attrs: GfxAttributes) -> Self {
        DeviceModel {
            attrs,
            surfaces: Map::empty(),
            pipelines: Seq::empty(),
            buffers: Seq::empty(),
            textures: Seq::empty(),
        }
    }

    /// The window gets a surface of the given size, in place of the one it had.
    pub open spec fn init_surface(self, window: GKWindowId, width: u32, height: u32) -> Self {
        DeviceModel { surfaces: self.surfaces.insert(window, (width, height)), ..self }
    }

    /// The surface of the window takes the given size; a window without a surface
    /// gets none.
    pub open spec fn resize(self, window: GKWindowId, width: u32, height: u32) -> Self {
        if self.surfaces.contains_key(window) {
            DeviceModel { surfaces: self.surfaces.insert(window, (width, height)), ..self }
        } else {
            self
        }
    }

    /// A pipeline needs a shader; the one made is the next in number.
    pub open spec fn create_render_pipeline(self, desc: RenderPipelineDescriptor) -> (Self, Result<RenderPipeline, GfxError>) {
        if desc.shader@.len() == 0 {
            (self, Err(GfxError::EmptyShader))
        } else {
            (
                DeviceModel {
                    pipelines: self.pipelines.push(
                        PipelineRecord {
                            label: label_view(desc.label),
                            shader: desc.shader@,
                            vertex_layout: desc.vertex_layout,
                            index_format: desc.index_format,
                            primitive: desc.primitive,
                        },
                    ),
                    ..self
                },
                Ok(RenderPipeline { index: self.pipelines.len() as usize }),
            )
        }
    }

    /// The buffer made is the next in number and as large as its content.
    pub open spec fn create_buffer(self, desc: BufferDescriptor) -> (Self, Buffer) {
        (
            DeviceModel {
                buffers: self.buffers.push(
                    BufferRecord {
                        label: label_view(desc.label),
                        usage: desc.usage,
                        size: desc.content@.len(),
                    },
                ),
                ..self
            },
            Buffer {
                index: self.buffers.len() as usize,
                usage: desc.usage,
                size: desc.content@.len() as usize,
            },
        )
    }

    /// A texture without pixels has no size. Pixels must be four bytes for each pixel
    /// of the size given; the texture made is the next in number.
    pub open spec fn create_texture(
        self,
        desc: TextureDescriptor,
        data: Option<(Seq<u8>, u32, u32)>,
    ) -> (Self, Result<Texture, GfxError>) {
        let (bytes, width, height) = match data {
            Some(pixels) => pixels,
            None => (Seq::<u8>::empty(), 0u32, 0u32),
        };
        if bytes.len() != 4 * width * height {
            (self, Err(GfxError::DataSize { width, height, found: bytes.len() as usize }))
        } else {
            (
                DeviceModel {
                    textures: self.textures.push(
                        TextureRecord {
                            label: label_view(desc.label),
                            format: desc.format,
                            width,
                            height,
                            size: bytes.len(),
                        },
                    ),
                    ..self
                },
                Ok(Texture { index: self.textures.len() as usize, width, height, format: desc.format }),
            )
        }
    }

    /// A frame can be rendered to a window that has a surface.
    pub open spec fn render(self, window: GKWindowId) -> Result<(), GfxError> {
        if self.surfaces.contains_key(window) {
            Ok(())
        } else {
            Err(GfxError::NoSurface(window))
        }
    }
}

/// The pixels of a texture, as the model takes them.
pub open spec fn pixels_view(data: Option<TextureData>) -> Option<(Seq<u8>, u32, u32)> {
    match data {
        Some(d) => Some((d.bytes@, d.width, d.height)),
        None => None,
    }
}

impl Device {
    /// A device on which nothing has been made.
    pub fn new(attrs: GfxAttributes) -> (r: Result<Self, GfxError>)
        ensures
            r matches Ok(device) && device@ == DeviceModel::fresh(attrs),
    {
        let device = Device {
            attrs,
            surfaces: HashMap::new(),
            pipelines: Vec::new(),
            buffers: Vec::new(),
            textures: Vec::new(),
        };
        proof {
            assert(device@.surfaces =~= Map::empty());
            assert(device@.pipelines =~= Seq::empty());
            assert(device@.buffers =~= Seq::empty());
            assert(device@.textures =~= Seq::empty());
        }
        Ok(device)
    }

    /// What the device was asked to be.
    pub fn attrs(&self) -> (attrs: GfxAttributes)
        ensures
            attrs == self@.attrs,
    {
        self.attrs
    }

    /// The size of the window's surface, if it has one.
    pub fn surface_size(&self, window: GKWindowId) -> (size: Option<(u32, u32)>)
        ensures
            size == (if self@.surfaces.contains_key(window) {
                Some(self@.surfaces[window])
            } else {
                None
            }),
    {
        match self.surfaces.get(&window.0) {
            Some(size) => Some(*size),
            None => None,
        }
    }

    /// How many render pipelines have been made.
    pub fn pipeline_count(&self) -> (n: usize)
        ensures
            n == self@.pipelines.len(),
    {
        self.pipelines.len()
    }

    /// How many buffers have been made.
    pub fn buffer_count(&self) -> (n: usize)
        ensures
            n == self@.buffers.len(),
    {
        self.buffers.len()
    }

    /// How many textures have been made.
    pub fn texture_count(&self) -> (n: usize)
        ensures
            n == self@.textures.len(),
    {
        self.textures.len()
    }

    /// Gives the window a surface of the given size.
    pub fn init_surface(&mut self, window: GKWindowId, width: u32, height: u32) -> (r: Result<(), GfxError>)
        ensures
            r is Ok,
            final(self)@ == old(self)@.init_surface(window, width, height),
    {
        self.surfaces.insert(window.0, (width, height));
        proof {
            assert(self@.surfaces =~= old(self)@.surfaces.insert(window, (width, height)));
        }
        Ok(())
    }

    /// Gives the surface of the window a new size.
    pub fn resize(&mut self, window: GKWindowId, width: u32, height: u32)
        ensures
            final(self)@ == old(self)@.resize(window, width, height),
    {
        if self.surfaces.contains_key(&window.0) {
            self.surfaces.insert(window.0, (width, height));
            proof {
                assert(self@.surfaces =~= old(self)@.surfaces.insert(window, (width, height)));
            }
        }
    }

    /// Makes a render pipeline.
    pub fn create_render_pipeline(&mut self, desc: RenderPipelineDescriptor) -> (r: Result<
        RenderPipeline,
        GfxError,
    >)
        ensures
            final(self)@ == old(self)@.create_render_pipeline(desc).0,
            r == old(self)@.create_render_pipeline(desc).1,
    {
        if desc.shader.is_empty() {
            return Err(GfxError::EmptyShader);
        }
        let index = self.pipelines.len();
        let stored = StoredPipeline {
            label: keep_label(desc.label),
            shader: desc.shader.to_owned(),
            vertex_layout: desc.vertex_layout,
            index_format: desc.index_format,
            primitive: desc.primitive,
        };
        self.pipelines.push(stored);
        proof {
            assert(self@.pipelines =~= old(self)@.pipelines.push(stored@));
            assert(self@.surfaces =~= old(self)@.surfaces);
        }
        Ok(RenderPipeline { index })
    }

    /// Makes a buffer.
    pub fn create_buffer(&mut self, desc: BufferDescriptor) -> (r: Result<Buffer, GfxError>)
        ensures
            final(self)@ == old(self)@.create_buffer(desc).0,
            r == Ok::<Buffer, GfxError>(old(self)@.create_buffer(desc).1),
    {
        let index = self.buffers.len();
        let size = desc.content.len();
        let stored = StoredBuffer { label: keep_label(desc.label), usage: desc.usage, size };
        self.buffers.push(stored);
        proof {
            assert(self@.buffers =~= old(self)@.buffers.push(stored@));
            assert(self@.surfaces =~= old(self)@.surfaces);
        }
        Ok(Buffer { index, usage: desc.usage, size })
    }

    /// Makes a texture, with or without pixels.
    pub fn create_texture(&mut self, desc: TextureDescriptor, data: Option<TextureData>) -> (r: Result<
        Texture,
        GfxError,
    >)
        ensures
            final(self)@ == old(self)@.create_texture(desc, pixels_view(data)).0,
            r == old(self)@.create_texture(desc, pixels_view(data)).1,
    {
        let (width, height, size) = match data {
            Some(pixels) => {
                if !pixels.is_complete() {
                    return Err(
                        GfxError::DataSize {
                            width: pixels.width,
                            height: pixels.height,
                            found: pixels.bytes.len(),
                        },
                    );
                }
                (pixels.width, pixels.height, pixels.bytes.len())
            },
            None => (0, 0, 0),
        };
        let index = self.textures.len();
        let stored = StoredTexture { label: keep_label(desc.label), format: desc.format, width, height, size };
        self.textures.push(stored);
        proof {
            assert(self@.textures =~= old(self)@.textures.push(stored@));
            assert(self@.surfaces =~= old(self)@.surfaces);
        }
        Ok(Texture { index, width, height, format: desc.format })
    }

    /// Renders a frame to the window.
    pub fn render(&mut self, window: GKWindowId, renderer: &Renderer) -> (r: Result<(), GfxError>)
        ensures
            final(self)@ == old(self)@,
            r == old(self)@.render(window),
    {
        if self.surfaces.contains_key(&window.0) {
            Ok(())
        } else {
            Err(GfxError::NoSurface(window))
        }
    }
}

/// One pass of a frame: the pipeline it draws with and the number of vertices.
#[derive(Debug, Copy, Clone, PartialEq, Eq, Structural)]
pub struct RenderPass {
    pub pipeline: RenderPipeline,
    pub vertices: u32,
}

/// The passes of one frame, in drawing order.
#[derive(Debug)]
pub struct Renderer {
    pub passes: Vec<RenderPass>,
}

} // verus!
