use vstd::prelude::*;

verus! {

/// How the pixels of a texture are stored.
#[derive(Debug, Copy, Clone, PartialEq, Eq, Structural)]
pub enum TextureFormat {
    Rgba8UnormSrgb,
    Depth32Float,
}

impl Default for TextureFormat {
    fn default() -> (format: Self)
        ensures
            format == TextureFormat::Rgba8UnormSrgb,
    {
        TextureFormat::Rgba8UnormSrgb
    }
}

/// What a texture is asked to be.
#[derive(Debug, Copy, Clone)]
pub struct TextureDescriptor<'a> {
    pub label: Option<&'a str>,
    pub format: TextureFormat,
}

impl<'a> Default for TextureDescriptor<'a> {
    fn default() -> (desc: Self)
        ensures
            desc.label.is_none(),
            desc.format == TextureFormat::Rgba8UnormSrgb,
    {
        TextureDescriptor { label: None, format: TextureFormat::Rgba8UnormSrgb }
    }
}

/// The pixels that a texture starts with: four bytes per pixel, row after row.
#[derive(Debug, Copy, Clone)]
pub struct TextureData<'a> {
    pub bytes: &'a [u8],
    pub width: u32,
    pub height: u32,
}

impl<'a> Default for TextureData<'a> {
    fn default() -> (data: Self)
        ensures
            data.bytes@.len() == 0,
            data.width == 0,
            data.height == 0,
    {
        let bytes: &[u8] = &[];
        TextureData { bytes, width: 0, height: 0 }
    }
}

impl<'a> TextureData<'a> {
    /// The bytes are exactly four per pixel.
    pub open spec fn fits(self) -> bool {
        self.bytes@.len() == 4 * self.width * self.height
    }

    /// Whether the bytes are exactly four per pixel.
    pub fn is_complete(&self) -> (b: bool)
        ensures
            b == self.fits(),
    {
        let len = self.bytes.len();
        proof {
            assert(self.width as u64 * self.height as u64 <= 0xFFFF_FFFF * 0xFFFF_FFFF) by (nonlinear_arith)
                requires
                    self.width <= 0xFFFF_FFFF,
                    self.height <= 0xFFFF_FFFF,
            ;
            assert(4 * self.width * self.height == 4 * (self.width * self.height)) by (nonlinear_arith);
        }
        let pixels: u64 = self.width as u64 * self.height as u64;
        len % 4 == 0 && (len / 4) as u64 == pixels
    }
}

/// What a sampler does outside the unit square.
#[derive(Debug, Copy, Clone, PartialEq, Eq, Structural)]
pub enum TextureWrap {
    Clamp,
    Repeat,
    MirrorRepeat,
}

impl Default for TextureWrap {
    fn default() -> (wrap: Self)
        ensures
            wrap == TextureWrap::Clamp,
    {
        TextureWrap::Clamp
    }
}

/// How a sampler reads between pixels.
#[derive(Debug, Copy, Clone, PartialEq, Eq, Structural)]
pub enum TextureFilter {
    Linear,
    Nearest,
}

impl Default for TextureFilter {
    fn default() -> (filter: Self)
        ensures
            filter == TextureFilter::Linear,
    {
        TextureFilter::Linear
    }
}

/// Marks the samplers of a backend.
pub trait GKSampler {
}

/// What a sampler is asked to be.
#[derive(Debug, Copy, Clone)]
pub struct SamplerDescriptor<'a> {
    pub label: Option<&'a str>,
    pub wrap_x: TextureWrap,
    pub wrap_y: TextureWrap,
    pub wrap_z: TextureWrap,
    pub mag_filter: TextureFilter,
    pub min_filter: TextureFilter,
    pub mipmap_filter: Option<TextureFilter>,
}

impl<'a> Default for SamplerDescriptor<'a> {
    fn default() -> (desc: Self)
        ensures
            desc.label.is_none(),
            desc.wrap_x == TextureWrap::Clamp,
            desc.wrap_y == TextureWrap::Clamp,
            desc.wrap_z == TextureWrap::Clamp,
            desc.mag_filter == TextureFilter::Linear,
            desc.min_filter == TextureFilter::Linear,
            desc.mipmap_filter.is_none(),
    {
        SamplerDescriptor {
            label: None,
            wrap_x: TextureWrap::Clamp,
            wrap_y: TextureWrap::Clamp,
            wrap_z: TextureWrap::Clamp,
            mag_filter: TextureFilter::Linear,
            min_filter: TextureFilter::Linear,
            mipmap_filter: None,
        }
    }
}

} // verus!
