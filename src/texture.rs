//! Textures: where their pixels come from, their size, and their dirty tracking.
use vstd::prelude::*;
use crate::handles::TextureHandle;
use crate::resource::{BuildError, Resource};
use crate::gpu::GpuContext;

verus! {

/// Where the pixels of a texture come from.
#[derive(Clone, Debug)]
pub enum TextureSource {
    /// No initial content (a render target).
    Empty,
    /// Raw RGBA8 pixels, four bytes per texel.
    Bytes(Vec<u8>),
    /// An image file, decoded by the GPU context.
    Path(String),
}

/// Equality of sources by content.
pub open spec fn same_source(a: TextureSource, b: TextureSource) -> bool {
    match (a, b) {
        (TextureSource::Empty, TextureSource::Empty) => true,
        (TextureSource::Bytes(x), TextureSource::Bytes(y)) => x@ == y@,
        (TextureSource::Path(x), TextureSource::Path(y)) => x@ == y@,
        _ => false,
    }
}

/// Compares two byte vectors element by element.
pub fn bytes_equal(a: &Vec<u8>, b: &Vec<u8>) -> (r: bool)
    ensures
        r == (a@ == b@),
{
    if a.len() != b.len() {
        return false;
    }
    let mut i: usize = 0;
    while i < a.len()
        invariant
            a@.len() == b@.len(),
            0 <= i <= a@.len(),
            forall|j: int| 0 <= j < i ==> a@[j] == b@[j],
        decreases a@.len() - i,
    {
        if a[i] != b[i] {
            return false;
        }
        i = i + 1;
    }
    assert(a@ =~= b@);
    true
}

pub fn sources_equal(a: &TextureSource, b: &TextureSource) -> (r: bool)
    ensures
        r == same_source(*a, *b),
{
    match (a, b) {
        (TextureSource::Empty, TextureSource::Empty) => true,
        (TextureSource::Bytes(x), TextureSource::Bytes(y)) => bytes_equal(x, y),
        (TextureSource::Path(x), TextureSource::Path(y)) => *x == *y,
        _ => false,
    }
}

/// The pixels (RGBA8, row by row), width and height of an encoded image
/// (PNG, JPEG). JPEG is decoded with the platform-independent code path, so
/// the pixels depend on the bytes alone.
pub uninterp spec fn decoded_rgba(encoded: Seq<u8>) -> Option<(Seq<u8>, u32, u32)>;

/// Relies on `image::load_from_memory` to decode an encoded image, and on
/// `DynamicImage::to_rgba8` with `ImageBuffer::dimensions` and
/// `ImageBuffer::into_raw` to read it as RGBA8 pixels. The result depends on
/// the bytes alone when decoding succeeds; a failure (an unknown format, a
/// corrupt file, or the decoder failing to start a worker thread) says
/// nothing about the bytes.
#[verifier::external_body]
fn decode_rgba(encoded: &[u8]) -> (r: Result<(Vec<u8>, u32, u32), String>)
    ensures
        r matches Ok((pixels, width, height)) ==> decoded_rgba(encoded@) == Some((pixels@, width, height)),
{
    match image::load_from_memory(encoded) {
        Ok(img) => {
            let rgba = img.to_rgba8();
            let (width, height) = rgba.dimensions();
            Ok((rgba.into_raw(), width, height))
        },
        Err(e) => Err(e.to_string()),
    }
}

#[derive(Clone, Debug)]
pub struct TextureDescription {
    pub source: TextureSource,
    pub width: u32,
    pub height: u32,
    pub label: String,
    pub srgb: bool,
}

/// The built texture: the GPU object's identifier.
#[derive(Copy, Clone, Debug, PartialEq, Eq, Structural)]
pub struct TextureData {
    pub texture: TextureHandle,
}

pub type Texture = Resource<TextureDescription, TextureData>;

impl TextureDescription {
    /// An empty `width` x `height` texture without initial content.
    pub fn sized(width: u32, height: u32) -> (r: Self)
        ensures
            r.source is Empty,
            r.width == width,
            r.height == height,
            r.label@.len() == 0,
            !r.srgb,
    {
        TextureDescription { source: TextureSource::Empty, width, height, label: String::new(), srgb: false }
    }

    /// A texture initialised from an encoded image (PNG, JPEG).
    pub fn from_bytes(bytes: &[u8], label: &str, srgb: bool) -> (r: Result<Self, BuildError>)
        ensures
            r matches Ok(d) ==> decoded_rgba(bytes@) matches Some((pixels, width, height))
                && d.source matches TextureSource::Bytes(b)
                && b@ == pixels && d.width == width && d.height == height && d.srgb == srgb && d.label@ == label@,
            r is Err ==> r matches Err(BuildError::Decode(_)),
    {
        match decode_rgba(bytes) {
            Ok((pixels, width, height)) => Self::from_raw_memory(pixels.as_slice(), (width, height), Some(label), srgb),
            Err(message) => Err(BuildError::Decode(message)),
        }
    }

    /// A texture initialised from raw RGBA8 pixels.
    pub fn from_raw_memory(rgba: &[u8], dimensions: (u32, u32), label: Option<&str>, srgb: bool) -> (r: Result<Self, BuildError>)
        ensures
            r matches Ok(d) && d.source matches TextureSource::Bytes(b) && b@ == rgba@
                && d.width == dimensions.0 && d.height == dimensions.1 && d.srgb == srgb
                && d.label@ == (match label { Some(l) => l@, None => "UNKNOWN"@ }),
    {
        let mut bytes: Vec<u8> = Vec::new();
        let mut i: usize = 0;
        while i < rgba.len()
            invariant
                0 <= i <= rgba@.len(),
                bytes@ == rgba@.subrange(0, i as int),
            decreases rgba@.len() - i,
        {
            bytes.push(rgba[i]);
            i = i + 1;
        }
        assert(bytes@ =~= rgba@);
        let name = match label {
            Some(l) => l.to_owned(),
            None => "UNKNOWN".to_owned(),
        };
        Ok(TextureDescription { source: TextureSource::Bytes(bytes), width: dimensions.0, height: dimensions.1, label: name, srgb })
    }

    pub fn default_black_texture() -> (r: Result<Self, BuildError>)
        ensures
            r matches Ok(d) && d.source matches TextureSource::Bytes(b) && b@ == seq![0u8, 0, 0, 255]
                && d.width == 1 && d.height == 1 && d.srgb
                && d.label@ == "DefaultBlackTexture"@,
    {
        let rgba: Vec<u8> = vec![0, 0, 0, 255];
        Self::from_raw_memory(rgba.as_slice(), (1, 1), Some("DefaultBlackTexture"), true)
    }

    pub fn default_white_texture() -> (r: Result<Self, BuildError>)
        ensures
            r matches Ok(d) && d.source matches TextureSource::Bytes(b) && b@ == seq![255u8, 255, 255, 255]
                && d.width == 1 && d.height == 1 && d.srgb
                && d.label@ == "DefaultWhiteTexture"@,
    {
        let rgba: Vec<u8> = vec![255, 255, 255, 255];
        Self::from_raw_memory(rgba.as_slice(), (1, 1), Some("DefaultWhiteTexture"), true)
    }

    pub fn default_missing_texture() -> (r: Result<Self, BuildError>)
        ensures
            r matches Ok(d) && d.source matches TextureSource::Bytes(b) && b@ == seq![255u8, 0, 255, 255]
                && d.width == 1 && d.height == 1 && d.srgb
                && d.label@ == "DefaultMissingTexture"@,
    {
        let rgba: Vec<u8> = vec![255, 0, 255, 255];
        Self::from_raw_memory(rgba.as_slice(), (1, 1), Some("DefaultMissingTexture"), true)
    }

    pub fn default_normal_texture() -> (r: Result<Self, BuildError>)
        ensures
            r matches Ok(d) && d.source matches TextureSource::Bytes(b) && b@ == seq![0u8, 127, 0, 255]
                && d.width == 1 && d.height == 1 && !d.srgb
                && d.label@ == "DefaultNormalTexture"@,
    {
        let rgba: Vec<u8> = vec![0, 127, 0, 255];
        Self::from_raw_memory(rgba.as_slice(), (1, 1), Some("DefaultNormalTexture"), false)
    }
}

impl Resource<TextureDescription, TextureData> {
    /// A texture with the given description, not built yet.
    pub fn from_description(desc: TextureDescription) -> (r: Texture)
        ensures
            r.desc == desc,
            r.data.is_none(),
            r.dirty,
    {
        Resource::new(desc)
    }

    pub fn set_width(&mut self, width: u32)
        ensures
            final(self).desc.width == width,
            final(self).dirty == (old(self).dirty || old(self).desc.width != width),
            final(self).desc == (TextureDescription { width, ..old(self).desc }),
            final(self).data == old(self).data,
    {
        if self.desc.width != width {
            self.desc.width = width;
            self.dirty = true;
        }
    }

    pub fn set_height(&mut self, height: u32)
        ensures
            final(self).desc.height == height,
            final(self).dirty == (old(self).dirty || old(self).desc.height != height),
            final(self).desc == (TextureDescription { height, ..old(self).desc }),
            final(self).data == old(self).data,
    {
        if self.desc.height != height {
            self.desc.height = height;
            self.dirty = true;
        }
    }

    pub fn set_size(&mut self, width: u32, height: u32)
        ensures
            final(self).desc.width == width,
            final(self).desc.height == height,
            final(self).dirty == (old(self).dirty || old(self).desc.width != width
                || old(self).desc.height != height),
            final(self).desc == (TextureDescription { width, height, ..old(self).desc }),
            final(self).data == old(self).data,
    {
        self.set_width(width);
        self.set_height(height);
    }

    /// Takes the pixels from an image file; only a different path marks the
    /// texture dirty.
    pub fn set_path(&mut self, path: String)
        ensures
            same_source(final(self).desc.source, TextureSource::Path(path)),
            same_source(old(self).desc.source, TextureSource::Path(path)) ==> *final(self) == *old(self),
            final(self).dirty == (old(self).dirty || !same_source(old(self).desc.source, TextureSource::Path(path))),
            final(self).desc.width == old(self).desc.width,
            final(self).desc.height == old(self).desc.height,
            final(self).data == old(self).data,
    {
        let src = TextureSource::Path(path);
        if !sources_equal(&self.desc.source, &src) {
            self.desc.source = src;
            self.dirty = true;
        }
    }

    /// Takes the pixels from raw RGBA8 bytes; only different bytes mark the
    /// texture dirty.
    pub fn set_bytes(&mut self, bytes: Vec<u8>)
        ensures
            same_source(final(self).desc.source, TextureSource::Bytes(bytes)),
            same_source(old(self).desc.source, TextureSource::Bytes(bytes)) ==> *final(self) == *old(self),
            final(self).dirty == (old(self).dirty || !same_source(old(self).desc.source, TextureSource::Bytes(bytes))),
            final(self).desc.width == old(self).desc.width,
            final(self).desc.height == old(self).desc.height,
            final(self).data == old(self).data,
    {
        let src = TextureSource::Bytes(bytes);
        if !sources_equal(&self.desc.source, &src) {
            self.desc.source = src;
            self.dirty = true;
        }
    }

    /// The GPU texture, once built.
    pub fn get_handle(&self) -> (r: Option<TextureHandle>)
        ensures
            r == (match self.data { Some(d) => Some(d.texture), None => None::<TextureHandle> }),
    {
        match &self.data {
            Some(d) => Some(d.texture),
            None => None,
        }
    }

    /// The view to sample or render the texture through, once built; the GPU
    /// context reaches a texture's view by the texture's identifier.
    pub fn get_view_handle(&self) -> (r: Option<TextureHandle>)
        ensures
            r == (match self.data { Some(d) => Some(d.texture), None => None::<TextureHandle> }),
    {
        self.get_handle()
    }

    /// Builds the texture if it was never built or its description changed.
    pub fn update_data<G: GpuContext>(&mut self, gpu: &mut G) -> (r: Result<(), BuildError>)
        ensures
            final(self).desc == old(self).desc,
            !old(self).needs_build() ==> r is Ok && *final(self) == *old(self),
            r is Ok ==> final(self).data.is_some() && !final(self).dirty,
            r is Err ==> final(self).desc == old(self).desc && final(self).data == old(self).data && final(self).dirty,
    {
        if self.needs_update() {
            let built = gpu.create_texture(&self.desc);
            self.finish_update(built)
        } else {
            Ok(())
        }
    }
}

} // verus!
