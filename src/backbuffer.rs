//! The backbuffer pass: the sink of the graph, copying its origin texture into
//! a target texture of the viewport's size.
use vstd::prelude::*;
use crate::handles::TextureHandle;
use crate::resource::{BuildError, Resource};
use crate::texture::{TextureData, TextureDescription};
use crate::gpu::GpuContext;

verus! {

/// `origin` is an index into the textures of [`crate::Resources`].
#[derive(Copy, Clone, Debug, PartialEq, Eq, Structural)]
pub struct BackbufferPassDescription {
    pub origin: Option<usize>,
    pub width: u32,
    pub height: u32,
}

#[derive(Copy, Clone, Debug, PartialEq, Eq, Structural)]
pub struct BackbufferPassData {
    pub target: TextureData,
}

pub type BackbufferPass = Resource<BackbufferPassDescription, BackbufferPassData>;

impl Resource<BackbufferPassDescription, BackbufferPassData> {
    /// A pass with no origin and an empty target, not built yet.
    pub fn empty() -> (r: BackbufferPass)
        ensures
            r.desc == (BackbufferPassDescription { origin: None, width: 0, height: 0 }),
            r.data.is_none(),
            r.dirty,
    {
        Resource::new(BackbufferPassDescription { origin: None, width: 0, height: 0 })
    }

    /// Sets the texture to show; only a different texture marks the pass dirty.
    pub fn set_origin(&mut self, origin: usize)
        ensures
            final(self).desc == (BackbufferPassDescription { origin: Some(origin), ..old(self).desc }),
            final(self).dirty == (old(self).dirty || old(self).desc.origin != Some(origin)),
            final(self).data == old(self).data,
    {
        if self.desc.origin != Some(origin) {
            self.desc.origin = Some(origin);
            self.dirty = true;
        }
    }

    /// Sets the viewport size; only a new size marks the pass dirty.
    pub fn set_size(&mut self, width: u32, height: u32)
        ensures
            final(self).desc == (BackbufferPassDescription { width, height, ..old(self).desc }),
            final(self).dirty == (old(self).dirty || old(self).desc.width != width || old(self).desc.height != height),
            final(self).data == old(self).data,
    {
        if self.desc.width != width || self.desc.height != height {
            self.desc.width = width;
            self.desc.height = height;
            self.dirty = true;
        }
    }

    pub fn get_width(&self) -> (r: u32)
        ensures
            r == self.desc.width,
    {
        self.desc.width
    }

    pub fn get_height(&self) -> (r: u32)
        ensures
            r == self.desc.height,
    {
        self.desc.height
    }

    /// The target texture to display, once built.
    pub fn get_view_handle(&self) -> (r: Option<TextureHandle>)
        ensures
            r == (match self.data { Some(d) => Some(d.target.texture), None => None::<TextureHandle> }),
    {
        match &self.data {
            Some(d) => Some(d.target.texture),
            None => None,
        }
    }

    /// Builds the target texture at the current size if it was never built or
    /// the description changed.
    pub fn update_data<G: GpuContext>(&mut self, gpu: &mut G) -> (r: Result<(), BuildError>)
        ensures
            final(self).desc == old(self).desc,
            !old(self).needs_build() ==> r is Ok && *final(self) == *old(self),
            r is Ok ==> final(self).data.is_some() && !final(self).dirty,
            r is Err ==> final(self).desc == old(self).desc && final(self).data == old(self).data && final(self).dirty,
    {
        if self.needs_update() {
            let target = TextureDescription::sized(self.desc.width, self.desc.height);
            let built = match gpu.create_texture(&target) {
                Ok(t) => Ok(BackbufferPassData { target: t }),
                Err(e) => Err(e),
            };
            self.finish_update(built)
        } else {
            Ok(())
        }
    }
}

} // verus!
