//! Buffers: a size and a format, rebuilt only when either changes.
use vstd::prelude::*;
use crate::handles::RawBufferHandle;
use crate::resource::{BuildError, Resource};
use crate::gpu::GpuContext;

verus! {

#[derive(Copy, Clone, Debug, PartialEq, Eq, Structural)]
pub struct BufferDescription {
    pub size: u32,
    pub format: u32,
}

#[derive(Copy, Clone, Debug, PartialEq, Eq, Structural)]
pub struct BufferData {
    pub buffer: RawBufferHandle,
}

pub type Buffer = Resource<BufferDescription, BufferData>;

impl Resource<BufferDescription, BufferData> {
    /// A zero-sized buffer, not built yet.
    pub fn empty() -> (r: Buffer)
        ensures
            r.desc == (BufferDescription { size: 0, format: 0 }),
            r.data.is_none(),
            r.dirty,
    {
        Resource::new(BufferDescription { size: 0, format: 0 })
    }

    pub fn set_size(&mut self, size: u32)
        ensures
            final(self).desc == (BufferDescription { size, ..old(self).desc }),
            final(self).dirty == (old(self).dirty || old(self).desc.size != size),
            final(self).data == old(self).data,
    {
        if self.desc.size != size {
            self.desc.size = size;
            self.dirty = true;
        }
    }

    pub fn set_format(&mut self, format: u32)
        ensures
            final(self).desc == (BufferDescription { format, ..old(self).desc }),
            final(self).dirty == (old(self).dirty || old(self).desc.format != format),
            final(self).data == old(self).data,
    {
        if self.desc.format != format {
            self.desc.format = format;
            self.dirty = true;
        }
    }

    /// Builds the buffer if it was never built or its description changed.
    pub fn update_data<G: GpuContext>(&mut self, gpu: &mut G) -> (r: Result<(), BuildError>)
        ensures
            final(self).desc == old(self).desc,
            !old(self).needs_build() ==> r is Ok && *final(self) == *old(self),
            r is Ok ==> final(self).data.is_some() && !final(self).dirty,
            r is Err ==> final(self).desc == old(self).desc && final(self).data == old(self).data && final(self).dirty,
    {
        if self.needs_update() {
            let built = gpu.create_buffer(&self.desc);
            self.finish_update(built)
        } else {
            Ok(())
        }
    }
}

} // verus!
