//! Shaders: WGSL source text compiled into a shader module.
use vstd::prelude::*;
use crate::handles::ShaderModuleHandle;
use crate::resource::{BuildError, Resource};
use crate::gpu::GpuContext;

verus! {

#[derive(Clone, Debug)]
pub struct ShaderDescription {
    pub shader: String,
}

#[derive(Copy, Clone, Debug, PartialEq, Eq, Structural)]
pub struct ShaderData {
    pub module: ShaderModuleHandle,
}

pub type Shader = Resource<ShaderDescription, ShaderData>;

impl Resource<ShaderDescription, ShaderData> {
    /// A shader with the given source, not compiled yet.
    pub fn from_source(source: String) -> (r: Shader)
        ensures
            r.desc.shader == source,
            r.data.is_none(),
            r.dirty,
    {
        Resource::new(ShaderDescription { shader: source })
    }

    /// Replaces the source text; only a different text marks the shader dirty.
    pub fn set_source(&mut self, source: String)
        ensures
            final(self).desc.shader@ == source@,
            final(self).dirty == (old(self).dirty || old(self).desc.shader@ != source@),
            final(self).data == old(self).data,
    {
        if self.desc.shader != source {
            self.desc.shader = source;
            self.dirty = true;
        }
    }

    /// Compiles the shader if it was never compiled or its source changed.
    pub fn update_data<G: GpuContext>(&mut self, gpu: &mut G) -> (r: Result<(), BuildError>)
        ensures
            final(self).desc == old(self).desc,
            !old(self).needs_build() ==> r is Ok && *final(self) == *old(self),
            r is Ok ==> final(self).data.is_some() && !final(self).dirty,
            r is Err ==> final(self).desc == old(self).desc && final(self).data == old(self).data && final(self).dirty,
    {
        if self.needs_update() {
            let built = gpu.create_shader(&self.desc);
            self.finish_update(built)
        } else {
            Ok(())
        }
    }
}

} // verus!
