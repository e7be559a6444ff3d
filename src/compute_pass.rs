//! Compute passes: a compute pipeline reading shader resource views and
//! writing one output texture.
use vstd::prelude::*;
use crate::handles::ComputePassHandle;
use crate::resource::Resource;

verus! {

/// `output` is the texture the pass writes; it belongs to the pass and is
/// `width` x `height`.
#[derive(Clone, Debug)]
pub struct ComputePassDescription {
    pub shader_resource_view: Vec<Option<usize>>,
    pub output: usize,
    pub width: u32,
    pub height: u32,
}

#[derive(Copy, Clone, Debug, PartialEq, Eq, Structural)]
pub struct ComputePassData {
    pub pipeline: ComputePassHandle,
}

pub type ComputePass = Resource<ComputePassDescription, ComputePassData>;

impl Resource<ComputePassDescription, ComputePassData> {
    /// A pass writing into texture `output`, with `views` shader resource
    /// view slots, not built yet.
    pub fn with_output(output: usize, views: usize) -> (r: ComputePass)
        ensures
            r.desc.output == output,
            r.desc.shader_resource_view@ == Seq::new(views as nat, |j: int| None::<usize>),
            r.desc.width == 0,
            r.desc.height == 0,
            r.data.is_none(),
            r.dirty,
    {
        let mut srv: Vec<Option<usize>> = Vec::new();
        let mut i: usize = 0;
        while i < views
            invariant
                0 <= i <= views,
                srv@ =~= Seq::new(i as nat, |j: int| None::<usize>),
            decreases views - i,
        {
            srv.push(None);
            i = i + 1;
        }
        Resource::new(ComputePassDescription { shader_resource_view: srv, output, width: 0, height: 0 })
    }

    /// Binds a texture (or nothing) at an existing slot; only a change marks
    /// the pass dirty.
    pub fn set_shader_resource_view(&mut self, index: u32, srv: Option<usize>)
        requires
            (index as int) < old(self).desc.shader_resource_view@.len(),
        ensures
            final(self).desc.shader_resource_view@ == old(self).desc.shader_resource_view@.update(index as int, srv),
            final(self).dirty == (old(self).dirty || old(self).desc.shader_resource_view@[index as int] != srv),
            old(self).desc.shader_resource_view@[index as int] == srv ==> *final(self) == *old(self),
            final(self).desc.output == old(self).desc.output,
            final(self).desc.width == old(self).desc.width,
            final(self).desc.height == old(self).desc.height,
            final(self).data == old(self).data,
    {
        let idx = index as usize;
        if self.desc.shader_resource_view[idx] != srv {
            self.desc.shader_resource_view.set(idx, srv);
            self.dirty = true;
        } else {
            assert(self.desc.shader_resource_view@ =~= old(self).desc.shader_resource_view@.update(index as int, srv));
        }
    }

    /// Sets the size of the output texture; only a new size marks the pass
    /// dirty.
    pub fn set_size(&mut self, width: u32, height: u32)
        ensures
            final(self).desc == (ComputePassDescription { width, height, ..old(self).desc }),
            final(self).dirty == (old(self).dirty || old(self).desc.width != width || old(self).desc.height != height),
            final(self).data == old(self).data,
    {
        if self.desc.width != width || self.desc.height != height {
            self.desc.width = width;
            self.desc.height = height;
            self.dirty = true;
        }
    }
}

} // verus!
