//! The arena that owns every resource of the graph. Nodes, values and
//! descriptions refer to resources by their index in the arena, so one
//! resource can be shared by many consumers without copies.
use vstd::prelude::*;
use crate::handles::{ShaderModuleHandle, TextureHandle};
use crate::resource::{BuildError, RecordError};
use crate::texture::{Texture, TextureDescription};
use crate::buffer::Buffer;
use crate::mesh::Mesh;
use crate::shader::Shader;
use crate::camera::Camera;
use crate::graphic_pass::{AttachmentDescription, GraphicPass, GraphicPassData};
use crate::compute_pass::{ComputePass, ComputePassData};
use crate::backbuffer::BackbufferPass;
use crate::gpu::{Command, ComputePassLayout, GpuContext, GraphicPassLayout};

verus! {

pub struct Resources {
    pub textures: Vec<Texture>,
    pub buffers: Vec<Buffer>,
    pub meshes: Vec<Mesh>,
    pub shaders: Vec<Shader>,
    pub cameras: Vec<Camera>,
    pub graphic_passes: Vec<GraphicPass>,
    pub compute_passes: Vec<ComputePass>,
    pub backbuffers: Vec<BackbufferPass>,
}

/// A texture that was built at the given size and is up to date.
pub open spec fn built_at(t: Texture, width: u32, height: u32) -> bool {
    t.data.is_some() && !t.dirty && t.desc.width == width && t.desc.height == height
}

/// Every slot of `views` binds a texture of `res` that is built.
pub open spec fn views_ready(res: &Resources, views: Seq<Option<usize>>) -> bool {
    forall|j: int| 0 <= j < views.len() ==> (#[trigger] views[j] matches Some(t)
        && t < res.textures@.len() && res.textures@[t as int].data.is_some())
}

/// The compiled module of shader `shader`, or why there is none.
pub open spec fn shader_module(res: &Resources, shader: Option<usize>, missing: BuildError) -> Result<ShaderModuleHandle, BuildError> {
    match shader {
        None => Err(missing),
        Some(s) => if s >= res.shaders@.len() {
            Err(BuildError::InvalidHandle)
        } else {
            match res.shaders@[s as int].data {
                Some(d) => Ok(d.module),
                None => Err(BuildError::DependencyNotBuilt),
            }
        },
    }
}

/// A view error: a slot without texture, a dangling index, or an unbuilt texture.
pub open spec fn is_view_error(e: BuildError) -> bool {
    e == BuildError::BindingNotSet || e == BuildError::InvalidHandle || e == BuildError::DependencyNotBuilt
}

impl Resources {
    /// Every pass owns its own, distinct attachment textures, which exist.
    pub open spec fn wf(&self) -> bool {
        &&& forall|p: int| 0 <= p < self.graphic_passes@.len() ==> {
            let d = #[trigger] self.graphic_passes@[p].desc;
            &&& d.render_target_desc@.len() >= d.render_targets@.len()
            &&& d.render_target_desc@.len() <= u32::MAX + 1
            &&& forall|i: int| 0 <= i < d.render_targets@.len() ==> d.render_targets@[i] < self.textures@.len()
            &&& forall|i: int, j: int| 0 <= i < j < d.render_targets@.len() ==> d.render_targets@[i] != d.render_targets@[j]
        }
        &&& forall|p: int| 0 <= p < self.compute_passes@.len() ==>
            (#[trigger] self.compute_passes@[p]).desc.output < self.textures@.len()
    }

    /// Same number of resources of every kind.
    pub open spec fn same_shape(&self, other: &Resources) -> bool {
        &&& self.textures@.len() == other.textures@.len()
        &&& self.buffers@.len() == other.buffers@.len()
        &&& self.meshes@.len() == other.meshes@.len()
        &&& self.shaders@.len() == other.shaders@.len()
        &&& self.cameras@.len() == other.cameras@.len()
        &&& self.graphic_passes@.len() == other.graphic_passes@.len()
        &&& self.compute_passes@.len() == other.compute_passes@.len()
        &&& self.backbuffers@.len() == other.backbuffers@.len()
    }

    /// The attachment lists of the passes, which no build or setter changes.
    pub open spec fn same_attachments(&self, other: &Resources) -> bool {
        &&& forall|p: int| 0 <= p < self.graphic_passes@.len() ==>
            (#[trigger] self.graphic_passes@[p]).desc.render_targets == other.graphic_passes@[p].desc.render_targets
            && self.graphic_passes@[p].desc.render_target_desc@.len() == other.graphic_passes@[p].desc.render_target_desc@.len()
        &&& forall|p: int| 0 <= p < self.compute_passes@.len() ==>
            (#[trigger] self.compute_passes@[p]).desc.output == other.compute_passes@[p].desc.output
    }

    pub fn new() -> (r: Self)
        ensures
            r.wf(),
            r.textures@.len() == 0,
            r.buffers@.len() == 0,
            r.meshes@.len() == 0,
            r.shaders@.len() == 0,
            r.cameras@.len() == 0,
            r.graphic_passes@.len() == 0,
            r.compute_passes@.len() == 0,
            r.backbuffers@.len() == 0,
    {
        Resources {
            textures: Vec::new(),
            buffers: Vec::new(),
            meshes: Vec::new(),
            shaders: Vec::new(),
            cameras: Vec::new(),
            graphic_passes: Vec::new(),
            compute_passes: Vec::new(),
            backbuffers: Vec::new(),
        }
    }

    /// The GPU textures bound to `views`, or why they cannot be bound: a slot
    /// without texture, a dangling index, or a texture not built yet.
    pub fn built_views(&self, views: &Vec<Option<usize>>) -> (r: Result<Vec<TextureHandle>, BuildError>)
        ensures
            r is Ok <==> views_ready(self, views@),
            r matches Err(e) ==> is_view_error(e),
            r matches Ok(v) ==> v@.len() == views@.len() && forall|j: int| 0 <= j < views@.len() ==>
                #[trigger] v@[j] == self.textures@[views@[j]->Some_0 as int].data->Some_0.texture,
    {
        let mut out: Vec<TextureHandle> = Vec::new();
        let mut i: usize = 0;
        while i < views.len()
            invariant
                0 <= i <= views@.len(),
                out@.len() == i,
                forall|j: int| 0 <= j < i ==> (#[trigger] views@[j] matches Some(t)
                    && t < self.textures@.len() && self.textures@[t as int].data.is_some()),
                forall|j: int| 0 <= j < i ==>
                    #[trigger] out@[j] == self.textures@[views@[j]->Some_0 as int].data->Some_0.texture,
            decreases views@.len() - i,
        {
            match views[i] {
                None => return Err(BuildError::BindingNotSet),
                Some(t) => {
                    if t >= self.textures.len() {
                        return Err(BuildError::InvalidHandle);
                    }
                    match &self.textures[t].data {
                        None => return Err(BuildError::DependencyNotBuilt),
                        Some(d) => out.push(d.texture),
                    }
                },
            }
            i = i + 1;
        }
        Ok(out)
    }

    /// The compiled module of shader `shader`, or `missing` when there is none.
    pub fn built_shader(&self, shader: Option<usize>, missing: BuildError) -> (r: Result<ShaderModuleHandle, BuildError>)
        ensures
            r == shader_module(self, shader, missing),
    {
        match shader {
            None => Err(missing),
            Some(s) => {
                if s >= self.shaders.len() {
                    Err(BuildError::InvalidHandle)
                } else {
                    match &self.shaders[s].data {
                        Some(d) => Ok(d.module),
                        None => Err(BuildError::DependencyNotBuilt),
                    }
                }
            },
        }
    }

    /// Resizes and builds the attachment textures of graphic pass `id`.
    fn update_attachments<G: GpuContext>(&mut self, id: usize, gpu: &mut G) -> (r: Result<Vec<TextureHandle>, BuildError>)
        requires
            old(self).wf(),
            id < old(self).graphic_passes@.len(),
        ensures
            final(self).wf(),
            final(self).same_shape(old(self)),
            final(self).same_attachments(old(self)),
            final(self).graphic_passes == old(self).graphic_passes,
            final(self).compute_passes == old(self).compute_passes,
            final(self).buffers == old(self).buffers,
            final(self).meshes == old(self).meshes,
            final(self).shaders == old(self).shaders,
            final(self).cameras == old(self).cameras,
            final(self).backbuffers == old(self).backbuffers,
            forall|t: int| 0 <= t < old(self).textures@.len()
                && !old(self).graphic_passes@[id as int].desc.render_targets@.contains(t as usize)
                ==> final(self).textures@[t] == old(self).textures@[t],
            r matches Ok(v) ==> {
                let d = old(self).graphic_passes@[id as int].desc;
                &&& v@.len() == d.render_targets@.len()
                &&& forall|i: int| 0 <= i < d.render_targets@.len() ==> {
                    let tex = #[trigger] final(self).textures@[d.render_targets@[i] as int];
                    built_at(tex, d.render_target_desc@[i].width, d.render_target_desc@[i].height)
                    && v@[i] == tex.data->Some_0.texture
                }
            },
    {
        let ghost d = self.graphic_passes@[id as int].desc;
        let n = self.graphic_passes[id].desc.render_targets.len();
        let mut targets: Vec<TextureHandle> = Vec::new();
        let mut i: usize = 0;
        assert(self.graphic_passes@[id as int].desc == d);
        while i < n
            invariant
                0 <= i <= n,
                n == d.render_targets@.len(),
                d.render_target_desc@.len() >= n,
                forall|a: int| 0 <= a < n ==> d.render_targets@[a] < self.textures@.len(),
                forall|a: int, b: int| 0 <= a < b < n ==> d.render_targets@[a] != d.render_targets@[b],
                self.graphic_passes == old(self).graphic_passes,
                self.graphic_passes@[id as int].desc == d,
                id < self.graphic_passes@.len(),
                self.compute_passes == old(self).compute_passes,
                self.buffers == old(self).buffers,
                self.meshes == old(self).meshes,
                self.shaders == old(self).shaders,
                self.cameras == old(self).cameras,
                self.backbuffers == old(self).backbuffers,
                self.textures@.len() == old(self).textures@.len(),
                old(self).wf(),
                targets@.len() == i,
                forall|t: int| 0 <= t < old(self).textures@.len()
                    && !d.render_targets@.subrange(0, i as int).contains(t as usize)
                    ==> self.textures@[t] == old(self).textures@[t],
                forall|a: int| 0 <= a < i ==> {
                    let tex = #[trigger] self.textures@[d.render_targets@[a] as int];
                    built_at(tex, d.render_target_desc@[a].width, d.render_target_desc@[a].height)
                    && targets@[a] == tex.data->Some_0.texture
                },
            decreases n - i,
        {
            let t = self.graphic_passes[id].desc.render_targets[i];
            let size = self.graphic_passes[id].desc.render_target_desc[i];
            let ghost before = self.textures@;
            self.textures[t].set_size(size.width, size.height);
            let res = self.textures[t].update_data(gpu);
            match res {
                Err(e) => {
                    return Err(e);
                },
                Ok(()) => {},
            }
            match &self.textures[t].data {
                Some(data) => targets.push(data.texture),
                None => {},
            }
            assert forall|tt: int| 0 <= tt < old(self).textures@.len()
                && !d.render_targets@.subrange(0, i + 1).contains(tt as usize)
                implies self.textures@[tt] == old(self).textures@[tt] by {
                assert(d.render_targets@.subrange(0, i + 1)[i as int] == t);
                if d.render_targets@.subrange(0, i as int).contains(tt as usize) {
                    let k = choose|k: int| 0 <= k < i && d.render_targets@.subrange(0, i as int)[k] == tt as usize;
                    assert(d.render_targets@.subrange(0, i + 1)[k] == tt as usize);
                }
            }
            i = i + 1;
        }
        assert(d.render_targets@.subrange(0, n as int) =~= d.render_targets@);
        Ok(targets)
    }

    /// Builds graphic pass `id` if it was never built or its description
    /// changed: its shader resource views and shaders must already be built;
    /// its attachment textures are resized and built first.
    pub fn update_graphic_pass<G: GpuContext>(&mut self, id: usize, gpu: &mut G) -> (r: Result<(), BuildError>)
        requires
            old(self).wf(),
            id < old(self).graphic_passes@.len(),
        ensures
            final(self).wf(),
            final(self).same_shape(old(self)),
            final(self).same_attachments(old(self)),
            final(self).compute_passes == old(self).compute_passes,
            final(self).buffers == old(self).buffers,
            final(self).meshes == old(self).meshes,
            final(self).shaders == old(self).shaders,
            final(self).cameras == old(self).cameras,
            final(self).backbuffers == old(self).backbuffers,
            forall|p: int| 0 <= p < old(self).graphic_passes@.len() && p != id ==>
                final(self).graphic_passes@[p] == old(self).graphic_passes@[p],
            final(self).graphic_passes@[id as int].desc == old(self).graphic_passes@[id as int].desc,
            forall|t: int| 0 <= t < old(self).textures@.len()
                && !old(self).graphic_passes@[id as int].desc.render_targets@.contains(t as usize)
                ==> final(self).textures@[t] == old(self).textures@[t],
            !old(self).graphic_passes@[id as int].needs_build() ==> r is Ok && *final(self) == *old(self),
            r is Err ==> final(self).graphic_passes@[id as int].data == old(self).graphic_passes@[id as int].data
                && final(self).graphic_passes@[id as int].needs_build(),
            ({
                let p = old(self).graphic_passes@[id as int];
                p.needs_build() && !views_ready(old(self), p.desc.shader_resource_view@) ==>
                    r is Err && is_view_error(r->Err_0) && *final(self) == *old(self)
            }),
            ({
                let p = old(self).graphic_passes@[id as int];
                p.needs_build() && views_ready(old(self), p.desc.shader_resource_view@)
                    && shader_module(old(self), p.desc.vertex_shader, BuildError::NoVertexShader) is Err ==>
                    r == Err::<(), BuildError>(shader_module(old(self), p.desc.vertex_shader, BuildError::NoVertexShader)->Err_0)
                    && *final(self) == *old(self)
            }),
            ({
                let p = old(self).graphic_passes@[id as int];
                p.needs_build() && views_ready(old(self), p.desc.shader_resource_view@)
                    && shader_module(old(self), p.desc.vertex_shader, BuildError::NoVertexShader) is Ok
                    && shader_module(old(self), p.desc.fragment_shader, BuildError::NoFragmentShader) is Err ==>
                    r == Err::<(), BuildError>(shader_module(old(self), p.desc.fragment_shader, BuildError::NoFragmentShader)->Err_0)
                    && *final(self) == *old(self)
            }),
            ({
                let p = old(self).graphic_passes@[id as int];
                p.needs_build() && views_ready(old(self), p.desc.shader_resource_view@)
                    && shader_module(old(self), p.desc.vertex_shader, BuildError::NoVertexShader) is Ok
                    && shader_module(old(self), p.desc.fragment_shader, BuildError::NoFragmentShader) is Ok
                    && p.desc.render_target_desc@.len() != p.desc.render_targets@.len() ==>
                    r == Err::<(), BuildError>(BuildError::AttachmentMismatch) && *final(self) == *old(self)
            }),
            r is Ok && old(self).graphic_passes@[id as int].needs_build() ==>
                old(self).graphic_passes@[id as int].desc.render_target_desc@.len()
                    == old(self).graphic_passes@[id as int].desc.render_targets@.len(),
            r is Ok ==> {
                let d = old(self).graphic_passes@[id as int].desc;
                &&& final(self).graphic_passes@[id as int].data.is_some()
                &&& !final(self).graphic_passes@[id as int].dirty
                &&& (old(self).graphic_passes@[id as int].needs_build() ==>
                    forall|i: int| 0 <= i < d.render_targets@.len() ==>
                        built_at(#[trigger] final(self).textures@[d.render_targets@[i] as int],
                            d.render_target_desc@[i].width, d.render_target_desc@[i].height))
            },
    {
        if !self.graphic_passes[id].needs_update() {
            return Ok(());
        }
        let views = self.built_views(&self.graphic_passes[id].desc.shader_resource_view);
        let views = match views {
            Ok(v) => v,
            Err(e) => return Err(e),
        };
        let vs = self.built_shader(self.graphic_passes[id].desc.vertex_shader, BuildError::NoVertexShader);
        let vs = match vs {
            Ok(m) => m,
            Err(e) => return Err(e),
        };
        let fs = self.built_shader(self.graphic_passes[id].desc.fragment_shader, BuildError::NoFragmentShader);
        let fs = match fs {
            Ok(m) => m,
            Err(e) => return Err(e),
        };
        if self.graphic_passes[id].desc.render_target_desc.len() != self.graphic_passes[id].desc.render_targets.len() {
            return Err(BuildError::AttachmentMismatch);
        }
        let targets = self.update_attachments(id, gpu);
        let targets = match targets {
            Ok(t) => t,
            Err(e) => return Err(e),
        };
        let layout = GraphicPassLayout {
            vertex_shader: vs,
            fragment_shader: fs,
            shader_resource_views: views,
            render_targets: targets,
        };
        let built = match gpu.create_graphic_pass(&layout) {
            Ok(pipeline) => Ok(GraphicPassData { pipeline }),
            Err(e) => Err(e),
        };
        let r = self.graphic_passes[id].finish_update(built);
        proof {
            assert forall|p: int| 0 <= p < self.graphic_passes@.len() implies
                (#[trigger] self.graphic_passes@[p]).desc == old(self).graphic_passes@[p].desc by {}
        }
        r
    }

    /// Builds compute pass `id` if it was never built or its description
    /// changed: its shader resource views must already be built; its output
    /// texture is resized and built first.
    pub fn update_compute_pass<G: GpuContext>(&mut self, id: usize, gpu: &mut G) -> (r: Result<(), BuildError>)
        requires
            old(self).wf(),
            id < old(self).compute_passes@.len(),
        ensures
            final(self).wf(),
            final(self).same_shape(old(self)),
            final(self).same_attachments(old(self)),
            final(self).graphic_passes == old(self).graphic_passes,
            final(self).buffers == old(self).buffers,
            final(self).meshes == old(self).meshes,
            final(self).shaders == old(self).shaders,
            final(self).cameras == old(self).cameras,
            final(self).backbuffers == old(self).backbuffers,
            forall|p: int| 0 <= p < old(self).compute_passes@.len() && p != id ==>
                final(self).compute_passes@[p] == old(self).compute_passes@[p],
            final(self).compute_passes@[id as int].desc == old(self).compute_passes@[id as int].desc,
            forall|t: int| 0 <= t < old(self).textures@.len() && t != old(self).compute_passes@[id as int].desc.output
                ==> final(self).textures@[t] == old(self).textures@[t],
            !old(self).compute_passes@[id as int].needs_build() ==> r is Ok && *final(self) == *old(self),
            r is Err ==> final(self).compute_passes@[id as int].data == old(self).compute_passes@[id as int].data
                && final(self).compute_passes@[id as int].needs_build(),
            ({
                let p = old(self).compute_passes@[id as int];
                p.needs_build() && !views_ready(old(self), p.desc.shader_resource_view@) ==>
                    r is Err && is_view_error(r->Err_0) && *final(self) == *old(self)
            }),
            r is Ok ==> {
                let d = old(self).compute_passes@[id as int].desc;
                &&& final(self).compute_passes@[id as int].data.is_some()
                &&& !final(self).compute_passes@[id as int].dirty
                &&& (old(self).compute_passes@[id as int].needs_build() ==>
                    built_at(final(self).textures@[d.output as int], d.width, d.height))
            },
    {
        if !self.compute_passes[id].needs_update() {
            return Ok(());
        }
        let views = self.built_views(&self.compute_passes[id].desc.shader_resource_view);
        let views = match views {
            Ok(v) => v,
            Err(e) => return Err(e),
        };
        let out = self.compute_passes[id].desc.output;
        let width = self.compute_passes[id].desc.width;
        let height = self.compute_passes[id].desc.height;
        self.textures[out].set_size(width, height);
        let res = self.textures[out].update_data(gpu);
        match res {
            Err(e) => return Err(e),
            Ok(()) => {},
        }
        let output = match &self.textures[out].data {
            Some(d) => d.texture,
            None => return Err(BuildError::DependencyNotBuilt),
        };
        let layout = ComputePassLayout { shader_resource_views: views, output };
        let built = match gpu.create_compute_pass(&layout) {
            Ok(pipeline) => Ok(ComputePassData { pipeline }),
            Err(e) => Err(e),
        };
        let r = self.compute_passes[id].finish_update(built);
        proof {
            assert forall|p: int| 0 <= p < self.compute_passes@.len() implies
                (#[trigger] self.compute_passes@[p]).desc == old(self).compute_passes@[p].desc by {}
        }
        r
    }

    /// What recording backbuffer pass `id` appends: nothing before the pass is
    /// built, else a copy of its origin into its target, sized by the pass.
    pub open spec fn backbuffer_command(&self, id: int) -> Result<Option<Command>, RecordError> {
        let b = self.backbuffers@[id];
        match b.data {
            None => Ok(None),
            Some(d) => match b.desc.origin {
                None => Err(RecordError::NoOrigin),
                Some(o) => if o >= self.textures@.len() {
                    Err(RecordError::InvalidHandle)
                } else {
                    match self.textures@[o as int].data {
                        None => Err(RecordError::OriginNotLoaded),
                        Some(src) => Ok(Some(Command::CopyTexture {
                            src: src.texture,
                            dst: d.target.texture,
                            width: b.desc.width,
                            height: b.desc.height,
                        })),
                    }
                },
            },
        }
    }

    pub fn record_backbuffer(&self, id: usize, cmds: &mut Vec<Command>) -> (r: Result<(), RecordError>)
        requires
            id < self.backbuffers@.len(),
        ensures
            match self.backbuffer_command(id as int) {
                Ok(Some(c)) => r is Ok && final(cmds)@ == old(cmds)@.push(c),
                Ok(None) => r is Ok && final(cmds)@ == old(cmds)@,
                Err(e) => r == Err::<(), RecordError>(e) && final(cmds)@ == old(cmds)@,
            },
    {
        let b = &self.backbuffers[id];
        match &b.data {
            None => Ok(()),
            Some(d) => match b.desc.origin {
                None => Err(RecordError::NoOrigin),
                Some(o) => {
                    if o >= self.textures.len() {
                        Err(RecordError::InvalidHandle)
                    } else {
                        match &self.textures[o].data {
                            None => Err(RecordError::OriginNotLoaded),
                            Some(src) => {
                                cmds.push(Command::CopyTexture {
                                    src: src.texture,
                                    dst: d.target.texture,
                                    width: b.desc.width,
                                    height: b.desc.height,
                                });
                                Ok(())
                            },
                        }
                    }
                },
            },
        }
    }

    /// Whether every render target of graphic pass `id` is built.
    pub open spec fn targets_built(&self, id: int) -> bool {
        let d = self.graphic_passes@[id].desc;
        forall|i: int| 0 <= i < d.render_targets@.len() ==>
            (#[trigger] d.render_targets@[i]) < self.textures@.len()
            && self.textures@[d.render_targets@[i] as int].data.is_some()
    }

    /// What recording graphic pass `id` appends: nothing before the pass is
    /// built, else a draw of its geometry, which must have GPU buffers.
    pub open spec fn graphic_pass_outcome(&self, id: int) -> Result<bool, RecordError> {
        let p = self.graphic_passes@[id];
        match p.data {
            None => Ok(false),
            Some(d) => match p.desc.geometry {
                None => Err(RecordError::NoGeometry),
                Some(g) => if g >= self.meshes@.len() {
                    Err(RecordError::InvalidHandle)
                } else if self.meshes@[g as int].data.is_none() {
                    Err(RecordError::NoGeometryData)
                } else if !self.targets_built(id) {
                    Err(RecordError::TargetNotLoaded)
                } else {
                    Ok(true)
                },
            },
        }
    }

    /// The draw that a built graphic pass `id` appends.
    pub open spec fn is_draw_of(&self, id: int, c: Command) -> bool {
        let p = self.graphic_passes@[id];
        let mesh = self.meshes@[p.desc.geometry->Some_0 as int].data->Some_0;
        match c {
            Command::Draw { pass, vertex_buffer, index_buffer, index_count, targets } => {
                &&& pass == p.data->Some_0.pipeline
                &&& vertex_buffer == mesh.vertex_buffer
                &&& index_buffer == mesh.index_buffer
                &&& index_count == mesh.index_count
                &&& targets@.len() == p.desc.render_targets@.len()
                &&& forall|i: int| 0 <= i < targets@.len() ==> #[trigger] targets@[i]
                    == self.textures@[p.desc.render_targets@[i] as int].data->Some_0.texture
            },
            _ => false,
        }
    }

    pub fn record_graphic_pass(&self, id: usize, cmds: &mut Vec<Command>) -> (r: Result<(), RecordError>)
        requires
            id < self.graphic_passes@.len(),
        ensures
            match self.graphic_pass_outcome(id as int) {
                Ok(true) => r is Ok && final(cmds)@.len() == old(cmds)@.len() + 1
                    && final(cmds)@.drop_last() == old(cmds)@ && self.is_draw_of(id as int, final(cmds)@.last()),
                Ok(false) => r is Ok && final(cmds)@ == old(cmds)@,
                Err(e) => r == Err::<(), RecordError>(e) && final(cmds)@ == old(cmds)@,
            },
    {
        let p = &self.graphic_passes[id];
        let d = match &p.data {
            None => return Ok(()),
            Some(d) => d,
        };
        let g = match p.desc.geometry {
            None => return Err(RecordError::NoGeometry),
            Some(g) => g,
        };
        if g >= self.meshes.len() {
            return Err(RecordError::InvalidHandle);
        }
        let mesh = match &self.meshes[g].data {
            None => return Err(RecordError::NoGeometryData),
            Some(m) => m,
        };
        let mut targets: Vec<TextureHandle> = Vec::new();
        let mut i: usize = 0;
        while i < p.desc.render_targets.len()
            invariant
                0 <= i <= p.desc.render_targets@.len(),
                id < self.graphic_passes@.len(),
                p == self.graphic_passes@[id as int],
                p.data.is_some(),
                p.desc.geometry == Some(g),
                g < self.meshes@.len(),
                self.meshes@[g as int].data.is_some(),
                targets@.len() == i,
                forall|j: int| 0 <= j < i ==> (#[trigger] p.desc.render_targets@[j]) < self.textures@.len()
                    && self.textures@[p.desc.render_targets@[j] as int].data.is_some(),
                forall|j: int| 0 <= j < i ==> #[trigger] targets@[j]
                    == self.textures@[p.desc.render_targets@[j] as int].data->Some_0.texture,
            decreases p.desc.render_targets@.len() - i,
        {
            let t = p.desc.render_targets[i];
            if t >= self.textures.len() {
                assert(!self.targets_built(id as int) && p.desc.render_targets@[i as int] == t);
                return Err(RecordError::TargetNotLoaded);
            }
            match &self.textures[t].data {
                None => {
                    assert(!self.targets_built(id as int) && p.desc.render_targets@[i as int] == t);
                    return Err(RecordError::TargetNotLoaded);
                },
                Some(td) => targets.push(td.texture),
            }
            i = i + 1;
        }
        cmds.push(Command::Draw {
            pass: d.pipeline,
            vertex_buffer: mesh.vertex_buffer,
            index_buffer: mesh.index_buffer,
            index_count: mesh.index_count,
            targets,
        });
        assert(cmds@.drop_last() =~= old(cmds)@);
        Ok(())
    }

    /// Recording compute pass `id` appends a dispatch once the pass is built.
    pub fn record_compute_pass(&self, id: usize, cmds: &mut Vec<Command>) -> (r: Result<(), RecordError>)
        requires
            id < self.compute_passes@.len(),
        ensures
            r is Ok,
            match self.compute_passes@[id as int].data {
                Some(d) => final(cmds)@ == old(cmds)@.push(Command::Dispatch { pass: d.pipeline }),
                None => final(cmds)@ == old(cmds)@,
            },
    {
        match &self.compute_passes[id].data {
            Some(d) => {
                cmds.push(Command::Dispatch { pass: d.pipeline });
                Ok(())
            },
            None => Ok(()),
        }
    }
}

} // verus!
