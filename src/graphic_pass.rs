//! Graphic passes: a render pipeline drawing one mesh into render targets,
//! sampling shader resource views.
use vstd::prelude::*;
use crate::handles::GraphicPassHandle;
use crate::resource::Resource;

verus! {

/// Size of one render target of a pass.
#[derive(Copy, Clone, Debug, PartialEq, Eq, Structural)]
pub struct AttachmentDescription {
    pub width: u32,
    pub height: u32,
}

impl AttachmentDescription {
    pub fn new() -> (r: Self)
        ensures
            r == (AttachmentDescription { width: 0, height: 0 }),
    {
        AttachmentDescription { width: 0, height: 0 }
    }

    pub fn set_size(&mut self, width: u32, height: u32)
        ensures
            *final(self) == (AttachmentDescription { width, height }),
    {
        self.width = width;
        self.height = height;
    }
}

/// The resources a graphic pass is built from. Texture, mesh and shader
/// references are indices into the [`crate::Resources`] arena.
///
/// `render_targets[i]` is the texture that the `i`-th attachment renders
/// into; it belongs to the pass, and `render_target_desc[i]` is its size.
#[derive(Clone, Debug)]
pub struct GraphicPassDescription {
    pub geometry: Option<usize>,
    pub shader_resource_view: Vec<Option<usize>>,
    pub render_target_desc: Vec<AttachmentDescription>,
    pub render_targets: Vec<usize>,
    pub vertex_shader: Option<usize>,
    pub fragment_shader: Option<usize>,
}

#[derive(Copy, Clone, Debug, PartialEq, Eq, Structural)]
pub struct GraphicPassData {
    pub pipeline: GraphicPassHandle,
}

pub type GraphicPass = Resource<GraphicPassDescription, GraphicPassData>;

/// The shader resource views after binding `srv` at `index`: the list grows
/// with empty slots up to `index` when it is too short.
pub open spec fn bound_views(views: Seq<Option<usize>>, index: int, srv: Option<usize>) -> Seq<Option<usize>> {
    let grown = if index < views.len() {
        views
    } else {
        views + Seq::new((index + 1 - views.len()) as nat, |j: int| None::<usize>)
    };
    grown.update(index, srv)
}

/// The render target sizes after setting slot `index` to `size`: the list
/// grows with empty sizes up to `index` when it is too short.
pub open spec fn sized_targets(sizes: Seq<AttachmentDescription>, index: int, size: AttachmentDescription) -> Seq<AttachmentDescription> {
    let grown = if index < sizes.len() {
        sizes
    } else {
        sizes + Seq::new((index + 1 - sizes.len()) as nat, |j: int| AttachmentDescription { width: 0, height: 0 })
    };
    grown.update(index, size)
}

impl Resource<GraphicPassDescription, GraphicPassData> {
    /// A pass that renders into the given attachment textures, not built yet.
    pub fn with_render_targets(render_targets: Vec<usize>) -> (r: GraphicPass)
        ensures
            r.desc.render_targets == render_targets,
            r.desc.render_target_desc@.len() == render_targets@.len(),
            r.desc.shader_resource_view@.len() == 0,
            r.desc.geometry.is_none(),
            r.desc.vertex_shader.is_none(),
            r.desc.fragment_shader.is_none(),
            r.data.is_none(),
            r.dirty,
    {
        let mut rt_desc: Vec<AttachmentDescription> = Vec::new();
        let mut i: usize = 0;
        while i < render_targets.len()
            invariant
                0 <= i <= render_targets@.len(),
                rt_desc@.len() == i,
            decreases render_targets@.len() - i,
        {
            rt_desc.push(AttachmentDescription::new());
            i = i + 1;
        }
        Resource::new(GraphicPassDescription {
            geometry: None,
            shader_resource_view: Vec::new(),
            render_target_desc: rt_desc,
            render_targets,
            vertex_shader: None,
            fragment_shader: None,
        })
    }

    /// Binds a texture (or nothing) at shader resource view slot `index`.
    /// Only a change of the bound texture, or of the number of slots, marks
    /// the pass dirty.
    pub fn set_shader_resource_view(&mut self, index: u32, srv: Option<usize>)
        ensures
            final(self).desc.shader_resource_view@ == bound_views(old(self).desc.shader_resource_view@, index as int, srv),
            final(self).dirty == (old(self).dirty || index >= old(self).desc.shader_resource_view@.len()
                || old(self).desc.shader_resource_view@[index as int] != srv),
            index < old(self).desc.shader_resource_view@.len() && old(self).desc.shader_resource_view@[index as int] == srv
                ==> *final(self) == *old(self),
            final(self).desc.geometry == old(self).desc.geometry,
            final(self).desc.render_target_desc == old(self).desc.render_target_desc,
            final(self).desc.render_targets == old(self).desc.render_targets,
            final(self).desc.vertex_shader == old(self).desc.vertex_shader,
            final(self).desc.fragment_shader == old(self).desc.fragment_shader,
            final(self).data == old(self).data,
    {
        let ghost views = self.desc.shader_resource_view@;
        let idx = index as usize;
        if idx >= self.desc.shader_resource_view.len() {
            while self.desc.shader_resource_view.len() <= idx
                invariant
                    views.len() <= self.desc.shader_resource_view@.len() <= idx + 1,
                    self.desc.shader_resource_view@ =~= views + Seq::new(
                        (self.desc.shader_resource_view@.len() - views.len()) as nat, |j: int| None::<usize>),
                    self.desc.geometry == old(self).desc.geometry,
                    self.desc.render_target_desc == old(self).desc.render_target_desc,
                    self.desc.render_targets == old(self).desc.render_targets,
                    self.desc.vertex_shader == old(self).desc.vertex_shader,
                    self.desc.fragment_shader == old(self).desc.fragment_shader,
                    self.data == old(self).data,
                    self.dirty == old(self).dirty,
                decreases idx + 1 - self.desc.shader_resource_view@.len(),
            {
                self.desc.shader_resource_view.push(None);
            }
            self.desc.shader_resource_view.set(idx, srv);
            self.dirty = true;
        } else if self.desc.shader_resource_view[idx] != srv {
            self.desc.shader_resource_view.set(idx, srv);
            self.dirty = true;
        }
        assert(self.desc.shader_resource_view@ =~= bound_views(views, index as int, srv));
    }

    /// Sets the size of render target `index`, growing the list with empty
    /// sizes when it is too short; only a new size, or a new slot, marks the
    /// pass dirty.
    pub fn set_render_target(&mut self, index: u32, width: u32, height: u32)
        ensures
            final(self).desc.render_target_desc@ == sized_targets(old(self).desc.render_target_desc@, index as int,
                AttachmentDescription { width, height }),
            final(self).dirty == (old(self).dirty || index >= old(self).desc.render_target_desc@.len()
                || old(self).desc.render_target_desc@[index as int] != (AttachmentDescription { width, height })),
            index < old(self).desc.render_target_desc@.len()
                && old(self).desc.render_target_desc@[index as int] == (AttachmentDescription { width, height })
                ==> *final(self) == *old(self),
            final(self).desc.geometry == old(self).desc.geometry,
            final(self).desc.shader_resource_view == old(self).desc.shader_resource_view,
            final(self).desc.render_targets == old(self).desc.render_targets,
            final(self).desc.vertex_shader == old(self).desc.vertex_shader,
            final(self).desc.fragment_shader == old(self).desc.fragment_shader,
            final(self).data == old(self).data,
    {
        let ghost sizes = self.desc.render_target_desc@;
        let mut rt = AttachmentDescription::new();
        rt.set_size(width, height);
        let idx = index as usize;
        if idx >= self.desc.render_target_desc.len() {
            while self.desc.render_target_desc.len() <= idx
                invariant
                    sizes.len() <= self.desc.render_target_desc@.len() <= idx + 1,
                    self.desc.render_target_desc@ =~= sizes + Seq::new(
                        (self.desc.render_target_desc@.len() - sizes.len()) as nat,
                        |j: int| AttachmentDescription { width: 0, height: 0 }),
                    self.desc.geometry == old(self).desc.geometry,
                    self.desc.shader_resource_view == old(self).desc.shader_resource_view,
                    self.desc.render_targets == old(self).desc.render_targets,
                    self.desc.vertex_shader == old(self).desc.vertex_shader,
                    self.desc.fragment_shader == old(self).desc.fragment_shader,
                    self.data == old(self).data,
                    self.dirty == old(self).dirty,
                decreases idx + 1 - self.desc.render_target_desc@.len(),
            {
                self.desc.render_target_desc.push(AttachmentDescription::new());
            }
            self.desc.render_target_desc.set(idx, rt);
            self.dirty = true;
        } else if self.desc.render_target_desc[idx] != rt {
            self.desc.render_target_desc.set(idx, rt);
            self.dirty = true;
        }
        assert(self.desc.render_target_desc@ =~= sized_targets(sizes, index as int, rt));
    }

    pub fn set_geometry(&mut self, geometry: usize)
        ensures
            final(self).desc == (GraphicPassDescription { geometry: Some(geometry), ..old(self).desc }),
            final(self).dirty == (old(self).dirty || old(self).desc.geometry != Some(geometry)),
            final(self).data == old(self).data,
    {
        if self.desc.geometry != Some(geometry) {
            self.desc.geometry = Some(geometry);
            self.dirty = true;
        }
    }

    pub fn set_vertex_shader(&mut self, vertex_shader: usize)
        ensures
            final(self).desc == (GraphicPassDescription { vertex_shader: Some(vertex_shader), ..old(self).desc }),
            final(self).dirty == (old(self).dirty || old(self).desc.vertex_shader != Some(vertex_shader)),
            final(self).data == old(self).data,
    {
        if self.desc.vertex_shader != Some(vertex_shader) {
            self.desc.vertex_shader = Some(vertex_shader);
            self.dirty = true;
        }
    }

    pub fn set_fragment_shader(&mut self, fragment_shader: usize)
        ensures
            final(self).desc == (GraphicPassDescription { fragment_shader: Some(fragment_shader), ..old(self).desc }),
            final(self).dirty == (old(self).dirty || old(self).desc.fragment_shader != Some(fragment_shader)),
            final(self).data == old(self).data,
    {
        if self.desc.fragment_shader != Some(fragment_shader) {
            self.desc.fragment_shader = Some(fragment_shader);
            self.dirty = true;
        }
    }

    /// The texture that render target `index` draws into, once the pass is
    /// built.
    pub fn get_render_target(&self, index: u32) -> (r: Option<usize>)
        ensures
            r == (if self.data.is_some() && (index as int) < self.desc.render_targets@.len() {
                Some(self.desc.render_targets@[index as int])
            } else {
                None::<usize>
            }),
    {
        if self.data.is_some() && (index as usize) < self.desc.render_targets.len() {
            Some(self.desc.render_targets[index as usize])
        } else {
            None
        }
    }
}

} // verus!
