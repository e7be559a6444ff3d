//! What each kind of node does once its inputs are resolved: update the
//! description of its resource, build it if needed, and say which values its
//! outputs carry.
use vstd::prelude::*;
use crate::graph::{Graph, InputParam};
use crate::value::{ProtosDataType, ProtosValueType, type_of};
use crate::resource::Resource;
use crate::texture::{TextureSource, same_source};
use crate::error::EvalError;
use crate::resources::{Resources, built_at};
use crate::buffer::BufferDescription;
use crate::backbuffer::BackbufferPassDescription;
use crate::graphic_pass::{AttachmentDescription, GraphicPass};
use crate::gpu::GpuContext;
use crate::nodes::{
    BackbufferPassNodeInput, BufferNodeInput, BufferNodeOutput, GraphicPassNodeInput, GraphicPassNodeOutput,
    MeshNodeOutput, ShaderNodeOutput, TextureFileNodeInput, TextureFileNodeOutput, TextureResourceNodeInput,
    TextureResourceNodeOutput, GRAPHIC_PASS_SLOTS, decimal, ProtosNodeTemplate,
};

verus! {

/// `k` is the first input of `inputs` named `name`.
pub open spec fn is_first_named(inputs: Seq<InputParam>, k: int, name: Seq<char>) -> bool {
    &&& 0 <= k < inputs.len()
    &&& inputs[k].name@ == name
    &&& forall|j: int| 0 <= j < k ==> (#[trigger] inputs[j]).name@ != name
}

/// The resolved value of the first input named `name`, if there is one.
pub open spec fn named_value(inputs: Seq<InputParam>, vals: Seq<ProtosValueType>, name: Seq<char>) -> Option<ProtosValueType> {
    if exists|k: int| is_first_named(inputs, k, name) {
        Some(vals[choose|k: int| is_first_named(inputs, k, name)])
    } else {
        None
    }
}

pub proof fn lemma_first_named_unique(inputs: Seq<InputParam>, k1: int, k2: int, name: Seq<char>)
    requires
        is_first_named(inputs, k1, name),
        is_first_named(inputs, k2, name),
    ensures
        k1 == k2,
{
    if k1 < k2 {
        assert(inputs[k1].name@ != name);
    } else if k2 < k1 {
        assert(inputs[k2].name@ != name);
    }
}

/// The value of the output list: pairs of output index and value.
pub type Outputs = Vec<(usize, ProtosValueType)>;

/// The resolved value of the input of node `node` named `name`.
pub fn input_named(g: &Graph, node: usize, vals: &Vec<ProtosValueType>, name: &String) -> (r: Result<ProtosValueType, EvalError>)
    requires
        node < g.nodes@.len(),
        vals@.len() == g.nodes@[node as int].inputs@.len(),
    ensures
        match named_value(g.nodes@[node as int].inputs@, vals@, name@) {
            Some(v) => r == Ok::<ProtosValueType, EvalError>(v),
            None => r == Err::<ProtosValueType, EvalError>(EvalError::SocketNotFound),
        },
{
    match g.get_input(node, name) {
        Some(k) => {
            proof {
                let inputs = g.nodes@[node as int].inputs@;
                assert(is_first_named(inputs, k as int, name@));
                let c = choose|c: int| is_first_named(inputs, c, name@);
                lemma_first_named_unique(inputs, c, k as int, name@);
            }
            Ok(vals[k].copy())
        },
        None => Err(EvalError::SocketNotFound),
    }
}

/// The first output of node `node` named `name`.
pub open spec fn first_output_named(g: &Graph, node: int, o: int, name: Seq<char>) -> bool {
    &&& 0 <= o < g.nodes@[node].outputs@.len()
    &&& g.nodes@[node].outputs@[o].name@ == name
    &&& forall|j: int| 0 <= j < o ==> (#[trigger] g.nodes@[node].outputs@[j]).name@ != name
}

fn output_named(g: &Graph, node: usize, name: &String) -> (r: Result<usize, EvalError>)
    requires
        node < g.nodes@.len(),
    ensures
        match r {
            Ok(o) => first_output_named(g, node as int, o as int, name@),
            Err(e) => e == EvalError::SocketNotFound
                && forall|o: int| !first_output_named(g, node as int, o, name@),
        },
{
    match g.get_output(node, name) {
        Some(o) => Ok(o),
        None => Err(EvalError::SocketNotFound),
    }
}

/// Node `node` has an output named `name`.
pub open spec fn has_output(g: &Graph, node: int, name: Seq<char>) -> bool {
    exists|o: int| first_output_named(g, node, o, name)
}

/// A resource that is built and up to date.
pub open spec fn clean<Desc, Data>(r: Resource<Desc, Data>) -> bool {
    r.data.is_some() && !r.dirty
}

/// Once a node's inputs are usable: it succeeds exactly when its resource
/// ends built and clean and its outputs exist; it fails only by a build
/// error or a missing output.
pub open spec fn build_outcome(r: Result<Outputs, EvalError>, built: bool, outputs_exist: bool) -> bool {
    &&& (r is Ok <==> built && outputs_exist)
    &&& (r is Err ==> (r->Err_0 is Build || (r->Err_0 == EvalError::SocketNotFound && !outputs_exist)))
}

/// The error for an input that is missing or of the wrong type.
pub open spec fn cast_error(expected: ProtosDataType, v: Option<ProtosValueType>) -> EvalError {
    match v {
        None => EvalError::SocketNotFound,
        Some(v) => EvalError::TypeCast { expected, found: type_of(v) },
    }
}

fn single_output(g: &Graph, node: usize, name: &String, value: ProtosValueType) -> (r: Result<Outputs, EvalError>)
    requires
        node < g.nodes@.len(),
    ensures
        match r {
            Ok(outs) => outs@.len() == 1 && first_output_named(g, node as int, outs@[0].0 as int, name@)
                && outs@[0].1 == value && has_output(g, node as int, name@),
            Err(e) => e == EvalError::SocketNotFound && !has_output(g, node as int, name@),
        },
{
    let o = output_named(g, node, name);
    match o {
        Ok(o) => {
            let mut outs: Outputs = Vec::new();
            outs.push((o, value));
            Ok(outs)
        },
        Err(e) => Err(e),
    }
}

/// One resource of the arena, by kind and index.
pub enum Slot {
    Texture(usize),
    Buffer(usize),
    Mesh(usize),
    Shader(usize),
    Camera(usize),
    GraphicPass(usize),
    ComputePass(usize),
    Backbuffer(usize),
}

/// Node `n` owns resource `s`: its own resource, and for a pass the textures
/// it renders or writes into.
pub open spec fn owns(g: &Graph, res: &Resources, n: int, s: Slot) -> bool {
    match g.nodes@[n].template {
        ProtosNodeTemplate::BackbufferPass(p) => s == Slot::Backbuffer(p.handle),
        ProtosNodeTemplate::GraphicPass(p) => s == Slot::GraphicPass(p.handle) || (s matches Slot::Texture(t)
            && res.graphic_passes@[p.handle as int].desc.render_targets@.contains(t)),
        ProtosNodeTemplate::ComputePass(p) => s == Slot::ComputePass(p.handle)
            || s == Slot::Texture(res.compute_passes@[p.handle as int].desc.output),
        ProtosNodeTemplate::Buffer(p) => s == Slot::Buffer(p.handle),
        ProtosNodeTemplate::FileTexture(p) => s == Slot::Texture(p.handle),
        ProtosNodeTemplate::ResourceTexture(p) => s == Slot::Texture(p.handle),
        ProtosNodeTemplate::Camera(p) => s == Slot::Camera(p.handle),
        ProtosNodeTemplate::Mesh(p) => s == Slot::Mesh(p.mesh),
        ProtosNodeTemplate::Shader(p) => s == Slot::Shader(p.shader),
    }
}

/// Resource `s` is the same in `a` and `b`.
pub open spec fn slot_same(a: &Resources, b: &Resources, s: Slot) -> bool {
    match s {
        Slot::Texture(i) => i < a.textures@.len() ==> b.textures@[i as int] == a.textures@[i as int],
        Slot::Buffer(i) => i < a.buffers@.len() ==> b.buffers@[i as int] == a.buffers@[i as int],
        Slot::Mesh(i) => i < a.meshes@.len() ==> b.meshes@[i as int] == a.meshes@[i as int],
        Slot::Shader(i) => i < a.shaders@.len() ==> b.shaders@[i as int] == a.shaders@[i as int],
        Slot::Camera(i) => i < a.cameras@.len() ==> b.cameras@[i as int] == a.cameras@[i as int],
        Slot::GraphicPass(i) => i < a.graphic_passes@.len() ==> b.graphic_passes@[i as int] == a.graphic_passes@[i as int],
        Slot::ComputePass(i) => i < a.compute_passes@.len() ==> b.compute_passes@[i as int] == a.compute_passes@[i as int],
        Slot::Backbuffer(i) => i < a.backbuffers@.len() ==> b.backbuffers@[i as int] == a.backbuffers@[i as int],
    }
}

/// Only resources that node `n` owns differ between `old` and `new`.
#[verifier::opaque]
pub open spec fn only_own_changed(g: &Graph, old: &Resources, new: &Resources, n: int) -> bool {
    forall|s: Slot| !owns(g, old, n, s) ==> #[trigger] slot_same(old, new, s)
}

/// What every kind's evaluation keeps of the arena.
pub open spec fn arena_kept(new: &Resources, old: &Resources) -> bool {
    &&& new.wf()
    &&& new.same_shape(old)
    &&& new.same_attachments(old)
}

/// The outcome of a buffer node: `Size` and `Format` must be scalars; they
/// become the description; output `Buffer` is the node's own buffer.
pub open spec fn buffer_eval(g: &Graph, node: int, h: int, vals: Seq<ProtosValueType>, old: &Resources, new: &Resources,
    r: Result<Outputs, EvalError>) -> bool {
    let ins = g.nodes@[node].inputs@;
    let size = named_value(ins, vals, "Size"@);
    let format = named_value(ins, vals, "Format"@);
    if !(size matches Some(ProtosValueType::Scalar(_))) {
        r == Err::<Outputs, EvalError>(cast_error(ProtosDataType::Scalar, size)) && new.buffers@ == old.buffers@
    } else if !(format matches Some(ProtosValueType::Scalar(_))) {
        r == Err::<Outputs, EvalError>(cast_error(ProtosDataType::Scalar, format)) && new.buffers@ == old.buffers@
    } else {
        let want = BufferDescription { size: size->Some_0->Scalar_0, format: format->Some_0->Scalar_0 };
        let b = new.buffers@[h];
        let ob = old.buffers@[h];
        let out = has_output(g, node, "Buffer"@);
        &&& b.desc == want
        &&& build_outcome(r, clean(b), out)
        &&& (!ob.needs_build() && ob.desc == want && out ==> r is Ok && b == ob)
        &&& (r is Ok ==> r->Ok_0@.len() == 1 && first_output_named(g, node, r->Ok_0@[0].0 as int, "Buffer"@)
            && r->Ok_0@[0].1 == ProtosValueType::Buffer(Some(h as usize)))
    }
}

pub fn evaluate_buffer<G: GpuContext>(
    g: &Graph,
    res: &mut Resources,
    gpu: &mut G,
    node: usize,
    handle: usize,
    vals: &Vec<ProtosValueType>,
) -> (r: Result<Outputs, EvalError>)
    requires
        node < g.nodes@.len(),
        vals@.len() == g.nodes@[node as int].inputs@.len(),
        old(res).wf(),
        handle < old(res).buffers@.len(),
    ensures
        arena_kept(final(res), old(res)),
        final(res).textures == old(res).textures,
        final(res).meshes == old(res).meshes,
        final(res).shaders == old(res).shaders,
        final(res).cameras == old(res).cameras,
        final(res).graphic_passes == old(res).graphic_passes,
        final(res).compute_passes == old(res).compute_passes,
        final(res).backbuffers == old(res).backbuffers,
        forall|t: int| 0 <= t < old(res).buffers@.len() && t != handle ==> final(res).buffers@[t] == old(res).buffers@[t],
        buffer_eval(g, node as int, handle as int, vals@, old(res), final(res), r),
{
    let size = input_named(g, node, vals, &BufferNodeInput::Size.name());
    let size = match size {
        Ok(v) => match v.try_to_scalar() {
            Ok(s) => s,
            Err(e) => return Err(e),
        },
        Err(e) => return Err(e),
    };
    let format = input_named(g, node, vals, &BufferNodeInput::Format.name());
    let format = match format {
        Ok(v) => match v.try_to_scalar() {
            Ok(f) => f,
            Err(e) => return Err(e),
        },
        Err(e) => return Err(e),
    };
    let ghost before = res.buffers@[handle as int];
    res.buffers[handle].set_size(size);
    res.buffers[handle].set_format(format);
    let built = res.buffers[handle].update_data(gpu);
    proof {
        if !before.needs_build() && before.desc == (BufferDescription { size, format }) {
            assert(res.buffers@[handle as int] == before);
        }
    }
    match built {
        Ok(()) => {},
        Err(e) => return Err(EvalError::Build(e)),
    }
    single_output(g, node, &BufferNodeOutput::Buffer.name(), ProtosValueType::Buffer(Some(handle)))
}

/// The outcome of the backbuffer pass: its `input` must carry a texture,
/// which becomes the origin; the pass takes the frame's size every time.
pub open spec fn backbuffer_eval(g: &Graph, node: int, h: int, vals: Seq<ProtosValueType>, old: &Resources, new: &Resources,
    r: Result<Outputs, EvalError>, width: u32, height: u32) -> bool {
    let v = named_value(g.nodes@[node].inputs@, vals, "input"@);
    match v {
        Some(ProtosValueType::Texture(Some(t))) => if t >= old.textures@.len() {
            r == Err::<Outputs, EvalError>(EvalError::InvalidHandle) && new.backbuffers@ == old.backbuffers@
        } else {
            let want = BackbufferPassDescription { origin: Some(t), width, height };
            let b = new.backbuffers@[h];
            let ob = old.backbuffers@[h];
            &&& b.desc == want
            &&& build_outcome(r, clean(b), true)
            &&& (!ob.needs_build() && ob.desc == want ==> r is Ok && b == ob)
            &&& (r is Ok ==> r->Ok_0@.len() == 0)
        },
        Some(ProtosValueType::Texture(None)) => r == Err::<Outputs, EvalError>(EvalError::MissingRequiredInput)
            && new.backbuffers@ == old.backbuffers@,
        _ => r == Err::<Outputs, EvalError>(cast_error(ProtosDataType::Texture, v)) && new.backbuffers@ == old.backbuffers@,
    }
}

pub fn evaluate_backbuffer<G: GpuContext>(
    g: &Graph,
    res: &mut Resources,
    gpu: &mut G,
    node: usize,
    handle: usize,
    vals: &Vec<ProtosValueType>,
    width: u32,
    height: u32,
) -> (r: Result<Outputs, EvalError>)
    requires
        node < g.nodes@.len(),
        vals@.len() == g.nodes@[node as int].inputs@.len(),
        old(res).wf(),
        handle < old(res).backbuffers@.len(),
    ensures
        arena_kept(final(res), old(res)),
        final(res).textures == old(res).textures,
        final(res).buffers == old(res).buffers,
        final(res).meshes == old(res).meshes,
        final(res).shaders == old(res).shaders,
        final(res).cameras == old(res).cameras,
        final(res).graphic_passes == old(res).graphic_passes,
        final(res).compute_passes == old(res).compute_passes,
        forall|t: int| 0 <= t < old(res).backbuffers@.len() && t != handle ==> final(res).backbuffers@[t] == old(res).backbuffers@[t],
        backbuffer_eval(g, node as int, handle as int, vals@, old(res), final(res), r, width, height),
{
    let input = input_named(g, node, vals, &BackbufferPassNodeInput::Input.name());
    let origin = match input {
        Ok(v) => match v.try_to_texture() {
            Ok(t) => t,
            Err(e) => return Err(e),
        },
        Err(e) => return Err(e),
    };
    let t = match origin {
        Some(t) => t,
        None => return Err(EvalError::MissingRequiredInput),
    };
    if t >= res.textures.len() {
        return Err(EvalError::InvalidHandle);
    }
    let ghost before = res.backbuffers@[handle as int];
    res.backbuffers[handle].set_origin(t);
    res.backbuffers[handle].set_size(width, height);
    let built = res.backbuffers[handle].update_data(gpu);
    proof {
        if !before.needs_build() && before.desc == (BackbufferPassDescription { origin: Some(t), width, height }) {
            assert(res.backbuffers@[handle as int] == before);
        }
    }
    match built {
        Ok(()) => Ok(Vec::new()),
        Err(e) => Err(EvalError::Build(e)),
    }
}

/// The size every render target of a pass gets: the frame's.
pub open spec fn all_sized(descs: Seq<AttachmentDescription>, width: u32, height: u32) -> bool {
    forall|i: int| 0 <= i < descs.len() ==> #[trigger] descs[i] == (AttachmentDescription { width, height })
}

/// The name of shader resource view input `i`.
pub open spec fn srv_name(i: int) -> Seq<char> {
    "SRV"@ + decimal(i as nat)
}

/// The name of render target output `i`.
pub open spec fn rt_name(i: int) -> Seq<char> {
    "RT"@ + decimal(i as nat)
}

/// Every shader resource view input carries a texture (or nothing).
pub open spec fn views_given(ins: Seq<InputParam>, vals: Seq<ProtosValueType>) -> bool {
    forall|i: int| 0 <= i < GRAPHIC_PASS_SLOTS ==> (#[trigger] named_value(ins, vals, srv_name(i))) matches Some(ProtosValueType::Texture(_))
}

pub open spec fn targets_exist(g: &Graph, node: int) -> bool {
    forall|i: int| 0 <= i < GRAPHIC_PASS_SLOTS ==> #[trigger] has_output(g, node, rt_name(i))
}

/// The outcome of a graphic pass: `Geometry` must carry a mesh and both
/// shader inputs a shader; each `SRV<i>` binds a texture (or nothing); every
/// render target takes the frame's size; each output `RT<i>` carries the
/// texture that render target `i` draws into. A failing input leaves the
/// pass as it was.
pub open spec fn graphic_pass_eval(g: &Graph, node: int, h: int, vals: Seq<ProtosValueType>, old: &Resources, new: &Resources,
    r: Result<Outputs, EvalError>, width: u32, height: u32) -> bool {
    let ins = g.nodes@[node].inputs@;
    let geo = named_value(ins, vals, "Geometry"@);
    let vs = named_value(ins, vals, "VertexShader"@);
    let fs = named_value(ins, vals, "FragmentShader"@);
    let unchanged = new.graphic_passes@ == old.graphic_passes@ && new.textures@ == old.textures@;
    if !(geo matches Some(ProtosValueType::Mesh(_))) {
        r == Err::<Outputs, EvalError>(cast_error(ProtosDataType::Mesh, geo)) && unchanged
    } else if geo == Some(ProtosValueType::Mesh(None)) {
        r == Err::<Outputs, EvalError>(EvalError::MissingRequiredInput) && unchanged
    } else if geo->Some_0->Mesh_0->Some_0 >= old.meshes@.len() {
        r == Err::<Outputs, EvalError>(EvalError::InvalidHandle) && unchanged
    } else if !(vs matches Some(ProtosValueType::Shader(_))) {
        r == Err::<Outputs, EvalError>(cast_error(ProtosDataType::Shader, vs)) && unchanged
    } else if vs == Some(ProtosValueType::Shader(None)) {
        r == Err::<Outputs, EvalError>(EvalError::MissingRequiredInput) && unchanged
    } else if !(fs matches Some(ProtosValueType::Shader(_))) {
        r == Err::<Outputs, EvalError>(cast_error(ProtosDataType::Shader, fs)) && unchanged
    } else if fs == Some(ProtosValueType::Shader(None)) {
        r == Err::<Outputs, EvalError>(EvalError::MissingRequiredInput) && unchanged
    } else if !views_given(ins, vals) {
        r is Err && (r->Err_0 == EvalError::SocketNotFound || r->Err_0 is TypeCast) && unchanged
    } else {
        let p = new.graphic_passes@[h];
        let op = old.graphic_passes@[h];
        let m = geo->Some_0->Mesh_0;
        let v = vs->Some_0->Shader_0;
        let f = fs->Some_0->Shader_0;
        let same_views = forall|i: int| 0 <= i < GRAPHIC_PASS_SLOTS ==> i < op.desc.shader_resource_view@.len()
            && named_value(ins, vals, srv_name(i)) == Some(ProtosValueType::Texture(#[trigger] op.desc.shader_resource_view@[i]));
        &&& p.desc.geometry == m && p.desc.vertex_shader == v && p.desc.fragment_shader == f
        &&& forall|i: int| 0 <= i < GRAPHIC_PASS_SLOTS ==> i < p.desc.shader_resource_view@.len()
            && named_value(ins, vals, srv_name(i)) == Some(ProtosValueType::Texture(#[trigger] p.desc.shader_resource_view@[i]))
        &&& all_sized(p.desc.render_target_desc@, width, height)
        &&& build_outcome(r, clean(p), targets_exist(g, node))
        &&& ((op.needs_build() || !all_sized(op.desc.render_target_desc@, width, height)) && r is Ok ==>
            forall|i: int| 0 <= i < p.desc.render_targets@.len() ==>
                built_at(#[trigger] new.textures@[p.desc.render_targets@[i] as int], width, height))
        &&& (!op.needs_build() && op.desc.geometry == m && op.desc.vertex_shader == v && op.desc.fragment_shader == f
            && same_views && all_sized(op.desc.render_target_desc@, width, height) && targets_exist(g, node)
            ==> r is Ok && unchanged)
        &&& (r is Ok ==> r->Ok_0@.len() == GRAPHIC_PASS_SLOTS && forall|i: int| 0 <= i < GRAPHIC_PASS_SLOTS ==> {
            &&& first_output_named(g, node, (#[trigger] r->Ok_0@[i]).0 as int, rt_name(i))
            &&& r->Ok_0@[i].1 == ProtosValueType::Texture(
                if i < p.desc.render_targets@.len() { Some(p.desc.render_targets@[i]) } else { None })
        })
    }
}

/// The inputs of a graphic pass resolved to these mesh, shaders and views.
pub open spec fn pass_inputs(ins: Seq<InputParam>, vals: Seq<ProtosValueType>, m: usize, vs: usize, fs: usize,
    views: Seq<Option<usize>>) -> bool {
    &&& named_value(ins, vals, "Geometry"@) == Some(ProtosValueType::Mesh(Some(m)))
    &&& named_value(ins, vals, "VertexShader"@) == Some(ProtosValueType::Shader(Some(vs)))
    &&& named_value(ins, vals, "FragmentShader"@) == Some(ProtosValueType::Shader(Some(fs)))
    &&& views.len() == GRAPHIC_PASS_SLOTS
    &&& forall|j: int| 0 <= j < GRAPHIC_PASS_SLOTS ==>
        #[trigger] named_value(ins, vals, srv_name(j)) == Some(ProtosValueType::Texture(views[j]))
}

/// The pass already binds `views` in its first slots.
pub open spec fn views_kept(pass: GraphicPass, views: Seq<Option<usize>>) -> bool {
    forall|j: int| 0 <= j < GRAPHIC_PASS_SLOTS ==> j < pass.desc.shader_resource_view@.len()
        && #[trigger] pass.desc.shader_resource_view@[j] == views[j]
}

/// Resolves one shader input: a shader must be connected.
fn shader_input(g: &Graph, node: usize, vals: &Vec<ProtosValueType>, name: &String) -> (r: Result<usize, EvalError>)
    requires
        node < g.nodes@.len(),
        vals@.len() == g.nodes@[node as int].inputs@.len(),
    ensures
        ({
            let v = named_value(g.nodes@[node as int].inputs@, vals@, name@);
            if !(v matches Some(ProtosValueType::Shader(_))) {
                r == Err::<usize, EvalError>(cast_error(ProtosDataType::Shader, v))
            } else if v == Some(ProtosValueType::Shader(None)) {
                r == Err::<usize, EvalError>(EvalError::MissingRequiredInput)
            } else {
                v == Some(ProtosValueType::Shader(Some(r->Ok_0))) && r is Ok
            }
        }),
{
    let v = input_named(g, node, vals, name);
    match v {
        Ok(v) => match v.try_to_shader() {
            Ok(Some(s)) => Ok(s),
            Ok(None) => Err(EvalError::MissingRequiredInput),
            Err(e) => Err(e),
        },
        Err(e) => Err(e),
    }
}

pub fn evaluate_graphic_pass<G: GpuContext>(
    g: &Graph,
    res: &mut Resources,
    gpu: &mut G,
    node: usize,
    handle: usize,
    vals: &Vec<ProtosValueType>,
    width: u32,
    height: u32,
) -> (r: Result<Outputs, EvalError>)
    requires
        node < g.nodes@.len(),
        vals@.len() == g.nodes@[node as int].inputs@.len(),
        old(res).wf(),
        handle < old(res).graphic_passes@.len(),
    ensures
        arena_kept(final(res), old(res)),
        final(res).buffers == old(res).buffers,
        final(res).meshes == old(res).meshes,
        final(res).shaders == old(res).shaders,
        final(res).cameras == old(res).cameras,
        final(res).backbuffers == old(res).backbuffers,
        final(res).compute_passes == old(res).compute_passes,
        forall|p: int| 0 <= p < old(res).graphic_passes@.len() && p != handle ==>
            final(res).graphic_passes@[p] == old(res).graphic_passes@[p],
        forall|t: int| 0 <= t < old(res).textures@.len()
            && !old(res).graphic_passes@[handle as int].desc.render_targets@.contains(t as usize)
            ==> final(res).textures@[t] == old(res).textures@[t],
        graphic_pass_eval(g, node as int, handle as int, vals@, old(res), final(res), r, width, height),
{
    let ghost ins = g.nodes@[node as int].inputs@;
    let geometry = input_named(g, node, vals, &GraphicPassNodeInput::Geometry.name());
    let geometry = match geometry {
        Ok(v) => match v.try_to_geometry() {
            Ok(m) => m,
            Err(e) => return Err(e),
        },
        Err(e) => return Err(e),
    };
    let m = match geometry {
        Some(m) => m,
        None => return Err(EvalError::MissingRequiredInput),
    };
    if m >= res.meshes.len() {
        return Err(EvalError::InvalidHandle);
    }
    let vs = shader_input(g, node, vals, &GraphicPassNodeInput::VertexShader.name());
    let vs = match vs {
        Ok(s) => s,
        Err(e) => return Err(e),
    };
    let fs = shader_input(g, node, vals, &GraphicPassNodeInput::FragmentShader.name());
    let fs = match fs {
        Ok(s) => s,
        Err(e) => return Err(e),
    };
    let mut views: Vec<Option<usize>> = Vec::new();
    let mut i: u32 = 0;
    while i < GRAPHIC_PASS_SLOTS
        invariant
            i <= GRAPHIC_PASS_SLOTS,
            node < g.nodes@.len(),
            ins == g.nodes@[node as int].inputs@,
            vals@.len() == ins.len(),
            views@.len() == i,
            *res == *old(res),
            old(res).wf(),
            named_value(ins, vals@, "Geometry"@) == Some(ProtosValueType::Mesh(Some(m))),
            m < old(res).meshes@.len(),
            named_value(ins, vals@, "VertexShader"@) == Some(ProtosValueType::Shader(Some(vs))),
            named_value(ins, vals@, "FragmentShader"@) == Some(ProtosValueType::Shader(Some(fs))),
            forall|j: int| 0 <= j < i ==> named_value(ins, vals@, srv_name(j)) == Some(ProtosValueType::Texture(#[trigger] views@[j])),
        decreases GRAPHIC_PASS_SLOTS - i,
    {
        let srv = input_named(g, node, vals, &GraphicPassNodeInput::ShaderResourceView(i).name());
        let srv = match srv {
            Ok(v) => match v.try_to_texture() {
                Ok(t) => t,
                Err(e) => {
                    assert(!views_given(ins, vals@)) by {
                        assert(!(named_value(ins, vals@, srv_name(i as int)) matches Some(ProtosValueType::Texture(_))));
                    }
                    return Err(e);
                },
            },
            Err(e) => {
                assert(!views_given(ins, vals@)) by {
                    assert(named_value(ins, vals@, srv_name(i as int)) is None);
                }
                return Err(e);
            },
        };
        views.push(srv);
        i = i + 1;
    }
    assert(views_given(ins, vals@)) by {
        assert forall|j: int| 0 <= j < GRAPHIC_PASS_SLOTS implies (#[trigger] named_value(ins, vals@, srv_name(j)))
            matches Some(ProtosValueType::Texture(_)) by {
            assert(named_value(ins, vals@, srv_name(j)) == Some(ProtosValueType::Texture(views@[j])));
        }
    }
    assert(pass_inputs(ins, vals@, m, vs, fs, views@));
    let ghost old_pass = res.graphic_passes@[handle as int];
    res.graphic_passes[handle].set_geometry(m);
    res.graphic_passes[handle].set_vertex_shader(vs);
    res.graphic_passes[handle].set_fragment_shader(fs);
    let ghost same_views = views_kept(old_pass, views@);
    let mut i: u32 = 0;
    while i < GRAPHIC_PASS_SLOTS
        invariant
            i <= GRAPHIC_PASS_SLOTS,
            views@.len() == GRAPHIC_PASS_SLOTS,
            same_views == views_kept(old_pass, views@),
            node < g.nodes@.len(),
            vals@.len() == g.nodes@[node as int].inputs@.len(),
            pass_inputs(g.nodes@[node as int].inputs@, vals@, m, vs, fs, views@),
            m < old(res).meshes@.len(),
            res.wf(),
            res.same_shape(old(res)),
            res.same_attachments(old(res)),
            res.textures == old(res).textures,
            res.buffers == old(res).buffers,
            res.meshes == old(res).meshes,
            res.shaders == old(res).shaders,
            res.cameras == old(res).cameras,
            res.compute_passes == old(res).compute_passes,
            res.backbuffers == old(res).backbuffers,
            handle < res.graphic_passes@.len(),
            res.graphic_passes@[handle as int].desc.geometry == Some(m),
            res.graphic_passes@[handle as int].desc.vertex_shader == Some(vs),
            res.graphic_passes@[handle as int].desc.fragment_shader == Some(fs),
            res.graphic_passes@[handle as int].desc.render_target_desc == old_pass.desc.render_target_desc,
            res.graphic_passes@[handle as int].desc.shader_resource_view@.len() >= i,
            forall|j: int| 0 <= j < i ==> #[trigger] res.graphic_passes@[handle as int].desc.shader_resource_view@[j] == views@[j],
            old_pass.needs_build() ==> res.graphic_passes@[handle as int].needs_build(),
            same_views ==> res.graphic_passes@[handle as int].desc.shader_resource_view == old_pass.desc.shader_resource_view,
            (!old_pass.needs_build() && old_pass.desc.geometry == Some(m) && old_pass.desc.vertex_shader == Some(vs)
                && old_pass.desc.fragment_shader == Some(fs) && same_views) ==> res.graphic_passes@[handle as int] == old_pass,
            forall|p: int| 0 <= p < res.graphic_passes@.len() && p != handle ==>
                res.graphic_passes@[p] == old(res).graphic_passes@[p],
        decreases GRAPHIC_PASS_SLOTS - i,
    {
        proof {
            if same_views {
                assert(old_pass.desc.shader_resource_view@[i as int] == views@[i as int]);
            }
        }
        res.graphic_passes[handle].set_shader_resource_view(i, views[i as usize]);
        proof {
            lemma_pass_desc_kept(old(res), res, handle as int);
        }
        i = i + 1;
    }
    let n = res.graphic_passes[handle].desc.render_target_desc.len();
    assert(res.graphic_passes@[handle as int].desc.render_target_desc@.len() <= u32::MAX + 1);
    let ghost after_views = res.graphic_passes@[handle as int];
    let mut i: usize = 0;
    while i < n
        invariant
            node < g.nodes@.len(),
            vals@.len() == g.nodes@[node as int].inputs@.len(),
            pass_inputs(g.nodes@[node as int].inputs@, vals@, m, vs, fs, views@),
            same_views == views_kept(old_pass, views@),
            m < old(res).meshes@.len(),
            forall|j: int| 0 <= j < GRAPHIC_PASS_SLOTS ==> j < after_views.desc.shader_resource_view@.len()
                && #[trigger] after_views.desc.shader_resource_view@[j] == views@[j],
            (!old_pass.needs_build() && old_pass.desc.geometry == Some(m) && old_pass.desc.vertex_shader == Some(vs)
                && old_pass.desc.fragment_shader == Some(fs) && same_views) ==> after_views == old_pass,
            n <= u32::MAX + 1,
            res.wf(),
            res.same_shape(old(res)),
            res.same_attachments(old(res)),
            res.textures == old(res).textures,
            res.buffers == old(res).buffers,
            res.meshes == old(res).meshes,
            res.shaders == old(res).shaders,
            res.cameras == old(res).cameras,
            res.compute_passes == old(res).compute_passes,
            res.backbuffers == old(res).backbuffers,
            handle < res.graphic_passes@.len(),
            n == res.graphic_passes@[handle as int].desc.render_target_desc@.len(),
            n == old_pass.desc.render_target_desc@.len(),
            0 <= i <= n,
            res.graphic_passes@[handle as int].desc.geometry == Some(m),
            res.graphic_passes@[handle as int].desc.vertex_shader == Some(vs),
            res.graphic_passes@[handle as int].desc.fragment_shader == Some(fs),
            res.graphic_passes@[handle as int].desc.shader_resource_view == after_views.desc.shader_resource_view,
            res.graphic_passes@[handle as int].data == after_views.data,
            forall|j: int| 0 <= j < i ==> #[trigger] res.graphic_passes@[handle as int].desc.render_target_desc@[j]
                == (AttachmentDescription { width, height }),
            forall|j: int| i <= j < n ==> #[trigger] res.graphic_passes@[handle as int].desc.render_target_desc@[j]
                == old_pass.desc.render_target_desc@[j],
            (forall|j: int| 0 <= j < i ==> #[trigger] old_pass.desc.render_target_desc@[j]
                == (AttachmentDescription { width, height })) || res.graphic_passes@[handle as int].dirty,
            all_sized(old_pass.desc.render_target_desc@, width, height) ==> res.graphic_passes@[handle as int] == after_views,
            old_pass.needs_build() ==> res.graphic_passes@[handle as int].needs_build(),
            forall|p: int| 0 <= p < res.graphic_passes@.len() && p != handle ==>
                res.graphic_passes@[p] == old(res).graphic_passes@[p],
        decreases n - i,
    {
        res.graphic_passes[handle].set_render_target(i as u32, width, height);
        proof {
            lemma_pass_desc_kept(old(res), res, handle as int);
            if all_sized(old_pass.desc.render_target_desc@, width, height) {
                assert(old_pass.desc.render_target_desc@[i as int] == (AttachmentDescription { width, height }));
                assert(res.graphic_passes@[handle as int].desc.render_target_desc@ =~= after_views.desc.render_target_desc@);
            }
        }
        i = i + 1;
    }
    proof {
        if !all_sized(old_pass.desc.render_target_desc@, width, height) {
            let j = choose|j: int| 0 <= j < old_pass.desc.render_target_desc@.len()
                && old_pass.desc.render_target_desc@[j] != (AttachmentDescription { width, height });
            assert(old_pass.desc.render_target_desc@[j] != (AttachmentDescription { width, height }));
        }
        assert(res.graphic_passes@[handle as int].desc.render_target_desc@.len() == n);
    }
    let ghost before_build = *res;
    proof {
        let ins = g.nodes@[node as int].inputs@;
        if forall|i: int| 0 <= i < GRAPHIC_PASS_SLOTS ==> i < old_pass.desc.shader_resource_view@.len()
            && named_value(ins, vals@, srv_name(i)) == Some(ProtosValueType::Texture(#[trigger] old_pass.desc.shader_resource_view@[i])) {
            assert(0 < GRAPHIC_PASS_SLOTS);
            assert(named_value(ins, vals@, srv_name(0)) == Some(ProtosValueType::Texture(views@[0])));
            assert(old_pass.desc.shader_resource_view@[0] == views@[0]);
            assert(views_kept(old_pass, views@));
        }
        if !old_pass.needs_build() && old_pass.desc.geometry == Some(m) && old_pass.desc.vertex_shader == Some(vs)
            && old_pass.desc.fragment_shader == Some(fs) && same_views && all_sized(old_pass.desc.render_target_desc@, width, height) {
            assert(res.graphic_passes@[handle as int] == old_pass);
            assert(res.graphic_passes@ =~= old(res).graphic_passes@);
        }
    }
    let built = res.update_graphic_pass(handle, gpu);
    match built {
        Ok(()) => {},
        Err(e) => return Err(EvalError::Build(e)),
    }
    render_target_outputs(g, node, &res.graphic_passes[handle])
}

/// The outputs `RT<i>` of a built graphic pass.
fn render_target_outputs(g: &Graph, node: usize, pass: &GraphicPass) -> (r: Result<Outputs, EvalError>)
    requires
        node < g.nodes@.len(),
    ensures
        r is Ok <==> targets_exist(g, node as int),
        r is Ok ==> r->Ok_0@.len() == GRAPHIC_PASS_SLOTS && forall|i: int| 0 <= i < GRAPHIC_PASS_SLOTS ==> {
            &&& first_output_named(g, node as int, (#[trigger] r->Ok_0@[i]).0 as int, rt_name(i))
            &&& r->Ok_0@[i].1 == ProtosValueType::Texture(
                if pass.data.is_some() && i < pass.desc.render_targets@.len() {
                    Some(pass.desc.render_targets@[i])
                } else {
                    None
                })
        },
        r is Err ==> r->Err_0 == EvalError::SocketNotFound,
{
    let mut outs: Outputs = Vec::new();
    let mut i: u32 = 0;
    while i < GRAPHIC_PASS_SLOTS
        invariant
            0 <= i <= GRAPHIC_PASS_SLOTS,
            node < g.nodes@.len(),
            outs@.len() == i,
            forall|j: int| 0 <= j < i ==> #[trigger] has_output(g, node as int, rt_name(j)),
            forall|j: int| 0 <= j < i ==> {
                &&& first_output_named(g, node as int, (#[trigger] outs@[j]).0 as int, rt_name(j))
                &&& outs@[j].1 == ProtosValueType::Texture(
                    if pass.data.is_some() && j < pass.desc.render_targets@.len() {
                        Some(pass.desc.render_targets@[j])
                    } else {
                        None
                    })
            },
        decreases GRAPHIC_PASS_SLOTS - i,
    {
        let o = output_named(g, node, &GraphicPassNodeOutput::RenderTarget(i).name());
        let o = match o {
            Ok(o) => o,
            Err(e) => {
                assert(!targets_exist(g, node as int)) by {
                    assert(!has_output(g, node as int, rt_name(i as int)));
                }
                return Err(e);
            },
        };
        outs.push((o, ProtosValueType::Texture(pass.get_render_target(i))));
        i = i + 1;
    }
    Ok(outs)
}

proof fn lemma_pass_desc_kept(old_res: &Resources, res: &Resources, handle: int)
    requires
        old_res.wf(),
        res.textures@.len() == old_res.textures@.len(),
        res.compute_passes == old_res.compute_passes,
        res.graphic_passes@.len() == old_res.graphic_passes@.len(),
        0 <= handle < res.graphic_passes@.len(),
        forall|p: int| 0 <= p < res.graphic_passes@.len() && p != handle ==> res.graphic_passes@[p] == old_res.graphic_passes@[p],
        res.graphic_passes@[handle].desc.render_targets == old_res.graphic_passes@[handle].desc.render_targets,
        res.graphic_passes@[handle].desc.render_target_desc@.len() == old_res.graphic_passes@[handle].desc.render_target_desc@.len(),
    ensures
        res.wf(),
        res.same_attachments(old_res),
{
    assert forall|p: int| 0 <= p < res.graphic_passes@.len() implies {
        let d = #[trigger] res.graphic_passes@[p].desc;
        &&& d.render_target_desc@.len() >= d.render_targets@.len()
        &&& d.render_target_desc@.len() <= u32::MAX + 1
        &&& forall|i: int| 0 <= i < d.render_targets@.len() ==> d.render_targets@[i] < res.textures@.len()
        &&& forall|i: int, j: int| 0 <= i < j < d.render_targets@.len() ==> d.render_targets@[i] != d.render_targets@[j]
    } by {
        assert(old_res.graphic_passes@[p].desc.render_targets == res.graphic_passes@[p].desc.render_targets);
    }
}

/// The outcome of a compute pass: `SRV0` binds a texture (or nothing); its
/// output texture takes the frame's size; output `RT0` carries that texture.
pub open spec fn compute_pass_eval(g: &Graph, node: int, h: int, vals: Seq<ProtosValueType>, old: &Resources, new: &Resources,
    r: Result<Outputs, EvalError>, width: u32, height: u32) -> bool {
    let v = named_value(g.nodes@[node].inputs@, vals, srv_name(0));
    let op = old.compute_passes@[h];
    let unchanged = new.compute_passes@ == old.compute_passes@ && new.textures@ == old.textures@;
    if !(v matches Some(ProtosValueType::Texture(_))) {
        r == Err::<Outputs, EvalError>(cast_error(ProtosDataType::Texture, v)) && unchanged
    } else if op.desc.shader_resource_view@.len() == 0 {
        r == Err::<Outputs, EvalError>(EvalError::SocketNotFound) && unchanged
    } else {
        let srv = v->Some_0->Texture_0;
        let p = new.compute_passes@[h];
        let out = has_output(g, node, rt_name(0));
        &&& p.desc.shader_resource_view@ == op.desc.shader_resource_view@.update(0, srv)
        &&& p.desc.width == width && p.desc.height == height && p.desc.output == op.desc.output
        &&& build_outcome(r, clean(p), out)
        &&& (!op.needs_build() && op.desc.shader_resource_view@[0] == srv && op.desc.width == width
            && op.desc.height == height && out ==> r is Ok && unchanged)
        &&& (r is Ok ==> r->Ok_0@.len() == 1 && first_output_named(g, node, r->Ok_0@[0].0 as int, rt_name(0))
            && r->Ok_0@[0].1 == ProtosValueType::Texture(Some(p.desc.output)))
    }
}

pub fn evaluate_compute_pass<G: GpuContext>(
    g: &Graph,
    res: &mut Resources,
    gpu: &mut G,
    node: usize,
    handle: usize,
    vals: &Vec<ProtosValueType>,
    width: u32,
    height: u32,
) -> (r: Result<Outputs, EvalError>)
    requires
        node < g.nodes@.len(),
        vals@.len() == g.nodes@[node as int].inputs@.len(),
        old(res).wf(),
        handle < old(res).compute_passes@.len(),
    ensures
        arena_kept(final(res), old(res)),
        final(res).buffers == old(res).buffers,
        final(res).meshes == old(res).meshes,
        final(res).shaders == old(res).shaders,
        final(res).cameras == old(res).cameras,
        final(res).backbuffers == old(res).backbuffers,
        final(res).graphic_passes == old(res).graphic_passes,
        forall|p: int| 0 <= p < old(res).compute_passes@.len() && p != handle ==>
            final(res).compute_passes@[p] == old(res).compute_passes@[p],
        forall|t: int| 0 <= t < old(res).textures@.len() && t != old(res).compute_passes@[handle as int].desc.output
            ==> final(res).textures@[t] == old(res).textures@[t],
        compute_pass_eval(g, node as int, handle as int, vals@, old(res), final(res), r, width, height),
{
    let srv = input_named(g, node, vals, &GraphicPassNodeInput::ShaderResourceView(0).name());
    let srv = match srv {
        Ok(v) => match v.try_to_texture() {
            Ok(t) => t,
            Err(e) => return Err(e),
        },
        Err(e) => return Err(e),
    };
    proof {
        reveal_strlit("RT0");
        reveal_strlit("RT");
        assert("RT"@ + decimal(0) =~= "RT0"@);
    }
    if res.compute_passes[handle].desc.shader_resource_view.len() == 0 {
        return Err(EvalError::SocketNotFound);
    }
    let ghost before = *res;
    res.compute_passes[handle].set_shader_resource_view(0, srv);
    res.compute_passes[handle].set_size(width, height);
    proof {
        assert forall|p: int| 0 <= p < res.compute_passes@.len() implies
            (#[trigger] res.compute_passes@[p]).desc.output == old(res).compute_passes@[p].desc.output by {}
        let op = before.compute_passes@[handle as int];
        if !op.needs_build() && op.desc.shader_resource_view@[0] == srv && op.desc.width == width && op.desc.height == height {
            assert(res.compute_passes@[handle as int].desc.shader_resource_view@ =~= op.desc.shader_resource_view@);
            assert(res.compute_passes@ =~= before.compute_passes@);
        }
    }
    let built = res.update_compute_pass(handle, gpu);
    match built {
        Ok(()) => {},
        Err(e) => return Err(EvalError::Build(e)),
    }
    let output = res.compute_passes[handle].desc.output;
    single_output(g, node, &GraphicPassNodeOutput::RenderTarget(0).name(), ProtosValueType::Texture(Some(output)))
}

/// The outcome of a file texture: `Path` must be a string; output `texture`
/// is the node's own texture.
pub open spec fn file_texture_eval(g: &Graph, node: int, h: int, vals: Seq<ProtosValueType>, old: &Resources, new: &Resources,
    r: Result<Outputs, EvalError>) -> bool {
    let v = named_value(g.nodes@[node].inputs@, vals, "Path"@);
    if !(v matches Some(ProtosValueType::String(_))) {
        r == Err::<Outputs, EvalError>(cast_error(ProtosDataType::String, v)) && new.textures@ == old.textures@
    } else {
        let path = v->Some_0->String_0;
        let t = new.textures@[h];
        let ot = old.textures@[h];
        let out = has_output(g, node, "texture"@);
        &&& same_source(t.desc.source, TextureSource::Path(path))
        &&& t.desc.width == ot.desc.width && t.desc.height == ot.desc.height
        &&& build_outcome(r, clean(t), out)
        &&& (!ot.needs_build() && same_source(ot.desc.source, TextureSource::Path(path)) && out ==> r is Ok && t == ot)
        &&& (r is Ok ==> r->Ok_0@.len() == 1 && first_output_named(g, node, r->Ok_0@[0].0 as int, "texture"@)
            && r->Ok_0@[0].1 == ProtosValueType::Texture(Some(h as usize)))
    }
}

pub fn evaluate_file_texture<G: GpuContext>(
    g: &Graph,
    res: &mut Resources,
    gpu: &mut G,
    node: usize,
    handle: usize,
    vals: &Vec<ProtosValueType>,
) -> (r: Result<Outputs, EvalError>)
    requires
        node < g.nodes@.len(),
        vals@.len() == g.nodes@[node as int].inputs@.len(),
        old(res).wf(),
        handle < old(res).textures@.len(),
    ensures
        arena_kept(final(res), old(res)),
        final(res).buffers == old(res).buffers,
        final(res).meshes == old(res).meshes,
        final(res).shaders == old(res).shaders,
        final(res).cameras == old(res).cameras,
        final(res).graphic_passes == old(res).graphic_passes,
        final(res).compute_passes == old(res).compute_passes,
        final(res).backbuffers == old(res).backbuffers,
        forall|t: int| 0 <= t < old(res).textures@.len() && t != handle ==> final(res).textures@[t] == old(res).textures@[t],
        file_texture_eval(g, node as int, handle as int, vals@, old(res), final(res), r),
{
    let path = input_named(g, node, vals, &TextureFileNodeInput::Path.name());
    let path = match path {
        Ok(v) => match v.try_to_string() {
            Ok(p) => p,
            Err(e) => return Err(e),
        },
        Err(e) => return Err(e),
    };
    let ghost before = res.textures@[handle as int];
    res.textures[handle].set_path(path);
    let built = res.textures[handle].update_data(gpu);
    proof {
        lemma_textures_touched(old(res), res, handle as int);
        if !before.needs_build() && same_source(before.desc.source, TextureSource::Path(path)) {
            assert(res.textures@[handle as int] == before);
        }
    }
    match built {
        Ok(()) => {},
        Err(e) => return Err(EvalError::Build(e)),
    }
    single_output(g, node, &TextureFileNodeOutput::Texture.name(), ProtosValueType::Texture(Some(handle)))
}

/// The outcome of a texture of given size: `Dimensions` must be a pair;
/// output `texture` is the node's own texture.
pub open spec fn resource_texture_eval(g: &Graph, node: int, h: int, vals: Seq<ProtosValueType>, old: &Resources, new: &Resources,
    r: Result<Outputs, EvalError>) -> bool {
    let v = named_value(g.nodes@[node].inputs@, vals, "Dimensions"@);
    if !(v matches Some(ProtosValueType::Vec2(..))) {
        r == Err::<Outputs, EvalError>(cast_error(ProtosDataType::Vec2, v)) && new.textures@ == old.textures@
    } else {
        let w = v->Some_0->Vec2_0;
        let hh = v->Some_0->Vec2_1;
        let t = new.textures@[h];
        let ot = old.textures@[h];
        let out = has_output(g, node, "texture"@);
        &&& t.desc.width == w && t.desc.height == hh
        &&& build_outcome(r, clean(t), out)
        &&& (!ot.needs_build() && ot.desc.width == w && ot.desc.height == hh && out ==> r is Ok && t == ot)
        &&& (r is Ok ==> r->Ok_0@.len() == 1 && first_output_named(g, node, r->Ok_0@[0].0 as int, "texture"@)
            && r->Ok_0@[0].1 == ProtosValueType::Texture(Some(h as usize)))
    }
}

pub fn evaluate_resource_texture<G: GpuContext>(
    g: &Graph,
    res: &mut Resources,
    gpu: &mut G,
    node: usize,
    handle: usize,
    vals: &Vec<ProtosValueType>,
) -> (r: Result<Outputs, EvalError>)
    requires
        node < g.nodes@.len(),
        vals@.len() == g.nodes@[node as int].inputs@.len(),
        old(res).wf(),
        handle < old(res).textures@.len(),
    ensures
        arena_kept(final(res), old(res)),
        final(res).buffers == old(res).buffers,
        final(res).meshes == old(res).meshes,
        final(res).shaders == old(res).shaders,
        final(res).cameras == old(res).cameras,
        final(res).graphic_passes == old(res).graphic_passes,
        final(res).compute_passes == old(res).compute_passes,
        final(res).backbuffers == old(res).backbuffers,
        forall|t: int| 0 <= t < old(res).textures@.len() && t != handle ==> final(res).textures@[t] == old(res).textures@[t],
        resource_texture_eval(g, node as int, handle as int, vals@, old(res), final(res), r),
{
    let dims = input_named(g, node, vals, &TextureResourceNodeInput::Dimensions.name());
    let (w, h) = match dims {
        Ok(v) => match v.try_to_vec2() {
            Ok(d) => d,
            Err(e) => return Err(e),
        },
        Err(e) => return Err(e),
    };
    let ghost before = res.textures@[handle as int];
    res.textures[handle].set_width(w);
    res.textures[handle].set_height(h);
    let built = res.textures[handle].update_data(gpu);
    proof {
        lemma_textures_touched(old(res), res, handle as int);
        if !before.needs_build() && before.desc.width == w && before.desc.height == h {
            assert(res.textures@[handle as int] == before);
        }
    }
    match built {
        Ok(()) => {},
        Err(e) => return Err(EvalError::Build(e)),
    }
    single_output(g, node, &TextureResourceNodeOutput::Texture.name(), ProtosValueType::Texture(Some(handle)))
}

proof fn lemma_textures_touched(old_res: &Resources, res: &Resources, handle: int)
    requires
        old_res.wf(),
        res.textures@.len() == old_res.textures@.len(),
        res.graphic_passes == old_res.graphic_passes,
        res.compute_passes == old_res.compute_passes,
        res.buffers == old_res.buffers,
        res.meshes == old_res.meshes,
        res.shaders == old_res.shaders,
        res.cameras == old_res.cameras,
        res.backbuffers == old_res.backbuffers,
    ensures
        arena_kept(res, old_res),
{
}

/// The outcome of a mesh: output `Geometry` is the node's own mesh.
pub open spec fn mesh_eval(g: &Graph, node: int, h: int, old: &Resources, new: &Resources, r: Result<Outputs, EvalError>) -> bool {
    let m = new.meshes@[h];
    let om = old.meshes@[h];
    let out = has_output(g, node, "Geometry"@);
    &&& m.desc == om.desc
    &&& build_outcome(r, clean(m), out)
    &&& (!om.needs_build() && out ==> r is Ok && m == om)
    &&& (r is Ok ==> r->Ok_0@.len() == 1 && first_output_named(g, node, r->Ok_0@[0].0 as int, "Geometry"@)
        && r->Ok_0@[0].1 == ProtosValueType::Mesh(Some(h as usize)))
}

pub fn evaluate_mesh<G: GpuContext>(g: &Graph, res: &mut Resources, gpu: &mut G, node: usize, handle: usize) -> (r: Result<Outputs, EvalError>)
    requires
        node < g.nodes@.len(),
        old(res).wf(),
        handle < old(res).meshes@.len(),
    ensures
        arena_kept(final(res), old(res)),
        final(res).textures == old(res).textures,
        final(res).graphic_passes == old(res).graphic_passes,
        final(res).compute_passes == old(res).compute_passes,
        final(res).buffers == old(res).buffers,
        final(res).shaders == old(res).shaders,
        final(res).cameras == old(res).cameras,
        final(res).backbuffers == old(res).backbuffers,
        forall|t: int| 0 <= t < old(res).meshes@.len() && t != handle ==> final(res).meshes@[t] == old(res).meshes@[t],
        mesh_eval(g, node as int, handle as int, old(res), final(res), r),
{
    let built = res.meshes[handle].update_data(gpu);
    match built {
        Ok(()) => {},
        Err(e) => return Err(EvalError::Build(e)),
    }
    single_output(g, node, &MeshNodeOutput::Geometry.name(), ProtosValueType::Mesh(Some(handle)))
}

/// The outcome of a shader: outputs `VertexShader` and `FragmentShader` are
/// both the node's own shader.
pub open spec fn shader_eval(g: &Graph, node: int, h: int, old: &Resources, new: &Resources, r: Result<Outputs, EvalError>) -> bool {
    let s = new.shaders@[h];
    let os = old.shaders@[h];
    let out = has_output(g, node, "VertexShader"@) && has_output(g, node, "FragmentShader"@);
    &&& s.desc == os.desc
    &&& build_outcome(r, clean(s), out)
    &&& (!os.needs_build() && out ==> r is Ok && s == os)
    &&& (r is Ok ==> {
        &&& r->Ok_0@.len() == 2
        &&& first_output_named(g, node, r->Ok_0@[0].0 as int, "VertexShader"@)
        &&& first_output_named(g, node, r->Ok_0@[1].0 as int, "FragmentShader"@)
        &&& r->Ok_0@[0].1 == ProtosValueType::Shader(Some(h as usize))
        &&& r->Ok_0@[1].1 == ProtosValueType::Shader(Some(h as usize))
    })
}

pub fn evaluate_shader<G: GpuContext>(g: &Graph, res: &mut Resources, gpu: &mut G, node: usize, handle: usize) -> (r: Result<Outputs, EvalError>)
    requires
        node < g.nodes@.len(),
        old(res).wf(),
        handle < old(res).shaders@.len(),
    ensures
        arena_kept(final(res), old(res)),
        final(res).textures == old(res).textures,
        final(res).graphic_passes == old(res).graphic_passes,
        final(res).compute_passes == old(res).compute_passes,
        final(res).buffers == old(res).buffers,
        final(res).meshes == old(res).meshes,
        final(res).cameras == old(res).cameras,
        final(res).backbuffers == old(res).backbuffers,
        forall|t: int| 0 <= t < old(res).shaders@.len() && t != handle ==> final(res).shaders@[t] == old(res).shaders@[t],
        shader_eval(g, node as int, handle as int, old(res), final(res), r),
{
    let built = res.shaders[handle].update_data(gpu);
    match built {
        Ok(()) => {},
        Err(e) => return Err(EvalError::Build(e)),
    }
    let vs = output_named(g, node, &ShaderNodeOutput::VertexShader.name());
    let vs = match vs {
        Ok(o) => o,
        Err(e) => return Err(e),
    };
    let fs = output_named(g, node, &ShaderNodeOutput::FragmentShader.name());
    let fs = match fs {
        Ok(o) => o,
        Err(e) => return Err(e),
    };
    let mut outs: Outputs = Vec::new();
    outs.push((vs, ProtosValueType::Shader(Some(handle))));
    outs.push((fs, ProtosValueType::Shader(Some(handle))));
    Ok(outs)
}

/// A camera has no sockets; it is only built, which always succeeds.
pub fn evaluate_camera(res: &mut Resources, handle: usize) -> (r: Result<Outputs, EvalError>)
    requires
        old(res).wf(),
        handle < old(res).cameras@.len(),
    ensures
        arena_kept(final(res), old(res)),
        final(res).textures == old(res).textures,
        final(res).graphic_passes == old(res).graphic_passes,
        final(res).compute_passes == old(res).compute_passes,
        final(res).buffers == old(res).buffers,
        final(res).meshes == old(res).meshes,
        final(res).shaders == old(res).shaders,
        final(res).backbuffers == old(res).backbuffers,
        forall|t: int| 0 <= t < old(res).cameras@.len() && t != handle ==> final(res).cameras@[t] == old(res).cameras@[t],
        r is Ok,
        r->Ok_0@.len() == 0,
        final(res).cameras@[handle as int].data.is_some(),
        !final(res).cameras@[handle as int].dirty,
{
    let _ = res.cameras[handle].update_data();
    Ok(Vec::new())
}

/// The outcome of evaluating node `node` of whatever kind on its resolved
/// inputs `vals`, for a `width` x `height` frame.
#[verifier::opaque]
pub open spec fn kind_eval(g: &Graph, node: int, vals: Seq<ProtosValueType>, old: &Resources, new: &Resources,
    r: Result<Outputs, EvalError>, width: u32, height: u32) -> bool {
    match g.nodes@[node].template {
        ProtosNodeTemplate::BackbufferPass(n) => backbuffer_eval(g, node, n.handle as int, vals, old, new, r, width, height),
        ProtosNodeTemplate::GraphicPass(n) => graphic_pass_eval(g, node, n.handle as int, vals, old, new, r, width, height),
        ProtosNodeTemplate::ComputePass(n) => compute_pass_eval(g, node, n.handle as int, vals, old, new, r, width, height),
        ProtosNodeTemplate::Buffer(n) => buffer_eval(g, node, n.handle as int, vals, old, new, r),
        ProtosNodeTemplate::FileTexture(n) => file_texture_eval(g, node, n.handle as int, vals, old, new, r),
        ProtosNodeTemplate::ResourceTexture(n) => resource_texture_eval(g, node, n.handle as int, vals, old, new, r),
        ProtosNodeTemplate::Camera(n) => r is Ok && r->Ok_0@.len() == 0 && clean(new.cameras@[n.handle as int]),
        ProtosNodeTemplate::Mesh(n) => mesh_eval(g, node, n.mesh as int, old, new, r),
        ProtosNodeTemplate::Shader(n) => shader_eval(g, node, n.shader as int, old, new, r),
    }
}

/// Runs the evaluation of node `node` of whatever kind.
pub fn evaluate_kind<G: GpuContext>(
    g: &Graph,
    res: &mut Resources,
    gpu: &mut G,
    node: usize,
    vals: &Vec<ProtosValueType>,
    width: u32,
    height: u32,
) -> (r: Result<Outputs, EvalError>)
    requires
        node < g.nodes@.len(),
        vals@.len() == g.nodes@[node as int].inputs@.len(),
        old(res).wf(),
        g.nodes@[node as int].template.handles_in(old(res)),
    ensures
        arena_kept(final(res), old(res)),
        kind_eval(g, node as int, vals@, old(res), final(res), r, width, height),
        only_own_changed(g, old(res), final(res), node as int),
{
    reveal(kind_eval);
    reveal(only_own_changed);
    match g.nodes[node].template {
        ProtosNodeTemplate::BackbufferPass(n) => evaluate_backbuffer(g, res, gpu, node, n.handle, vals, width, height),
        ProtosNodeTemplate::GraphicPass(n) => evaluate_graphic_pass(g, res, gpu, node, n.handle, vals, width, height),
        ProtosNodeTemplate::ComputePass(n) => evaluate_compute_pass(g, res, gpu, node, n.handle, vals, width, height),
        ProtosNodeTemplate::Buffer(n) => evaluate_buffer(g, res, gpu, node, n.handle, vals),
        ProtosNodeTemplate::FileTexture(n) => evaluate_file_texture(g, res, gpu, node, n.handle, vals),
        ProtosNodeTemplate::ResourceTexture(n) => evaluate_resource_texture(g, res, gpu, node, n.handle, vals),
        ProtosNodeTemplate::Camera(n) => evaluate_camera(res, n.handle),
        ProtosNodeTemplate::Mesh(n) => evaluate_mesh(g, res, gpu, node, n.mesh),
        ProtosNodeTemplate::Shader(n) => evaluate_shader(g, res, gpu, node, n.shader),
    }
}

} // verus!
