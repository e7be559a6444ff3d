//! The node kinds: the resource each one owns and the sockets it declares.
use vstd::prelude::*;
use vstd::string::StringExecFns;
use crate::graph::{Graph, InputParam, InputParamKind, OutputParam};
use crate::value::{ProtosDataType, ProtosValueType};
use crate::resources::Resources;
use crate::texture::{Texture, TextureDescription};
use crate::buffer::Buffer;
use crate::mesh::{Mesh, MeshSource};
use crate::shader::Shader;
use crate::camera::Camera;
use crate::graphic_pass::GraphicPass;
use crate::compute_pass::ComputePass;
use crate::backbuffer::BackbufferPass;

verus! {

/// The decimal digits of `n`.
pub open spec fn decimal(n: nat) -> Seq<char>
    decreases n,
{
    if n < 10 {
        seq![digit_char(n)]
    } else {
        decimal(n / 10) + seq![digit_char(n % 10)]
    }
}

pub open spec fn digit_char(d: nat) -> char {
    if d == 0 { '0' } else if d == 1 { '1' } else if d == 2 { '2' } else if d == 3 { '3' }
    else if d == 4 { '4' } else if d == 5 { '5' } else if d == 6 { '6' } else if d == 7 { '7' }
    else if d == 8 { '8' } else { '9' }
}

fn digit_str(d: u32) -> (r: &'static str)
    requires
        d < 10,
    ensures
        r@ == seq![digit_char(d as nat)],
{
    proof {
        reveal_strlit("0"); reveal_strlit("1"); reveal_strlit("2"); reveal_strlit("3"); reveal_strlit("4");
        reveal_strlit("5"); reveal_strlit("6"); reveal_strlit("7"); reveal_strlit("8"); reveal_strlit("9");
    }
    if d == 0 { "0" } else if d == 1 { "1" } else if d == 2 { "2" } else if d == 3 { "3" }
    else if d == 4 { "4" } else if d == 5 { "5" } else if d == 6 { "6" } else if d == 7 { "7" }
    else if d == 8 { "8" } else { "9" }
}

/// Appends the decimal digits of `n` to `s`.
pub fn append_decimal(s: &mut String, n: u32)
    ensures
        final(s)@ == old(s)@ + decimal(n as nat),
    decreases n,
{
    if n >= 10 {
        append_decimal(s, n / 10);
    }
    s.append(digit_str(n % 10));
    assert(final(s)@ =~= old(s)@ + decimal(n as nat));
}

/// `prefix` followed by the decimal digits of `n`.
pub fn indexed_name(prefix: &str, n: u32) -> (r: String)
    ensures
        r@ == prefix@ + decimal(n as nat),
{
    let mut s = prefix.to_owned();
    append_decimal(&mut s, n);
    s
}

#[derive(Copy, Clone, Debug, PartialEq, Eq, Structural)]
pub enum BackbufferPassNodeInput {
    Input,
}

impl BackbufferPassNodeInput {
    pub fn name(&self) -> (r: String)
        ensures
            r@ == "input"@,
    {
        "input".to_owned()
    }
}

#[derive(Copy, Clone, Debug, PartialEq, Eq, Structural)]
pub enum BufferNodeInput {
    Size,
    Format,
}

impl BufferNodeInput {
    pub fn name(&self) -> (r: String)
        ensures
            r@ == (match self { BufferNodeInput::Size => "Size"@, BufferNodeInput::Format => "Format"@ }),
    {
        match self {
            BufferNodeInput::Size => "Size".to_owned(),
            BufferNodeInput::Format => "Format".to_owned(),
        }
    }
}

#[derive(Copy, Clone, Debug, PartialEq, Eq, Structural)]
pub enum BufferNodeOutput {
    Buffer,
}

impl BufferNodeOutput {
    pub fn name(&self) -> (r: String)
        ensures
            r@ == "Buffer"@,
    {
        "Buffer".to_owned()
    }
}

#[derive(Copy, Clone, Debug, PartialEq, Eq, Structural)]
pub enum GraphicPassNodeInput {
    ShaderResourceView(u32),
    VertexShader,
    FragmentShader,
    Geometry,
}

impl GraphicPassNodeInput {
    pub fn name(&self) -> (r: String)
        ensures
            r@ == (match self {
                GraphicPassNodeInput::ShaderResourceView(i) => "SRV"@ + decimal(i as nat),
                GraphicPassNodeInput::VertexShader => "VertexShader"@,
                GraphicPassNodeInput::FragmentShader => "FragmentShader"@,
                GraphicPassNodeInput::Geometry => "Geometry"@,
            }),
    {
        match self {
            GraphicPassNodeInput::ShaderResourceView(i) => indexed_name("SRV", *i),
            GraphicPassNodeInput::VertexShader => "VertexShader".to_owned(),
            GraphicPassNodeInput::FragmentShader => "FragmentShader".to_owned(),
            GraphicPassNodeInput::Geometry => "Geometry".to_owned(),
        }
    }
}

#[derive(Copy, Clone, Debug, PartialEq, Eq, Structural)]
pub enum GraphicPassNodeOutput {
    RenderTarget(u32),
}

impl GraphicPassNodeOutput {
    pub fn name(&self) -> (r: String)
        ensures
            r@ == (match self { GraphicPassNodeOutput::RenderTarget(i) => "RT"@ + decimal(i as nat) }),
    {
        match self {
            GraphicPassNodeOutput::RenderTarget(i) => indexed_name("RT", *i),
        }
    }
}

#[derive(Copy, Clone, Debug, PartialEq, Eq, Structural)]
pub enum MeshNodeOutput {
    Geometry,
}

impl MeshNodeOutput {
    pub fn name(&self) -> (r: String)
        ensures
            r@ == "Geometry"@,
    {
        "Geometry".to_owned()
    }
}

#[derive(Copy, Clone, Debug, PartialEq, Eq, Structural)]
pub enum ShaderNodeOutput {
    FragmentShader,
    VertexShader,
}

impl ShaderNodeOutput {
    pub fn name(&self) -> (r: String)
        ensures
            r@ == (match self {
                ShaderNodeOutput::FragmentShader => "FragmentShader"@,
                ShaderNodeOutput::VertexShader => "VertexShader"@,
            }),
    {
        match self {
            ShaderNodeOutput::FragmentShader => "FragmentShader".to_owned(),
            ShaderNodeOutput::VertexShader => "VertexShader".to_owned(),
        }
    }
}

#[derive(Copy, Clone, Debug, PartialEq, Eq, Structural)]
pub enum TextureFileNodeInput {
    Path,
}

impl TextureFileNodeInput {
    pub fn name(&self) -> (r: String)
        ensures
            r@ == "Path"@,
    {
        "Path".to_owned()
    }
}

#[derive(Copy, Clone, Debug, PartialEq, Eq, Structural)]
pub enum TextureFileNodeOutput {
    Texture,
}

impl TextureFileNodeOutput {
    pub fn name(&self) -> (r: String)
        ensures
            r@ == "texture"@,
    {
        "texture".to_owned()
    }
}

#[derive(Copy, Clone, Debug, PartialEq, Eq, Structural)]
pub enum TextureResourceNodeInput {
    Dimensions,
}

impl TextureResourceNodeInput {
    pub fn name(&self) -> (r: String)
        ensures
            r@ == "Dimensions"@,
    {
        "Dimensions".to_owned()
    }
}

#[derive(Copy, Clone, Debug, PartialEq, Eq, Structural)]
pub enum TextureResourceNodeOutput {
    Texture,
}

impl TextureResourceNodeOutput {
    pub fn name(&self) -> (r: String)
        ensures
            r@ == "texture"@,
    {
        "texture".to_owned()
    }
}

/// The sink of the graph; `handle` is a backbuffer pass of the arena.
#[derive(Copy, Clone, Debug, PartialEq, Eq, Structural)]
pub struct BackbufferPassNode {
    pub handle: usize,
}

impl BackbufferPassNode {
    pub fn new(handle: usize) -> (r: Self)
        ensures
            r.handle == handle,
    {
        BackbufferPassNode { handle }
    }
}

/// `handle` is a graphic pass of the arena.
#[derive(Copy, Clone, Debug, PartialEq, Eq, Structural)]
pub struct GraphicPassNode {
    pub handle: usize,
}

/// `handle` is a compute pass of the arena.
#[derive(Copy, Clone, Debug, PartialEq, Eq, Structural)]
pub struct ComputePassNode {
    pub handle: usize,
}

/// `handle` is a buffer of the arena.
#[derive(Copy, Clone, Debug, PartialEq, Eq, Structural)]
pub struct BufferNode {
    pub handle: usize,
}

/// `handle` is a texture of the arena, loaded from a file.
#[derive(Copy, Clone, Debug, PartialEq, Eq, Structural)]
pub struct TextureFileNode {
    pub handle: usize,
}

/// `handle` is a texture of the arena, of the given dimensions.
#[derive(Copy, Clone, Debug, PartialEq, Eq, Structural)]
pub struct TextureResourceNode {
    pub handle: usize,
}

/// `handle` is a camera of the arena.
#[derive(Copy, Clone, Debug, PartialEq, Eq, Structural)]
pub struct CameraNode {
    pub handle: usize,
}

/// `mesh` is a mesh of the arena.
#[derive(Copy, Clone, Debug, PartialEq, Eq, Structural)]
pub struct MeshNode {
    pub mesh: usize,
}

/// `shader` is a shader of the arena.
#[derive(Copy, Clone, Debug, PartialEq, Eq, Structural)]
pub struct ShaderNode {
    pub shader: usize,
}

/// A node of the graph: its kind and the resource it owns.
#[derive(Copy, Clone, Debug, PartialEq, Eq, Structural)]
pub enum ProtosNodeTemplate {
    BackbufferPass(BackbufferPassNode),
    GraphicPass(GraphicPassNode),
    ComputePass(ComputePassNode),
    Buffer(BufferNode),
    FileTexture(TextureFileNode),
    ResourceTexture(TextureResourceNode),
    Camera(CameraNode),
    Mesh(MeshNode),
    Shader(ShaderNode),
}

/// The kinds of node, without their resources.
#[derive(Copy, Clone, Debug, PartialEq, Eq, Structural)]
pub enum NodeKind {
    BackbufferPass,
    GraphicPass,
    ComputePass,
    Buffer,
    FileTexture,
    ResourceTexture,
    Camera,
    Mesh,
    Shader,
}

/// The list of node kinds offered by the node finder.
pub struct AllProtosNodeTemplates;

impl AllProtosNodeTemplates {
    pub fn all_kinds(&self) -> (r: Vec<NodeKind>)
        ensures
            r@ == seq![NodeKind::BackbufferPass, NodeKind::GraphicPass, NodeKind::ComputePass, NodeKind::Buffer,
                NodeKind::FileTexture, NodeKind::ResourceTexture, NodeKind::Camera, NodeKind::Mesh, NodeKind::Shader],
    {
        vec![NodeKind::BackbufferPass, NodeKind::GraphicPass, NodeKind::ComputePass, NodeKind::Buffer,
            NodeKind::FileTexture, NodeKind::ResourceTexture, NodeKind::Camera, NodeKind::Mesh, NodeKind::Shader]
    }
}

/// The number of render targets and shader resource views of a graphic pass.
pub const GRAPHIC_PASS_SLOTS: u32 = 1;

/// Name and type of a socket.
pub type SocketDecl = (Seq<char>, ProtosDataType);

/// Name, type and kind (connection, constant or either) of an input socket.
pub type InputDecl = (Seq<char>, ProtosDataType, InputParamKind);

/// The inputs that a node of kind `kind` declares, in order.
pub open spec fn input_decls(kind: NodeKind) -> Seq<InputDecl> {
    match kind {
        NodeKind::BackbufferPass => seq![("input"@, ProtosDataType::Texture, InputParamKind::ConnectionOnly)],
        NodeKind::GraphicPass => Seq::new(GRAPHIC_PASS_SLOTS as nat,
            |i: int| ("SRV"@ + decimal(i as nat), ProtosDataType::Texture, InputParamKind::ConnectionOnly))
            + seq![("VertexShader"@, ProtosDataType::Shader, InputParamKind::ConnectionOnly),
                ("FragmentShader"@, ProtosDataType::Shader, InputParamKind::ConnectionOnly),
                ("Geometry"@, ProtosDataType::Mesh, InputParamKind::ConnectionOnly)],
        NodeKind::ComputePass => seq![("SRV"@ + decimal(0), ProtosDataType::Texture, InputParamKind::ConnectionOnly)],
        NodeKind::Buffer => seq![("Size"@, ProtosDataType::Scalar, InputParamKind::ConstantOnly),
            ("Format"@, ProtosDataType::Scalar, InputParamKind::ConstantOnly)],
        NodeKind::FileTexture => seq![("Path"@, ProtosDataType::String, InputParamKind::ConstantOnly)],
        NodeKind::ResourceTexture => seq![("Dimensions"@, ProtosDataType::Vec2, InputParamKind::ConstantOnly)],
        NodeKind::Camera => Seq::empty(),
        NodeKind::Mesh => Seq::empty(),
        NodeKind::Shader => Seq::empty(),
    }
}

/// The outputs that a node of kind `kind` declares, in order.
pub open spec fn output_decls(kind: NodeKind) -> Seq<SocketDecl> {
    match kind {
        NodeKind::GraphicPass => Seq::new(GRAPHIC_PASS_SLOTS as nat, |i: int| ("RT"@ + decimal(i as nat), ProtosDataType::Texture)),
        NodeKind::ComputePass => seq![("RT"@ + decimal(0), ProtosDataType::Texture)],
        NodeKind::Buffer => seq![("Buffer"@, ProtosDataType::Buffer)],
        NodeKind::FileTexture => seq![("texture"@, ProtosDataType::Texture)],
        NodeKind::ResourceTexture => seq![("texture"@, ProtosDataType::Texture)],
        NodeKind::Mesh => seq![("Geometry"@, ProtosDataType::Mesh)],
        NodeKind::Shader => seq![("VertexShader"@, ProtosDataType::Shader), ("FragmentShader"@, ProtosDataType::Shader)],
        _ => Seq::empty(),
    }
}

/// The names, types and kinds of a list of inputs.
pub open spec fn input_sig(inputs: Seq<InputParam>) -> Seq<InputDecl> {
    inputs.map_values(|p: InputParam| (p.name@, p.data_type, p.kind))
}

/// The names and types of a list of outputs.
pub open spec fn output_sig(outputs: Seq<OutputParam>) -> Seq<SocketDecl> {
    outputs.map_values(|p: OutputParam| (p.name@, p.data_type))
}

proof fn lemma_input_sig_push(s: Seq<InputParam>, p: InputParam)
    ensures
        input_sig(s.push(p)) == input_sig(s).push((p.name@, p.data_type, p.kind)),
{
    assert(input_sig(s.push(p)) =~= input_sig(s).push((p.name@, p.data_type, p.kind)));
}

proof fn lemma_output_sig_push(s: Seq<OutputParam>, p: OutputParam)
    ensures
        output_sig(s.push(p)) == output_sig(s).push((p.name@, p.data_type)),
{
    assert(output_sig(s.push(p)) =~= output_sig(s).push((p.name@, p.data_type)));
}

/// Every input from `from` on is unconnected.
pub open spec fn unconnected_from(inputs: Seq<InputParam>, from: int) -> bool {
    forall|k: int| from <= k < inputs.len() ==> (#[trigger] inputs[k]).connection is None
}

impl ProtosNodeTemplate {
    /// Whether the resource this node owns exists in `res`.
    pub open spec fn handles_in(&self, res: &Resources) -> bool {
        match *self {
            ProtosNodeTemplate::BackbufferPass(n) => n.handle < res.backbuffers@.len(),
            ProtosNodeTemplate::GraphicPass(n) => n.handle < res.graphic_passes@.len(),
            ProtosNodeTemplate::ComputePass(n) => n.handle < res.compute_passes@.len(),
            ProtosNodeTemplate::Buffer(n) => n.handle < res.buffers@.len(),
            ProtosNodeTemplate::FileTexture(n) => n.handle < res.textures@.len(),
            ProtosNodeTemplate::ResourceTexture(n) => n.handle < res.textures@.len(),
            ProtosNodeTemplate::Camera(n) => n.handle < res.cameras@.len(),
            ProtosNodeTemplate::Mesh(n) => n.mesh < res.meshes@.len(),
            ProtosNodeTemplate::Shader(n) => n.shader < res.shaders@.len(),
        }
    }

    pub open spec fn kind_of(&self) -> NodeKind {
        match *self {
            ProtosNodeTemplate::BackbufferPass(_) => NodeKind::BackbufferPass,
            ProtosNodeTemplate::GraphicPass(_) => NodeKind::GraphicPass,
            ProtosNodeTemplate::ComputePass(_) => NodeKind::ComputePass,
            ProtosNodeTemplate::Buffer(_) => NodeKind::Buffer,
            ProtosNodeTemplate::FileTexture(_) => NodeKind::FileTexture,
            ProtosNodeTemplate::ResourceTexture(_) => NodeKind::ResourceTexture,
            ProtosNodeTemplate::Camera(_) => NodeKind::Camera,
            ProtosNodeTemplate::Mesh(_) => NodeKind::Mesh,
            ProtosNodeTemplate::Shader(_) => NodeKind::Shader,
        }
    }

    pub fn kind(&self) -> (r: NodeKind)
        ensures
            r == self.kind_of(),
    {
        match self {
            ProtosNodeTemplate::BackbufferPass(_) => NodeKind::BackbufferPass,
            ProtosNodeTemplate::GraphicPass(_) => NodeKind::GraphicPass,
            ProtosNodeTemplate::ComputePass(_) => NodeKind::ComputePass,
            ProtosNodeTemplate::Buffer(_) => NodeKind::Buffer,
            ProtosNodeTemplate::FileTexture(_) => NodeKind::FileTexture,
            ProtosNodeTemplate::ResourceTexture(_) => NodeKind::ResourceTexture,
            ProtosNodeTemplate::Camera(_) => NodeKind::Camera,
            ProtosNodeTemplate::Mesh(_) => NodeKind::Mesh,
            ProtosNodeTemplate::Shader(_) => NodeKind::Shader,
        }
    }

    pub fn get_name(&self) -> (r: &'static str)
        ensures
            r@ == (match self.kind_of() {
                NodeKind::BackbufferPass => "Backbuffer pass"@,
                NodeKind::GraphicPass => "Graphic pass"@,
                NodeKind::ComputePass => "Compute pass"@,
                NodeKind::Buffer => "Buffer"@,
                NodeKind::FileTexture => "FileTexture"@,
                NodeKind::ResourceTexture => "ResourceTexture"@,
                NodeKind::Camera => "Camera"@,
                NodeKind::Mesh => "Mesh"@,
                NodeKind::Shader => "Shader"@,
            }),
    {
        proof {
            reveal_strlit("Backbuffer pass"); reveal_strlit("Graphic pass"); reveal_strlit("Compute pass");
            reveal_strlit("Buffer"); reveal_strlit("FileTexture"); reveal_strlit("ResourceTexture");
            reveal_strlit("Camera"); reveal_strlit("Mesh"); reveal_strlit("Shader");
        }
        match self {
            ProtosNodeTemplate::BackbufferPass(_) => "Backbuffer pass",
            ProtosNodeTemplate::GraphicPass(_) => "Graphic pass",
            ProtosNodeTemplate::ComputePass(_) => "Compute pass",
            ProtosNodeTemplate::Buffer(_) => "Buffer",
            ProtosNodeTemplate::FileTexture(_) => "FileTexture",
            ProtosNodeTemplate::ResourceTexture(_) => "ResourceTexture",
            ProtosNodeTemplate::Camera(_) => "Camera",
            ProtosNodeTemplate::Mesh(_) => "Mesh",
            ProtosNodeTemplate::Shader(_) => "Shader",
        }
    }
}

impl Graph {
    /// Every node's resource exists in `res`.
    pub open spec fn fits(&self, res: &Resources) -> bool {
        forall|n: int| 0 <= n < self.nodes@.len() ==> (#[trigger] self.nodes@[n]).template.handles_in(res)
    }
}

/// The resource arena grew by new resources only.
pub open spec fn arena_extends(new: &Resources, old: &Resources) -> bool {
    &&& new.textures@.len() >= old.textures@.len()
    &&& new.buffers@.len() >= old.buffers@.len()
    &&& new.meshes@.len() >= old.meshes@.len()
    &&& new.shaders@.len() >= old.shaders@.len()
    &&& new.cameras@.len() >= old.cameras@.len()
    &&& new.graphic_passes@.len() >= old.graphic_passes@.len()
    &&& new.compute_passes@.len() >= old.compute_passes@.len()
    &&& new.backbuffers@.len() >= old.backbuffers@.len()
}

/// Declares an input, keeping track of the declared names and types.
fn declare_input(graph: &mut Graph, node: usize, name: String, data_type: ProtosDataType, value: ProtosValueType, kind: InputParamKind)
    requires
        old(graph).wf(),
        node < old(graph).nodes@.len(),
    ensures
        final(graph).wf(),
        final(graph).nodes@.len() == old(graph).nodes@.len(),
        forall|n: int| 0 <= n < old(graph).nodes@.len() && n != node ==> final(graph).nodes@[n] == old(graph).nodes@[n],
        final(graph).nodes@[node as int].template == old(graph).nodes@[node as int].template,
        final(graph).nodes@[node as int].outputs == old(graph).nodes@[node as int].outputs,
        final(graph).nodes@[node as int].inputs@.drop_last() == old(graph).nodes@[node as int].inputs@,
        final(graph).nodes@[node as int].inputs@.len() == old(graph).nodes@[node as int].inputs@.len() + 1,
        final(graph).nodes@[node as int].inputs@.last().connection is None,
        input_sig(final(graph).nodes@[node as int].inputs@)
            == input_sig(old(graph).nodes@[node as int].inputs@).push((name@, data_type, kind)),
{
    let ghost p = InputParam { name, data_type, value, kind, connection: None };
    let ghost before = graph.nodes@[node as int].inputs@;
    graph.add_input_param(node, name, data_type, value, kind);
    proof {
        lemma_input_sig_push(before, p);
        assert(graph.nodes@[node as int].inputs@.drop_last() =~= before);
    }
}

/// Declares an output, keeping track of the declared names and types.
fn declare_output(graph: &mut Graph, node: usize, name: String, data_type: ProtosDataType)
    requires
        old(graph).wf(),
        node < old(graph).nodes@.len(),
    ensures
        final(graph).wf(),
        final(graph).nodes@.len() == old(graph).nodes@.len(),
        forall|n: int| 0 <= n < old(graph).nodes@.len() && n != node ==> final(graph).nodes@[n] == old(graph).nodes@[n],
        final(graph).nodes@[node as int].template == old(graph).nodes@[node as int].template,
        final(graph).nodes@[node as int].inputs == old(graph).nodes@[node as int].inputs,
        output_sig(final(graph).nodes@[node as int].outputs@)
            == output_sig(old(graph).nodes@[node as int].outputs@).push((name@, data_type)),
{
    let ghost p = OutputParam { name, data_type };
    let ghost before = graph.nodes@[node as int].outputs@;
    graph.add_output_param(node, name, data_type);
    proof { lemma_output_sig_push(before, p); }
}

impl ProtosNodeTemplate {
    /// A node of kind `kind` owning fresh resources, added to `res`.
    pub fn create(kind: NodeKind, res: &mut Resources) -> (r: ProtosNodeTemplate)
        requires
            old(res).wf(),
            old(res).textures@.len() + 1 < usize::MAX,
            old(res).buffers@.len() < usize::MAX,
            old(res).meshes@.len() < usize::MAX,
            old(res).shaders@.len() < usize::MAX,
            old(res).cameras@.len() < usize::MAX,
            old(res).graphic_passes@.len() < usize::MAX,
            old(res).compute_passes@.len() < usize::MAX,
            old(res).backbuffers@.len() < usize::MAX,
        ensures
            final(res).wf(),
            arena_extends(final(res), old(res)),
            r.kind_of() == kind,
            r.handles_in(final(res)),
    {
        match kind {
            NodeKind::BackbufferPass => {
                let h = res.backbuffers.len();
                res.backbuffers.push(BackbufferPass::empty());
                ProtosNodeTemplate::BackbufferPass(BackbufferPassNode { handle: h })
            },
            NodeKind::GraphicPass => {
                let t = res.textures.len();
                res.textures.push(Texture::from_description(TextureDescription::sized(0, 0)));
                let mut targets: Vec<usize> = Vec::new();
                targets.push(t);
                let h = res.graphic_passes.len();
                let pass = GraphicPass::with_render_targets(targets);
                res.graphic_passes.push(pass);
                proof {
                    assert forall|p: int| 0 <= p < res.graphic_passes@.len() implies {
                        let d = #[trigger] res.graphic_passes@[p].desc;
                        &&& d.render_target_desc@.len() >= d.render_targets@.len()
                        &&& d.render_target_desc@.len() <= u32::MAX + 1
                        &&& forall|i: int| 0 <= i < d.render_targets@.len() ==> d.render_targets@[i] < res.textures@.len()
                        &&& forall|i: int, j: int| 0 <= i < j < d.render_targets@.len() ==> d.render_targets@[i] != d.render_targets@[j]
                    } by {
                        if p < h {
                            assert(res.graphic_passes@[p] == old(res).graphic_passes@[p]);
                        }
                    }
                    assert forall|p: int| 0 <= p < res.compute_passes@.len() implies
                        (#[trigger] res.compute_passes@[p]).desc.output < res.textures@.len() by {
                        assert(res.compute_passes@[p] == old(res).compute_passes@[p]);
                    }
                }
                ProtosNodeTemplate::GraphicPass(GraphicPassNode { handle: h })
            },
            NodeKind::ComputePass => {
                let t = res.textures.len();
                res.textures.push(Texture::from_description(TextureDescription::sized(0, 0)));
                let h = res.compute_passes.len();
                res.compute_passes.push(ComputePass::with_output(t, 1));
                proof {
                    assert forall|p: int| 0 <= p < res.graphic_passes@.len() implies {
                        let d = #[trigger] res.graphic_passes@[p].desc;
                        &&& d.render_target_desc@.len() >= d.render_targets@.len()
                        &&& d.render_target_desc@.len() <= u32::MAX + 1
                        &&& forall|i: int| 0 <= i < d.render_targets@.len() ==> d.render_targets@[i] < res.textures@.len()
                        &&& forall|i: int, j: int| 0 <= i < j < d.render_targets@.len() ==> d.render_targets@[i] != d.render_targets@[j]
                    } by {
                        assert(res.graphic_passes@[p] == old(res).graphic_passes@[p]);
                    }
                    assert forall|p: int| 0 <= p < res.compute_passes@.len() implies
                        (#[trigger] res.compute_passes@[p]).desc.output < res.textures@.len() by {
                        if p < h {
                            assert(res.compute_passes@[p] == old(res).compute_passes@[p]);
                        }
                    }
                }
                ProtosNodeTemplate::ComputePass(ComputePassNode { handle: h })
            },
            NodeKind::Buffer => {
                let h = res.buffers.len();
                res.buffers.push(Buffer::empty());
                ProtosNodeTemplate::Buffer(BufferNode { handle: h })
            },
            NodeKind::FileTexture => {
                let h = res.textures.len();
                res.textures.push(Texture::from_description(TextureDescription::sized(0, 0)));
                proof { lemma_wf_more_textures(old(res), res); }
                ProtosNodeTemplate::FileTexture(TextureFileNode { handle: h })
            },
            NodeKind::ResourceTexture => {
                let h = res.textures.len();
                res.textures.push(Texture::from_description(TextureDescription::sized(0, 0)));
                proof { lemma_wf_more_textures(old(res), res); }
                ProtosNodeTemplate::ResourceTexture(TextureResourceNode { handle: h })
            },
            NodeKind::Camera => {
                let h = res.cameras.len();
                res.cameras.push(Camera::empty());
                ProtosNodeTemplate::Camera(CameraNode { handle: h })
            },
            NodeKind::Mesh => {
                let h = res.meshes.len();
                res.meshes.push(Mesh::from_source(MeshSource::Empty));
                ProtosNodeTemplate::Mesh(MeshNode { mesh: h })
            },
            NodeKind::Shader => {
                let h = res.shaders.len();
                res.shaders.push(Shader::from_source(String::new()));
                ProtosNodeTemplate::Shader(ShaderNode { shader: h })
            },
        }
    }

    /// Declares the sockets of this node kind on node `node`.
    pub fn build(&self, graph: &mut Graph, node: usize)
        requires
            old(graph).wf(),
            node < old(graph).nodes@.len(),
        ensures
            final(graph).wf(),
            final(graph).nodes@.len() == old(graph).nodes@.len(),
            forall|n: int| 0 <= n < old(graph).nodes@.len() && n != node ==> final(graph).nodes@[n] == old(graph).nodes@[n],
            final(graph).nodes@[node as int].template == old(graph).nodes@[node as int].template,
            input_sig(final(graph).nodes@[node as int].inputs@)
                == input_sig(old(graph).nodes@[node as int].inputs@) + input_decls(self.kind_of()),
            output_sig(final(graph).nodes@[node as int].outputs@)
                == output_sig(old(graph).nodes@[node as int].outputs@) + output_decls(self.kind_of()),
            final(graph).nodes@[node as int].inputs@.take(old(graph).nodes@[node as int].inputs@.len() as int)
                == old(graph).nodes@[node as int].inputs@,
            unconnected_from(final(graph).nodes@[node as int].inputs@, old(graph).nodes@[node as int].inputs@.len() as int),
    {
        let ghost ins0 = graph.nodes@[node as int].inputs@;
        let ghost outs0 = graph.nodes@[node as int].outputs@;
        proof {
            reveal_strlit("SRV0");
            reveal_strlit("SRV");
            reveal_strlit("RT0");
            reveal_strlit("RT");
        }
        match self {
            ProtosNodeTemplate::BackbufferPass(_) => {
                declare_input(graph, node, BackbufferPassNodeInput::Input.name(), ProtosDataType::Texture,
                    ProtosValueType::Texture(None), InputParamKind::ConnectionOnly);
                proof { lemma_declared(graph, node as int, ins0, outs0, NodeKind::BackbufferPass); }
            },
            ProtosNodeTemplate::GraphicPass(_) => {
                let mut i: u32 = 0;
                while i < GRAPHIC_PASS_SLOTS
                    invariant
                        i <= GRAPHIC_PASS_SLOTS,
                        graph.wf(),
                        node < graph.nodes@.len(),
                        graph.nodes@.len() == old(graph).nodes@.len(),
                        forall|n: int| 0 <= n < old(graph).nodes@.len() && n != node ==> graph.nodes@[n] == old(graph).nodes@[n],
                        graph.nodes@[node as int].template == old(graph).nodes@[node as int].template,
                        ins0 == old(graph).nodes@[node as int].inputs@,
                        outs0 == old(graph).nodes@[node as int].outputs@,
                        graph.nodes@[node as int].outputs@ == outs0,
                        graph.nodes@[node as int].inputs@.len() == ins0.len() + i,
                        graph.nodes@[node as int].inputs@.take(ins0.len() as int) == ins0,
                        unconnected_from(graph.nodes@[node as int].inputs@, ins0.len() as int),
                        input_sig(graph.nodes@[node as int].inputs@) == input_sig(ins0)
                            + Seq::new(i as nat, |j: int| ("SRV"@ + decimal(j as nat), ProtosDataType::Texture, InputParamKind::ConnectionOnly)),
                    decreases GRAPHIC_PASS_SLOTS - i,
                {
                    let ghost before = graph.nodes@[node as int].inputs@;
                    declare_input(graph, node, GraphicPassNodeInput::ShaderResourceView(i).name(),
                        ProtosDataType::Texture, ProtosValueType::Texture(None), InputParamKind::ConnectionOnly);
                    proof {
                        let now = graph.nodes@[node as int].inputs@;
                        assert(now =~= before.push(now.last()));
                        assert(now.take(ins0.len() as int) =~= ins0) by {
                            assert(before.take(ins0.len() as int) == ins0);
                        }
                        assert(input_sig(now) =~= input_sig(ins0)
                            + Seq::new((i + 1) as nat, |j: int| ("SRV"@ + decimal(j as nat), ProtosDataType::Texture, InputParamKind::ConnectionOnly)));
                    }
                    i = i + 1;
                }
                declare_input(graph, node, GraphicPassNodeInput::VertexShader.name(), ProtosDataType::Shader,
                    ProtosValueType::Shader(None), InputParamKind::ConnectionOnly);
                declare_input(graph, node, GraphicPassNodeInput::FragmentShader.name(), ProtosDataType::Shader,
                    ProtosValueType::Shader(None), InputParamKind::ConnectionOnly);
                declare_input(graph, node, GraphicPassNodeInput::Geometry.name(), ProtosDataType::Mesh,
                    ProtosValueType::Mesh(None), InputParamKind::ConnectionOnly);
                let ghost ins1 = graph.nodes@[node as int].inputs@;
                proof {
                    assert(input_sig(ins1) =~= input_sig(ins0) + input_decls(NodeKind::GraphicPass));
                    assert(ins1.take(ins0.len() as int) =~= ins0) by {
                        assert(ins1.take(ins0.len() as int) =~= ins1.drop_last().drop_last().drop_last().take(ins0.len() as int));
                    }
                }
                let mut i: u32 = 0;
                while i < GRAPHIC_PASS_SLOTS
                    invariant
                        i <= GRAPHIC_PASS_SLOTS,
                        graph.wf(),
                        node < graph.nodes@.len(),
                        graph.nodes@.len() == old(graph).nodes@.len(),
                        forall|n: int| 0 <= n < old(graph).nodes@.len() && n != node ==> graph.nodes@[n] == old(graph).nodes@[n],
                        graph.nodes@[node as int].template == old(graph).nodes@[node as int].template,
                        graph.nodes@[node as int].inputs@ == ins1,
                        output_sig(graph.nodes@[node as int].outputs@) == output_sig(outs0)
                            + Seq::new(i as nat, |j: int| ("RT"@ + decimal(j as nat), ProtosDataType::Texture)),
                    decreases GRAPHIC_PASS_SLOTS - i,
                {
                    declare_output(graph, node, GraphicPassNodeOutput::RenderTarget(i).name(), ProtosDataType::Texture);
                    proof {
                        assert(output_sig(graph.nodes@[node as int].outputs@) =~= output_sig(outs0)
                            + Seq::new((i + 1) as nat, |j: int| ("RT"@ + decimal(j as nat), ProtosDataType::Texture)));
                    }
                    i = i + 1;
                }
            },
            ProtosNodeTemplate::ComputePass(_) => {
                declare_input(graph, node, GraphicPassNodeInput::ShaderResourceView(0).name(), ProtosDataType::Texture,
                    ProtosValueType::Texture(None), InputParamKind::ConnectionOnly);
                declare_output(graph, node, GraphicPassNodeOutput::RenderTarget(0).name(), ProtosDataType::Texture);
                proof { lemma_declared(graph, node as int, ins0, outs0, NodeKind::ComputePass); }
            },
            ProtosNodeTemplate::Buffer(_) => {
                declare_input(graph, node, BufferNodeInput::Size.name(), ProtosDataType::Scalar,
                    ProtosValueType::Scalar(0), InputParamKind::ConstantOnly);
                declare_input(graph, node, BufferNodeInput::Format.name(), ProtosDataType::Scalar,
                    ProtosValueType::Scalar(0), InputParamKind::ConstantOnly);
                declare_output(graph, node, BufferNodeOutput::Buffer.name(), ProtosDataType::Buffer);
                proof { lemma_declared(graph, node as int, ins0, outs0, NodeKind::Buffer); }
            },
            ProtosNodeTemplate::FileTexture(_) => {
                declare_input(graph, node, TextureFileNodeInput::Path.name(), ProtosDataType::String,
                    ProtosValueType::String(String::new()), InputParamKind::ConstantOnly);
                declare_output(graph, node, TextureFileNodeOutput::Texture.name(), ProtosDataType::Texture);
                proof { lemma_declared(graph, node as int, ins0, outs0, NodeKind::FileTexture); }
            },
            ProtosNodeTemplate::ResourceTexture(_) => {
                declare_input(graph, node, TextureResourceNodeInput::Dimensions.name(), ProtosDataType::Vec2,
                    ProtosValueType::Vec2(100, 100), InputParamKind::ConstantOnly);
                declare_output(graph, node, TextureResourceNodeOutput::Texture.name(), ProtosDataType::Texture);
                proof { lemma_declared(graph, node as int, ins0, outs0, NodeKind::ResourceTexture); }
            },
            ProtosNodeTemplate::Camera(_) => {
                proof { lemma_declared(graph, node as int, ins0, outs0, NodeKind::Camera); }
            },
            ProtosNodeTemplate::Mesh(_) => {
                declare_output(graph, node, MeshNodeOutput::Geometry.name(), ProtosDataType::Mesh);
                proof { lemma_declared(graph, node as int, ins0, outs0, NodeKind::Mesh); }
            },
            ProtosNodeTemplate::Shader(_) => {
                declare_output(graph, node, ShaderNodeOutput::VertexShader.name(), ProtosDataType::Shader);
                declare_output(graph, node, ShaderNodeOutput::FragmentShader.name(), ProtosDataType::Shader);
                proof { lemma_declared(graph, node as int, ins0, outs0, NodeKind::Shader); }
            },
        }
    }
}

/// Closes the bookkeeping of `build` for the kinds declared without loops.
proof fn lemma_declared(graph: &Graph, node: int, ins0: Seq<InputParam>, outs0: Seq<OutputParam>, kind: NodeKind)
    requires
        0 <= node < graph.nodes@.len(),
        kind != NodeKind::GraphicPass,
        graph.nodes@[node].inputs@.len() == ins0.len() + input_decls(kind).len(),
        input_decls(kind).len() == 0 ==> graph.nodes@[node].inputs@ == ins0,
        input_decls(kind).len() == 1 ==> graph.nodes@[node].inputs@.drop_last() == ins0
            && input_sig(graph.nodes@[node].inputs@) == input_sig(ins0).push(input_decls(kind)[0]),
        input_decls(kind).len() == 2 ==> graph.nodes@[node].inputs@.drop_last().drop_last() == ins0
            && input_sig(graph.nodes@[node].inputs@) == input_sig(ins0).push(input_decls(kind)[0]).push(input_decls(kind)[1]),
        output_decls(kind).len() == 0 ==> graph.nodes@[node].outputs@ == outs0,
        output_decls(kind).len() == 1 ==> output_sig(graph.nodes@[node].outputs@) == output_sig(outs0).push(output_decls(kind)[0]),
        output_decls(kind).len() == 2 ==> output_sig(graph.nodes@[node].outputs@)
            == output_sig(outs0).push(output_decls(kind)[0]).push(output_decls(kind)[1]),
        forall|k: int| ins0.len() <= k < graph.nodes@[node].inputs@.len() ==> (#[trigger] graph.nodes@[node].inputs@[k]).connection is None,
    ensures
        input_sig(graph.nodes@[node].inputs@) == input_sig(ins0) + input_decls(kind),
        output_sig(graph.nodes@[node].outputs@) == output_sig(outs0) + output_decls(kind),
        graph.nodes@[node].inputs@.take(ins0.len() as int) == ins0,
        unconnected_from(graph.nodes@[node].inputs@, ins0.len() as int),
{
    let ins = graph.nodes@[node].inputs@;
    if input_decls(kind).len() == 2 {
        assert(ins.take(ins0.len() as int) =~= ins.drop_last().drop_last());
    } else if input_decls(kind).len() == 1 {
        assert(ins.take(ins0.len() as int) =~= ins.drop_last());
    }
    assert(input_sig(ins) =~= input_sig(ins0) + input_decls(kind));
    assert(output_sig(graph.nodes@[node].outputs@) =~= output_sig(outs0) + output_decls(kind));
    assert(ins.take(ins0.len() as int) =~= ins0);
}

proof fn lemma_wf_more_textures(old_res: &Resources, res: &Resources)
    requires
        old_res.wf(),
        res.textures@.len() >= old_res.textures@.len(),
        res.graphic_passes == old_res.graphic_passes,
        res.compute_passes == old_res.compute_passes,
    ensures
        res.wf(),
{
}

/// Adds a node of kind `kind` to `graph`, with fresh resources in `res` and
/// the sockets of its kind; returns its identity.
pub fn build_node(graph: &mut Graph, res: &mut Resources, kind: NodeKind) -> (r: usize)
    requires
        old(graph).wf(),
        old(graph).fits(old(res)),
        old(res).wf(),
        old(graph).nodes@.len() < usize::MAX,
        old(res).textures@.len() + 1 < usize::MAX,
        old(res).buffers@.len() < usize::MAX,
        old(res).meshes@.len() < usize::MAX,
        old(res).shaders@.len() < usize::MAX,
        old(res).cameras@.len() < usize::MAX,
        old(res).graphic_passes@.len() < usize::MAX,
        old(res).compute_passes@.len() < usize::MAX,
        old(res).backbuffers@.len() < usize::MAX,
    ensures
        final(graph).wf(),
        final(graph).fits(final(res)),
        final(res).wf(),
        arena_extends(final(res), old(res)),
        r == old(graph).nodes@.len(),
        final(graph).nodes@.len() == old(graph).nodes@.len() + 1,
        forall|n: int| 0 <= n < old(graph).nodes@.len() ==> final(graph).nodes@[n] == old(graph).nodes@[n],
        final(graph).nodes@[r as int].template.kind_of() == kind,
        input_sig(final(graph).nodes@[r as int].inputs@) == input_decls(kind),
        output_sig(final(graph).nodes@[r as int].outputs@) == output_decls(kind),
        unconnected_from(final(graph).nodes@[r as int].inputs@, 0),
{
    let template = ProtosNodeTemplate::create(kind, res);
    let node = graph.add_node(template);
    template.build(graph, node);
    proof {
        assert(input_sig(Seq::<InputParam>::empty()) =~= Seq::<InputDecl>::empty());
        assert(output_sig(Seq::<OutputParam>::empty()) =~= Seq::<SocketDecl>::empty());
        assert(Seq::<InputDecl>::empty() + input_decls(kind) =~= input_decls(kind));
        assert(Seq::<SocketDecl>::empty() + output_decls(kind) =~= output_decls(kind));
        assert forall|n: int| 0 <= n < graph.nodes@.len() implies (#[trigger] graph.nodes@[n]).template.handles_in(res) by {
            if n < node {
                assert(graph.nodes@[n] == old(graph).nodes@[n]);
                assert(old(graph).nodes@[n].template.handles_in(old(res)));
            }
        }
    }
    node
}

} // verus!
