use protos_rs::buffer::{BufferData, BufferDescription};
use protos_rs::error::{EvalError, FrameError};
use protos_rs::evaluator::{evaluate_frame, evaluate_input, Evaluation, TraceEvent};
use protos_rs::frame::{run_frame, ProtosGraphState, ProtosResponse};
use protos_rs::gpu::{Command, ComputePassLayout, GpuContext, GraphicPassLayout};
use protos_rs::graph::{Graph, OutputRef};
use protos_rs::handles::{ComputePassHandle, GraphicPassHandle, RawBufferHandle, ShaderModuleHandle, TextureHandle};
use protos_rs::mesh::{MeshData, MeshDescription};
use protos_rs::nodes::{build_node, NodeKind, ProtosNodeTemplate};
use protos_rs::resource::BuildError;
use protos_rs::resources::Resources;
use protos_rs::shader::{ShaderData, ShaderDescription};
use protos_rs::texture::{TextureData, TextureDescription};
use protos_rs::value::ProtosValueType;

/// A GPU that hands out fresh identifiers and counts what it is asked to build.
#[derive(Default)]
struct CountingGpu {
    next: u64,
    textures: Vec<(u32, u32)>,
    buffers: usize,
    meshes: usize,
    shaders: usize,
    graphic_passes: usize,
    compute_passes: usize,
    fail_graphic_pass: bool,
}

impl CountingGpu {
    fn id(&mut self) -> u64 {
        self.next += 1;
        self.next
    }
}

impl GpuContext for CountingGpu {
    fn create_texture(&mut self, desc: &TextureDescription) -> Result<TextureData, BuildError> {
        self.textures.push((desc.width, desc.height));
        Ok(TextureData { texture: TextureHandle(self.id()) })
    }
    fn create_buffer(&mut self, _desc: &BufferDescription) -> Result<BufferData, BuildError> {
        self.buffers += 1;
        Ok(BufferData { buffer: RawBufferHandle(self.id()) })
    }
    fn create_mesh(&mut self, _desc: &MeshDescription) -> Result<MeshData, BuildError> {
        self.meshes += 1;
        Ok(MeshData { vertex_buffer: RawBufferHandle(self.id()), index_buffer: RawBufferHandle(self.id()), index_count: 36 })
    }
    fn create_shader(&mut self, _desc: &ShaderDescription) -> Result<ShaderData, BuildError> {
        self.shaders += 1;
        Ok(ShaderData { module: ShaderModuleHandle(self.id()) })
    }
    fn create_graphic_pass(&mut self, _layout: &GraphicPassLayout) -> Result<GraphicPassHandle, BuildError> {
        if self.fail_graphic_pass {
            return Err(BuildError::Validation("rejected".to_string()));
        }
        self.graphic_passes += 1;
        Ok(GraphicPassHandle(self.id()))
    }
    fn create_compute_pass(&mut self, _layout: &ComputePassLayout) -> Result<ComputePassHandle, BuildError> {
        self.compute_passes += 1;
        Ok(ComputePassHandle(self.id()))
    }
}

fn input(g: &Graph, node: usize, name: &str) -> usize {
    g.get_input(node, &name.to_string()).expect("input exists")
}

fn output(g: &Graph, node: usize, name: &str) -> OutputRef {
    OutputRef { node, output: g.get_output(node, &name.to_string()).expect("output exists") }
}

fn connect(g: &mut Graph, from: usize, out: &str, to: usize, inp: &str) {
    let o = output(g, from, out);
    let k = input(g, to, inp);
    assert!(g.connect(o, to, k));
}

fn handle_of(g: &Graph, node: usize) -> usize {
    match g.nodes[node].template {
        ProtosNodeTemplate::BackbufferPass(n) => n.handle,
        ProtosNodeTemplate::GraphicPass(n) => n.handle,
        ProtosNodeTemplate::ComputePass(n) => n.handle,
        ProtosNodeTemplate::Buffer(n) => n.handle,
        ProtosNodeTemplate::FileTexture(n) => n.handle,
        ProtosNodeTemplate::ResourceTexture(n) => n.handle,
        ProtosNodeTemplate::Camera(n) => n.handle,
        ProtosNodeTemplate::Mesh(n) => n.mesh,
        ProtosNodeTemplate::Shader(n) => n.shader,
    }
}

/// Nodes of a full pipeline: texture -> graphic pass -> backbuffer, with a
/// mesh and a shader feeding the pass.
struct Pipeline {
    graph: Graph,
    res: Resources,
    texture: usize,
    mesh: usize,
    shader: usize,
    pass: usize,
    backbuffer: usize,
}

fn pipeline() -> Pipeline {
    let mut graph = Graph::new();
    let mut res = Resources::new();
    let texture = build_node(&mut graph, &mut res, NodeKind::ResourceTexture);
    let mesh = build_node(&mut graph, &mut res, NodeKind::Mesh);
    let shader = build_node(&mut graph, &mut res, NodeKind::Shader);
    let pass = build_node(&mut graph, &mut res, NodeKind::GraphicPass);
    let backbuffer = build_node(&mut graph, &mut res, NodeKind::BackbufferPass);
    connect(&mut graph, texture, "texture", pass, "SRV0");
    connect(&mut graph, mesh, "Geometry", pass, "Geometry");
    connect(&mut graph, shader, "VertexShader", pass, "VertexShader");
    connect(&mut graph, shader, "FragmentShader", pass, "FragmentShader");
    connect(&mut graph, pass, "RT0", backbuffer, "input");
    Pipeline { graph, res, texture, mesh, shader, pass, backbuffer }
}

fn position(ev: &Evaluation, e: TraceEvent) -> usize {
    ev.trace.iter().position(|x| *x == e).expect("event in trace")
}

#[test]
fn buffer_node_with_constant_inputs() {
    let mut g = Graph::new();
    let mut res = Resources::new();
    let mut gpu = CountingGpu::default();
    let b = build_node(&mut g, &mut res, NodeKind::Buffer);
    let size = input(&g, b, "Size");
    let format = input(&g, b, "Format");
    g.set_input_value(b, size, ProtosValueType::Scalar(256));
    g.set_input_value(b, format, ProtosValueType::Scalar(1));
    let h = handle_of(&g, b);

    let (ev, r) = evaluate_frame(&g, &mut res, &mut gpu, b, 800, 600);
    assert!(r.is_ok());
    let key = output(&g, b, "Buffer");
    assert!(matches!(ev.cache.get(key), Some(ProtosValueType::Buffer(Some(x))) if x == h));
    assert_eq!(res.buffers[h].desc, BufferDescription { size: 256, format: 1 });
    assert!(!res.buffers[h].dirty);
    assert_eq!(gpu.buffers, 1);

    let (_, r) = evaluate_frame(&g, &mut res, &mut gpu, b, 800, 600);
    assert!(r.is_ok());
    assert_eq!(gpu.buffers, 1);
    assert!(!res.buffers[h].dirty);
}

#[test]
fn frame_size_change_rebuilds_attachment_and_target() {
    let mut p = pipeline();
    let mut gpu = CountingGpu::default();
    let mut cmds = Vec::new();
    assert!(run_frame(&p.graph, &mut p.res, &mut gpu, Some(p.backbuffer), 500, 500, &mut cmds).is_ok());
    let bb = handle_of(&p.graph, p.backbuffer);
    let gp = handle_of(&p.graph, p.pass);
    let attachment = p.res.graphic_passes[gp].desc.render_targets[0];
    assert_eq!(p.res.textures[attachment].desc.width, 500);
    assert_eq!(cmds.len(), 2);
    assert!(matches!(cmds[0], Command::Draw { index_count: 36, .. }));
    assert!(matches!(cmds[1], Command::CopyTexture { width: 500, height: 500, .. }));
    let built = gpu.textures.len();
    let passes = gpu.graphic_passes;

    let mut cmds = Vec::new();
    assert!(run_frame(&p.graph, &mut p.res, &mut gpu, Some(p.backbuffer), 800, 600, &mut cmds).is_ok());
    // the attachment and the backbuffer target are both rebuilt at the new size
    assert_eq!(gpu.textures.len(), built + 2);
    assert!(gpu.textures[built..].iter().all(|s| *s == (800, 600)));
    assert_eq!(gpu.graphic_passes, passes + 1);
    assert_eq!(p.res.textures[attachment].desc.width, 800);
    assert_eq!(p.res.textures[attachment].desc.height, 600);
    assert!(!p.res.backbuffers[bb].dirty);
    assert!(matches!(cmds[1], Command::CopyTexture { width: 800, height: 600, .. }));
    let target = p.res.backbuffers[bb].get_view_handle().unwrap();
    assert!(matches!(cmds[1], Command::CopyTexture { dst, .. } if dst == target));
}

#[test]
fn backbuffer_without_input_fails_and_records_nothing() {
    let mut g = Graph::new();
    let mut res = Resources::new();
    let mut gpu = CountingGpu::default();
    let bb = build_node(&mut g, &mut res, NodeKind::BackbufferPass);
    let mut cmds = Vec::new();
    let r = run_frame(&g, &mut res, &mut gpu, Some(bb), 500, 500, &mut cmds);
    assert_eq!(r, Err(FrameError::Evaluate(EvalError::MissingRequiredInput)));
    assert!(cmds.is_empty());
    assert!(gpu.textures.is_empty());
}

#[test]
fn fan_out_producer_evaluated_once() {
    let mut g = Graph::new();
    let mut res = Resources::new();
    let mut gpu = CountingGpu::default();
    let tex = build_node(&mut g, &mut res, NodeKind::ResourceTexture);
    let mesh = build_node(&mut g, &mut res, NodeKind::Mesh);
    let shader = build_node(&mut g, &mut res, NodeKind::Shader);
    let first = build_node(&mut g, &mut res, NodeKind::GraphicPass);
    let second = build_node(&mut g, &mut res, NodeKind::GraphicPass);
    let bb = build_node(&mut g, &mut res, NodeKind::BackbufferPass);
    for pass in [first, second] {
        connect(&mut g, mesh, "Geometry", pass, "Geometry");
        connect(&mut g, shader, "VertexShader", pass, "VertexShader");
        connect(&mut g, shader, "FragmentShader", pass, "FragmentShader");
    }
    connect(&mut g, tex, "texture", first, "SRV0");
    connect(&mut g, first, "RT0", second, "SRV0");
    connect(&mut g, second, "RT0", bb, "input");

    let (ev, r) = evaluate_frame(&g, &mut res, &mut gpu, bb, 64, 64);
    assert!(r.is_ok());
    assert_eq!(gpu.meshes, 1);
    assert_eq!(gpu.shaders, 1);
    for node in [mesh, shader] {
        let starts = ev.trace.iter().filter(|e| **e == TraceEvent::Started(node)).count();
        assert_eq!(starts, 1);
    }
    // both passes hold the very same mesh, not copies
    let h1 = handle_of(&g, first);
    let h2 = handle_of(&g, second);
    assert_eq!(res.graphic_passes[h1].desc.geometry, Some(handle_of(&g, mesh)));
    assert_eq!(res.graphic_passes[h1].desc.geometry, res.graphic_passes[h2].desc.geometry);
    assert_eq!(res.graphic_passes[h1].desc.vertex_shader, res.graphic_passes[h2].desc.fragment_shader);
}

#[test]
fn chain_is_evaluated_and_recorded_dependencies_first() {
    let mut p = pipeline();
    let mut gpu = CountingGpu::default();
    let (ev, r) = evaluate_frame(&p.graph, &mut p.res, &mut gpu, p.backbuffer, 32, 32);
    assert!(r.is_ok());
    let a_end = position(&ev, TraceEvent::Finished(p.texture));
    let b_start = position(&ev, TraceEvent::Started(p.pass));
    let b_end = position(&ev, TraceEvent::Finished(p.pass));
    let c_start = position(&ev, TraceEvent::Started(p.backbuffer));
    assert!(position(&ev, TraceEvent::Started(p.texture)) < a_end);
    assert!(a_end < b_start && b_start < b_end && b_end < c_start);
    assert_eq!(*ev.trace.last().unwrap(), TraceEvent::Finished(p.backbuffer));

    let mut cmds = Vec::new();
    let (rec, r) = protos_rs::recorder::record_frame(&p.graph, &p.res, p.backbuffer, &mut cmds);
    assert!(r.is_ok());
    let at = |n: usize| rec.order.iter().position(|x| *x == n).unwrap();
    assert!(at(p.texture) < at(p.pass) && at(p.mesh) < at(p.pass) && at(p.shader) < at(p.pass));
    assert!(at(p.pass) < at(p.backbuffer));
    assert_eq!(*rec.order.last().unwrap(), p.backbuffer);
}

#[test]
fn failing_pass_stops_its_consumers() {
    let mut p = pipeline();
    let mut gpu = CountingGpu { fail_graphic_pass: true, ..Default::default() };
    let mut cmds = Vec::new();
    let r = run_frame(&p.graph, &mut p.res, &mut gpu, Some(p.backbuffer), 16, 16, &mut cmds);
    match r {
        Err(FrameError::Evaluate(EvalError::NodeFailed(inner))) => {
            assert_eq!(*inner, EvalError::Build(BuildError::Validation("rejected".to_string())));
        }
        other => panic!("unexpected {:?}", other),
    }
    assert!(cmds.is_empty());
    // the texture upstream keeps its build, the backbuffer never started
    let tex = handle_of(&p.graph, p.texture);
    assert!(p.res.textures[tex].has_data());
    let bb = handle_of(&p.graph, p.backbuffer);
    assert!(!p.res.backbuffers[bb].has_data());
    assert!(p.res.backbuffers[bb].desc.origin.is_none());
    let gp = handle_of(&p.graph, p.pass);
    assert!(p.res.graphic_passes[gp].dirty);

    let (ev, _) = evaluate_frame(&p.graph, &mut p.res, &mut gpu, p.backbuffer, 16, 16);
    assert!(!ev.trace.contains(&TraceEvent::Started(p.backbuffer)));
    assert!(ev.trace.contains(&TraceEvent::Started(p.pass)));
    assert!(!ev.trace.contains(&TraceEvent::Finished(p.pass)));
}

#[test]
fn retry_after_failed_build() {
    let mut p = pipeline();
    let mut gpu = CountingGpu { fail_graphic_pass: true, ..Default::default() };
    let mut cmds = Vec::new();
    assert!(run_frame(&p.graph, &mut p.res, &mut gpu, Some(p.backbuffer), 16, 16, &mut cmds).is_err());
    gpu.fail_graphic_pass = false;
    assert!(run_frame(&p.graph, &mut p.res, &mut gpu, Some(p.backbuffer), 16, 16, &mut cmds).is_ok());
    assert_eq!(gpu.graphic_passes, 1);
    assert_eq!(cmds.len(), 2);
}

#[test]
fn unknown_socket_name() {
    let mut g = Graph::new();
    let mut res = Resources::new();
    let mut gpu = CountingGpu::default();
    let b = build_node(&mut g, &mut res, NodeKind::Buffer);
    let mut ev = Evaluation::new(g.nodes.len(), 1, 1);
    let r = evaluate_input(&g, &mut res, &mut gpu, &mut ev, b, &"Colour".to_string());
    assert_eq!(r.unwrap_err(), EvalError::SocketNotFound);
    let r = evaluate_input(&g, &mut res, &mut gpu, &mut ev, b, &"Size".to_string());
    assert!(matches!(r, Ok(ProtosValueType::Scalar(0))));
}

#[test]
fn wrong_constant_type_is_a_cast_error() {
    let mut g = Graph::new();
    let mut res = Resources::new();
    let mut gpu = CountingGpu::default();
    let b = build_node(&mut g, &mut res, NodeKind::Buffer);
    let size = input(&g, b, "Size");
    g.set_input_value(b, size, ProtosValueType::String("big".to_string()));
    let (_, r) = evaluate_frame(&g, &mut res, &mut gpu, b, 1, 1);
    assert_eq!(
        r.unwrap_err(),
        EvalError::TypeCast {
            expected: protos_rs::value::ProtosDataType::Scalar,
            found: protos_rs::value::ProtosDataType::String
        }
    );
    assert_eq!(gpu.buffers, 0);
}

#[test]
fn cycle_is_detected() {
    let mut g = Graph::new();
    let mut res = Resources::new();
    let mut gpu = CountingGpu::default();
    let mesh = build_node(&mut g, &mut res, NodeKind::Mesh);
    let shader = build_node(&mut g, &mut res, NodeKind::Shader);
    let first = build_node(&mut g, &mut res, NodeKind::GraphicPass);
    let second = build_node(&mut g, &mut res, NodeKind::GraphicPass);
    for pass in [first, second] {
        connect(&mut g, mesh, "Geometry", pass, "Geometry");
        connect(&mut g, shader, "VertexShader", pass, "VertexShader");
        connect(&mut g, shader, "FragmentShader", pass, "FragmentShader");
    }
    connect(&mut g, first, "RT0", second, "SRV0");
    connect(&mut g, second, "RT0", first, "SRV0");
    let (_, r) = evaluate_frame(&g, &mut res, &mut gpu, first, 8, 8);
    let mut e = r.unwrap_err();
    let mut hops = 0;
    while let EvalError::NodeFailed(inner) = e {
        e = *inner;
        hops += 1;
    }
    assert_eq!(e, EvalError::CycleDetected);
    assert_eq!(hops, 1);
}

#[test]
fn dangling_texture_handle() {
    let mut g = Graph::new();
    let mut res = Resources::new();
    let mut gpu = CountingGpu::default();
    let bb = build_node(&mut g, &mut res, NodeKind::BackbufferPass);
    let k = input(&g, bb, "input");
    g.set_input_value(bb, k, ProtosValueType::Texture(Some(99)));
    let (_, r) = evaluate_frame(&g, &mut res, &mut gpu, bb, 8, 8);
    assert_eq!(r.unwrap_err(), EvalError::InvalidHandle);
}

#[test]
fn undeclared_output_violates_cache_population() {
    let mut g = Graph::new();
    let mut res = Resources::new();
    let mut gpu = CountingGpu::default();
    let b = build_node(&mut g, &mut res, NodeKind::Buffer);
    let bb = build_node(&mut g, &mut res, NodeKind::BackbufferPass);
    g.add_output_param(b, "Extra".to_string(), protos_rs::value::ProtosDataType::Texture);
    connect(&mut g, b, "Extra", bb, "input");
    let (_, r) = evaluate_frame(&g, &mut res, &mut gpu, bb, 8, 8);
    assert_eq!(r.unwrap_err(), EvalError::CachePopulationViolation);
}

#[test]
fn missing_root_does_nothing() {
    let mut p = pipeline();
    let mut gpu = CountingGpu::default();
    let mut cmds = Vec::new();
    assert_eq!(run_frame(&p.graph, &mut p.res, &mut gpu, None, 8, 8, &mut cmds), Err(FrameError::NoRoot));
    assert_eq!(run_frame(&p.graph, &mut p.res, &mut gpu, Some(40), 8, 8, &mut cmds), Err(FrameError::NoRoot));
    assert!(cmds.is_empty());
    assert!(gpu.textures.is_empty());
}

#[test]
fn backbuffer_selection_follows_responses() {
    let mut state = ProtosGraphState::new();
    assert!(!state.is_active(3));
    state.apply(ProtosResponse::SetCurrentBackbuffer(3));
    assert!(state.is_active(3));
    assert_eq!(state.backbuffer_node, Some(3));
    state.apply(ProtosResponse::ClearCurrentBackbuffer);
    assert_eq!(state.backbuffer_node, None);
}

#[test]
fn compute_pass_outputs_its_texture() {
    let mut g = Graph::new();
    let mut res = Resources::new();
    let mut gpu = CountingGpu::default();
    let tex = build_node(&mut g, &mut res, NodeKind::ResourceTexture);
    let cp = build_node(&mut g, &mut res, NodeKind::ComputePass);
    let bb = build_node(&mut g, &mut res, NodeKind::BackbufferPass);
    connect(&mut g, tex, "texture", cp, "SRV0");
    connect(&mut g, cp, "RT0", bb, "input");
    let mut cmds = Vec::new();
    assert!(run_frame(&g, &mut res, &mut gpu, Some(bb), 20, 10, &mut cmds).is_ok());
    assert_eq!(gpu.compute_passes, 1);
    assert!(matches!(cmds[0], Command::Dispatch { .. }));
    assert!(matches!(cmds[1], Command::CopyTexture { width: 20, height: 10, .. }));
    let h = handle_of(&g, cp);
    let out = res.compute_passes[h].desc.output;
    assert_eq!((res.textures[out].desc.width, res.textures[out].desc.height), (20, 10));
}

#[test]
fn failure_is_wrapped_once_per_hop() {
    let mut g = Graph::new();
    let mut res = Resources::new();
    let mut gpu = CountingGpu { fail_graphic_pass: true, ..Default::default() };
    let tex = build_node(&mut g, &mut res, NodeKind::ResourceTexture);
    let mesh = build_node(&mut g, &mut res, NodeKind::Mesh);
    let shader = build_node(&mut g, &mut res, NodeKind::Shader);
    let first = build_node(&mut g, &mut res, NodeKind::GraphicPass);
    let second = build_node(&mut g, &mut res, NodeKind::GraphicPass);
    let bb = build_node(&mut g, &mut res, NodeKind::BackbufferPass);
    for pass in [first, second] {
        connect(&mut g, mesh, "Geometry", pass, "Geometry");
        connect(&mut g, shader, "VertexShader", pass, "VertexShader");
        connect(&mut g, shader, "FragmentShader", pass, "FragmentShader");
    }
    connect(&mut g, tex, "texture", first, "SRV0");
    connect(&mut g, first, "RT0", second, "SRV0");
    connect(&mut g, second, "RT0", bb, "input");
    let (ev, r) = evaluate_frame(&g, &mut res, &mut gpu, bb, 4, 4);
    let e = r.unwrap_err();
    assert_eq!(e.depth(), 2);
    assert!(!ev.trace.contains(&TraceEvent::Started(second)));
    assert!(!ev.trace.contains(&TraceEvent::Started(bb)));
}

#[test]
fn camera_root_succeeds_without_commands() {
    let mut g = Graph::new();
    let mut res = Resources::new();
    let mut gpu = CountingGpu::default();
    let cam = build_node(&mut g, &mut res, NodeKind::Camera);
    let mut cmds = Vec::new();
    assert_eq!(run_frame(&g, &mut res, &mut gpu, Some(cam), 4, 4, &mut cmds), Ok(()));
    assert!(cmds.is_empty());
}

#[test]
fn missing_shader_is_a_missing_input_and_leaves_pass() {
    let mut g = Graph::new();
    let mut res = Resources::new();
    let mut gpu = CountingGpu::default();
    let mesh = build_node(&mut g, &mut res, NodeKind::Mesh);
    let pass = build_node(&mut g, &mut res, NodeKind::GraphicPass);
    connect(&mut g, mesh, "Geometry", pass, "Geometry");
    let (_, r) = evaluate_frame(&g, &mut res, &mut gpu, pass, 4, 4);
    assert_eq!(r.unwrap_err(), EvalError::MissingRequiredInput);
    let h = handle_of(&g, pass);
    assert!(res.graphic_passes[h].desc.geometry.is_none());
    assert_eq!(gpu.graphic_passes, 0);
}

#[test]
fn extra_render_target_size_is_refused() {
    let mut p = pipeline();
    let mut gpu = CountingGpu::default();
    let gp = handle_of(&p.graph, p.pass);
    p.res.graphic_passes[gp].set_render_target(1, 4, 4);
    let (_, r) = evaluate_frame(&p.graph, &mut p.res, &mut gpu, p.backbuffer, 4, 4);
    match r {
        Err(EvalError::NodeFailed(inner)) => {
            assert_eq!(*inner, EvalError::Build(BuildError::AttachmentMismatch));
        }
        other => panic!("unexpected {:?}", other),
    }
    assert_eq!(gpu.graphic_passes, 0);
}
