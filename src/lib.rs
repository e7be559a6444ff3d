//! A node-graph evaluation engine for a small real-time rendering pipeline.
//!
//! Nodes (textures, buffers, meshes, shaders, graphic and compute passes and a
//! backbuffer sink) are wired together in a [`Graph`]. Each frame the engine
//! walks the graph from a chosen root, evaluates every node it depends on once
//! (memoising outputs), lazily rebuilds the GPU objects whose descriptions
//! changed, and then records commands in the same dependency-first order.
//! The GPU itself is reached only through the [`GpuContext`] trait.
pub mod handles;
pub mod resource;
pub mod gpu;
pub mod texture;
pub mod buffer;
pub mod shader;
pub mod camera;
pub mod mesh;
pub mod graphic_pass;
pub mod compute_pass;
pub mod backbuffer;
pub mod resources;
pub mod error;
pub mod value;
pub mod graph;
pub mod nodes;
pub mod node_eval;
pub mod evaluator;
pub mod recorder;
pub mod frame;
pub mod laws;

pub use resource::{BuildError, RecordError, Resource};
pub use resources::Resources;
pub use graph::{Graph, Node, OutputRef};
pub use gpu::{Command, GpuContext};
pub use value::{ProtosDataType, ProtosValueType};
pub use error::{EvalError, FrameError};
pub use nodes::{build_node, AllProtosNodeTemplates, NodeKind, ProtosNodeTemplate};
pub use evaluator::{evaluate_frame, Evaluation, OutputsCache, TraceEvent};
pub use recorder::{record_frame, Recording};
pub use frame::{run_frame, ProtosGraphState, ProtosResponse};
pub use handles::{
    ComputePassHandle, ConstantBufferHandle, GraphicPassHandle, ImageHandle, RawBufferHandle,
    RenderGraph, ShaderModuleHandle, TextureHandle,
};
