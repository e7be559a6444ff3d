//! The GPU capability the engine builds resources with, and the commands it
//! records for the GPU to run.
use vstd::prelude::*;
use crate::handles::{ComputePassHandle, GraphicPassHandle, RawBufferHandle, ShaderModuleHandle, TextureHandle};
use crate::resource::BuildError;
use crate::texture::{TextureDescription, TextureData};
use crate::buffer::{BufferDescription, BufferData};
use crate::mesh::{MeshDescription, MeshData};
use crate::shader::{ShaderDescription, ShaderData};

verus! {

/// What a render pipeline is built from: already-built GPU objects only.
#[derive(Clone, Debug, PartialEq, Eq)]
pub struct GraphicPassLayout {
    pub vertex_shader: ShaderModuleHandle,
    pub fragment_shader: ShaderModuleHandle,
    pub shader_resource_views: Vec<TextureHandle>,
    pub render_targets: Vec<TextureHandle>,
}

/// What a compute pipeline is built from.
#[derive(Clone, Debug, PartialEq, Eq)]
pub struct ComputePassLayout {
    pub shader_resource_views: Vec<TextureHandle>,
    pub output: TextureHandle,
}

/// One GPU command, appended to a command list by the record phase.
#[derive(Clone, Debug, PartialEq, Eq)]
pub enum Command {
    /// Copy the `width` x `height` region at the origin of `src` into `dst`.
    CopyTexture { src: TextureHandle, dst: TextureHandle, width: u32, height: u32 },
    /// Run a render pipeline over a mesh into its render targets.
    Draw {
        pass: GraphicPassHandle,
        vertex_buffer: RawBufferHandle,
        index_buffer: RawBufferHandle,
        index_count: u32,
        targets: Vec<TextureHandle>,
    },
    /// Run a compute pipeline.
    Dispatch { pass: ComputePassHandle },
}

/// The device that GPU objects are created on.
///
/// Every method may fail (the device validates what it is given); the engine
/// is correct whatever each call returns.
pub trait GpuContext {
    fn create_texture(&mut self, desc: &TextureDescription) -> Result<TextureData, BuildError>;

    fn create_buffer(&mut self, desc: &BufferDescription) -> Result<BufferData, BuildError>;

    fn create_mesh(&mut self, desc: &MeshDescription) -> Result<MeshData, BuildError>;

    fn create_shader(&mut self, desc: &ShaderDescription) -> Result<ShaderData, BuildError>;

    fn create_graphic_pass(&mut self, layout: &GraphicPassLayout) -> Result<GraphicPassHandle, BuildError>;

    fn create_compute_pass(&mut self, layout: &ComputePassLayout) -> Result<ComputePassHandle, BuildError>;
}

} // verus!
