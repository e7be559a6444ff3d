//! Opaque identifiers of objects that live on the GPU side.
//!
//! The engine never looks inside a GPU object: it only stores the identifier
//! that the [`crate::GpuContext`] handed back when the object was created.
use vstd::prelude::*;

verus! {

/// Identifier of a texture created by the GPU context.
#[derive(Copy, Clone, Debug, PartialEq, Eq, Structural)]
pub struct TextureHandle(pub u64);

/// Identifier of an image (a texture used as a storage image).
#[derive(Copy, Clone, Debug, PartialEq, Eq, Structural)]
pub struct ImageHandle(pub u64);

/// Identifier of a raw GPU buffer.
#[derive(Copy, Clone, Debug, PartialEq, Eq, Structural)]
pub struct RawBufferHandle(pub u64);

/// Identifier of a constant (uniform) buffer.
#[derive(Copy, Clone, Debug, PartialEq, Eq, Structural)]
pub struct ConstantBufferHandle(pub u64);

/// Identifier of a compiled shader module.
#[derive(Copy, Clone, Debug, PartialEq, Eq, Structural)]
pub struct ShaderModuleHandle(pub u64);

/// Identifier of a render pipeline together with its bind group.
#[derive(Copy, Clone, Debug, PartialEq, Eq, Structural)]
pub struct GraphicPassHandle(pub u64);

/// Identifier of a compute pipeline.
#[derive(Copy, Clone, Debug, PartialEq, Eq, Structural)]
pub struct ComputePassHandle(pub u64);

/// The identifier value that no GPU object ever receives.
pub const INVALID_ID: u64 = 0xFFFF_FFFF_FFFF_FFFF;

impl TextureHandle {
    pub fn new() -> (r: Self)
        ensures
            r.0 == 0,
    {
        TextureHandle(0)
    }

    pub fn invalid() -> (r: Self)
        ensures
            r.0 == INVALID_ID,
    {
        TextureHandle(INVALID_ID)
    }
}

impl ImageHandle {
    pub fn new() -> (r: Self)
        ensures
            r.0 == 0,
    {
        ImageHandle(0)
    }

    pub fn invalid() -> (r: Self)
        ensures
            r.0 == INVALID_ID,
    {
        ImageHandle(INVALID_ID)
    }
}

impl RawBufferHandle {
    pub fn new() -> (r: Self)
        ensures
            r.0 == 0,
    {
        RawBufferHandle(0)
    }

    pub fn invalid() -> (r: Self)
        ensures
            r.0 == INVALID_ID,
    {
        RawBufferHandle(INVALID_ID)
    }
}

impl ConstantBufferHandle {
    pub fn new() -> (r: Self)
        ensures
            r.0 == 0,
    {
        ConstantBufferHandle(0)
    }

    pub fn invalid() -> (r: Self)
        ensures
            r.0 == INVALID_ID,
    {
        ConstantBufferHandle(INVALID_ID)
    }
}

/// Registry of render pipelines. Pipelines are created by the GPU context, so
/// the registry itself only hands out the first pipeline identifier.
#[derive(Debug)]
pub struct RenderGraph {}

impl RenderGraph {
    pub fn new() -> (r: Self) {
        RenderGraph {  }
    }

    pub fn create_graphic_pass(&self) -> (r: GraphicPassHandle)
        ensures
            r.0 == 0,
    {
        GraphicPassHandle(0)
    }
}

} // verus!
