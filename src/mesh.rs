//! Meshes: a procedural shape or a model file, turned into vertex and index
//! buffers by the GPU context.
use vstd::prelude::*;
use crate::handles::RawBufferHandle;
use crate::resource::{BuildError, Resource};
use crate::gpu::GpuContext;

verus! {

/// The vertex layouts that meshes are built with.
#[derive(Copy, Clone, Debug, PartialEq, Eq, Structural)]
pub enum VertexFactory {
    /// The layout of static meshes: position, texture coordinates, normal,
    /// tangent, bitangent and colour.
    Static,
}

/// A procedural shape. Lengths are in thousandths of a scene unit.
#[derive(Copy, Clone, Debug, PartialEq, Eq, Structural)]
pub enum MeshShape {
    Sphere { segment_count: u32, ring_count: u32, radius_milli: u32 },
    Cube { size_milli: u32 },
}

impl MeshShape {
    pub fn default_sphere() -> (r: Self)
        ensures
            r == (MeshShape::Sphere { segment_count: 16, ring_count: 16, radius_milli: 500 }),
    {
        MeshShape::Sphere { segment_count: 16, ring_count: 16, radius_milli: 500 }
    }

    pub fn default_cube() -> (r: Self)
        ensures
            r == (MeshShape::Cube { size_milli: 1000 }),
    {
        MeshShape::Cube { size_milli: 1000 }
    }

    pub fn get_shape_name(&self) -> (r: &'static str)
        ensures
            r@ == (match self { MeshShape::Sphere { .. } => "Sphere"@, MeshShape::Cube { .. } => "Cube"@ }),
    {
        proof {
            reveal_strlit("Sphere");
            reveal_strlit("Cube");
        }
        match self {
            MeshShape::Sphere { .. } => "Sphere",
            MeshShape::Cube { .. } => "Cube",
        }
    }
}

#[derive(Clone, Debug)]
pub enum MeshSource {
    Empty,
    Shape(MeshShape),
    Path(String),
}

/// Equality of mesh sources by content.
pub open spec fn same_mesh_source(a: MeshSource, b: MeshSource) -> bool {
    match (a, b) {
        (MeshSource::Empty, MeshSource::Empty) => true,
        (MeshSource::Shape(x), MeshSource::Shape(y)) => x == y,
        (MeshSource::Path(x), MeshSource::Path(y)) => x@ == y@,
        _ => false,
    }
}

impl MeshSource {
    pub fn get_source_name(&self) -> (r: &'static str)
        ensures
            r@ == (match self {
                MeshSource::Empty => "Empty"@,
                MeshSource::Shape(..) => "Shape"@,
                MeshSource::Path(..) => "Path"@,
            }),
    {
        proof {
            reveal_strlit("Empty");
            reveal_strlit("Shape");
            reveal_strlit("Path");
        }
        match self {
            MeshSource::Empty => "Empty",
            MeshSource::Shape(..) => "Shape",
            MeshSource::Path(..) => "Path",
        }
    }

    pub fn same_as(&self, other: &MeshSource) -> (r: bool)
        ensures
            r == same_mesh_source(*self, *other),
    {
        match (self, other) {
            (MeshSource::Empty, MeshSource::Empty) => true,
            (MeshSource::Shape(x), MeshSource::Shape(y)) => *x == *y,
            (MeshSource::Path(x), MeshSource::Path(y)) => *x == *y,
            _ => false,
        }
    }
}

#[derive(Clone, Debug)]
pub struct MeshDescription {
    pub source: MeshSource,
}

#[derive(Copy, Clone, Debug, PartialEq, Eq, Structural)]
pub struct MeshData {
    pub vertex_buffer: RawBufferHandle,
    pub index_buffer: RawBufferHandle,
    pub index_count: u32,
}

pub type Mesh = Resource<MeshDescription, MeshData>;

impl Resource<MeshDescription, MeshData> {
    pub fn from_source(source: MeshSource) -> (r: Mesh)
        ensures
            r.desc.source == source,
            r.data.is_none(),
            r.dirty,
    {
        Resource::new(MeshDescription { source })
    }

    /// Replaces the source; only a different source marks the mesh dirty.
    pub fn set_source(&mut self, source: MeshSource)
        ensures
            same_mesh_source(final(self).desc.source, source),
            final(self).dirty == (old(self).dirty || !same_mesh_source(old(self).desc.source, source)),
            final(self).data == old(self).data,
    {
        if !self.desc.source.same_as(&source) {
            self.desc.source = source;
            self.dirty = true;
        }
    }

    /// Builds the buffers if they were never built or the source changed.
    pub fn update_data<G: GpuContext>(&mut self, gpu: &mut G) -> (r: Result<(), BuildError>)
        ensures
            final(self).desc == old(self).desc,
            !old(self).needs_build() ==> r is Ok && *final(self) == *old(self),
            r is Ok ==> final(self).data.is_some() && !final(self).dirty,
            r is Err ==> final(self).desc == old(self).desc && final(self).data == old(self).data && final(self).dirty,
    {
        if self.needs_update() {
            let built = gpu.create_mesh(&self.desc);
            self.finish_update(built)
        } else {
            Ok(())
        }
    }
}

} // verus!
