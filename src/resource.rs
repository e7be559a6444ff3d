//! The generic lazily-built resource: a description, the GPU data built from
//! it (if any) and a dirty flag.
use vstd::prelude::*;

verus! {

/// Why building the GPU side of a resource failed.
#[derive(Clone, Debug, PartialEq, Eq)]
pub enum BuildError {
    /// The GPU context rejected the description (a validation error).
    Validation(String),
    /// A shader resource view slot of a pass has no texture bound.
    BindingNotSet,
    /// A pass has no vertex shader.
    NoVertexShader,
    /// A pass has no fragment shader.
    NoFragmentShader,
    /// A resource that this one depends on has not been built yet.
    DependencyNotBuilt,
    /// A handle stored in the description does not name a resource.
    InvalidHandle,
    /// Encoded image bytes could not be decoded.
    Decode(String),
    /// A pass has a different number of render target sizes and attachment
    /// textures.
    AttachmentMismatch,
}

/// Why recording the commands of a resource failed.
#[derive(Clone, Debug, PartialEq, Eq)]
pub enum RecordError {
    /// The resource has never been built.
    NoData,
    /// A backbuffer pass has no origin texture.
    NoOrigin,
    /// The origin texture of a backbuffer pass has not been built.
    OriginNotLoaded,
    /// A graphic pass has no geometry.
    NoGeometry,
    /// The geometry of a graphic pass has no GPU buffers yet.
    NoGeometryData,
    /// A render target of a graphic pass has not been built.
    TargetNotLoaded,
    /// A handle stored in the description does not name a resource.
    InvalidHandle,
    /// The node was reached again while it was being recorded.
    CycleDetected,
}

/// A description together with the GPU data that was built from it.
///
/// Invariant kept by every setter of the typed resources: whenever the
/// description changes, `dirty` is set, so `data` (when present) was built
/// from the current description exactly when `dirty` is false.
#[derive(Debug)]
pub struct Resource<Desc, Data> {
    pub desc: Desc,
    pub data: Option<Data>,
    pub dirty: bool,
}

impl<Desc, Data> Resource<Desc, Data> {
    /// Whether the next `update_data` has to build the GPU data.
    pub open spec fn needs_build(&self) -> bool {
        self.data.is_none() || self.dirty
    }

    /// A resource that has not been built yet.
    pub fn new(desc: Desc) -> (r: Self)
        ensures
            r.desc == desc,
            r.data.is_none(),
            r.dirty,
    {
        Resource { desc, data: None, dirty: true }
    }

    /// True iff a build has succeeded for this resource.
    pub fn has_data(&self) -> (r: bool)
        ensures
            r == self.data.is_some(),
    {
        self.data.is_some()
    }

    pub fn is_dirty(&self) -> (r: bool)
        ensures
            r == self.dirty,
    {
        self.dirty
    }

    pub fn needs_update(&self) -> (r: bool)
        ensures
            r == self.needs_build(),
    {
        self.data.is_none() || self.dirty
    }

    /// Stores the outcome of a build. A success replaces the data and clears
    /// the dirty flag; a failure keeps the description and the previous data
    /// and marks the resource dirty, so the next update retries.
    pub fn finish_update(&mut self, built: Result<Data, BuildError>) -> (r: Result<(), BuildError>)
        ensures
            match built {
                Ok(d) => r is Ok && final(self).data == Some(d) && !final(self).dirty
                    && final(self).desc == old(self).desc,
                Err(e) => r == Err::<(), BuildError>(e) && final(self).desc == old(self).desc
                    && final(self).data == old(self).data && final(self).dirty,
            },
    {
        match built {
            Ok(d) => {
                self.data = Some(d);
                self.dirty = false;
                Ok(())
            },
            Err(e) => {
                self.dirty = true;
                Err(e)
            },
        }
    }

    /// The data, or `RecordError::NoData` when nothing was built yet.
    pub fn record_data(&self) -> (r: Result<&Data, RecordError>)
        ensures
            match self.data {
                Some(d) => r == Ok::<&Data, RecordError>(&d),
                None => r == Err::<&Data, RecordError>(RecordError::NoData),
            },
    {
        match &self.data {
            Some(d) => Ok(d),
            None => Err(RecordError::NoData),
        }
    }
}

} // verus!
