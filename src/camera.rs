//! Cameras: no GPU object of their own yet, so building always succeeds.
use vstd::prelude::*;
use crate::resource::{BuildError, Resource};

verus! {

#[derive(Copy, Clone, Debug, PartialEq, Eq, Structural)]
pub struct CameraDescription {}

#[derive(Copy, Clone, Debug, PartialEq, Eq, Structural)]
pub struct CameraData {}

pub type Camera = Resource<CameraDescription, CameraData>;

impl Resource<CameraDescription, CameraData> {
    pub fn empty() -> (r: Camera)
        ensures
            r.data.is_none(),
            r.dirty,
    {
        Resource::new(CameraDescription {  })
    }

    pub fn update_data(&mut self) -> (r: Result<(), BuildError>)
        ensures
            r is Ok,
            final(self).data.is_some(),
            !final(self).dirty,
            !old(self).needs_build() ==> *final(self) == *old(self),
    {
        if self.needs_update() {
            self.finish_update(Ok(CameraData {  }))
        } else {
            Ok(())
        }
    }
}

} // verus!
