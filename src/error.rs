//! What can go wrong while a frame is evaluated or recorded.
use vstd::prelude::*;
use crate::resource::{BuildError, RecordError};
use crate::value::ProtosDataType;

verus! {

/// Why the evaluate phase failed.
#[derive(Debug, PartialEq, Eq)]
pub enum EvalError {
    /// A node has no socket of the requested name: its declaration and its
    /// evaluation disagree.
    SocketNotFound,
    /// A value of one type arrived where another was expected.
    TypeCast { expected: ProtosDataType, found: ProtosDataType },
    /// A required input has neither a connection nor a usable constant.
    MissingRequiredInput,
    /// A value names a resource that does not exist.
    InvalidHandle,
    /// Building a resource failed; it stays dirty and is retried next frame.
    Build(BuildError),
    /// A node evaluated successfully without filling an output it declares.
    CachePopulationViolation,
    /// The node was reached again while it was being evaluated.
    CycleDetected,
    /// An upstream node failed; one level of wrapping per hop.
    NodeFailed(Box<EvalError>),
}

/// The error at the origin of a chain of `NodeFailed` wrappers.
pub open spec fn root_cause(e: EvalError) -> EvalError
    decreases e,
{
    match e {
        EvalError::NodeFailed(inner) => root_cause(*inner),
        _ => e,
    }
}

/// Why a frame produced no commands.
#[derive(Debug, PartialEq, Eq)]
pub enum FrameError {
    /// No root node is selected, or the selected one is not a backbuffer pass.
    NoRoot,
    Evaluate(EvalError),
    Record(RecordError),
}

impl EvalError {
    /// Wraps an upstream failure with one more hop.
    pub fn wrap(self) -> (r: EvalError)
        ensures
            r == EvalError::NodeFailed(Box::new(self)),
            root_cause(r) == root_cause(self),
    {
        EvalError::NodeFailed(Box::new(self))
    }

    /// The number of hops between this error and its origin.
    pub fn depth(&self) -> (r: usize)
        ensures
            r as int == hops(*self),
        decreases *self,
    {
        match self {
            EvalError::NodeFailed(inner) => {
                let d = inner.depth();
                if d < usize::MAX { d + 1 } else { d }
            },
            _ => 0,
        }
    }
}

/// The number of `NodeFailed` wrappers, saturating at the largest `usize`.
pub open spec fn hops(e: EvalError) -> int
    decreases e,
{
    match e {
        EvalError::NodeFailed(inner) => {
            let d = hops(*inner);
            if d < usize::MAX { d + 1 } else { d }
        },
        _ => 0,
    }
}

} // verus!
