//! The run-ending failures of the pipeline.
//!
//! Per-image troubles (an unreadable file, malformed bytes) and
//! per-record troubles (an embedding of the wrong length) are absorbed
//! where they arise: the image or record is dropped and the run goes
//! on.  The variants here are the structural failures that abort the
//! run at once; batches already written stay in the store.

use vstd::prelude::*;

verus! {

/// A fatal pipeline failure.
#[derive(Clone, Copy, Debug, PartialEq, Eq, Structural)]
pub enum PipelineError {
    /// Missing or invalid startup configuration: the run never starts.
    Config,
    /// The store is unreachable or rejected the connection.
    Connectivity,
    /// The model call failed or returned output of a malformed shape.
    Inference,
    /// The store rejected a whole-batch write.
    Write,
}

impl PipelineError {
    /// A short description of the failure, for the caller's logs.
    pub fn describe(&self) -> (r: &'static str)
        ensures
            r@.len() > 0,
    {
        proof {
            reveal_strlit("missing or invalid configuration");
            reveal_strlit("vector store unreachable or connection rejected");
            reveal_strlit("model call failed or returned a malformed shape");
            reveal_strlit("vector store rejected a batch write");
        }
        match self {
            PipelineError::Config => "missing or invalid configuration",
            PipelineError::Connectivity => "vector store unreachable or connection rejected",
            PipelineError::Inference => "model call failed or returned a malformed shape",
            PipelineError::Write => "vector store rejected a batch write",
        }
    }
}

} // verus!
