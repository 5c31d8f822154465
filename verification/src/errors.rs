//! The error taxonomy of the pipeline.
use vstd::prelude::*;

verus! {

/// What can go wrong in a synchronization run.
///
/// `Conflict` is the one kind that is recovered locally: it is the expected
/// dedup signal from the store's unique keys. Every other kind aborts the
/// current stage's batch; a later re-run is the only retry path.
#[derive(Clone, Copy, PartialEq, Eq, Structural, Debug)]
pub enum SyncError {
    /// Network failure or a non-2xx response.
    Transport,
    /// Malformed or unexpected wire-format shape.
    Parse,
    /// A unique-constraint violation in the store.
    Conflict,
    /// Missing directory, permission trouble, or a filename whose identity
    /// token cannot be parsed.
    Filesystem,
    /// Non-zero exit from the frame-extraction tool.
    ExternalTool,
}

} // verus!
