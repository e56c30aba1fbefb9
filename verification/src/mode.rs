//! The two modes of a run.

use vstd::prelude::*;

verus! {

/// What a run does: it either inspects the artifact that is there, or
/// fetches everything and writes the artifact.
#[derive(Debug, Clone, Copy, PartialEq, Eq, Structural)]
pub enum RunMode {
    /// The artifact exists: load it and show a summary, fetch nothing.
    Inspect,
    /// There is no artifact: fetch all images, then export.
    Fetch,
}

/// The mode of a run, decided by whether the artifact exists at its start.
pub fn select_mode(artifact_exists: bool) -> (mode: RunMode)
    ensures
        mode == if artifact_exists {
            RunMode::Inspect
        } else {
            RunMode::Fetch
        },
{
    if artifact_exists {
        RunMode::Inspect
    } else {
        RunMode::Fetch
    }
}

} // verus!
