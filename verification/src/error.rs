//! The errors the engine itself decides on.

use vstd::prelude::*;

verus! {

/// Errors that the synchronization engine itself can decide on.
///
/// I/O, transport and parse failures are surfaced by the caller that performs
/// the corresponding outside work; the engine only ever produces the variants
/// below.
#[derive(Debug)]
pub enum Error {
    /// The configuration carries an empty web API key, so no remote call can
    /// be made.
    MissingWebApiKey(),
    /// The external download helper has not been installed yet.
    NotInitialised(),
    /// The supervised helper process terminated with this non-zero exit code.
    WorkerExitCode(u32),
}

} // verus!
