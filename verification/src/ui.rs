//! Hook for an interactive terminal shell.
//!
//! The shell deliberately has no behaviour: driving a real terminal is the
//! caller's business and out of the engine's scope.  The type exists so
//! callers have a name to hold.

use vstd::prelude::*;

verus! {

/// The inert shell.
pub struct Ui {}

} // verus!
