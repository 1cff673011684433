//! What the progress bars show.

use vstd::prelude::*;

verus! {

/// The maker of the progress bars.
#[derive(Debug, Clone, Copy, PartialEq, Eq, Structural)]
pub struct ProgressManager {}

} // verus!
