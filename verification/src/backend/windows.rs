//! Windows: not supported yet.

use vstd::prelude::*;

verus! {

/// The Windows backend.
pub struct WindowsBackend;

} // verus!
