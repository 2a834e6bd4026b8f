//! Windows: not supported yet.

use vstd::prelude::*;

verus! {

/// The Windows detector.
pub struct WindowsDetector;

} // verus!
