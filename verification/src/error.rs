//! The failures that allocation tracking reports to its caller.

use vstd::prelude::*;

verus! {

/// A failure of the tracking machinery itself.
///
/// A failure of the underlying allocator is not among these: it is handed on to
/// the caller of the wrapping allocator as it came.
#[derive(Clone, Copy, Debug, PartialEq, Eq, Structural)]
pub enum TracingError {
    /// Every identifier besides the default group's has been handed out.
    GroupCapacityExceeded,
    /// The header in front of a block being released names no group, or gives a
    /// size that the block's layout cannot have.
    CorruptedAllocationHeader,
}

} // verus!
