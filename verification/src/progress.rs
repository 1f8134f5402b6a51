//! The shape of the progress indicator shown while a task runs.

use vstd::prelude::*;

verus! {

/// How progress is shown.
#[derive(Debug, Clone, Copy, PartialEq, Eq)]
pub enum BarShape {
    /// A spinner, for a task of unknown length.
    Spinner,
    /// A bar that counts up to the given number of steps.
    Counter(u64),
}

/// A task of length 0 gets a spinner, any other a bar of that length.
pub fn bar_shape(length: u64) -> (r: BarShape)
    ensures
        length == 0 ==> r == BarShape::Spinner,
        length != 0 ==> r == BarShape::Counter(length),
{
    if length == 0 {
        BarShape::Spinner
    } else {
        BarShape::Counter(length)
    }
}

} // verus!
