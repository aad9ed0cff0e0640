use vstd::prelude::*;
use crate::cursor_state::CursorState;

verus! {

/// SizedByteBuffer tells how much of a buffer is left.
pub trait SizedByteBuffer: View<V = CursorState> {
    /// The number of whole bytes ahead of the cursor. A byte that the cursor stands inside
    /// does not count.
    fn bytes_remaining(&self) -> (r: usize)
        ensures
            self@.wf(),
            r == self@.bytes_remaining(),
    ;
}

} // verus!
