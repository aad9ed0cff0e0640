use vstd::prelude::*;
use crate::cursor_state::CursorState;
use crate::error::Error;

verus! {

/// ByteBufferExts looks at what lies ahead without moving the cursor.
pub trait ByteBufferExts: View<V = CursorState> {
    /// Returns the byte the cursor stands in and leaves the cursor where it is. Bits of
    /// that byte that were read already are part of what is returned.
    fn peek_u8(&self) -> (r: Result<u8, Error>)
        ensures
            self@.wf(),
            self@.exhausted() ==> r == Err::<u8, Error>(Error::OutOfRange),
            !self@.exhausted() ==> r == Ok::<u8, Error>(self@.current_byte()),
    ;
}

} // verus!
