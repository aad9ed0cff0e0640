use vstd::prelude::*;
use crate::cursor_state::CursorState;
use crate::error::Error;

verus! {

/// ByteWrite is the whole-byte side of writing, after `std::io::Write`.
pub trait ByteWrite: View<V = CursorState> {
    /// Overwrites the bytes at the cursor with the front of `buf`, as many as the buffer
    /// still has room for, moves past them and returns their number. The buffer never
    /// grows. A cursor that stands inside a byte refuses.
    fn write(&mut self, buf: &[u8]) -> (r: Result<usize, Error>)
        ensures
            final(self)@.wf(),
            !old(self)@.aligned() ==> ({
                &&& r == Err::<usize, Error>(Error::NotByteAligned)
                &&& final(self)@ == old(self)@
            }),
            old(self)@.aligned() ==> ({
                &&& r == Ok::<usize, Error>(old(self)@.available(buf@.len()) as usize)
                &&& final(self)@ == old(self)@.write_bytes(buf@)
            }),
    ;

    /// Every write has reached the buffer when it returns: there is nothing to flush.
    fn flush(&mut self) -> (r: Result<(), Error>)
        ensures
            r == Ok::<(), Error>(()),
            final(self)@ == old(self)@,
    ;
}

} // verus!
