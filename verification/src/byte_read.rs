use vstd::prelude::*;
use crate::cursor_state::CursorState;
use crate::error::Error;

verus! {

/// ByteRead is the whole-byte side of reading, after `std::io::Read`.
pub trait ByteRead: View<V = CursorState> {
    /// Copies the bytes at the cursor into the front of `buf`, as many as `buf` takes and
    /// the buffer still has, moves past them and returns their number. The rest of `buf`
    /// keeps what it held. A cursor that stands inside a byte refuses.
    fn read(&mut self, buf: &mut [u8]) -> (r: Result<usize, Error>)
        ensures
            final(self)@.wf(),
            !old(self)@.aligned() ==> ({
                &&& r == Err::<usize, Error>(Error::NotByteAligned)
                &&& final(self)@ == old(self)@
                &&& final(buf)@ == old(buf)@
            }),
            old(self)@.aligned() ==> ({
                let count = old(self)@.available(old(buf)@.len());
                &&& r == Ok::<usize, Error>(count as usize)
                &&& final(self)@ == old(self)@.skip_bytes(count)
                &&& final(buf)@ == old(self)@.next_bytes(old(buf)@.len()) + old(buf)@.skip(
                    count as int,
                )
            }),
            r matches Ok(count) ==> final(self)@.bytes_remaining() + count
                == old(self)@.bytes_remaining(),
    ;
}

} // verus!
