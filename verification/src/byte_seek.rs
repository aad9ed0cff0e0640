use vstd::prelude::*;
use crate::cursor_state::CursorState;
use crate::error::Error;

verus! {

/// The place a seek asks for, in bytes: from the start of the buffer, from its end, or
/// from where the cursor stands.
#[derive(Debug, Clone, Copy, PartialEq, Eq, Structural)]
pub enum SeekFrom {
    Start(u64),
    End(i64),
    Current(i64),
}

/// ByteSeek moves a cursor to a byte boundary chosen by the caller, after `std::io::Seek`.
pub trait ByteSeek: View<V = CursorState> {
    /// Puts the cursor on the boundary before the byte asked for and returns that byte's
    /// offset from the start. A place before the start or behind the end is refused; the
    /// cursor then stays in its byte. Either way it leaves the cursor byte-aligned.
    fn seek(&mut self, pos: SeekFrom) -> (r: Result<u64, Error>)
        ensures
            final(self)@.wf(),
            0 <= old(self)@.seek_target(pos) <= old(self)@.bytes.len() ==> ({
                &&& r == Ok::<u64, Error>(old(self)@.seek_target(pos) as u64)
                &&& final(self)@ == old(self)@.seek_to(old(self)@.seek_target(pos) as nat)
            }),
            !(0 <= old(self)@.seek_target(pos) <= old(self)@.bytes.len()) ==> ({
                &&& r == Err::<u64, Error>(Error::OutOfRange)
                &&& final(self)@ == old(self)@.realigned()
            }),
    ;
}

} // verus!
