use vstd::prelude::*;
use crate::cursor_state::CursorState;
use crate::error::Error;

verus! {

/// The number that stands for a truth value when it is written as one bit.
pub open spec fn bool_bit(b: bool) -> u8 {
    if b {
        1
    } else {
        0
    }
}

/// BitWrite is similar to `std::io::Write`, but it allows writing amounts of data less than
/// a single byte.
pub trait BitWrite: View<V = CursorState> {
    /// Writes the lowest bit of `bit` at the cursor and moves one bit ahead. No other bit
    /// of the buffer changes.
    fn write_bit(&mut self, bit: u8) -> (r: Result<(), Error>)
        ensures
            final(self)@.wf(),
            old(self)@.exhausted() ==> ({
                &&& r == Err::<(), Error>(Error::OutOfRange)
                &&& final(self)@ == old(self)@
            }),
            !old(self)@.exhausted() ==> ({
                &&& r == Ok::<(), Error>(())
                &&& final(self)@ == old(self)@.write_bits(bit, 1)
            }),
    ;

    /// Writes the low `num_bits` bits of `v` into the next `num_bits` bits of the current
    /// byte and moves past them. Higher bits of `v` are dropped. A run that would end in the
    /// next byte is refused, before anything else is looked at.
    fn write_u8_as_bits(&mut self, v: u8, num_bits: usize) -> (r: Result<(), Error>)
        ensures
            final(self)@.wf(),
            !old(self)@.fits_in_byte(num_bits as nat) ==> ({
                &&& r == Err::<(), Error>(Error::InvalidCursorPosition)
                &&& final(self)@ == old(self)@
            }),
            old(self)@.fits_in_byte(num_bits as nat) && old(self)@.exhausted() ==> ({
                &&& r == Err::<(), Error>(Error::OutOfRange)
                &&& final(self)@ == old(self)@
            }),
            old(self)@.fits_in_byte(num_bits as nat) && !old(self)@.exhausted() ==> ({
                &&& r == Ok::<(), Error>(())
                &&& final(self)@ == old(self)@.write_bits(v, num_bits as nat)
            }),
    ;

    /// Writes a truth value as one bit, 1 for true, and moves one bit ahead.
    fn write_bool(&mut self, b: bool) -> (r: Result<(), Error>)
        ensures
            final(self)@.wf(),
            old(self)@.exhausted() ==> ({
                &&& r == Err::<(), Error>(Error::OutOfRange)
                &&& final(self)@ == old(self)@
            }),
            !old(self)@.exhausted() ==> ({
                &&& r == Ok::<(), Error>(())
                &&& final(self)@ == old(self)@.write_bits(bool_bit(b), 1)
            }),
    ;
}

} // verus!
