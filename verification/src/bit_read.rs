use vstd::prelude::*;
use crate::bits::bit_at;
use crate::cursor_state::CursorState;
use crate::error::Error;

verus! {

/// BitRead is similar to `std::io::Read`, but it allows reading amounts of data less than a
/// single byte.
pub trait BitRead: View<V = CursorState> {
    /// Reads the bit at the cursor as 0 or 1 and moves one bit ahead.
    fn read_bit(&mut self) -> (r: Result<u8, Error>)
        ensures
            final(self)@.wf(),
            old(self)@.exhausted() ==> ({
                &&& r == Err::<u8, Error>(Error::OutOfRange)
                &&& final(self)@ == old(self)@
            }),
            !old(self)@.exhausted() ==> ({
                &&& r == Ok::<u8, Error>(old(self)@.next_bits(1))
                &&& final(self)@ == old(self)@.advance_bits(1)
            }),
            r matches Ok(bit) ==> bit <= 1,
    ;

    /// Reads the bit at the cursor as a truth value, true for 1, and moves one bit ahead.
    fn read_bit_as_bool(&mut self) -> (r: Result<bool, Error>)
        ensures
            final(self)@.wf(),
            old(self)@.exhausted() ==> ({
                &&& r == Err::<bool, Error>(Error::OutOfRange)
                &&& final(self)@ == old(self)@
            }),
            !old(self)@.exhausted() ==> ({
                &&& r == Ok::<bool, Error>(bit_at(old(self)@.current_byte(), old(self)@.bit_pos))
                &&& final(self)@ == old(self)@.advance_bits(1)
            }),
    ;

    /// Reads the next `num_bits` bits of the current byte as a number and moves past them.
    /// A run that would end in the next byte is refused, before anything else is looked at.
    fn read_bits_as_u8(&mut self, num_bits: usize) -> (r: Result<u8, Error>)
        ensures
            final(self)@.wf(),
            !old(self)@.fits_in_byte(num_bits as nat) ==> ({
                &&& r == Err::<u8, Error>(Error::InvalidCursorPosition)
                &&& final(self)@ == old(self)@
            }),
            old(self)@.fits_in_byte(num_bits as nat) && old(self)@.exhausted() ==> ({
                &&& r == Err::<u8, Error>(Error::OutOfRange)
                &&& final(self)@ == old(self)@
            }),
            old(self)@.fits_in_byte(num_bits as nat) && !old(self)@.exhausted() ==> ({
                &&& r == Ok::<u8, Error>(old(self)@.next_bits(num_bits as nat))
                &&& final(self)@ == old(self)@.advance_bits(num_bits as nat)
            }),
    ;
}

} // verus!
