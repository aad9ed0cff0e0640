use vstd::prelude::*;
use crate::bit_read::BitRead;
use crate::bit_write::BitWrite;
use crate::bits::{
    lemma_bit_field_bound,
    lemma_empty_field,
    lemma_field_by_shifts,
    lemma_single_bit_mask,
    lemma_with_field_by_shifts,
};
use crate::byte_buffer::ByteBuffer;
use crate::byte_buffer_exts::ByteBufferExts;
use crate::byte_buffer_mut::ByteBufferMut;
use crate::byte_read::ByteRead;
use crate::byte_seek::{ByteSeek, SeekFrom};
use crate::byte_write::ByteWrite;
use crate::cursor_state::CursorState;
use crate::error::Error;
use crate::helpers::get_u8_mask;
use crate::sized_buffer::SizedByteBuffer;

verus! {

/// Similar to `std::io::Cursor` but designed to keep track of a buffer of bytes where amounts
/// less than a single byte (i.e. some number of bits) can be read and written.
#[derive(Debug)]
pub struct ByteBufferCursor {
    data: Vec<u8>,
    byte_pos: usize,
    bit_pos: u8,
}

impl View for ByteBufferCursor {
    type V = CursorState;

    closed spec fn view(&self) -> CursorState {
        CursorState {
            bytes: self.data@,
            byte_pos: self.byte_pos as nat,
            bit_pos: self.bit_pos as nat,
        }
    }
}

impl ByteBufferCursor {
    #[verifier::type_invariant]
    spec fn well_formed(&self) -> bool {
        self@.wf()
    }

    /// A cursor over `data` that stands before its first bit.
    pub fn new(data: Vec<u8>) -> (cursor: Self)
        ensures
            cursor@ == CursorState::at_start(data@),
            cursor@.wf(),
    {
        ByteBufferCursor { data, byte_pos: 0, bit_pos: 0 }
    }

    /// Moves the cursor `num_bits` bits ahead inside the current byte, and on to the next
    /// byte where that uses the current one up.
    fn increment_bit_pos(&mut self, num_bits: usize)
        requires
            old(self)@.fits_in_byte(num_bits as nat),
            !old(self)@.exhausted(),
        ensures
            final(self)@ == old(self)@.advance_bits(num_bits as nat),
    {
        proof {
            use_type_invariant(&*self);
        }
        assert(self.byte_pos < self.data.len());
        let sum: u8 = self.bit_pos + num_bits as u8;
        if sum >= 8 {
            self.bit_pos = sum % 8;
            self.byte_pos = self.byte_pos + 1;
        } else {
            self.bit_pos = sum;
        }
    }

    /// Ends the cursor and hands back its bytes.
    pub fn into_vec(self) -> (data: Vec<u8>)
        ensures
            data@ == self@.bytes,
    {
        self.data
    }

    /// Return a copy of the byte at the byte cursor's current position. `bit_pos`
    /// refers to the current position within this byte.
    fn get_current_byte(&self) -> (r: Result<u8, Error>)
        ensures
            self@.wf(),
            self@.exhausted() ==> r == Err::<u8, Error>(Error::OutOfRange),
            !self@.exhausted() ==> r == Ok::<u8, Error>(self@.current_byte()),
    {
        proof {
            use_type_invariant(self);
        }
        if self.byte_pos < self.data.len() {
            Ok(self.data[self.byte_pos])
        } else {
            Err(Error::OutOfRange)
        }
    }

    /// Return a mutable reference to the byte at the byte cursor's current position.
    /// `bit_pos` refers to the current position within this byte.
    fn get_current_byte_mut(&mut self) -> (r: Result<&mut u8, Error>)
        ensures
            old(self)@.wf(),
            old(self)@.exhausted() ==> ({
                &&& r is Err
                &&& r->Err_0 == Error::OutOfRange
                &&& final(self)@ == old(self)@
            }),
            !old(self)@.exhausted() ==> ({
                &&& r is Ok
                &&& *r->Ok_0 == old(self)@.current_byte()
                &&& final(self)@ == (CursorState {
                    bytes: old(self)@.bytes.update(old(self)@.byte_pos as int, *final(r->Ok_0)),
                    ..old(self)@
                })
            }),
    {
        proof {
            use_type_invariant(&*self);
        }
        let curr_pos = self.byte_pos;
        if curr_pos < self.data.len() {
            Ok(&mut self.data[curr_pos])
        } else {
            Err(Error::OutOfRange)
        }
    }
}

impl SizedByteBuffer for ByteBufferCursor {
    fn bytes_remaining(&self) -> (r: usize) {
        proof {
            use_type_invariant(self);
        }
        match self.bit_pos {
            0 => self.data.len() - self.byte_pos,
            // If we're in the middle of a byte, don't count that as a full byte remaining
            _ => self.data.len() - self.byte_pos - 1,
        }
    }
}

impl ByteBufferExts for ByteBufferCursor {
    fn peek_u8(&self) -> (r: Result<u8, Error>) {
        self.get_current_byte()
    }
}

impl BitRead for ByteBufferCursor {
    fn read_bit(&mut self) -> (r: Result<u8, Error>) {
        proof {
            use_type_invariant(&*self);
            lemma_single_bit_mask(self.bit_pos);
        }
        let mask = 0b10000000u8 >> self.bit_pos;
        let masked_byte = self.get_current_byte()? & mask;
        // Calculate the shift amount before we advance self.bit_pos
        let shift_amount = 7 - self.bit_pos;
        proof {
            lemma_field_by_shifts(self@.current_byte(), self.bit_pos as u32, 1, mask);
            lemma_bit_field_bound(self@.current_byte(), self.bit_pos as nat, 1);
            vstd::arithmetic::power2::lemma2_to64();
        }
        self.increment_bit_pos(1);
        Ok(masked_byte >> shift_amount)
    }

    fn read_bit_as_bool(&mut self) -> (r: Result<bool, Error>) {
        Ok(self.read_bit()? > 0)
    }

    fn read_bits_as_u8(&mut self, num_bits: usize) -> (r: Result<u8, Error>) {
        proof {
            use_type_invariant(&*self);
        }
        if num_bits > 8 - self.bit_pos as usize {
            // We don't support reading bits across byte boundaries
            return Err(Error::InvalidCursorPosition);
        }
        let mask = get_u8_mask(self.bit_pos as usize, num_bits)?;
        let masked_byte = self.get_current_byte()? & mask;
        let shift_amount = 8 - num_bits as u8 - self.bit_pos;
        proof {
            lemma_field_by_shifts(self@.current_byte(), self.bit_pos as u32, num_bits as u32, mask);
            lemma_bit_field_bound(self@.current_byte(), self.bit_pos as nat, num_bits as nat);
            vstd::arithmetic::power2::lemma2_to64();
        }
        // A run of no bits leaves nothing to shift down.
        let result = if shift_amount < 8 {
            masked_byte >> shift_amount
        } else {
            0
        };
        self.increment_bit_pos(num_bits);
        Ok(result)
    }
}

impl BitWrite for ByteBufferCursor {
    fn write_bit(&mut self, bit: u8) -> (r: Result<(), Error>) {
        proof {
            use_type_invariant(&*self);
            lemma_single_bit_mask(self.bit_pos);
            lemma_single_bit_mask(7);
        }
        let bit_pos = self.bit_pos;
        let mask = !(0b10000000u8 >> bit_pos);
        let shift_amount = 7 - bit_pos;
        let curr_byte = self.get_current_byte_mut()?;
        proof {
            let field = 0b10000000u8 >> bit_pos;
            assert(!!field == field) by (bit_vector);
            assert(0b10000000u8 >> 7u8 == 1) by (bit_vector);
            lemma_with_field_by_shifts(*curr_byte, bit_pos as u32, 1, bit, field, 1);
        }
        // First zero out the current bit in this position
        *curr_byte &= mask;
        // Now shift the given bit so the bit to set (the LSB) is in the right place; only
        // the LSB of what was given is a bit to write
        let shifted_bit = (bit & 1) << shift_amount;
        // Now 'or' the current byte with the shifted bit
        *curr_byte |= shifted_bit;
        self.increment_bit_pos(1);
        Ok(())
    }

    fn write_u8_as_bits(&mut self, v: u8, num_bits: usize) -> (r: Result<(), Error>) {
        proof {
            use_type_invariant(&*self);
        }
        let bit_pos = self.bit_pos;
        if num_bits > 8 - bit_pos as usize {
            // We don't support writing bits across byte boundaries
            return Err(Error::InvalidCursorPosition);
        }
        let current_byte = self.get_current_byte_mut()?;

        // First clear the bits we're going to write to in the current byte
        // (We invert the mask because we want to _clear_ these bits and leave all others
        // untouched)
        let shift_amount = 8 - bit_pos - num_bits as u8;
        let field_mask = get_u8_mask(bit_pos as usize, num_bits)?;
        let curr_byte_mask = !field_mask;
        // Now clear all bits in the given value except for the ones we'll be using (the given
        // value may have more bits set than `num_bits` describes)
        let value_mask = get_u8_mask(8 - num_bits, num_bits)?;
        proof {
            lemma_with_field_by_shifts(
                *current_byte,
                bit_pos as u32,
                num_bits as u32,
                v,
                field_mask,
                value_mask,
            );
            if num_bits == 0 {
                let byte = *current_byte;
                lemma_empty_field(byte, bit_pos as nat, v);
                assert((byte & !0u8) | 0u8 == byte) by (bit_vector);
                assert(v & 0u8 == 0u8) by (bit_vector);
                assert(0u8 << shift_amount == 0u8) by (bit_vector);
            }
        }
        *current_byte &= curr_byte_mask;
        let v = v & value_mask;

        // Now we need to shift the value to put the bits in the proper position to be written to
        // the current byte
        // A run of no bits leaves nothing to shift up.
        let v = if shift_amount < 8 {
            v << shift_amount
        } else {
            0
        };
        *current_byte |= v;
        self.increment_bit_pos(num_bits);
        Ok(())
    }

    fn write_bool(&mut self, b: bool) -> (r: Result<(), Error>) {
        self.write_bit(if b {
            1
        } else {
            0
        })
    }
}

impl ByteRead for ByteBufferCursor {
    fn read(&mut self, buf: &mut [u8]) -> (r: Result<usize, Error>) {
        proof {
            use_type_invariant(&*self);
        }
        if self.bit_pos != 0 {
            return Err(Error::NotByteAligned);
        }
        let wanted = buf.len();
        let mut count: usize = 0;
        while count < wanted && self.byte_pos < self.data.len()
            invariant
                self.bit_pos == 0,
                self.data@ == old(self).data@,
                self.byte_pos == old(self).byte_pos + count,
                self.byte_pos <= self.data.len(),
                count <= wanted,
                buf@.len() == wanted,
                wanted == old(buf)@.len(),
                buf@ == old(self).data@.subrange(
                    old(self).byte_pos as int,
                    old(self).byte_pos + count,
                ) + old(buf)@.skip(count as int),
            decreases wanted - count,
        {
            buf[count] = self.data[self.byte_pos];
            self.byte_pos = self.byte_pos + 1;
            count = count + 1;
            assert(buf@ =~= old(self).data@.subrange(
                old(self).byte_pos as int,
                old(self).byte_pos + count,
            ) + old(buf)@.skip(count as int));
        }
        Ok(count)
    }
}

impl ByteWrite for ByteBufferCursor {
    fn write(&mut self, buf: &[u8]) -> (r: Result<usize, Error>) {
        proof {
            use_type_invariant(&*self);
        }
        if self.bit_pos != 0 {
            return Err(Error::NotByteAligned);
        }
        let wanted = buf.len();
        let mut count: usize = 0;
        while count < wanted && self.byte_pos < self.data.len()
            invariant
                self.bit_pos == 0,
                self.data@.len() == old(self).data@.len(),
                self.byte_pos == old(self).byte_pos + count,
                self.byte_pos <= self.data.len(),
                count <= wanted,
                wanted == buf@.len(),
                forall|i: int|
                    0 <= i < self.data@.len() ==> self.data@[i] == if old(self).byte_pos <= i
                        < old(self).byte_pos + count {
                        buf@[i - old(self).byte_pos]
                    } else {
                        old(self).data@[i]
                    },
            decreases wanted - count,
        {
            self.data[self.byte_pos] = buf[count];
            self.byte_pos = self.byte_pos + 1;
            count = count + 1;
        }
        assert(self@.bytes =~= old(self)@.write_bytes(buf@).bytes);
        Ok(count)
    }

    fn flush(&mut self) -> (r: Result<(), Error>) {
        Ok(())
    }
}

impl ByteSeek for ByteBufferCursor {
    fn seek(&mut self, pos: SeekFrom) -> (r: Result<u64, Error>) {
        proof {
            use_type_invariant(&*self);
        }
        self.bit_pos = 0;
        let len = self.data.len();
        let target: i128 = match pos {
            SeekFrom::Start(offset) => offset as i128,
            SeekFrom::End(offset) => len as i128 + offset as i128,
            SeekFrom::Current(offset) => self.byte_pos as i128 + offset as i128,
        };
        if 0 <= target && target <= len as i128 {
            self.byte_pos = target as usize;
            Ok(target as u64)
        } else {
            Err(Error::OutOfRange)
        }
    }
}

impl ByteBuffer for ByteBufferCursor {

}

impl ByteBufferMut for ByteBufferCursor {

}

} // verus!
