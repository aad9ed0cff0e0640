//! The mathematical model of a cursor: the bytes it owns and the place it stands at.
use vstd::prelude::*;
use crate::bits::{bit_field, with_bit_field};
use crate::byte_seek::SeekFrom;

verus! {

/// What a cursor is to its contracts: a sequence of bytes, the index of the current byte,
/// and the number of bits of that byte that lie behind the cursor.
pub struct CursorState {
    pub bytes: Seq<u8>,
    pub byte_pos: nat,
    pub bit_pos: nat,
}

impl CursorState {
    /// The cursor stands inside the buffer or at its end, and inside a byte only where
    /// there is a byte.
    pub open spec fn wf(self) -> bool {
        &&& self.byte_pos <= self.bytes.len()
        &&& self.bit_pos < 8
        &&& self.byte_pos == self.bytes.len() ==> self.bit_pos == 0
    }

    /// The state of a cursor that was just made from `bytes`.
    pub open spec fn at_start(bytes: Seq<u8>) -> CursorState {
        CursorState { bytes, byte_pos: 0, bit_pos: 0 }
    }

    /// The cursor stands on a byte boundary.
    pub open spec fn aligned(self) -> bool {
        self.bit_pos == 0
    }

    /// No byte is left at the cursor.
    pub open spec fn exhausted(self) -> bool {
        self.byte_pos >= self.bytes.len()
    }

    /// The byte the cursor stands in.
    pub open spec fn current_byte(self) -> u8
        recommends
            !self.exhausted(),
    {
        self.bytes[self.byte_pos as int]
    }

    /// The number of whole bytes ahead of the cursor. A byte that the cursor stands
    /// inside is not counted.
    pub open spec fn bytes_remaining(self) -> nat {
        if self.bit_pos == 0 {
            (self.bytes.len() - self.byte_pos) as nat
        } else {
            (self.bytes.len() - self.byte_pos - 1) as nat
        }
    }

    /// The number of bits behind the cursor, counted from the start of the buffer.
    pub open spec fn bit_index(self) -> nat {
        8 * self.byte_pos + self.bit_pos
    }

    /// A run of `num_bits` bits that starts at the cursor ends inside the current byte.
    pub open spec fn fits_in_byte(self, num_bits: nat) -> bool {
        self.bit_pos + num_bits <= 8
    }

    /// The cursor moved `num_bits` bits ahead over the same bytes.
    pub open spec fn advance_bits(self, num_bits: nat) -> CursorState {
        CursorState {
            bytes: self.bytes,
            byte_pos: (self.bit_index() + num_bits) / 8,
            bit_pos: (self.bit_index() + num_bits) % 8,
        }
    }

    /// The next `num_bits` bits of the current byte as a number, the last of them with
    /// weight 1.
    pub open spec fn next_bits(self, num_bits: nat) -> u8
        recommends
            !self.exhausted(),
            self.fits_in_byte(num_bits),
    {
        bit_field(self.current_byte(), self.bit_pos, num_bits)
    }

    /// The state after the low `num_bits` bits of `value` were written at the cursor.
    pub open spec fn write_bits(self, value: u8, num_bits: nat) -> CursorState
        recommends
            !self.exhausted(),
            self.fits_in_byte(num_bits),
    {
        CursorState {
            bytes: self.bytes.update(
                self.byte_pos as int,
                with_bit_field(self.current_byte(), self.bit_pos, num_bits, value),
            ),
            ..self
        }.advance_bits(num_bits)
    }

    /// How many bytes a whole-byte operation moves when it is asked for `wanted`: as many
    /// as are left, and no more.
    pub open spec fn available(self, wanted: nat) -> nat {
        if self.byte_pos + wanted <= self.bytes.len() {
            wanted
        } else {
            (self.bytes.len() - self.byte_pos) as nat
        }
    }

    /// The bytes that a whole-byte read of `wanted` bytes hands out.
    pub open spec fn next_bytes(self, wanted: nat) -> Seq<u8> {
        self.bytes.subrange(
            self.byte_pos as int,
            (self.byte_pos + self.available(wanted)) as int,
        )
    }

    /// The cursor moved `count` whole bytes ahead over the same bytes.
    pub open spec fn skip_bytes(self, count: nat) -> CursorState {
        CursorState { byte_pos: self.byte_pos + count, ..self }
    }

    /// The state after a whole-byte write of `data`: the bytes at the cursor are
    /// overwritten as far as the buffer reaches, and the buffer keeps its length.
    pub open spec fn write_bytes(self, data: Seq<u8>) -> CursorState {
        CursorState {
            bytes: Seq::new(
                self.bytes.len(),
                |i: int|
                    if self.byte_pos <= i < self.byte_pos + self.available(data.len()) {
                        data[i - self.byte_pos]
                    } else {
                        self.bytes[i]
                    },
            ),
            byte_pos: self.byte_pos + self.available(data.len()),
            bit_pos: self.bit_pos,
        }
    }

    /// The byte offset that a seek asks for. It may lie outside the buffer.
    pub open spec fn seek_target(self, pos: SeekFrom) -> int {
        match pos {
            SeekFrom::Start(offset) => offset as int,
            SeekFrom::End(offset) => self.bytes.len() + offset,
            SeekFrom::Current(offset) => self.byte_pos + offset,
        }
    }

    /// The state after a seek that was turned down: the cursor is back on the boundary
    /// of the byte it stood in.
    pub open spec fn realigned(self) -> CursorState {
        CursorState { bit_pos: 0, ..self }
    }

    /// The cursor placed on the boundary before byte `target`.
    pub open spec fn seek_to(self, target: nat) -> CursorState {
        CursorState { bytes: self.bytes, byte_pos: target, bit_pos: 0 }
    }
}

} // verus!
