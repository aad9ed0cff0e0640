use vstd::prelude::*;
use crate::bit_write::BitWrite;
use crate::byte_buffer::ByteBuffer;
use crate::byte_write::ByteWrite;

verus! {

/// Everything a reader and writer of a byte buffer can do.
pub trait ByteBufferMut: ByteBuffer + ByteWrite + BitWrite {

}

} // verus!
