use vstd::prelude::*;
use crate::bit_read::BitRead;
use crate::byte_buffer_exts::ByteBufferExts;
use crate::byte_read::ByteRead;
use crate::sized_buffer::SizedByteBuffer;

verus! {

/// Everything a reader of a byte buffer can do.
pub trait ByteBuffer: ByteRead + BitRead + SizedByteBuffer + ByteBufferExts {

}

} // verus!
