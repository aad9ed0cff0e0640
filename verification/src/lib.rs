//! A cursor over a buffer of bytes that can read and write single bits and short runs of
//! bits as well as whole bytes.
pub mod bit_read;
pub mod bit_write;
pub mod bits;
pub mod byte_buffer;
pub mod byte_buffer_cursor;
pub mod byte_buffer_exts;
pub mod byte_buffer_mut;
pub mod byte_read;
pub mod byte_seek;
pub mod byte_write;
pub mod cursor_state;
pub mod error;
pub mod helpers;
pub mod laws;
pub mod sized_buffer;
