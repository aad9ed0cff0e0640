use vstd::prelude::*;

verus! {

/// The ways in which a cursor operation can be turned down.
#[derive(Debug, Clone, Copy, PartialEq, Eq, Structural)]
pub enum Error {
    /// A mask was asked for that does not fit inside one byte.
    InvalidMaskSize,
    /// A bit-level operation would run past the end of the current byte.
    InvalidCursorPosition,
    /// A whole-byte operation was asked for while the cursor stands inside a byte.
    NotByteAligned,
    /// The cursor, or the place asked for, lies outside the buffer.
    OutOfRange,
}

} // verus!
