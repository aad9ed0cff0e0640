use vstd::prelude::*;
use crate::bits::{field_mask, lemma_mask_by_shifts};
use crate::error::Error;

verus! {

/// Generate a u8 mask to retrieve only `num_bits` bits starting at `start_position`, where
/// position 0 is the MSB of the byte and position 7 is the LSB.
///
/// A mask that would not fit inside one byte is refused.
pub fn get_u8_mask(start_position: usize, num_bits: usize) -> (r: Result<u8, Error>)
    ensures
        start_position + num_bits > 8 ==> r == Err::<u8, Error>(Error::InvalidMaskSize),
        start_position + num_bits <= 8 ==> r == Ok::<u8, Error>(
            field_mask(start_position as nat, num_bits as nat),
        ),
{
    if num_bits > 8 {
        return Err(Error::InvalidMaskSize);
    }
    if start_position > 8 - num_bits {
        return Err(Error::InvalidMaskSize);
    }
    let len: u32 = num_bits as u32;
    let shift: u32 = (8 - start_position - num_bits) as u32;
    proof {
        crate::bits::lemma_shl_pow2(len);
    }
    let low: u32 = (1u32 << len) - 1;
    proof {
        lemma_mask_by_shifts(start_position as u32, len, low);
    }
    let mask: u32 = low << shift;
    Ok(mask as u8)
}

} // verus!
