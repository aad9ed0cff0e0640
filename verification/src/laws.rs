//! What holds of every cursor, whatever it stands on: the laws that relate one operation
//! to another.
use vstd::prelude::*;
use vstd::arithmetic::power2::pow2;
use crate::bits::{
    bit_at,
    lemma_field_round_trip,
    lemma_other_bits_kept,
    with_bit_field,
};
use crate::cursor_state::CursorState;

verus! {

/// The sum of the sizes.
pub open spec fn total(sizes: Seq<nat>) -> nat
    decreases sizes.len(),
{
    if sizes.len() == 0 {
        0
    } else {
        sizes[0] + total(sizes.drop_first())
    }
}

/// The bytes that whole-byte reads hand out, one after the other, when the read buffers
/// have the given sizes.
pub open spec fn read_in_turn(state: CursorState, sizes: Seq<nat>) -> Seq<u8>
    decreases sizes.len(),
{
    if sizes.len() == 0 {
        Seq::empty()
    } else {
        state.next_bytes(sizes[0]) + read_in_turn(
            state.skip_bytes(state.available(sizes[0])),
            sizes.drop_first(),
        )
    }
}

/// The cursor put back to where `start` stands, over the bytes as they are now.
pub open spec fn back_to(now: CursorState, start: CursorState) -> CursorState {
    CursorState { bytes: now.bytes, byte_pos: start.byte_pos, bit_pos: start.bit_pos }
}

/// Reading piece by piece hands out the same bytes as reading them in one piece.
pub proof fn lemma_reads_join(state: CursorState, sizes: Seq<nat>)
    requires
        state.wf(),
        state.aligned(),
    ensures
        read_in_turn(state, sizes) == state.next_bytes(total(sizes)),
    decreases sizes.len(),
{
    if sizes.len() == 0 {
        assert(state.next_bytes(0) =~= Seq::<u8>::empty());
    } else {
        let first = sizes[0];
        let rest = sizes.drop_first();
        let next = state.skip_bytes(state.available(first));
        lemma_reads_join(next, rest);
        assert(state.next_bytes(first) + next.next_bytes(total(rest)) =~= state.next_bytes(
            first + total(rest),
        ));
    }
}

/// What a whole-byte write put into the buffer is what a whole-byte read from the same
/// place hands out, as far as the write went.
pub proof fn lemma_written_bytes_read_back(state: CursorState, data: Seq<u8>)
    requires
        state.wf(),
        state.aligned(),
    ensures
        back_to(state.write_bytes(data), state).next_bytes(data.len()) == data.take(
            state.available(data.len()) as int,
        ),
        back_to(state.write_bytes(data), state).available(data.len()) == state.available(
            data.len(),
        ),
{
    assert(back_to(state.write_bytes(data), state).next_bytes(data.len()) =~= data.take(
        state.available(data.len()) as int,
    ));
}

/// Bytes that were written where there was room for all of them come back exactly,
/// however the reads that follow divide them up.
pub proof fn lemma_byte_round_trip(state: CursorState, data: Seq<u8>, sizes: Seq<nat>)
    requires
        state.wf(),
        state.aligned(),
        data.len() <= state.bytes_remaining(),
        total(sizes) == data.len(),
    ensures
        read_in_turn(back_to(state.write_bytes(data), state), sizes) == data,
{
    let rewound = back_to(state.write_bytes(data), state);
    lemma_reads_join(rewound, sizes);
    lemma_written_bytes_read_back(state, data);
    assert(data.take(data.len() as int) =~= data);
}

/// A new cursor hands out the bytes it was made from, however the reads divide them up.
pub proof fn lemma_fresh_cursor_reads_its_bytes(bytes: Seq<u8>, sizes: Seq<nat>)
    requires
        total(sizes) == bytes.len(),
    ensures
        read_in_turn(CursorState::at_start(bytes), sizes) == bytes,
{
    let state = CursorState::at_start(bytes);
    lemma_reads_join(state, sizes);
    assert(state.next_bytes(bytes.len()) =~= bytes);
}

/// Bits that were written are read back from the same place as the value written,
/// reduced to its low `num_bits` bits.
pub proof fn lemma_bit_round_trip(state: CursorState, value: u8, num_bits: nat)
    requires
        state.wf(),
        !state.exhausted(),
        state.fits_in_byte(num_bits),
    ensures
        !back_to(state.write_bits(value, num_bits), state).exhausted(),
        back_to(state.write_bits(value, num_bits), state).next_bits(num_bits) == value as nat
            % pow2(num_bits),
{
    lemma_field_round_trip(state.current_byte(), state.bit_pos, num_bits, value);
}

/// Writing bits changes nothing but the bits written: the buffer keeps its length, every
/// other byte keeps its value, and so does every other bit of the current byte.
pub proof fn lemma_write_bits_keeps_the_rest(state: CursorState, value: u8, num_bits: nat)
    requires
        state.wf(),
        !state.exhausted(),
        state.fits_in_byte(num_bits),
    ensures
        state.write_bits(value, num_bits).bytes.len() == state.bytes.len(),
        forall|i: int|
            0 <= i < state.bytes.len() && i != state.byte_pos ==> state.write_bits(
                value,
                num_bits,
            ).bytes[i] == state.bytes[i],
        forall|index: nat|
            index < 8 && !(state.bit_pos <= index < state.bit_pos + num_bits) ==> #[trigger] bit_at(
                state.write_bits(value, num_bits).bytes[state.byte_pos as int],
                index,
            ) == bit_at(state.current_byte(), index),
{
    lemma_other_bits_kept(state.current_byte(), state.bit_pos, num_bits, value);
    assert(state.write_bits(value, num_bits).bytes[state.byte_pos as int] == with_bit_field(
        state.current_byte(),
        state.bit_pos,
        num_bits,
        value,
    ));
}

/// A whole-byte read lowers the count of bytes that remain by the number of bytes it
/// hands out: by one for each byte.
pub proof fn lemma_read_lowers_bytes_remaining(state: CursorState, wanted: nat)
    requires
        state.wf(),
        state.aligned(),
    ensures
        state.skip_bytes(state.available(wanted)).bytes_remaining() + state.available(wanted)
            == state.bytes_remaining(),
        state.bytes_remaining() >= 1 ==> state.skip_bytes(state.available(1)).bytes_remaining()
            == state.bytes_remaining() - 1,
{
}

/// A byte counts as remaining until its first bit is taken, and from then on no longer.
pub proof fn lemma_started_byte_not_counted(state: CursorState, num_bits: nat)
    requires
        state.wf(),
        !state.exhausted(),
        state.fits_in_byte(num_bits),
        num_bits >= 1,
    ensures
        state.aligned() ==> state.advance_bits(num_bits).bytes_remaining()
            == state.bytes_remaining() - 1,
        !state.aligned() ==> state.advance_bits(num_bits).bytes_remaining()
            == state.bytes_remaining(),
{
}

/// Moving ahead inside a byte, or just past its end, leaves the cursor well formed, and
/// where it uses the byte up the cursor stands at the start of the next one.
pub proof fn lemma_advance_bits(state: CursorState, num_bits: nat)
    requires
        state.wf(),
        !state.exhausted(),
        state.fits_in_byte(num_bits),
    ensures
        state.advance_bits(num_bits).wf(),
        state.bit_pos + num_bits < 8 ==> state.advance_bits(num_bits) == (CursorState {
            bit_pos: state.bit_pos + num_bits,
            ..state
        }),
        state.bit_pos + num_bits == 8 ==> state.advance_bits(num_bits) == (CursorState {
            byte_pos: state.byte_pos + 1,
            bit_pos: 0,
            ..state
        }),
{
}

} // verus!
