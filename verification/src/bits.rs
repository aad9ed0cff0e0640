//! Bit fields inside one byte, numbered from the most significant bit.
//!
//! Bit 0 of a byte is the one of weight 128 and bit 7 the one of weight 1. A field is a
//! run of `len` bits that begins at bit `start`; it lies inside the byte when
//! `start + len <= 8`, and `8 - start - len` bits of the byte stand to its right.
use vstd::prelude::*;
use vstd::arithmetic::div_mod::lemma_mod_bound;
use vstd::arithmetic::power2::{lemma2_to64, lemma_pow2_pos, pow2};

verus! {

/// The number of bits to the right of the field `(start, len)`.
pub open spec fn bits_right_of(start: nat, len: nat) -> nat
    recommends
        start + len <= 8,
{
    (8 - start - len) as nat
}

/// The field `(start, len)` of `byte`, read as a number: its last bit has weight 1.
pub open spec fn bit_field(byte: u8, start: nat, len: nat) -> u8
    recommends
        start + len <= 8,
{
    ((byte as nat / pow2(bits_right_of(start, len))) % pow2(len)) as u8
}

/// `byte` with the field `(start, len)` replaced by the low `len` bits of `value`.
pub open spec fn with_bit_field(byte: u8, start: nat, len: nat, value: u8) -> u8
    recommends
        start + len <= 8,
{
    (byte - bit_field(byte, start, len) * pow2(bits_right_of(start, len)) + (value as nat % pow2(
        len,
    )) * pow2(bits_right_of(start, len))) as u8
}

/// The byte in which exactly the bits of the field `(start, len)` are set.
pub open spec fn field_mask(start: nat, len: nat) -> u8
    recommends
        start + len <= 8,
{
    ((pow2(len) - 1) * pow2(bits_right_of(start, len))) as u8
}

/// Whether bit `index` of `byte` is set.
pub open spec fn bit_at(byte: u8, index: nat) -> bool
    recommends
        index < 8,
{
    bit_field(byte, index, 1) == 1
}

/// For exponents up to 8, shifting 1 to the left computes the power of two.
pub proof fn lemma_shl_pow2(e: u32)
    requires
        e <= 8,
    ensures
        (1u32 << e) == pow2(e as nat),
        1 <= (1u32 << e) <= 256,
{
    lemma2_to64();
    assert(e <= 8 ==> (1u32 << e) == (if e == 0 {
        1u32
    } else if e == 1 {
        2u32
    } else if e == 2 {
        4u32
    } else if e == 3 {
        8u32
    } else if e == 4 {
        16u32
    } else if e == 5 {
        32u32
    } else if e == 6 {
        64u32
    } else if e == 7 {
        128u32
    } else {
        256u32
    })) by (bit_vector);
}

/// Shifting and masking computes `field_mask`.
pub proof fn lemma_mask_by_shifts(start: u32, len: u32, low: u32)
    requires
        start + len <= 8,
        low == (1u32 << len) - 1,
    ensures
        low << ((8 - start - len) as u32) <= 255,
        low << ((8 - start - len) as u32) == field_mask(start as nat, len as nat),
{
    let s: u32 = (8 - start - len) as u32;
    lemma_shl_pow2(len);
    lemma_shl_pow2(s);
    let ps: u32 = 1u32 << s;
    assert(low << s == low * ps && low * ps <= 255) by (bit_vector)
        requires
            s + len <= 8,
            low == (1u32 << len) - 1,
            ps == 1u32 << s,
    ;
}

/// The mask of the last `len` bits is one less than a power of two.
pub proof fn lemma_low_mask(len: u32)
    requires
        len <= 8,
    ensures
        field_mask((8 - len) as nat, len as nat) == (1u32 << len) - 1,
{
    lemma_shl_pow2(len);
    let low: u32 = ((1u32 << len) - 1) as u32;
    lemma_mask_by_shifts((8 - len) as u32, len, low);
    assert(low << 0u32 == low) by (bit_vector);
}

/// Shifting the top bit to the right computes the mask of a single bit.
pub proof fn lemma_single_bit_mask(index: u8)
    requires
        index < 8,
    ensures
        0x80u8 >> index == field_mask(index as nat, 1),
{
    lemma_shl_pow2(1);
    lemma2_to64();
    lemma_mask_by_shifts(index as u32, 1, 1);
    let shift: u32 = (7 - index) as u32;
    assert((0x80u8 >> index) as u32 == 1u32 << shift) by (bit_vector)
        requires
            index < 8,
            shift == 7 - index,
    ;
}

/// A field of `len` bits holds a number below the `len`th power of two.
pub proof fn lemma_bit_field_bound(byte: u8, start: nat, len: nat)
    requires
        start + len <= 8,
    ensures
        bit_field(byte, start, len) < pow2(len),
        pow2(len) <= 256,
{
    lemma_pow2_pos(len);
    lemma_shl_pow2(len as u32);
    lemma_mod_bound(
        byte as nat as int / pow2(bits_right_of(start, len)) as int,
        pow2(len) as int,
    );
}

/// A field of no bits holds 0, has an empty mask, and writing it changes nothing.
pub proof fn lemma_empty_field(byte: u8, start: nat, value: u8)
    requires
        start <= 8,
    ensures
        bit_field(byte, start, 0) == 0,
        field_mask(start, 0) == 0,
        with_bit_field(byte, start, 0, value) == byte,
{
    lemma2_to64();
    lemma_bit_field_bound(byte, start, 0);
}

/// Masking a byte and shifting the result to the right computes `bit_field`.
pub proof fn lemma_field_by_shifts(byte: u8, start: u32, len: u32, mask: u8)
    requires
        start + len <= 8,
        mask == field_mask(start as nat, len as nat),
    ensures
        (byte & mask) >> ((8 - start - len) as u8) == bit_field(byte, start as nat, len as nat),
{
    let s: u32 = (8 - start - len) as u32;
    lemma_shl_pow2(len);
    lemma_shl_pow2(s);
    let pl: u32 = 1u32 << len;
    let ps: u32 = 1u32 << s;
    let low: u32 = (pl - 1) as u32;
    lemma_mask_by_shifts(start, len, low);
    let s8: u8 = s as u8;
    assert(((byte & mask) >> s8) as u32 == ((byte as u32) / ps) % pl) by (bit_vector)
        requires
            s + len <= 8,
            s8 as u32 == s,
            pl == 1u32 << len,
            ps == 1u32 << s,
            mask as u32 == ((pl - 1) as u32) << s,
    ;
}

/// Clearing a field and setting the shifted low bits of a value computes `with_bit_field`.
pub proof fn lemma_with_field_by_shifts(byte: u8, start: u32, len: u32, value: u8, mask: u8, low: u8)
    requires
        start + len <= 8,
        mask == field_mask(start as nat, len as nat),
        low == field_mask((8 - len) as nat, len as nat),
    ensures
        (byte & !mask) | ((value & low) << ((8 - start - len) as u8)) == with_bit_field(
            byte,
            start as nat,
            len as nat,
            value,
        ),
        value & low == value as nat % pow2(len as nat),
{
    let s: u32 = (8 - start - len) as u32;
    lemma_shl_pow2(len);
    lemma_shl_pow2(s);
    let pl: u32 = 1u32 << len;
    let ps: u32 = 1u32 << s;
    let low32: u32 = (pl - 1) as u32;
    lemma_mask_by_shifts(start, len, low32);
    lemma_low_mask(len);
    let s8: u8 = s as u8;
    assert((value & low) as u32 == (value as u32) % pl) by (bit_vector)
        requires
            len <= 8,
            pl == 1u32 << len,
            low as u32 == (pl - 1) as u32,
    ;
    let old_field: u8 = (byte & mask) >> s8;
    let new_field: u8 = value & low;
    lemma_field_by_shifts(byte, start, len, mask);
    assert((old_field << s8) == byte & mask && (new_field << s8) & !mask == 0) by (bit_vector)
        requires
            s + len <= 8,
            s8 as u32 == s,
            pl == 1u32 << len,
            mask as u32 == ((pl - 1) as u32) << s,
            low as u32 == (pl - 1) as u32,
            old_field == (byte & mask) >> s8,
            new_field == value & low,
    ;
    assert((old_field << s8) as u32 == (old_field as u32) * ps && (new_field << s8) as u32
        == (new_field as u32) * ps) by (bit_vector)
        requires
            s + len <= 8,
            s8 as u32 == s,
            pl == 1u32 << len,
            ps == 1u32 << s,
            low as u32 == (pl - 1) as u32,
            mask as u32 == ((pl - 1) as u32) << s,
            old_field == (byte & mask) >> s8,
            new_field == value & low,
    ;
    let shifted: u8 = new_field << s8;
    assert(((byte & !mask) | shifted) == byte - (byte & mask) + shifted) by (bit_vector)
        requires
            shifted & !mask == 0,
    ;
}

/// A field that was written is read back as the low `len` bits of the value written.
pub proof fn lemma_field_round_trip(byte: u8, start: nat, len: nat, value: u8)
    requires
        start + len <= 8,
    ensures
        bit_field(with_bit_field(byte, start, len, value), start, len) == value as nat % pow2(len),
{
    let mask = field_mask(start, len);
    let low = field_mask((8 - len) as nat, len);
    let s8: u8 = (8 - start - len) as u8;
    let n: u32 = len as u32;
    let pl: u32 = 1u32 << n;
    lemma_shl_pow2(n);
    lemma_mask_by_shifts(start as u32, n, (pl - 1) as u32);
    lemma_low_mask(n);
    lemma_with_field_by_shifts(byte, start as u32, n, value, mask, low);
    let written = with_bit_field(byte, start, len, value);
    lemma_field_by_shifts(written, start as u32, n, mask);
    assert((written & mask) >> s8 == value & low) by (bit_vector)
        requires
            s8 + n <= 8,
            pl == 1u32 << n,
            mask as u32 == ((pl - 1) as u32) << (s8 as u32),
            low as u32 == (pl - 1) as u32,
            written == (byte & !mask) | ((value & low) << s8),
    ;
}

/// Writing a field leaves every field that does not overlap it as it was.
pub proof fn lemma_other_field_kept(
    byte: u8,
    start: nat,
    len: nat,
    value: u8,
    other_start: nat,
    other_len: nat,
)
    requires
        start + len <= 8,
        other_start + other_len <= 8,
        other_start + other_len <= start || start + len <= other_start,
    ensures
        bit_field(with_bit_field(byte, start, len, value), other_start, other_len) == bit_field(
            byte,
            other_start,
            other_len,
        ),
{
    let mask = field_mask(start, len);
    let low = field_mask((8 - len) as nat, len);
    let other_mask = field_mask(other_start, other_len);
    let s: u32 = (8 - start - len) as u32;
    let t: u32 = (8 - other_start - other_len) as u32;
    let n: u32 = len as u32;
    let k: u32 = other_len as u32;
    let pl: u32 = 1u32 << n;
    let pk: u32 = 1u32 << k;
    lemma_shl_pow2(n);
    lemma_shl_pow2(k);
    lemma_low_mask(n);
    lemma_mask_by_shifts(start as u32, n, (pl - 1) as u32);
    lemma_mask_by_shifts(other_start as u32, k, (pk - 1) as u32);
    lemma_with_field_by_shifts(byte, start as u32, n, value, mask, low);
    let written = with_bit_field(byte, start, len, value);
    let shifted: u8 = (value & low) << (s as u8);
    lemma_field_by_shifts(written, other_start as u32, other_len as u32, other_mask);
    lemma_field_by_shifts(byte, other_start as u32, other_len as u32, other_mask);
    assert(mask & other_mask == 0) by (bit_vector)
        requires
            s + n <= 8,
            t + k <= 8,
            t + k <= s || s + n <= t,
            pl == 1u32 << n,
            pk == 1u32 << k,
            mask as u32 == ((pl - 1) as u32) << s,
            other_mask as u32 == ((pk - 1) as u32) << t,
    ;
    let s8: u8 = s as u8;
    assert(shifted & !mask == 0) by (bit_vector)
        requires
            s + n <= 8,
            s8 as u32 == s,
            pl == 1u32 << n,
            mask as u32 == ((pl - 1) as u32) << s,
            low as u32 == (pl - 1) as u32,
            shifted == (value & low) << s8,
    ;
    assert(written & other_mask == byte & other_mask) by (bit_vector)
        requires
            mask & other_mask == 0,
            shifted & !mask == 0,
            written == (byte & !mask) | shifted,
    ;
}

/// Writing a field leaves every bit outside it as it was.
pub proof fn lemma_other_bits_kept(byte: u8, start: nat, len: nat, value: u8)
    requires
        start + len <= 8,
    ensures
        forall|index: nat|
            index < 8 && !(start <= index < start + len) ==> #[trigger] bit_at(
                with_bit_field(byte, start, len, value),
                index,
            ) == bit_at(byte, index),
{
    assert forall|index: nat|
        index < 8 && !(start <= index < start + len) implies #[trigger] bit_at(
        with_bit_field(byte, start, len, value),
        index,
    ) == bit_at(byte, index) by {
        lemma_other_field_kept(byte, start, len, value, index, 1);
    }
}

/// In `field_mask(start, len)` the bits of the field are set and no other.
pub proof fn lemma_mask_bits(start: nat, len: nat, index: nat)
    requires
        start + len <= 8,
        index < 8,
    ensures
        bit_at(field_mask(start, len), index) <==> start <= index < start + len,
{
    let mask = field_mask(start, len);
    let one = field_mask(index, 1);
    let s: u32 = (8 - start - len) as u32;
    let t: u32 = (7 - index) as u32;
    let n: u32 = len as u32;
    let pl: u32 = 1u32 << n;
    lemma_shl_pow2(n);
    lemma_shl_pow2(1);
    lemma2_to64();
    lemma_mask_by_shifts(start as u32, len as u32, (pl - 1) as u32);
    lemma_mask_by_shifts(index as u32, 1, 1);
    lemma_field_by_shifts(mask, index as u32, 1, one);
    let t8: u8 = t as u8;
    assert(((mask & one) >> t8 == 1) <==> (t >= s && t < s + n)) by (bit_vector)
        requires
            s + n <= 8,
            t < 8,
            t8 as u32 == t,
            pl == 1u32 << n,
            mask as u32 == ((pl - 1) as u32) << s,
            one as u32 == 1u32 << t,
    ;
}

} // verus!
