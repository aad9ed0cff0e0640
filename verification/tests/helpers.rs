use bit_cursor::error::Error;
use bit_cursor::helpers::get_u8_mask;

#[test]
fn test_get_u8_mask() {
    assert_eq!(get_u8_mask(0, 8).unwrap(), 0b11111111);
    assert_eq!(get_u8_mask(8, 0).unwrap(), 0);
    assert_eq!(get_u8_mask(4, 4).unwrap(), 0b00001111);
    assert!(get_u8_mask(4, 5).is_err());
}

#[test]
fn mask_of_three_bits_from_bit_two() {
    assert_eq!(get_u8_mask(2, 3), Ok(0b00111000));
}

#[test]
fn mask_of_single_bits() {
    assert_eq!(get_u8_mask(0, 1), Ok(0b10000000));
    assert_eq!(get_u8_mask(7, 1), Ok(0b00000001));
}

#[test]
fn mask_matches_closed_form_everywhere() {
    for start in 0usize..=8 {
        for num_bits in 0usize..=(8 - start) {
            let expected = (((1u32 << num_bits) - 1) << (8 - start - num_bits)) as u8;
            assert_eq!(get_u8_mask(start, num_bits), Ok(expected));
        }
    }
}

#[test]
fn mask_sets_exactly_the_bits_of_the_field() {
    for start in 0usize..=8 {
        for num_bits in 0usize..=(8 - start) {
            let mask = get_u8_mask(start, num_bits).unwrap();
            for index in 0usize..8 {
                let set = mask & (0x80u8 >> index) != 0;
                assert_eq!(set, start <= index && index < start + num_bits);
            }
        }
    }
}

#[test]
fn mask_that_does_not_fit_is_refused() {
    assert_eq!(get_u8_mask(0, 9), Err(Error::InvalidMaskSize));
    assert_eq!(get_u8_mask(9, 0), Err(Error::InvalidMaskSize));
    assert_eq!(get_u8_mask(1, 8), Err(Error::InvalidMaskSize));
    assert_eq!(get_u8_mask(usize::MAX, 1), Err(Error::InvalidMaskSize));
    assert_eq!(get_u8_mask(1, usize::MAX), Err(Error::InvalidMaskSize));
    assert_eq!(get_u8_mask(usize::MAX, usize::MAX), Err(Error::InvalidMaskSize));
}
