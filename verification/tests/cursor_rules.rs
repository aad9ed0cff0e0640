use bit_cursor::bit_read::BitRead;
use bit_cursor::bit_write::BitWrite;
use bit_cursor::byte_buffer_cursor::ByteBufferCursor;
use bit_cursor::byte_buffer_exts::ByteBufferExts;
use bit_cursor::byte_read::ByteRead;
use bit_cursor::byte_seek::{ByteSeek, SeekFrom};
use bit_cursor::byte_write::ByteWrite;
use bit_cursor::error::Error;
use bit_cursor::sized_buffer::SizedByteBuffer;

#[test]
fn mixed_reads_of_bytes_and_bits() {
    let mut cursor = ByteBufferCursor::new(vec![1, 2, 3, 0b11110000, 0b00001111]);
    let mut buf = [0u8; 1];
    assert_eq!(cursor.bytes_remaining(), 5);
    assert_eq!(cursor.read(&mut buf), Ok(1));
    assert_eq!(buf[0], 1);
    assert_eq!(cursor.bytes_remaining(), 4);
    assert_eq!(cursor.read(&mut buf), Ok(1));
    assert_eq!(buf[0], 2);
    assert_eq!(cursor.bytes_remaining(), 3);
    assert_eq!(cursor.read(&mut buf), Ok(1));
    assert_eq!(buf[0], 3);
    assert_eq!(cursor.bytes_remaining(), 2);

    assert_eq!(cursor.read_bit(), Ok(1));
    assert_eq!(cursor.read_bit_as_bool(), Ok(true));
    assert_eq!(cursor.read_bits_as_u8(4), Ok(0b1100));
    assert_eq!(cursor.read(&mut buf), Err(Error::NotByteAligned));
    assert_eq!(buf[0], 3);
    assert_eq!(cursor.read_bits_as_u8(2), Ok(0));
    assert_eq!(cursor.read_bits_as_u8(8), Ok(0b00001111));
    assert_eq!(cursor.bytes_remaining(), 0);
    assert_eq!(cursor.read_bit(), Err(Error::OutOfRange));
}

#[test]
fn bytes_written_are_read_back() {
    let written = [9u8, 8, 7, 6, 5];
    let mut cursor = ByteBufferCursor::new(vec![0; 7]);
    assert_eq!(cursor.seek(SeekFrom::Start(1)), Ok(1));
    assert_eq!(cursor.write(&written), Ok(5));
    assert_eq!(cursor.bytes_remaining(), 1);
    assert_eq!(cursor.seek(SeekFrom::Start(1)), Ok(1));
    let mut first = [0u8; 2];
    let mut second = [0u8; 3];
    assert_eq!(cursor.read(&mut first), Ok(2));
    assert_eq!(cursor.read(&mut second), Ok(3));
    assert_eq!(first, [9, 8]);
    assert_eq!(second, [7, 6, 5]);
    assert_eq!(cursor.into_vec(), vec![0, 9, 8, 7, 6, 5, 0]);
}

#[test]
fn new_cursor_hands_out_its_bytes() {
    let bytes: Vec<u8> = (0u8..=255).collect();
    let mut cursor = ByteBufferCursor::new(bytes.clone());
    let mut out = Vec::new();
    for size in [0usize, 1, 2, 3, 50, 200] {
        let mut buf = vec![0u8; size];
        assert_eq!(cursor.read(&mut buf), Ok(size));
        out.extend_from_slice(&buf);
    }
    assert_eq!(out, bytes);
    assert_eq!(cursor.bytes_remaining(), 0);
}

#[test]
fn read_at_the_end_is_short() {
    let mut cursor = ByteBufferCursor::new(vec![1, 2, 3]);
    assert_eq!(cursor.seek(SeekFrom::Start(2)), Ok(2));
    let mut buf = [7u8; 4];
    assert_eq!(cursor.read(&mut buf), Ok(1));
    assert_eq!(buf, [3, 7, 7, 7]);
    assert_eq!(cursor.read(&mut buf), Ok(0));
    assert_eq!(buf, [3, 7, 7, 7]);
    assert_eq!(cursor.bytes_remaining(), 0);
}

#[test]
fn write_at_the_end_is_short_and_never_grows() {
    let mut cursor = ByteBufferCursor::new(vec![1, 2, 3]);
    assert_eq!(cursor.seek(SeekFrom::End(-1)), Ok(2));
    assert_eq!(cursor.write(&[10, 11, 12]), Ok(1));
    assert_eq!(cursor.write(&[13]), Ok(0));
    assert_eq!(cursor.flush(), Ok(()));
    assert_eq!(cursor.into_vec(), vec![1, 2, 10]);
}

#[test]
fn write_of_nothing_changes_nothing() {
    let mut cursor = ByteBufferCursor::new(vec![1, 2, 3]);
    assert_eq!(cursor.write(&[]), Ok(0));
    assert_eq!(cursor.bytes_remaining(), 3);
    assert_eq!(cursor.into_vec(), vec![1, 2, 3]);
}

#[test]
fn byte_write_inside_a_byte_is_refused() {
    for contents in [0u8, 0x55, 0xff] {
        let mut cursor = ByteBufferCursor::new(vec![contents, contents]);
        cursor.write_bit(1).unwrap();
        assert_eq!(cursor.write(&[1]), Err(Error::NotByteAligned));
        let mut buf = [0u8; 1];
        assert_eq!(cursor.read(&mut buf), Err(Error::NotByteAligned));
        assert_eq!(cursor.into_vec(), vec![contents | 0x80, contents]);
    }
}

#[test]
fn bits_written_are_read_back_reduced() {
    for start in 0usize..8 {
        for num_bits in 1usize..=(8 - start) {
            for value in 0u16..=255 {
                let value = value as u8;
                let mut cursor = ByteBufferCursor::new(vec![0xa5, 0x5a]);
                assert_eq!(cursor.seek(SeekFrom::Start(1)), Ok(1));
                if start > 0 {
                    assert!(cursor.read_bits_as_u8(start).is_ok());
                }
                assert_eq!(cursor.write_u8_as_bits(value, num_bits), Ok(()));
                // back to the same bit
                assert_eq!(cursor.seek(SeekFrom::Start(1)), Ok(1));
                if start > 0 {
                    assert!(cursor.read_bits_as_u8(start).is_ok());
                }
                let expected = (value as u16 % (1u16 << num_bits)) as u8;
                assert_eq!(cursor.read_bits_as_u8(num_bits), Ok(expected));
            }
        }
    }
}

#[test]
fn bits_outside_the_run_are_kept() {
    for before in [0u8, 0xff, 0xa5, 0x3c] {
        for start in 0usize..8 {
            for num_bits in 0usize..=(8 - start) {
                for value in [0u8, 0xff, 0x5a, 1] {
                    let mut cursor = ByteBufferCursor::new(vec![0x11, before, 0x22]);
                    assert_eq!(cursor.seek(SeekFrom::Current(1)), Ok(1));
                    if start > 0 {
                        assert!(cursor.read_bits_as_u8(start).is_ok());
                    }
                    assert_eq!(cursor.write_u8_as_bits(value, num_bits), Ok(()));
                    let after = cursor.into_vec();
                    assert_eq!(after.len(), 3);
                    assert_eq!(after[0], 0x11);
                    assert_eq!(after[2], 0x22);
                    for index in 0usize..8 {
                        if index < start || index >= start + num_bits {
                            let bit = 0x80u8 >> index;
                            assert_eq!(after[1] & bit, before & bit);
                        }
                    }
                }
            }
        }
    }
}

#[test]
fn write_bit_takes_only_the_lowest_bit() {
    let mut cursor = ByteBufferCursor::new(vec![0, 0]);
    for _ in 0..7 {
        cursor.write_bit(0).unwrap();
    }
    assert_eq!(cursor.write_bit(3), Ok(()));
    assert_eq!(cursor.write_bit(2), Ok(()));
    assert_eq!(cursor.write_bit(0xff), Ok(()));
    assert_eq!(cursor.into_vec(), vec![0b00000001, 0b01000000]);
}

#[test]
fn write_bool_writes_one_bit() {
    let mut cursor = ByteBufferCursor::new(vec![0b01010101]);
    assert_eq!(cursor.write_bool(true), Ok(()));
    assert_eq!(cursor.write_bool(false), Ok(()));
    assert_eq!(cursor.write_bool(false), Ok(()));
    assert_eq!(cursor.bytes_remaining(), 0);
    assert_eq!(cursor.into_vec(), vec![0b10010101]);
}

#[test]
fn run_across_the_byte_boundary_is_refused() {
    let mut cursor = ByteBufferCursor::new(vec![0xff, 0xff]);
    assert_eq!(cursor.read_bits_as_u8(4), Ok(0b1111));
    assert_eq!(cursor.read_bits_as_u8(5), Err(Error::InvalidCursorPosition));
    assert_eq!(cursor.write_u8_as_bits(0, 5), Err(Error::InvalidCursorPosition));
    assert_eq!(cursor.read_bits_as_u8(usize::MAX), Err(Error::InvalidCursorPosition));
    assert_eq!(cursor.write_u8_as_bits(0, usize::MAX), Err(Error::InvalidCursorPosition));
    // nothing moved and nothing was written
    assert_eq!(cursor.peek_u8(), Ok(0xff));
    assert_eq!(cursor.write_u8_as_bits(0, 4), Ok(()));
    assert_eq!(cursor.bytes_remaining(), 1);
    assert_eq!(cursor.into_vec(), vec![0xf0, 0xff]);
}

#[test]
fn nine_bits_from_a_byte_boundary_are_refused() {
    let mut cursor = ByteBufferCursor::new(vec![0xff, 0xff]);
    assert_eq!(cursor.read_bits_as_u8(9), Err(Error::InvalidCursorPosition));
    assert_eq!(cursor.write_u8_as_bits(0, 9), Err(Error::InvalidCursorPosition));
    assert_eq!(cursor.read_bits_as_u8(8), Ok(0xff));
}

#[test]
fn boundary_is_checked_before_the_range() {
    let mut cursor = ByteBufferCursor::new(vec![]);
    assert_eq!(cursor.read_bits_as_u8(9), Err(Error::InvalidCursorPosition));
    assert_eq!(cursor.write_u8_as_bits(1, 9), Err(Error::InvalidCursorPosition));
    assert_eq!(cursor.read_bits_as_u8(8), Err(Error::OutOfRange));
    assert_eq!(cursor.write_u8_as_bits(1, 8), Err(Error::OutOfRange));
}

#[test]
fn empty_buffer_has_nothing_to_give() {
    let mut cursor = ByteBufferCursor::new(vec![]);
    assert_eq!(cursor.bytes_remaining(), 0);
    assert_eq!(cursor.peek_u8(), Err(Error::OutOfRange));
    assert_eq!(cursor.read_bit(), Err(Error::OutOfRange));
    assert_eq!(cursor.read_bit_as_bool(), Err(Error::OutOfRange));
    assert_eq!(cursor.read_bits_as_u8(1), Err(Error::OutOfRange));
    assert_eq!(cursor.write_bit(1), Err(Error::OutOfRange));
    assert_eq!(cursor.write_bool(true), Err(Error::OutOfRange));
    assert_eq!(cursor.write_u8_as_bits(1, 1), Err(Error::OutOfRange));
    let mut buf = [5u8; 2];
    assert_eq!(cursor.read(&mut buf), Ok(0));
    assert_eq!(buf, [5, 5]);
    assert_eq!(cursor.write(&buf), Ok(0));
    assert_eq!(cursor.into_vec(), Vec::<u8>::new());
}

#[test]
fn run_of_no_bits_reads_zero_and_stays() {
    let mut cursor = ByteBufferCursor::new(vec![0xff]);
    assert_eq!(cursor.read_bits_as_u8(0), Ok(0));
    assert_eq!(cursor.write_u8_as_bits(0, 0), Ok(()));
    assert_eq!(cursor.bytes_remaining(), 1);
    assert_eq!(cursor.read_bits_as_u8(3), Ok(0b111));
    assert_eq!(cursor.read_bits_as_u8(0), Ok(0));
    assert_eq!(cursor.write_u8_as_bits(0, 0), Ok(()));
    assert_eq!(cursor.read_bits_as_u8(5), Ok(0b11111));
    assert_eq!(cursor.into_vec(), vec![0xff]);
}

#[test]
fn peek_shows_the_whole_current_byte() {
    let mut cursor = ByteBufferCursor::new(vec![0b10110001, 7]);
    assert_eq!(cursor.peek_u8(), Ok(0b10110001));
    assert_eq!(cursor.read_bits_as_u8(3), Ok(0b101));
    assert_eq!(cursor.peek_u8(), Ok(0b10110001));
    assert_eq!(cursor.read_bits_as_u8(3), Ok(0b100));
    assert_eq!(cursor.read_bits_as_u8(2), Ok(0b01));
    assert_eq!(cursor.peek_u8(), Ok(7));
    assert_eq!(cursor.bytes_remaining(), 1);
}

#[test]
fn partly_read_byte_is_not_counted() {
    let mut cursor = ByteBufferCursor::new(vec![0, 0]);
    assert_eq!(cursor.bytes_remaining(), 2);
    cursor.read_bit().unwrap();
    assert_eq!(cursor.bytes_remaining(), 1);
    for _ in 0..6 {
        cursor.read_bit().unwrap();
        assert_eq!(cursor.bytes_remaining(), 1);
    }
    cursor.read_bit().unwrap();
    assert_eq!(cursor.bytes_remaining(), 1);
    cursor.read_bit().unwrap();
    assert_eq!(cursor.bytes_remaining(), 0);
}

#[test]
fn seek_places_the_cursor_on_a_byte_boundary() {
    let mut cursor = ByteBufferCursor::new(vec![10, 20, 30, 40]);
    assert_eq!(cursor.read_bits_as_u8(3), Ok(0));
    assert_eq!(cursor.seek(SeekFrom::Current(0)), Ok(0));
    assert_eq!(cursor.bytes_remaining(), 4);
    assert_eq!(cursor.seek(SeekFrom::Current(2)), Ok(2));
    assert_eq!(cursor.peek_u8(), Ok(30));
    assert_eq!(cursor.seek(SeekFrom::Current(-1)), Ok(1));
    assert_eq!(cursor.peek_u8(), Ok(20));
    assert_eq!(cursor.seek(SeekFrom::End(-1)), Ok(3));
    assert_eq!(cursor.peek_u8(), Ok(40));
    assert_eq!(cursor.seek(SeekFrom::End(0)), Ok(4));
    assert_eq!(cursor.bytes_remaining(), 0);
    assert_eq!(cursor.peek_u8(), Err(Error::OutOfRange));
    assert_eq!(cursor.seek(SeekFrom::Start(0)), Ok(0));
    assert_eq!(cursor.peek_u8(), Ok(10));
}

#[test]
fn seek_outside_the_buffer_is_refused() {
    let mut cursor = ByteBufferCursor::new(vec![10, 20, 30, 40]);
    assert_eq!(cursor.seek(SeekFrom::Start(2)), Ok(2));
    assert_eq!(cursor.read_bits_as_u8(5), Ok(30 >> 3));
    assert_eq!(cursor.seek(SeekFrom::Start(5)), Err(Error::OutOfRange));
    // the cursor is back on the boundary of the byte it stood in
    assert_eq!(cursor.bytes_remaining(), 2);
    assert_eq!(cursor.peek_u8(), Ok(30));
    assert_eq!(cursor.seek(SeekFrom::Current(-3)), Err(Error::OutOfRange));
    assert_eq!(cursor.seek(SeekFrom::Current(3)), Err(Error::OutOfRange));
    assert_eq!(cursor.seek(SeekFrom::End(1)), Err(Error::OutOfRange));
    assert_eq!(cursor.seek(SeekFrom::End(-5)), Err(Error::OutOfRange));
    assert_eq!(cursor.seek(SeekFrom::Start(u64::MAX)), Err(Error::OutOfRange));
    assert_eq!(cursor.seek(SeekFrom::End(i64::MIN)), Err(Error::OutOfRange));
    assert_eq!(cursor.seek(SeekFrom::Current(i64::MAX)), Err(Error::OutOfRange));
    assert_eq!(cursor.peek_u8(), Ok(30));
}

#[test]
fn into_vec_returns_the_bytes_given() {
    let cursor = ByteBufferCursor::new(vec![4, 5, 6]);
    assert_eq!(cursor.into_vec(), vec![4, 5, 6]);
}
