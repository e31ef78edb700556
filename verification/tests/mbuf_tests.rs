//! Tests of the message-buffer primitive: allocation, in-place insertion
//! and truncation, typed reads and writes, and their failure modes.

use nb2::mbuf::{Mbuf, MBUF_DATAROOM};
use nb2::BufferError;

const BUFFER: [u8; 16] = [1, 2, 3, 4, 5, 6, 7, 8, 9, 10, 11, 12, 13, 14, 15, 16];

#[test]
fn new_from_bytes() {
    let mbuf = Mbuf::from_bytes(&BUFFER).unwrap();

    let slice = mbuf.read_data_slice(0, 16).unwrap();
    assert_eq!(BUFFER, slice.as_slice());
}

#[test]
fn from_bytes_rejects_empty_and_oversized() {
    assert!(Mbuf::from_bytes(&[]).is_err());
    let big = vec![0u8; MBUF_DATAROOM];
    assert!(Mbuf::from_bytes(&big).is_err());
    let fits = vec![0u8; MBUF_DATAROOM - 1];
    assert!(Mbuf::from_bytes(&fits).is_ok());
}

#[test]
fn extend_data_buffer_tail() {
    let mut mbuf = Mbuf::new().unwrap();

    // writes some data to the buffer
    assert!(mbuf.extend(0, 16).is_ok());
    assert_eq!(16, mbuf.data_len());
    assert!(mbuf.write_data_slice(0, &BUFFER).is_ok());

    // extends the tail
    assert!(mbuf.extend(16, 8).is_ok());
    assert_eq!(24, mbuf.data_len());

    // make sure data is untouched
    let slice = mbuf.read_data_slice(0, 24).unwrap();
    assert_eq!(BUFFER, slice[..16]);
}

#[test]
fn extend_data_buffer_middle() {
    let mut mbuf = Mbuf::new().unwrap();

    // write some data to the buffer
    assert!(mbuf.extend(0, 16).is_ok());
    assert!(mbuf.write_data_slice(0, &BUFFER).is_ok());

    // extends the middle
    assert!(mbuf.extend(4, 8).is_ok());
    assert_eq!(24, mbuf.data_len());

    // make sure data is untouched
    let slice = mbuf.read_data_slice(0, 24).unwrap();

    // [0..4] untouched
    assert_eq!(BUFFER[..4], slice[..4]);
    // [4..12] untouched, this is the 'new' memory
    assert_eq!(BUFFER[4..12], slice[4..12]);
    // copied [4..16] to [12..24]
    assert_eq!(BUFFER[4..], slice[12..24]);
}

#[test]
fn extend_data_buffer_too_much() {
    let mut mbuf = Mbuf::new().unwrap();
    assert!(mbuf.extend(0, 999_999).is_err());
}

#[test]
fn extend_full_tailroom_fails() {
    let mut mbuf = Mbuf::new().unwrap();
    let room = mbuf.tailroom();
    // strictly less than the tailroom is required
    assert!(mbuf.extend(0, room).is_err());
    assert!(mbuf.extend(0, room - 1).is_ok());
}

#[test]
fn shrink_data_buffer_tail() {
    let mut mbuf = Mbuf::new().unwrap();

    // write some data to the buffer
    assert!(mbuf.extend(0, 16).is_ok());
    assert!(mbuf.write_data_slice(0, &BUFFER).is_ok());

    // shrinks the tail
    assert!(mbuf.shrink(8, 8).is_ok());
    assert_eq!(8, mbuf.data_len());

    // make sure data is untouched
    let slice = mbuf.read_data_slice(0, 8).unwrap();
    assert_eq!(BUFFER[..8], slice[..8]);
}

#[test]
fn shrink_data_buffer_middle() {
    let mut mbuf = Mbuf::new().unwrap();

    // write some data to the buffer
    assert!(mbuf.extend(0, 16).is_ok());
    assert!(mbuf.write_data_slice(0, &BUFFER).is_ok());

    // shrinks the middle
    assert!(mbuf.shrink(4, 8).is_ok());
    assert_eq!(8, mbuf.data_len());

    // make sure data is untouched
    let slice = mbuf.read_data_slice(0, 8).unwrap();

    // removed [4..12]
    assert_eq!(BUFFER[..4], slice[..4]);
    assert_eq!(BUFFER[12..], slice[4..]);
}

#[test]
fn shrink_data_buffer_too_much() {
    let mut mbuf = Mbuf::new().unwrap();
    assert!(mbuf.extend(0, 200).is_ok());
    assert!(mbuf.shrink(150, 100).is_err());
}

#[test]
fn truncate_data_buffer() {
    let mut mbuf = Mbuf::new().unwrap();

    // write some data to the buffer
    assert!(mbuf.extend(0, 16).is_ok());
    assert!(mbuf.write_data_slice(0, &BUFFER).is_ok());

    // truncates the buffer
    assert!(mbuf.truncate(8).is_ok());
    assert_eq!(8, mbuf.data_len());

    // make sure data is untouched
    let slice = mbuf.read_data_slice(0, 8).unwrap();
    assert_eq!(BUFFER[..8], slice[..8]);
}

#[test]
fn truncate_to_current_length_fails() {
    let mut mbuf = Mbuf::from_bytes(&BUFFER).unwrap();
    // strictly less than the data length is required
    assert!(mbuf.truncate(16).is_err());
    assert!(mbuf.truncate(15).is_ok());
}

#[test]
fn read_and_write_data() {
    let mut mbuf = Mbuf::new().unwrap();

    assert!(mbuf.extend(0, 20).is_ok());
    mbuf.write_u32(0, 0x0102_0304);
    mbuf.write_u16(4, 0xabcd);
    mbuf.write_u8(6, 0x7f);

    assert_eq!(0x0102_0304, mbuf.read_u32(0));
    assert_eq!(0x0304, mbuf.read_u16(2));
    assert_eq!(0xabcd, mbuf.read_u16(4));
    assert_eq!(0x7f, mbuf.read_u8(6));

    // the words land big-endian on the wire
    let slice = mbuf.read_data_slice(0, 7).unwrap();
    assert_eq!(vec![1, 2, 3, 4, 0xab, 0xcd, 0x7f], slice);
}

#[test]
fn read_and_write_data_slice() {
    let mut mbuf = Mbuf::new().unwrap();

    // write some data to the buffer
    assert!(mbuf.extend(0, 20).is_ok());
    assert!(mbuf.write_data_slice(0, &BUFFER).is_ok());

    let slice = mbuf.read_data_slice(0, 16).unwrap();
    assert_eq!(BUFFER, slice.as_slice());

    // read from the wrong offset should return junk
    let slice = mbuf.read_data_slice(2, 16).unwrap();
    assert!(BUFFER != slice.as_slice());

    // read exceeds buffer should err
    assert!(mbuf.read_data_slice(10, 16).is_err());
}

#[test]
fn read_past_end_fails_by_one() {
    let mbuf = Mbuf::from_bytes(&BUFFER).unwrap();
    // a window ending exactly at the data length is fine
    assert!(mbuf.read_data_slice(0, 16).is_ok());
    // one byte further is not
    assert!(mbuf.read_data_slice(1, 16).is_err());
    match mbuf.read_data_slice(1, 16) {
        Err(BufferError::OutOfBuffer(needed, remaining)) => {
            assert_eq!(16, needed);
            assert_eq!(15, remaining);
        }
        _ => panic!("expected an out-of-buffer error"),
    }
    match mbuf.read_data_slice(16, 1) {
        Err(BufferError::BadOffset(offset, len)) => {
            assert_eq!(16, offset);
            assert_eq!(16, len);
        }
        _ => panic!("expected a bad-offset error"),
    }
}

#[test]
fn extend_then_shrink_restores_bytes() {
    let mut mbuf = Mbuf::from_bytes(&BUFFER).unwrap();
    let before = mbuf.read_data_slice(0, 16).unwrap();

    assert!(mbuf.extend(4, 8).is_ok());
    assert!(mbuf.shrink(4, 8).is_ok());

    assert_eq!(16, mbuf.data_len());
    let after = mbuf.read_data_slice(0, 16).unwrap();
    assert_eq!(before, after);
}

#[test]
fn resize_changes_length_by_signed_delta() {
    let mut mbuf = Mbuf::from_bytes(&BUFFER).unwrap();

    assert!(mbuf.resize(8, 4).is_ok());
    assert_eq!(20, mbuf.data_len());
    // bytes before the offset are unchanged
    let head = mbuf.read_data_slice(0, 8).unwrap();
    assert_eq!(BUFFER[..8], head.as_slice()[..]);

    assert!(mbuf.resize(8, -4).is_ok());
    assert_eq!(16, mbuf.data_len());
    let whole = mbuf.read_data_slice(0, 16).unwrap();
    assert_eq!(BUFFER, whole.as_slice());

    // a zero delta is refused, like the extension it dispatches to
    assert!(mbuf.resize(8, 0).is_err());
}

#[test]
fn alloc_bulk_returns_fresh_buffers() {
    let mbufs = Mbuf::alloc_bulk(4).unwrap();
    assert_eq!(4, mbufs.len());
    for m in &mbufs {
        assert_eq!(0, m.data_len());
    }
}
