use logos_engine::frame::{decode_frame, encode_frame, frame_length, sema_frame};

#[test]
fn encode_frame_prefixes_little_endian_length() {
    assert_eq!(encode_frame(&[7, 8, 9]), vec![3, 0, 0, 0, 7, 8, 9]);
}

#[test]
fn encode_frame_of_empty_message_is_bare_prefix() {
    assert_eq!(encode_frame(&[]), vec![0, 0, 0, 0]);
}

#[test]
fn encode_frame_writes_long_lengths_little_endian() {
    let body = vec![0xAB_u8; 0x0102];
    let frame = encode_frame(&body);
    assert_eq!(&frame[..4], &[0x02, 0x01, 0x00, 0x00]);
    assert_eq!(frame.len(), 4 + 0x0102);
}

#[test]
fn frame_length_reads_little_endian() {
    assert_eq!(frame_length([0x78, 0x56, 0x34, 0x12]), 0x1234_5678);
    assert_eq!(frame_length([0xFF, 0xFF, 0xFF, 0xFF]), u32::MAX);
}

#[test]
fn decode_frame_gives_back_encoded_message_before_trailing_bytes() {
    let mut stream = encode_frame(b"hello");
    stream.extend_from_slice(&[1, 2, 3]);
    assert_eq!(decode_frame(&stream), Some(b"hello".to_vec()));
}

#[test]
fn decode_frame_waits_for_complete_prefix() {
    assert_eq!(decode_frame(&[5, 0, 0]), None);
}

#[test]
fn decode_frame_waits_for_complete_message() {
    assert_eq!(decode_frame(&[5, 0, 0, 0, 1, 2]), None);
}

#[test]
fn decode_frame_of_empty_message() {
    assert_eq!(decode_frame(&[0, 0, 0, 0, 9]), Some(vec![]));
}

#[test]
fn sema_frame_prefixes_big_endian_length() {
    assert_eq!(sema_frame(3, &[4, 5, 6]), vec![0, 0, 0, 3, 4, 5, 6]);
    let body = vec![1_u8; 0x0201];
    let frame = sema_frame(0x0201, &body);
    assert_eq!(&frame[..4], &[0x00, 0x00, 0x02, 0x01]);
    assert_eq!(&frame[4..], &body[..]);
}
