use punchafriend::codec::{
    decode_datagram, encode_datagram, encode_frame, parse_frame, write_to_buf_with_len, FrameError,
    FrameReader, UDP_DATAGRAM_SIZE,
};

#[test]
fn frame_has_big_endian_length_header() {
    let f = encode_frame(&[7, 8, 9]).unwrap();
    assert_eq!(f, vec![0, 0, 0, 3, 7, 8, 9]);
}

#[test]
fn frame_of_300_bytes_has_header_0_0_1_44() {
    let payload = vec![1u8; 300];
    let f = encode_frame(&payload).unwrap();
    assert_eq!(&f[..4], &[0, 0, 1, 44]);
    assert_eq!(f.len(), 304);
}

#[test]
fn write_appends_after_existing_bytes() {
    let mut buf = vec![42u8];
    write_to_buf_with_len(&mut buf, &[5]).unwrap();
    assert_eq!(buf, vec![42, 0, 0, 0, 1, 5]);
}

#[test]
fn empty_payload_round_trips() {
    let f = encode_frame(&[]).unwrap();
    assert_eq!(f, vec![0, 0, 0, 0]);
    assert_eq!(parse_frame(&f), Some((vec![], 4)));
}

#[test]
fn frame_round_trip_with_trailing_bytes() {
    let payload = vec![1u8, 2, 3, 4, 5];
    let mut f = encode_frame(&payload).unwrap();
    f.extend_from_slice(&[9, 9]);
    assert_eq!(parse_frame(&f), Some((payload, 9)));
}

#[test]
fn partial_frame_is_not_parsed() {
    assert_eq!(parse_frame(&[0, 0]), None);
    assert_eq!(parse_frame(&[0, 0, 0, 3, 1, 2]), None);
}

#[test]
fn reader_waits_for_whole_frame() {
    let mut r = FrameReader::new();
    r.push(&[0, 0]);
    assert_eq!(r.next_frame(), None);
    r.push(&[0, 2, 10]);
    assert_eq!(r.next_frame(), None);
    assert_eq!(r.pending_len(), 5);
    r.push(&[11, 0, 0, 0, 1, 12]);
    assert_eq!(r.next_frame(), Some(vec![10, 11]));
    assert_eq!(r.next_frame(), Some(vec![12]));
    assert_eq!(r.next_frame(), None);
    assert_eq!(r.pending_len(), 0);
}

#[test]
fn datagram_round_trip() {
    let payload = vec![3u8; 100];
    let d = encode_datagram(&payload).unwrap();
    assert_eq!(decode_datagram(&d), Ok(payload));
}

#[test]
fn largest_datagram_is_accepted_and_one_more_byte_refused() {
    let fits = vec![0u8; UDP_DATAGRAM_SIZE - 4];
    assert_eq!(encode_datagram(&fits).unwrap().len(), UDP_DATAGRAM_SIZE);
    let too_big = vec![0u8; UDP_DATAGRAM_SIZE - 3];
    assert_eq!(encode_datagram(&too_big), Err(FrameError::DatagramTooLarge));
}

#[test]
fn truncated_datagram_is_refused() {
    assert_eq!(decode_datagram(&[0, 0, 0]), Err(FrameError::Truncated));
    assert_eq!(decode_datagram(&[0, 0, 0, 2, 1]), Err(FrameError::Truncated));
}

#[test]
fn datagram_with_trailing_bytes_is_refused() {
    assert_eq!(decode_datagram(&[0, 0, 0, 1, 1, 2]), Err(FrameError::TrailingBytes));
}
