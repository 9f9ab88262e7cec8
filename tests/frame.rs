use rust_sock::frame::{decode_length, encode_frame, encode_length, payload_length, read_frame, FrameError, PREFIX_LEN};

#[test]
fn length_prefix_is_big_endian_and_sixteen_bytes() {
    let p = encode_length(258);
    assert_eq!(p.len(), PREFIX_LEN);
    let mut want = vec![0u8; 14];
    want.push(1);
    want.push(2);
    assert_eq!(p, want);
}

#[test]
fn decode_length_reads_big_endian() {
    let mut p = vec![0u8; 16];
    p[0] = 1;
    p[15] = 7;
    assert_eq!(decode_length(&p), (1u128 << 120) + 7);
}

#[test]
fn payload_length_refuses_what_does_not_fit() {
    let p = vec![0xffu8; 16];
    assert_eq!(payload_length(&p), None);
    let q = encode_length(5);
    assert_eq!(payload_length(&q), Some(5));
}

#[test]
fn frame_round_trip() {
    let payload = b"hello".to_vec();
    let bytes = encode_frame(&payload);
    assert_eq!(bytes.len(), 21);
    let f = read_frame(&bytes).unwrap();
    assert_eq!(f.payload, payload);
    assert_eq!(f.consumed, 21);
}

#[test]
fn empty_payload_round_trip() {
    let bytes = encode_frame(&[]);
    assert_eq!(bytes, vec![0u8; 16]);
    let f = read_frame(&bytes).unwrap();
    assert!(f.payload.is_empty());
    assert_eq!(f.consumed, 16);
}

#[test]
fn two_frames_read_in_turn() {
    let mut bytes = encode_frame(b"ab");
    bytes.extend(encode_frame(b"xyz"));
    let f = read_frame(&bytes).unwrap();
    assert_eq!(f.payload, b"ab".to_vec());
    let g = read_frame(&bytes[f.consumed..]).unwrap();
    assert_eq!(g.payload, b"xyz".to_vec());
    assert_eq!(f.consumed + g.consumed, bytes.len());
}

#[test]
fn truncated_payload_is_refused() {
    let bytes = encode_frame(b"hi");
    assert_eq!(read_frame(&bytes[..17]).err(), Some(FrameError::Truncated));
    assert_eq!(read_frame(&bytes[..16]).err(), Some(FrameError::Truncated));
}

#[test]
fn empty_stream_is_a_clean_close() {
    assert_eq!(read_frame(&[]).err(), Some(FrameError::Closed));
}

#[test]
fn partial_prefix_is_a_close() {
    let bytes = encode_frame(b"hi");
    assert_eq!(read_frame(&bytes[..10]).err(), Some(FrameError::Closed));
}
