use nettool::frame::{encode_frame, try_parse_frame, u32_from_be4};

#[test]
fn frame_round_trip() {
    let payload = b"ciphertext goes here".to_vec();
    let frame = encode_frame(&payload);
    let (back, consumed) = try_parse_frame(&frame).unwrap();
    assert_eq!(back, payload);
    assert_eq!(consumed, frame.len());
}

#[test]
fn frame_round_trip_empty_payload() {
    let payload: Vec<u8> = Vec::new();
    let frame = encode_frame(&payload);
    assert_eq!(frame, vec![0, 0, 0, 0]);
    let (back, consumed) = try_parse_frame(&frame).unwrap();
    assert_eq!(back, payload);
    assert_eq!(consumed, 4);
}

#[test]
fn frame_round_trip_one_mebibyte() {
    let payload = vec![0xabu8; 1 << 20];
    let frame = encode_frame(&payload);
    let (back, consumed) = try_parse_frame(&frame).unwrap();
    assert_eq!(back, payload);
    assert_eq!(consumed, 4 + (1 << 20));
}

#[test]
fn frame_prefix_is_big_endian() {
    let payload = vec![9u8; 300];
    let frame = encode_frame(&payload);
    assert_eq!(&frame[..4], &[0, 0, 1, 44]);
    assert_eq!(u32_from_be4(0, 0, 1, 44), 300);
}

#[test]
fn parse_waits_for_whole_prefix() {
    assert!(try_parse_frame(&vec![0, 0, 1]).is_none());
}

#[test]
fn parse_waits_for_whole_payload() {
    let payload = vec![5u8; 10];
    let mut frame = encode_frame(&payload);
    frame.pop();
    assert!(try_parse_frame(&frame).is_none());
}

#[test]
fn parse_leaves_trailing_bytes() {
    let payload = b"first".to_vec();
    let mut buf = encode_frame(&payload);
    let tail = encode_frame(&b"second".to_vec());
    buf.extend_from_slice(&tail);
    let (back, consumed) = try_parse_frame(&buf).unwrap();
    assert_eq!(back, payload);
    assert_eq!(consumed, 4 + payload.len());
    let rest: Vec<u8> = buf[consumed..].to_vec();
    let (back2, _) = try_parse_frame(&rest).unwrap();
    assert_eq!(back2, b"second".to_vec());
}
