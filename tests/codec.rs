use arducam_tof::bytes::DecodeError;
use arducam_tof::codec::{decode_batch, encode_batch, encode_batch_into, Layout, WirePoint};

fn point(x: f32, y: f32, z: f32, c: f32) -> WirePoint {
    WirePoint { x: x.to_bits(), y: y.to_bits(), z: z.to_bits(), confidence: Some(c.to_bits()) }
}

#[test]
fn encodes_count_then_little_endian_records() {
    let p = WirePoint { x: 0x0403_0201, y: 0, z: 0x8000_0000, confidence: Some(0x0000_00ff) };
    let bytes = encode_batch(&[p], Layout::PositionConfidence);
    assert_eq!(
        bytes,
        vec![1, 1, 2, 3, 4, 0, 0, 0, 0, 0, 0, 0, 0x80, 0xff, 0, 0, 0]
    );
}

#[test]
fn position_layout_has_twelve_byte_records() {
    let p = WirePoint { x: 1, y: 2, z: 3, confidence: None };
    let bytes = encode_batch(&[p, p], Layout::Position);
    assert_eq!(bytes.len(), 1 + 2 * 12);
    let (back, used) = decode_batch(&bytes, Layout::Position).unwrap();
    assert_eq!(back, vec![p, p]);
    assert_eq!(used, bytes.len());
}

#[test]
fn empty_batch_is_one_byte() {
    let bytes = encode_batch(&[], Layout::PositionConfidence);
    assert_eq!(bytes, vec![0]);
    let (back, used) = decode_batch(&bytes, Layout::PositionConfidence).unwrap();
    assert!(back.is_empty());
    assert_eq!(used, 1);
}

#[test]
fn round_trip_leaves_trailing_bytes() {
    let batch = vec![point(1.5, -2.25, 3.0, 0.5), point(0.0, 0.0, 2.0, 1.0)];
    let mut bytes = encode_batch(&batch, Layout::PositionConfidence);
    let len = bytes.len();
    bytes.extend_from_slice(&[9, 9, 9]);
    let (back, used) = decode_batch(&bytes, Layout::PositionConfidence).unwrap();
    assert_eq!(back, batch);
    assert_eq!(used, len);
    assert_eq!(&bytes[used..], &[9, 9, 9]);
}

#[test]
fn back_to_back_messages_decode_in_turn() {
    let first = vec![point(1.0, 2.0, 3.0, 0.1)];
    let second = vec![point(4.0, 5.0, 6.0, 0.2), point(7.0, 8.0, 9.0, 0.3)];
    let mut stream = Vec::new();
    encode_batch_into(&mut stream, &first, Layout::PositionConfidence);
    encode_batch_into(&mut stream, &second, Layout::PositionConfidence);
    let (a, used_a) = decode_batch(&stream, Layout::PositionConfidence).unwrap();
    let (b, used_b) = decode_batch(&stream[used_a..], Layout::PositionConfidence).unwrap();
    assert_eq!(a, first);
    assert_eq!(b, second);
    assert_eq!(used_a + used_b, stream.len());
}

#[test]
fn long_batch_uses_two_byte_count() {
    let p = WirePoint { x: 7, y: 8, z: 9, confidence: None };
    let batch = vec![p; 300];
    let bytes = encode_batch(&batch, Layout::Position);
    assert_eq!(&bytes[..3], &[251, 0x2c, 0x01]);
    assert_eq!(bytes.len(), 3 + 300 * 12);
    let (back, used) = decode_batch(&bytes, Layout::Position).unwrap();
    assert_eq!(back, batch);
    assert_eq!(used, bytes.len());
}

#[test]
fn count_of_250_is_one_byte_and_251_is_tagged() {
    let p = WirePoint { x: 0, y: 0, z: 0, confidence: None };
    assert_eq!(encode_batch(&vec![p; 250], Layout::Position)[0], 250);
    let bytes = encode_batch(&vec![p; 251], Layout::Position);
    assert_eq!(&bytes[..3], &[251, 251, 0]);
}

#[test]
fn wide_count_forms_decode() {
    // A four-byte count of 1 followed by one record.
    let mut bytes = vec![252, 1, 0, 0, 0];
    bytes.extend_from_slice(&[1, 0, 0, 0, 2, 0, 0, 0, 3, 0, 0, 0]);
    let (back, used) = decode_batch(&bytes, Layout::Position).unwrap();
    assert_eq!(back, vec![WirePoint { x: 1, y: 2, z: 3, confidence: None }]);
    assert_eq!(used, 17);
    // An eight-byte count of 0.
    let (back, used) = decode_batch(&[253, 0, 0, 0, 0, 0, 0, 0, 0], Layout::Position).unwrap();
    assert!(back.is_empty());
    assert_eq!(used, 9);
}

#[test]
fn truncated_stream_is_an_error() {
    let bytes = encode_batch(&[point(1.0, 2.0, 3.0, 4.0)], Layout::PositionConfidence);
    assert_eq!(
        decode_batch(&bytes[..bytes.len() - 1], Layout::PositionConfidence),
        Err(DecodeError::Truncated)
    );
    assert_eq!(decode_batch(&[], Layout::Position), Err(DecodeError::Truncated));
    assert_eq!(decode_batch(&[251, 1], Layout::Position), Err(DecodeError::Truncated));
    assert_eq!(
        decode_batch(&[253, 255, 255, 255, 255, 255, 255, 255, 255], Layout::Position),
        Err(DecodeError::Truncated)
    );
}

#[test]
fn unknown_count_tag_is_an_error() {
    assert_eq!(decode_batch(&[254, 0], Layout::Position), Err(DecodeError::InvalidLengthTag));
    assert_eq!(decode_batch(&[255], Layout::Position), Err(DecodeError::InvalidLengthTag));
}
