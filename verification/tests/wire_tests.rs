//! Wire protocol framing: round trips, zero-length payloads, and the
//! short-read and bad-length failure paths.

use rust_movenet::wire::{
    decode_request, decode_response, encode_request, encode_response, ProtocolError,
    ResponseMessage, KEYPOINT_COUNT,
};

#[test]
fn request_roundtrip_with_payload() {
    let payload: Vec<u8> = (0..200u8).collect();
    let bytes = encode_request(192, 192, 1_700_000_000, &payload);
    // 4-byte frame length + 24-byte header + payload
    assert_eq!(bytes.len(), 28 + payload.len());
    assert_eq!(&bytes[0..4], &[0, 0, 0, 24]);
    let (msg, got_payload, used) = decode_request(&bytes).expect("well-formed request");
    assert_eq!(msg.width, 192);
    assert_eq!(msg.height, 192);
    assert_eq!(msg.timestamp, 1_700_000_000);
    assert_eq!(msg.payload_length, payload.len() as u64);
    assert_eq!(got_payload, payload);
    assert_eq!(used, bytes.len());
}

#[test]
fn request_roundtrip_zero_length_payload() {
    let bytes = encode_request(0, 0, 0, &[]);
    assert_eq!(bytes.len(), 28);
    let (msg, payload, used) = decode_request(&bytes).expect("empty payload is well-formed");
    assert_eq!(msg.payload_length, 0);
    assert!(payload.is_empty());
    assert_eq!(used, 28);
}

#[test]
fn request_decode_leaves_trailing_bytes() {
    let mut bytes = encode_request(2, 2, 7, &[9, 9, 9, 9]);
    let first_len = bytes.len();
    bytes.extend_from_slice(&encode_request(3, 3, 8, &[1]));
    let (msg, _, used) = decode_request(&bytes).expect("first request decodes");
    assert_eq!(msg.timestamp, 7);
    assert_eq!(used, first_len);
    let (msg2, payload2, _) = decode_request(&bytes[used..]).expect("second request decodes");
    assert_eq!(msg2.timestamp, 8);
    assert_eq!(payload2, vec![1]);
}

#[test]
fn declared_payload_longer_than_stream_is_short_read() {
    // header declares 100 payload bytes but the connection closed after 50
    let payload = vec![7u8; 100];
    let bytes = encode_request(10, 10, 42, &payload);
    let truncated = &bytes[..28 + 50];
    assert_eq!(decode_request(truncated), Err(ProtocolError::ShortRead));
}

#[test]
fn truncated_header_is_short_read() {
    let bytes = encode_request(10, 10, 42, &[]);
    assert_eq!(decode_request(&bytes[..3]), Err(ProtocolError::ShortRead));
    assert_eq!(decode_request(&bytes[..20]), Err(ProtocolError::ShortRead));
}

#[test]
fn wrong_frame_length_is_bad_length() {
    let mut bytes = encode_request(10, 10, 42, &[]);
    // corrupt the frame length: 25 instead of 24
    bytes[3] = 25;
    assert_eq!(decode_request(&bytes), Err(ProtocolError::BadLength));
}

#[test]
fn response_roundtrip() {
    let keypoints: Vec<u32> = (0..KEYPOINT_COUNT as u32).map(|i| i * 7 + 1).collect();
    let resp = ResponseMessage { timestamp: 99, keypoints: keypoints.clone() };
    let bytes = encode_response(&resp);
    // 4-byte frame length + 8-byte timestamp + 51 * 4 keypoint bytes
    assert_eq!(bytes.len(), 4 + 8 + 51 * 4);
    assert_eq!(&bytes[0..4], &[0, 0, 0, 212]);
    let (back, used) = decode_response(&bytes).expect("well-formed response");
    assert_eq!(back.timestamp, 99);
    assert_eq!(back.keypoints, keypoints);
    assert_eq!(used, 216);
}

#[test]
fn response_roundtrip_float_bits() {
    // keypoint values carry IEEE-754 bit patterns unchanged
    let values: Vec<f32> = (0..KEYPOINT_COUNT).map(|i| i as f32 * 0.25 - 3.5).collect();
    let keypoints: Vec<u32> = values.iter().map(|v| v.to_bits()).collect();
    let resp = ResponseMessage { timestamp: 1, keypoints };
    let bytes = encode_response(&resp);
    let (back, _) = decode_response(&bytes).expect("well-formed response");
    let back_values: Vec<f32> = back.keypoints.iter().map(|&b| f32::from_bits(b)).collect();
    assert_eq!(back_values, values);
}

#[test]
fn truncated_response_is_short_read() {
    let resp = ResponseMessage { timestamp: 5, keypoints: vec![0u32; KEYPOINT_COUNT] };
    let bytes = encode_response(&resp);
    assert_eq!(decode_response(&bytes[..100]), Err(ProtocolError::ShortRead));
    assert_eq!(decode_response(&bytes[..2]), Err(ProtocolError::ShortRead));
}

#[test]
fn wrong_response_frame_length_is_bad_length() {
    let resp = ResponseMessage { timestamp: 5, keypoints: vec![0u32; KEYPOINT_COUNT] };
    let mut bytes = encode_response(&resp);
    bytes[3] = 211;
    assert_eq!(decode_response(&bytes), Err(ProtocolError::BadLength));
}
