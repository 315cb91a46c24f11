//! Client and server orchestration: request preparation, model-input
//! preparation, timestamp echoing, and independent sessions.

use rust_movenet::session::{
    build_response, client_request_bytes, prepare_model_input, results_from_response,
};
use rust_movenet::types::{Image, COLOR_SPACE};
use rust_movenet::wire::{decode_request, decode_response, encode_response, KEYPOINT_COUNT};

fn rgb_image(width: i32, height: i32, seed: u8) -> Image {
    let mut data = Vec::new();
    for i in 0..(width as usize * height as usize * 3) {
        data.push(((i as u32 * 31 + seed as u32) % 256) as u8);
    }
    Image::new(data, width, height, COLOR_SPACE::RGB)
}

#[test]
fn client_request_decodes_with_resized_dimensions() {
    let img = rgb_image(640, 480, 3);
    let ts = img.timestamp;
    let bytes = client_request_bytes(&img, (192, 192)).expect("frame fits the target");
    let (msg, payload, used) = decode_request(&bytes).expect("well-formed request");
    assert_eq!(msg.width, 192);
    assert_eq!(msg.height, 192);
    assert_eq!(msg.timestamp, ts);
    // packed 4:2:2 payload of the resized frame
    assert_eq!(msg.payload_length, 192 * 192 * 2);
    assert_eq!(payload.len(), 192 * 192 * 2);
    assert_eq!(used, bytes.len());
}

#[test]
fn client_request_rejects_unfit_frames() {
    // target larger than the source on one axis
    let img = rgb_image(100, 100, 0);
    assert!(client_request_bytes(&img, (192, 192)).is_err());
    // packed input is not the client's capture encoding here
    let yuv = Image::new(vec![0u8; 64 * 64 * 2], 64, 64, COLOR_SPACE::YUV);
    assert!(client_request_bytes(&yuv, (32, 32)).is_err());
}

#[test]
fn model_input_has_tensor_shape() {
    let img = rgb_image(640, 480, 9);
    let bytes = client_request_bytes(&img, (192, 192)).unwrap();
    let (msg, payload, _) = decode_request(&bytes).unwrap();
    let tensor =
        prepare_model_input(&msg, &payload, (192, 192)).expect("decoded request feeds the model");
    assert_eq!(tensor.len(), 192 * 192 * 3);
}

#[test]
fn model_input_rejects_mismatched_payload() {
    let img = rgb_image(640, 480, 9);
    let bytes = client_request_bytes(&img, (192, 192)).unwrap();
    let (msg, payload, _) = decode_request(&bytes).unwrap();
    // half the declared payload: the request no longer fits its header
    assert!(prepare_model_input(&msg, &payload[..payload.len() / 2], (192, 192)).is_err());
    // dimensions that disagree with the payload byte count
    let mut wrong = msg;
    wrong.width = 64;
    assert!(prepare_model_input(&wrong, &payload, (32, 32)).is_err());
}

#[test]
fn response_echoes_request_timestamp() {
    let img = rgb_image(320, 240, 1);
    let ts = img.timestamp;
    let bytes = client_request_bytes(&img, (160, 120)).unwrap();
    let (msg, _, _) = decode_request(&bytes).unwrap();
    let keypoints: Vec<u32> = (0..KEYPOINT_COUNT as u32).collect();
    let resp = build_response(&msg, keypoints.clone());
    assert_eq!(resp.timestamp, ts);
    assert_eq!(resp.keypoints, keypoints);
}

#[test]
fn two_sessions_stay_independent() {
    // two clients send distinct frames and timestamps over separate
    // sessions; each response carries only its own echo and keypoints
    let img_a = rgb_image(640, 480, 11);
    let img_b = rgb_image(320, 240, 99);
    let mut a = img_a;
    a.timestamp = 1111;
    let mut b = img_b;
    b.timestamp = 2222;

    let wire_a = client_request_bytes(&a, (192, 192)).unwrap();
    let wire_b = client_request_bytes(&b, (160, 120)).unwrap();

    // each session decodes its own connection's bytes
    let (msg_a, payload_a, _) = decode_request(&wire_a).unwrap();
    let (msg_b, payload_b, _) = decode_request(&wire_b).unwrap();
    assert_ne!(payload_a, payload_b);

    let tensor_a = prepare_model_input(&msg_a, &payload_a, (192, 192)).unwrap();
    let tensor_b = prepare_model_input(&msg_b, &payload_b, (160, 120)).unwrap();
    assert_ne!(tensor_a, tensor_b);

    let kp_a: Vec<u32> = vec![10; KEYPOINT_COUNT];
    let kp_b: Vec<u32> = vec![20; KEYPOINT_COUNT];
    let resp_a = encode_response(&build_response(&msg_a, kp_a.clone()));
    let resp_b = encode_response(&build_response(&msg_b, kp_b.clone()));

    let (got_a, _) = decode_response(&resp_a).unwrap();
    let (got_b, _) = decode_response(&resp_b).unwrap();
    assert_eq!(got_a.timestamp, 1111);
    assert_eq!(got_a.keypoints, kp_a);
    assert_eq!(got_b.timestamp, 2222);
    assert_eq!(got_b.keypoints, kp_b);
}

#[test]
fn results_carry_response_fields() {
    let keypoints: Vec<u32> = (0..KEYPOINT_COUNT as u32).map(|i| i * 2).collect();
    let img = rgb_image(64, 64, 5);
    let bytes = client_request_bytes(&img, (32, 32)).unwrap();
    let (msg, _, _) = decode_request(&bytes).unwrap();
    let resp = build_response(&msg, keypoints.clone());
    let results = results_from_response(resp);
    assert_eq!(results.timestamp, img.timestamp);
    assert_eq!(results.vector, keypoints);
}
