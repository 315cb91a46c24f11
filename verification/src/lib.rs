//! Streaming pose-estimation pipeline: a capture-device state machine, a
//! length-prefixed wire protocol, and a pure pixel pipeline (packed 4:2:2
//! colorspace conversion and aspect-preserving letterbox resize) that
//! connect an edge capture client to a remote inference service.

pub mod camera;
pub mod pixel;
pub mod resize;
pub mod session;
pub mod wire;
pub mod types;
