//! Capture-device state machine.
//!
//! A kernel video-capture device is driven through a fixed sequence:
//! open, negotiate a capture format, allocate and map device buffers, set
//! the frame rate, switch streaming on, then cycle one buffer through a
//! dequeue/read/enqueue protocol until streaming stops and the device
//! closes. The device dialogue itself (the ioctl-style request/response
//! exchanges and the memory mapping) is outside code; this module holds
//! the sequencing contract: each operation takes the outcomes of its
//! dialogue steps and decides the next state, the recorded format, and
//! which error surfaces. The numeric op-codes of the dialogue are not part
//! of the contract; the state machine is.

use vstd::prelude::*;
use crate::types::{spec_bytes_per_pixel, Image, COLOR_SPACE};

verus! {

/// Lifecycle states of the capture device.
#[derive(Clone, Copy, PartialEq, Eq, Structural, Debug)]
pub enum DeviceState {
    Closed,
    Opened,
    FormatNegotiated,
    BufferMapped,
    Streaming,
}

/// Setup failure, named by the device-dialogue step that failed. Setup
/// failures are fatal at startup: no operation retries.
#[derive(Clone, Copy, PartialEq, Eq, Structural, Debug)]
pub enum DeviceError {
    OpenFailed,
    QueryCapabilities,
    GetInput,
    EnumerateInput,
    GetFormat,
    SetFormat,
    ConfirmFormat,
    RequestBuffers,
    QueryBuffer,
    MapBuffer,
    SetFrameRate,
    StreamOn,
    EnqueueBuffer,
    StreamOff,
}

/// Failure to start streaming: the frame rate was never set
/// (a precondition violation), or the device refused a dialogue step.
#[derive(Clone, Copy, PartialEq, Eq, Structural, Debug)]
pub enum StartError {
    PreconditionError,
    Device(DeviceError),
}

/// Mid-stream capture failure, fatal to the current capture cycle and
/// surfaced to the caller; the cycle is not retried.
#[derive(Clone, Copy, PartialEq, Eq, Structural, Debug)]
pub enum StreamError {
    DequeueFailed,
    EnqueueFailed,
}

/// Outcomes of the six format-negotiation dialogue steps, in order:
/// query capabilities, read the current input index, enumerate that input,
/// read the current format, set the desired format, read the format back.
#[derive(Clone, Copy, PartialEq, Eq, Structural, Debug)]
pub struct FormatDialogue {
    pub query_capabilities_ok: bool,
    pub get_input_ok: bool,
    pub enumerate_input_ok: bool,
    pub get_format_ok: bool,
    pub set_format_ok: bool,
    pub confirm_format_ok: bool,
}

impl FormatDialogue {
    /// Every step of the dialogue succeeded.
    pub open spec fn all_ok(self) -> bool {
        &&& self.query_capabilities_ok
        &&& self.get_input_ok
        &&& self.enumerate_input_ok
        &&& self.get_format_ok
        &&& self.set_format_ok
        &&& self.confirm_format_ok
    }
}

/// Outcomes of the buffer-allocation dialogue: the request for mapped
/// buffers, the query of buffer 0 (carrying its byte length when it
/// succeeds), and the mapping of that buffer into process memory.
#[derive(Clone, Copy, PartialEq, Eq, Structural, Debug)]
pub struct MapDialogue {
    pub request_buffers_ok: bool,
    pub queried_length: Option<u32>,
    pub map_ok: bool,
}

/// One hardware capture handle: the negotiated format, the frame rate, the
/// length of the single mapped buffer, and whether that buffer is
/// currently enqueued with the device.
pub struct CaptureDevice {
    pub state: DeviceState,
    pub width: u32,
    pub height: u32,
    pub encoding: COLOR_SPACE,
    pub fps: u32,
    pub buffer_length: usize,
    pub queued: bool,
}

impl CaptureDevice {
    /// Machine invariant: once a format is negotiated the dimensions are
    /// positive and hold in an `i32`; streaming only runs with a frame
    /// rate set, and with the buffer either queued or just read.
    pub open spec fn wf(self) -> bool {
        &&& (self.state is FormatNegotiated || self.state is BufferMapped
            || self.state is Streaming) ==> (1 <= self.width <= 0x7fffffff && 1 <= self.height
            <= 0x7fffffff)
        &&& self.state is Streaming ==> self.fps >= 1
    }

    /// A fresh, closed device.
    pub fn new() -> (d: CaptureDevice)
        ensures
            d.state is Closed,
            d.fps == 0,
            !d.queued,
            d.wf(),
    {
        CaptureDevice {
            state: DeviceState::Closed,
            width: 0,
            height: 0,
            encoding: COLOR_SPACE::YUV,
            fps: 0,
            buffer_length: 0,
            queued: false,
        }
    }

    /// Records the outcome of opening the device node. Failure to open is
    /// fatal: the device stays closed and no retry is made.
    pub fn open(&mut self, opened: bool) -> (r: Result<(), DeviceError>)
        requires
            old(self).state is Closed,
            old(self).wf(),
        ensures
            final(self).wf(),
            opened ==> r is Ok && *final(self) == (CaptureDevice {
                state: DeviceState::Opened,
                ..*old(self)
            }),
            !opened ==> r == Err::<(), DeviceError>(DeviceError::OpenFailed) && *final(self)
                == *old(self),
    {
        if opened {
            self.state = DeviceState::Opened;
            Ok(())
        } else {
            Err(DeviceError::OpenFailed)
        }
    }

    /// Negotiates the capture format: walks the six-step dialogue and, if
    /// every step succeeds, records the desired width, height and pixel
    /// encoding. The first step the device rejects names the error; the
    /// device then keeps its previous format and stays merely opened.
    pub fn negotiate_format(
        &mut self,
        width: u32,
        height: u32,
        encoding: COLOR_SPACE,
        replies: FormatDialogue,
    ) -> (r: Result<(), DeviceError>)
        requires
            old(self).state is Opened,
            old(self).wf(),
            1 <= width <= 0x7fffffff,
            1 <= height <= 0x7fffffff,
        ensures
            final(self).wf(),
            r is Ok <==> replies.all_ok(),
            replies.all_ok() ==> *final(self) == (CaptureDevice {
                state: DeviceState::FormatNegotiated,
                width,
                height,
                encoding,
                ..*old(self)
            }),
            !replies.all_ok() ==> *final(self) == *old(self),
            !replies.query_capabilities_ok ==> r == Err::<(), DeviceError>(
                DeviceError::QueryCapabilities,
            ),
            replies.query_capabilities_ok && !replies.get_input_ok ==> r == Err::<(), DeviceError>(
                DeviceError::GetInput,
            ),
            replies.query_capabilities_ok && replies.get_input_ok && !replies.enumerate_input_ok
                ==> r == Err::<(), DeviceError>(DeviceError::EnumerateInput),
            replies.query_capabilities_ok && replies.get_input_ok && replies.enumerate_input_ok
                && !replies.get_format_ok ==> r == Err::<(), DeviceError>(DeviceError::GetFormat),
            replies.query_capabilities_ok && replies.get_input_ok && replies.enumerate_input_ok
                && replies.get_format_ok && !replies.set_format_ok ==> r == Err::<(), DeviceError>(
                DeviceError::SetFormat,
            ),
            replies.query_capabilities_ok && replies.get_input_ok && replies.enumerate_input_ok
                && replies.get_format_ok && replies.set_format_ok && !replies.confirm_format_ok
                ==> r == Err::<(), DeviceError>(DeviceError::ConfirmFormat),
    {
        if !replies.query_capabilities_ok {
            return Err(DeviceError::QueryCapabilities);
        }
        if !replies.get_input_ok {
            return Err(DeviceError::GetInput);
        }
        if !replies.enumerate_input_ok {
            return Err(DeviceError::EnumerateInput);
        }
        if !replies.get_format_ok {
            return Err(DeviceError::GetFormat);
        }
        if !replies.set_format_ok {
            return Err(DeviceError::SetFormat);
        }
        if !replies.confirm_format_ok {
            return Err(DeviceError::ConfirmFormat);
        }
        self.state = DeviceState::FormatNegotiated;
        self.width = width;
        self.height = height;
        self.encoding = encoding;
        Ok(())
    }

    /// Allocates `count` device buffers and maps buffer 0, whose queried
    /// byte length becomes the device's buffer length. Several buffers may
    /// be requested, but only buffer 0 is ever queried and cycled:
    /// single-buffering is this design's documented choice, made
    /// explicitly rather than inherited silently.
    pub fn allocate_and_map(&mut self, count: u32, replies: MapDialogue) -> (r: Result<
        (),
        DeviceError,
    >)
        requires
            old(self).state is FormatNegotiated,
            old(self).wf(),
            count >= 1,
        ensures
            final(self).wf(),
            r is Ok <==> (replies.request_buffers_ok && replies.queried_length is Some
                && replies.map_ok),
            r is Ok ==> *final(self) == (CaptureDevice {
                state: DeviceState::BufferMapped,
                buffer_length: replies.queried_length->0 as usize,
                ..*old(self)
            }),
            !(replies.request_buffers_ok && replies.queried_length is Some && replies.map_ok)
                ==> *final(self) == *old(self),
            !replies.request_buffers_ok ==> r == Err::<(), DeviceError>(
                DeviceError::RequestBuffers,
            ),
            replies.request_buffers_ok && replies.queried_length is None ==> r == Err::<
                (),
                DeviceError,
            >(DeviceError::QueryBuffer),
            replies.request_buffers_ok && replies.queried_length is Some && !replies.map_ok ==> r
                == Err::<(), DeviceError>(DeviceError::MapBuffer),
    {
        if !replies.request_buffers_ok {
            return Err(DeviceError::RequestBuffers);
        }
        let length = match replies.queried_length {
            Some(l) => l,
            None => {
                return Err(DeviceError::QueryBuffer);
            },
        };
        if !replies.map_ok {
            return Err(DeviceError::MapBuffer);
        }
        self.state = DeviceState::BufferMapped;
        self.buffer_length = length as usize;
        Ok(())
    }

    /// Records the outcome of setting the frame rate. The rate must be set
    /// (and must have succeeded) before streaming can start.
    pub fn set_frame_rate(&mut self, fps: u32, set_ok: bool) -> (r: Result<(), DeviceError>)
        requires
            old(self).state is BufferMapped,
            old(self).wf(),
            fps >= 1,
        ensures
            final(self).wf(),
            set_ok ==> r is Ok && *final(self) == (CaptureDevice { fps, ..*old(self) }),
            !set_ok ==> r == Err::<(), DeviceError>(DeviceError::SetFrameRate) && *final(self)
                == *old(self),
    {
        if set_ok {
            self.fps = fps;
            Ok(())
        } else {
            Err(DeviceError::SetFrameRate)
        }
    }

    /// Switches the hardware stream on and enqueues buffer 0 so the
    /// capture pipeline is primed. Fails with a precondition error when no
    /// frame rate was ever set; idempotent when already streaming. On any
    /// failure the device is not considered streaming.
    pub fn start_streaming(&mut self, stream_on_ok: bool, enqueue_ok: bool) -> (r: Result<
        (),
        StartError,
    >)
        requires
            old(self).state is BufferMapped || old(self).state is Streaming,
            old(self).wf(),
        ensures
            final(self).wf(),
            old(self).state is Streaming ==> r is Ok && *final(self) == *old(self),
            old(self).state is BufferMapped && old(self).fps == 0 ==> r == Err::<(), StartError>(
                StartError::PreconditionError,
            ) && *final(self) == *old(self),
            old(self).state is BufferMapped && old(self).fps >= 1 && !stream_on_ok ==> r == Err::<
                (),
                StartError,
            >(StartError::Device(DeviceError::StreamOn)) && *final(self) == *old(self),
            old(self).state is BufferMapped && old(self).fps >= 1 && stream_on_ok && !enqueue_ok
                ==> r == Err::<(), StartError>(StartError::Device(DeviceError::EnqueueBuffer))
                && *final(self) == *old(self),
            old(self).state is BufferMapped && old(self).fps >= 1 && stream_on_ok && enqueue_ok
                ==> r is Ok && *final(self) == (CaptureDevice {
                state: DeviceState::Streaming,
                queued: true,
                ..*old(self)
            }),
    {
        match self.state {
            DeviceState::Streaming => Ok(()),
            _ => {
                if self.fps == 0 {
                    return Err(StartError::PreconditionError);
                }
                if !stream_on_ok {
                    return Err(StartError::Device(DeviceError::StreamOn));
                }
                if !enqueue_ok {
                    return Err(StartError::Device(DeviceError::EnqueueBuffer));
                }
                self.state = DeviceState::Streaming;
                self.queued = true;
                Ok(())
            },
        }
    }

    /// One capture cycle: the device signals the queued buffer filled
    /// (dequeue), the frame bytes are copied out of the mapped region into
    /// an owned image, and the same buffer is immediately re-enqueued so
    /// capture continues uninterrupted. A dequeue failure is fatal for the
    /// cycle and leaves the buffer queued; a re-enqueue failure leaves the
    /// pipeline unprimed.
    pub fn capture_frame(
        &mut self,
        dequeue_ok: bool,
        frame_bytes: &[u8],
        timestamp: u64,
        enqueue_ok: bool,
    ) -> (r: Result<Image, StreamError>)
        requires
            old(self).state is Streaming,
            old(self).queued,
            old(self).wf(),
            frame_bytes@.len() == old(self).buffer_length,
        ensures
            final(self).wf(),
            !dequeue_ok ==> r == Err::<Image, StreamError>(StreamError::DequeueFailed)
                && *final(self) == *old(self),
            dequeue_ok && !enqueue_ok ==> r == Err::<Image, StreamError>(
                StreamError::EnqueueFailed,
            ) && *final(self) == (CaptureDevice { queued: false, ..*old(self) }),
            dequeue_ok && enqueue_ok ==> *final(self) == *old(self),
            r matches Ok(img) ==> {
                &&& dequeue_ok && enqueue_ok
                &&& img.data@ == frame_bytes@
                &&& img.width == old(self).width as i32
                &&& img.height == old(self).height as i32
                &&& img.color_space == old(self).encoding
                &&& img.timestamp == timestamp
            },
            r is Ok <==> dequeue_ok && enqueue_ok,
    {
        if !dequeue_ok {
            return Err(StreamError::DequeueFailed);
        }
        self.queued = false;
        let mut data: Vec<u8> = Vec::new();
        data.extend_from_slice(frame_bytes);
        let img = Image {
            timestamp,
            data,
            width: self.width as i32,
            height: self.height as i32,
            color_space: self.encoding,
        };
        if !enqueue_ok {
            return Err(StreamError::EnqueueFailed);
        }
        self.queued = true;
        Ok(img)
    }

    /// Switches the hardware stream off; idempotent when not streaming.
    /// After a successful stop the buffer mapping remains, so streaming
    /// can start again.
    pub fn stop_streaming(&mut self, stream_off_ok: bool) -> (r: Result<(), DeviceError>)
        requires
            old(self).wf(),
        ensures
            final(self).wf(),
            !(old(self).state is Streaming) ==> r is Ok && *final(self) == *old(self),
            old(self).state is Streaming && stream_off_ok ==> r is Ok && *final(self)
                == (CaptureDevice { state: DeviceState::BufferMapped, queued: false, ..*old(self) }),
            old(self).state is Streaming && !stream_off_ok ==> r == Err::<(), DeviceError>(
                DeviceError::StreamOff,
            ) && *final(self) == *old(self),
    {
        match self.state {
            DeviceState::Streaming => {
                if stream_off_ok {
                    self.state = DeviceState::BufferMapped;
                    self.queued = false;
                    Ok(())
                } else {
                    Err(DeviceError::StreamOff)
                }
            },
            _ => Ok(()),
        }
    }

    /// Tears the device down to the closed state. The mapped memory is
    /// released by the outside teardown path that drives this transition;
    /// teardown runs on every exit path, error paths included.
    pub fn close(&mut self)
        ensures
            final(self).state is Closed,
            final(self).fps == 0,
            !final(self).queued,
            final(self).wf(),
    {
        self.state = DeviceState::Closed;
        self.width = 0;
        self.height = 0;
        self.fps = 0;
        self.buffer_length = 0;
        self.queued = false;
    }

    /// The byte length one frame of the negotiated format occupies.
    pub open spec fn spec_frame_size(self) -> int {
        self.width * self.height * spec_bytes_per_pixel(self.encoding)
    }
}

/// Full startup sequence: open the device, negotiate the capture format,
/// then allocate and map the buffers. Stops at the first failure, whose
/// stage names the error; on success the device stands ready for a frame
/// rate and streaming.
pub fn setup_device(
    width: u32,
    height: u32,
    encoding: COLOR_SPACE,
    count: u32,
    opened: bool,
    format_replies: FormatDialogue,
    map_replies: MapDialogue,
) -> (r: Result<CaptureDevice, DeviceError>)
    requires
        1 <= width <= 0x7fffffff,
        1 <= height <= 0x7fffffff,
        count >= 1,
    ensures
        r is Ok <==> (opened && format_replies.all_ok() && map_replies.request_buffers_ok
            && map_replies.queried_length is Some && map_replies.map_ok),
        r matches Ok(d) ==> {
            &&& d.state is BufferMapped
            &&& d.width == width
            &&& d.height == height
            &&& d.encoding == encoding
            &&& d.fps == 0
            &&& d.buffer_length == map_replies.queried_length->0 as usize
            &&& d.wf()
        },
        !opened ==> r == Err::<CaptureDevice, DeviceError>(DeviceError::OpenFailed),
{
    let mut device = CaptureDevice::new();
    match device.open(opened) {
        Ok(()) => (),
        Err(e) => {
            return Err(e);
        },
    }
    match device.negotiate_format(width, height, encoding, format_replies) {
        Ok(()) => (),
        Err(e) => {
            return Err(e);
        },
    }
    match device.allocate_and_map(count, map_replies) {
        Ok(()) => (),
        Err(e) => {
            return Err(e);
        },
    }
    Ok(device)
}

} // verus!
