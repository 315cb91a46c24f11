//! Length-prefixed binary wire protocol.
//!
//! Every message on the wire is a 4-byte big-endian length followed by
//! exactly that many message bytes. A request frame carries a fixed 24-byte
//! header (width, height, timestamp, payload length); the raw pixel payload
//! is not separately framed: it follows the header immediately and the
//! reader must read exactly `payload_length` more bytes. A response frame
//! carries a fixed 212-byte body: the echoed timestamp and 51 keypoint
//! values, each carried as the big-endian bit pattern of an IEEE-754
//! single.

use vstd::prelude::*;

verus! {

/// Keypoint values in a response: 17 keypoints, each `(y ratio, x ratio,
/// confidence)`.
pub const KEYPOINT_COUNT: usize = 51;

/// Error of the wire codec: a frame or payload cut short, or a frame whose
/// declared length does not match the fixed message schema.
#[derive(Clone, Copy, PartialEq, Eq, Structural, Debug)]
pub enum ProtocolError {
    ShortRead,
    BadLength,
}

/// Request header fields: pixel dimensions, capture timestamp (unix
/// seconds), and the exact byte count of the unframed payload that follows
/// the header.
#[derive(Clone, Copy, PartialEq, Eq, Structural, Debug)]
pub struct RequestMessage {
    pub width: u32,
    pub height: u32,
    pub timestamp: u64,
    pub payload_length: u64,
}

/// Response fields: the request timestamp echoed back, and the model's
/// keypoint vector (bit patterns of IEEE-754 singles), in model output
/// order.
#[derive(Debug, PartialEq, Eq)]
pub struct ResponseMessage {
    pub timestamp: u64,
    pub keypoints: Vec<u32>,
}

impl ResponseMessage {
    /// A well-formed response carries exactly [`KEYPOINT_COUNT`] values.
    pub open spec fn wf(self) -> bool {
        self.keypoints@.len() == KEYPOINT_COUNT
    }
}

/// The 4 big-endian bytes of a 32-bit value.
pub open spec fn spec_u32_be(x: u32) -> Seq<u8> {
    seq![
        (x / 0x1000000) as u8,
        ((x / 0x10000) % 0x100) as u8,
        ((x / 0x100) % 0x100) as u8,
        (x % 0x100) as u8,
    ]
}

/// The 8 big-endian bytes of a 64-bit value.
pub open spec fn spec_u64_be(x: u64) -> Seq<u8> {
    seq![
        (x / 0x100000000000000) as u8,
        ((x / 0x1000000000000) % 0x100) as u8,
        ((x / 0x10000000000) % 0x100) as u8,
        ((x / 0x100000000) % 0x100) as u8,
        ((x / 0x1000000) % 0x100) as u8,
        ((x / 0x10000) % 0x100) as u8,
        ((x / 0x100) % 0x100) as u8,
        (x % 0x100) as u8,
    ]
}

/// The value read big-endian from 4 bytes.
pub open spec fn spec_be32(b: Seq<u8>) -> int {
    ((b[0] * 0x100 + b[1]) * 0x100 + b[2]) * 0x100 + b[3]
}

/// The value read big-endian from 8 bytes.
pub open spec fn spec_be64(b: Seq<u8>) -> int {
    ((((((b[0] * 0x100 + b[1]) * 0x100 + b[2]) * 0x100 + b[3]) * 0x100 + b[4]) * 0x100 + b[5])
        * 0x100 + b[6]) * 0x100 + b[7]
}

/// Reading back the big-endian bytes of a 32-bit value gives the value.
pub proof fn lemma_u32_be_roundtrip(x: u32)
    ensures
        spec_be32(spec_u32_be(x)) == x,
{
    assert(x / 0x1000000 < 0x100) by (bit_vector);
    assert((((x / 0x1000000) * 0x100 + (x / 0x10000) % 0x100) * 0x100 + (x / 0x100) % 0x100)
        * 0x100 + x % 0x100 == x) by (bit_vector);
}

/// Reading back the big-endian bytes of a 64-bit value gives the value.
pub proof fn lemma_u64_be_roundtrip(x: u64)
    ensures
        spec_be64(spec_u64_be(x)) == x,
{
    assert(x / 0x100000000000000 < 0x100) by (bit_vector);
    assert(((((((((x / 0x100000000000000) * 0x100 + (x / 0x1000000000000) % 0x100) * 0x100 + (x
        / 0x10000000000) % 0x100) * 0x100 + (x / 0x100000000) % 0x100) * 0x100 + (x / 0x1000000)
        % 0x100) * 0x100 + (x / 0x10000) % 0x100) * 0x100 + (x / 0x100) % 0x100) * 0x100 + x
        % 0x100) == x) by (bit_vector);
}

/// Appends the 4 big-endian bytes of `x`.
fn push_u32_be(v: &mut Vec<u8>, x: u32)
    ensures
        final(v)@ == old(v)@ + spec_u32_be(x),
{
    v.push((x / 0x1000000) as u8);
    v.push(((x / 0x10000) % 0x100) as u8);
    v.push(((x / 0x100) % 0x100) as u8);
    v.push((x % 0x100) as u8);
    proof {
        assert(v@ =~= old(v)@ + spec_u32_be(x));
    }
}

/// Appends the 8 big-endian bytes of `x`.
fn push_u64_be(v: &mut Vec<u8>, x: u64)
    ensures
        final(v)@ == old(v)@ + spec_u64_be(x),
{
    v.push((x / 0x100000000000000) as u8);
    v.push(((x / 0x1000000000000) % 0x100) as u8);
    v.push(((x / 0x10000000000) % 0x100) as u8);
    v.push(((x / 0x100000000) % 0x100) as u8);
    v.push(((x / 0x1000000) % 0x100) as u8);
    v.push(((x / 0x10000) % 0x100) as u8);
    v.push(((x / 0x100) % 0x100) as u8);
    v.push((x % 0x100) as u8);
    proof {
        assert(v@ =~= old(v)@ + spec_u64_be(x));
    }
}

/// Reads a 32-bit big-endian value at `off`.
fn read_u32_be(b: &[u8], off: usize) -> (r: u32)
    requires
        off + 4 <= b@.len(),
    ensures
        r == spec_be32(b@.subrange(off as int, off as int + 4)),
{
    let r = (((b[off] as u32) * 0x100 + (b[off + 1] as u32)) * 0x100 + (b[off + 2] as u32)) * 0x100
        + (b[off + 3] as u32);
    proof {
        let s = b@.subrange(off as int, off as int + 4);
        assert(s[0] == b@[off as int] && s[1] == b@[off as int + 1] && s[2] == b@[off as int + 2]
            && s[3] == b@[off as int + 3]);
    }
    r
}

/// Reads a 64-bit big-endian value at `off`.
fn read_u64_be(b: &[u8], off: usize) -> (r: u64)
    requires
        off + 8 <= b@.len(),
    ensures
        r == spec_be64(b@.subrange(off as int, off as int + 8)),
{
    let r = (((((((b[off] as u64) * 0x100 + (b[off + 1] as u64)) * 0x100 + (b[off + 2] as u64))
        * 0x100 + (b[off + 3] as u64)) * 0x100 + (b[off + 4] as u64)) * 0x100 + (b[off
        + 5] as u64)) * 0x100 + (b[off + 6] as u64)) * 0x100 + (b[off + 7] as u64);
    proof {
        let s = b@.subrange(off as int, off as int + 8);
        assert(s[0] == b@[off as int] && s[1] == b@[off as int + 1] && s[2] == b@[off as int + 2]
            && s[3] == b@[off as int + 3] && s[4] == b@[off as int + 4] && s[5] == b@[off as int
            + 5] && s[6] == b@[off as int + 6] && s[7] == b@[off as int + 7]);
    }
    r
}

/// The 24 header bytes of a request.
pub open spec fn spec_request_header(m: RequestMessage) -> Seq<u8> {
    spec_u32_be(m.width) + spec_u32_be(m.height) + spec_u64_be(m.timestamp) + spec_u64_be(
        m.payload_length,
    )
}

/// The full wire bytes of a request: the 4-byte frame length (always 24,
/// covering exactly the header), the header, then the unframed payload.
pub open spec fn spec_request_wire(m: RequestMessage, payload: Seq<u8>) -> Seq<u8> {
    spec_u32_be(24) + spec_request_header(m) + payload
}

/// The big-endian byte run of a keypoint vector.
pub open spec fn spec_keypoints_bytes(ks: Seq<u32>) -> Seq<u8>
    decreases ks.len(),
{
    if ks.len() == 0 {
        Seq::empty()
    } else {
        spec_u32_be(ks[0]) + spec_keypoints_bytes(ks.skip(1))
    }
}

/// The full wire bytes of a response: the 4-byte frame length (always 212),
/// the echoed timestamp, then the keypoint values.
pub open spec fn spec_response_wire(m: ResponseMessage) -> Seq<u8> {
    spec_u32_be(212) + spec_u64_be(m.timestamp) + spec_keypoints_bytes(m.keypoints@)
}

/// A keypoint byte run is 4 bytes per value.
pub proof fn lemma_keypoints_bytes_len(ks: Seq<u32>)
    ensures
        spec_keypoints_bytes(ks).len() == 4 * ks.len(),
    decreases ks.len(),
{
    if ks.len() > 0 {
        lemma_keypoints_bytes_len(ks.skip(1));
    }
}

/// Extending the encoded prefix by one keypoint appends that keypoint's
/// bytes.
proof fn lemma_keypoints_bytes_snoc(ks: Seq<u32>, i: int)
    requires
        0 <= i < ks.len(),
    ensures
        spec_keypoints_bytes(ks.take(i + 1)) == spec_keypoints_bytes(ks.take(i)) + spec_u32_be(
            ks[i],
        ),
    decreases i,
{
    if i == 0 {
        assert(ks.take(1).skip(1) =~= Seq::<u32>::empty());
        assert(ks.take(0) =~= Seq::<u32>::empty());
        assert(spec_keypoints_bytes(ks.take(1)) =~= spec_keypoints_bytes(ks.take(0)) + spec_u32_be(
            ks[0],
        ));
    } else {
        let t = ks.skip(1);
        assert(ks.take(i + 1).skip(1) =~= t.take(i));
        assert(ks.take(i).skip(1) =~= t.take(i - 1));
        lemma_keypoints_bytes_snoc(t, i - 1);
        assert(ks.take(i + 1)[0] == ks[0] && ks.take(i)[0] == ks[0]);
        assert(spec_u32_be(ks[0]) + (spec_keypoints_bytes(t.take(i - 1)) + spec_u32_be(t[i - 1]))
            =~= (spec_u32_be(ks[0]) + spec_keypoints_bytes(t.take(i - 1))) + spec_u32_be(t[i
            - 1]));
    }
}

/// The bytes of keypoint `i` sit at offset `4 * i` of the encoded run.
proof fn lemma_keypoints_bytes_index(ks: Seq<u32>, i: int)
    requires
        0 <= i < ks.len(),
    ensures
        spec_keypoints_bytes(ks).subrange(4 * i, 4 * i + 4) == spec_u32_be(ks[i]),
    decreases i,
{
    lemma_keypoints_bytes_len(ks);
    lemma_keypoints_bytes_len(ks.skip(1));
    if i == 0 {
        assert(spec_keypoints_bytes(ks).subrange(0, 4) =~= spec_u32_be(ks[0]));
    } else {
        lemma_keypoints_bytes_index(ks.skip(1), i - 1);
        assert(spec_keypoints_bytes(ks).subrange(4 * i, 4 * i + 4) =~= spec_keypoints_bytes(
            ks.skip(1),
        ).subrange(4 * (i - 1), 4 * (i - 1) + 4));
    }
}

/// Encodes a request: frame length, header, then the payload bytes in
/// full. The header's `payload_length` is the payload's exact byte count.
pub fn encode_request(width: u32, height: u32, timestamp: u64, payload: &[u8]) -> (buf: Vec<u8>)
    ensures
        buf@ == spec_request_wire(
            RequestMessage {
                width,
                height,
                timestamp,
                payload_length: payload@.len() as u64,
            },
            payload@,
        ),
{
    let mut buf: Vec<u8> = Vec::new();
    push_u32_be(&mut buf, 24);
    push_u32_be(&mut buf, width);
    push_u32_be(&mut buf, height);
    push_u64_be(&mut buf, timestamp);
    push_u64_be(&mut buf, payload.len() as u64);
    buf.extend_from_slice(payload);
    proof {
        assert(buf@ =~= spec_request_wire(
            RequestMessage {
                width,
                height,
                timestamp,
                payload_length: payload@.len() as u64,
            },
            payload@,
        ));
    }
    buf
}

/// Decodes a request from the received bytes: the frame length must be
/// exactly the 24 header bytes, and exactly `payload_length` payload bytes
/// must follow the header. Returns the header, the payload, and how many
/// bytes of `buf` the request occupied; trailing bytes are left for the
/// next message. Any cut-short buffer is a `ShortRead`, a frame length
/// other than 24 a `BadLength`.
pub fn decode_request(buf: &[u8]) -> (r: Result<(RequestMessage, Vec<u8>, usize), ProtocolError>)
    ensures
        buf@.len() < 4 ==> r == Err::<(RequestMessage, Vec<u8>, usize), ProtocolError>(
            ProtocolError::ShortRead,
        ),
        buf@.len() >= 4 && spec_be32(buf@.subrange(0, 4)) != 24 ==> r == Err::<
            (RequestMessage, Vec<u8>, usize),
            ProtocolError,
        >(ProtocolError::BadLength),
        buf@.len() >= 4 && spec_be32(buf@.subrange(0, 4)) == 24 && buf@.len() < 28 ==> r == Err::<
            (RequestMessage, Vec<u8>, usize),
            ProtocolError,
        >(ProtocolError::ShortRead),
        buf@.len() >= 28 && spec_be32(buf@.subrange(0, 4)) == 24 && buf@.len() < 28 + spec_be64(
            buf@.subrange(20, 28),
        ) ==> r == Err::<(RequestMessage, Vec<u8>, usize), ProtocolError>(ProtocolError::ShortRead),
        r is Ok <==> buf@.len() >= 28 && spec_be32(buf@.subrange(0, 4)) == 24 && buf@.len() >= 28
            + spec_be64(buf@.subrange(20, 28)),
        r matches Ok((m, payload, used)) ==> {
            &&& m.width == spec_be32(buf@.subrange(4, 8))
            &&& m.height == spec_be32(buf@.subrange(8, 12))
            &&& m.timestamp == spec_be64(buf@.subrange(12, 20))
            &&& m.payload_length == spec_be64(buf@.subrange(20, 28))
            &&& payload@ == buf@.subrange(28, 28 + m.payload_length as int)
            &&& used == 28 + m.payload_length
        },
{
    if buf.len() < 4 {
        return Err(ProtocolError::ShortRead);
    }
    let frame_len = read_u32_be(buf, 0);
    if frame_len != 24 {
        return Err(ProtocolError::BadLength);
    }
    if buf.len() < 28 {
        return Err(ProtocolError::ShortRead);
    }
    let width = read_u32_be(buf, 4);
    let height = read_u32_be(buf, 8);
    let timestamp = read_u64_be(buf, 12);
    let payload_length = read_u64_be(buf, 20);
    if ((buf.len() - 28) as u64) < payload_length {
        return Err(ProtocolError::ShortRead);
    }
    let pl = payload_length as usize;
    let n = buf.len();
    let mut payload: Vec<u8> = Vec::new();
    let mut i: usize = 0;
    while i < pl
        invariant
            n == buf@.len(),
            pl + 28 <= n,
            i <= pl,
            payload@ == buf@.subrange(28, 28 + i as int),
        decreases pl - i,
    {
        payload.push(buf[28 + i]);
        proof {
            assert(payload@ =~= buf@.subrange(28, 28 + i + 1));
        }
        i = i + 1;
    }
    Ok((RequestMessage { width, height, timestamp, payload_length }, payload, 28 + pl))
}

/// Decodes a request's framed header alone, from the first 28 received
/// bytes: the frame length must be exactly the 24 header bytes. The
/// declared `payload_length` then says how many payload bytes the reader
/// must read next; the payload is not separately framed.
pub fn decode_request_header(buf: &[u8]) -> (r: Result<RequestMessage, ProtocolError>)
    ensures
        buf@.len() < 4 ==> r == Err::<RequestMessage, ProtocolError>(ProtocolError::ShortRead),
        buf@.len() >= 4 && spec_be32(buf@.subrange(0, 4)) != 24 ==> r == Err::<
            RequestMessage,
            ProtocolError,
        >(ProtocolError::BadLength),
        buf@.len() >= 4 && spec_be32(buf@.subrange(0, 4)) == 24 && buf@.len() < 28 ==> r == Err::<
            RequestMessage,
            ProtocolError,
        >(ProtocolError::ShortRead),
        r is Ok <==> buf@.len() >= 28 && spec_be32(buf@.subrange(0, 4)) == 24,
        r matches Ok(m) ==> {
            &&& m.width == spec_be32(buf@.subrange(4, 8))
            &&& m.height == spec_be32(buf@.subrange(8, 12))
            &&& m.timestamp == spec_be64(buf@.subrange(12, 20))
            &&& m.payload_length == spec_be64(buf@.subrange(20, 28))
        },
{
    if buf.len() < 4 {
        return Err(ProtocolError::ShortRead);
    }
    let frame_len = read_u32_be(buf, 0);
    if frame_len != 24 {
        return Err(ProtocolError::BadLength);
    }
    if buf.len() < 28 {
        return Err(ProtocolError::ShortRead);
    }
    let width = read_u32_be(buf, 4);
    let height = read_u32_be(buf, 8);
    let timestamp = read_u64_be(buf, 12);
    let payload_length = read_u64_be(buf, 20);
    Ok(RequestMessage { width, height, timestamp, payload_length })
}

/// Encoding then decoding a request reproduces every header field and the
/// payload bytes exactly: the wire bytes of a request with a matching
/// payload length form one well-formed frame whose parts read back as what
/// was written.
pub proof fn lemma_request_wire_roundtrip(m: RequestMessage, payload: Seq<u8>)
    requires
        m.payload_length == payload.len(),
    ensures
        spec_request_wire(m, payload).len() == 28 + payload.len(),
        spec_be32(spec_request_wire(m, payload).subrange(0, 4)) == 24,
        spec_be32(spec_request_wire(m, payload).subrange(4, 8)) == m.width,
        spec_be32(spec_request_wire(m, payload).subrange(8, 12)) == m.height,
        spec_be64(spec_request_wire(m, payload).subrange(12, 20)) == m.timestamp,
        spec_be64(spec_request_wire(m, payload).subrange(20, 28)) == m.payload_length,
        spec_request_wire(m, payload).subrange(28, spec_request_wire(m, payload).len() as int)
            == payload,
{
    let b = spec_request_wire(m, payload);
    assert(b.subrange(0, 4) =~= spec_u32_be(24));
    assert(b.subrange(4, 8) =~= spec_u32_be(m.width));
    assert(b.subrange(8, 12) =~= spec_u32_be(m.height));
    assert(b.subrange(12, 20) =~= spec_u64_be(m.timestamp));
    assert(b.subrange(20, 28) =~= spec_u64_be(m.payload_length));
    assert(b.subrange(28, b.len() as int) =~= payload);
    lemma_u32_be_roundtrip(24);
    lemma_u32_be_roundtrip(m.width);
    lemma_u32_be_roundtrip(m.height);
    lemma_u64_be_roundtrip(m.timestamp);
    lemma_u64_be_roundtrip(m.payload_length);
}

/// Encodes a response: frame length, echoed timestamp, then the keypoint
/// values.
pub fn encode_response(msg: &ResponseMessage) -> (buf: Vec<u8>)
    requires
        msg.wf(),
    ensures
        buf@ == spec_response_wire(*msg),
{
    let mut buf: Vec<u8> = Vec::new();
    push_u32_be(&mut buf, 212);
    push_u64_be(&mut buf, msg.timestamp);
    let mut i: usize = 0;
    while i < msg.keypoints.len()
        invariant
            i <= msg.keypoints@.len(),
            buf@ == spec_u32_be(212) + spec_u64_be(msg.timestamp) + spec_keypoints_bytes(
                msg.keypoints@.take(i as int),
            ),
        decreases msg.keypoints@.len() - i,
    {
        let ghost pre = buf@;
        push_u32_be(&mut buf, msg.keypoints[i]);
        proof {
            lemma_keypoints_bytes_snoc(msg.keypoints@, i as int);
            assert(buf@ =~= spec_u32_be(212) + spec_u64_be(msg.timestamp) + spec_keypoints_bytes(
                msg.keypoints@.take(i + 1),
            ));
        }
        i = i + 1;
    }
    proof {
        assert(msg.keypoints@.take(msg.keypoints@.len() as int) =~= msg.keypoints@);
    }
    buf
}

/// Decodes a response from the received bytes: the frame length must be
/// exactly the 212 body bytes (timestamp plus keypoints). Returns the
/// message and how many bytes of `buf` it occupied. A cut-short buffer is
/// a `ShortRead`, a frame length other than 212 a `BadLength`.
pub fn decode_response(buf: &[u8]) -> (r: Result<(ResponseMessage, usize), ProtocolError>)
    ensures
        buf@.len() < 4 ==> r == Err::<(ResponseMessage, usize), ProtocolError>(
            ProtocolError::ShortRead,
        ),
        buf@.len() >= 4 && spec_be32(buf@.subrange(0, 4)) != 212 ==> r == Err::<
            (ResponseMessage, usize),
            ProtocolError,
        >(ProtocolError::BadLength),
        buf@.len() >= 4 && spec_be32(buf@.subrange(0, 4)) == 212 && buf@.len() < 216 ==> r == Err::<
            (ResponseMessage, usize),
            ProtocolError,
        >(ProtocolError::ShortRead),
        r is Ok <==> buf@.len() >= 216 && spec_be32(buf@.subrange(0, 4)) == 212,
        r matches Ok((m, used)) ==> {
            &&& m.wf()
            &&& m.timestamp == spec_be64(buf@.subrange(4, 12))
            &&& forall|i: int|
                0 <= i < 51 ==> #[trigger] m.keypoints@[i] == spec_be32(
                    buf@.subrange(12 + 4 * i, 16 + 4 * i),
                )
            &&& used == 216
        },
{
    if buf.len() < 4 {
        return Err(ProtocolError::ShortRead);
    }
    let frame_len = read_u32_be(buf, 0);
    if frame_len != 212 {
        return Err(ProtocolError::BadLength);
    }
    if buf.len() < 216 {
        return Err(ProtocolError::ShortRead);
    }
    let timestamp = read_u64_be(buf, 4);
    let mut keypoints: Vec<u32> = Vec::new();
    let mut i: usize = 0;
    while i < KEYPOINT_COUNT
        invariant
            216 <= buf@.len(),
            i <= 51,
            keypoints@.len() == i,
            forall|j: int|
                0 <= j < i ==> #[trigger] keypoints@[j] == spec_be32(
                    buf@.subrange(12 + 4 * j, 16 + 4 * j),
                ),
        decreases 51 - i,
    {
        let k = read_u32_be(buf, 12 + 4 * i);
        keypoints.push(k);
        i = i + 1;
    }
    Ok((ResponseMessage { timestamp, keypoints }, 216))
}

/// Encoding then decoding a response reproduces the timestamp and every
/// keypoint value exactly: the wire bytes of a well-formed response form
/// one well-formed frame whose parts read back as what was written.
pub proof fn lemma_response_wire_roundtrip(m: ResponseMessage)
    requires
        m.wf(),
    ensures
        spec_response_wire(m).len() == 216,
        spec_be32(spec_response_wire(m).subrange(0, 4)) == 212,
        spec_be64(spec_response_wire(m).subrange(4, 12)) == m.timestamp,
        forall|i: int|
            0 <= i < 51 ==> spec_be32(spec_response_wire(m).subrange(12 + 4 * i, 16 + 4 * i))
                == #[trigger] m.keypoints@[i],
{
    let b = spec_response_wire(m);
    lemma_keypoints_bytes_len(m.keypoints@);
    assert(b.subrange(0, 4) =~= spec_u32_be(212));
    assert(b.subrange(4, 12) =~= spec_u64_be(m.timestamp));
    lemma_u32_be_roundtrip(212);
    lemma_u64_be_roundtrip(m.timestamp);
    assert forall|i: int| 0 <= i < 51 implies spec_be32(
        b.subrange(12 + 4 * i, 16 + 4 * i),
    ) == #[trigger] m.keypoints@[i] by {
        lemma_keypoints_bytes_index(m.keypoints@, i);
        assert(b.subrange(12 + 4 * i, 16 + 4 * i) =~= spec_keypoints_bytes(
            m.keypoints@,
        ).subrange(4 * i, 4 * i + 4));
        lemma_u32_be_roundtrip(m.keypoints@[i]);
    }
}

} // verus!
