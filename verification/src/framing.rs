//! Framing of messages on the reliable streams between client and server.
//!
//! A stream starts with an 8-byte setup frame naming what it carries. After
//! that, every message is one frame: its length as 8 little-endian bytes,
//! then that many bytes of payload.
use vstd::prelude::*;

verus! {

/// Why framing failed. The variants that come from the transport or the
/// payload codec only record where it failed.
#[derive(Clone, Copy, Debug)]
pub enum FramingError {
    /// Reading from the stream failed.
    ReadExactError,
    /// Writing to the stream failed.
    WriteError,
    /// The payload could not be decoded.
    DecodeError,
    /// The setup frame was not the expected one: (received, expected).
    InvalidSetupFrame([u8; 8], [u8; 8]),
    /// No setup frame arrived in time.
    SetupTimeout,
    /// The connection failed.
    ConnectionError,
}

/// The value of 8 little-endian bytes.
pub open spec fn le_value(b: Seq<u8>) -> int
    recommends
        b.len() == 8,
{
    b[0] + 256 * b[1] + 65536 * b[2] + 16777216 * b[3] + 4294967296 * b[4] + 1099511627776 * b[5]
        + 281474976710656 * b[6] + 72057594037927936 * b[7]
}

/// The 8 little-endian bytes of `n`.
pub open spec fn le_bytes(n: u64) -> Seq<u8> {
    seq![
        (n & 0xff) as u8,
        ((n >> 8u64) & 0xff) as u8,
        ((n >> 16u64) & 0xff) as u8,
        ((n >> 24u64) & 0xff) as u8,
        ((n >> 32u64) & 0xff) as u8,
        ((n >> 40u64) & 0xff) as u8,
        ((n >> 48u64) & 0xff) as u8,
        ((n >> 56u64) & 0xff) as u8,
    ]
}

proof fn lemma_le_roundtrip(n: u64)
    ensures
        le_value(le_bytes(n)) == n,
{
    let b0 = (n & 0xff) as u8;
    let b1 = ((n >> 8u64) & 0xff) as u8;
    let b2 = ((n >> 16u64) & 0xff) as u8;
    let b3 = ((n >> 24u64) & 0xff) as u8;
    let b4 = ((n >> 32u64) & 0xff) as u8;
    let b5 = ((n >> 40u64) & 0xff) as u8;
    let b6 = ((n >> 48u64) & 0xff) as u8;
    let b7 = ((n >> 56u64) & 0xff) as u8;
    assert(b0 + 256 * b1 + 65536 * b2 + 16777216 * b3 + 4294967296 * b4 + 1099511627776 * b5
        + 281474976710656 * b6 + 72057594037927936 * b7 == n) by (bit_vector)
        requires
            b0 == (n & 0xff) as u8,
            b1 == ((n >> 8u64) & 0xff) as u8,
            b2 == ((n >> 16u64) & 0xff) as u8,
            b3 == ((n >> 24u64) & 0xff) as u8,
            b4 == ((n >> 32u64) & 0xff) as u8,
            b5 == ((n >> 40u64) & 0xff) as u8,
            b6 == ((n >> 48u64) & 0xff) as u8,
            b7 == ((n >> 56u64) & 0xff) as u8,
    ;
}

/// The length that a frame header announces.
pub fn frame_length(header: [u8; 8]) -> (n: u64)
    ensures
        n == le_value(header@),
{
    let b0 = header[0];
    let b1 = header[1];
    let b2 = header[2];
    let b3 = header[3];
    let b4 = header[4];
    let b5 = header[5];
    let b6 = header[6];
    let b7 = header[7];
    let n: u64 = (b0 as u64) | ((b1 as u64) << 8u64) | ((b2 as u64) << 16u64) | ((b3 as u64)
        << 24u64) | ((b4 as u64) << 32u64) | ((b5 as u64) << 40u64) | ((b6 as u64) << 48u64) | ((
    b7 as u64) << 56u64);
    assert(n == b0 + 256 * b1 + 65536 * b2 + 16777216 * b3 + 4294967296 * b4 + 1099511627776 * b5
        + 281474976710656 * b6 + 72057594037927936 * b7) by (bit_vector)
        requires
            n == (b0 as u64) | ((b1 as u64) << 8u64) | ((b2 as u64) << 16u64) | ((b3 as u64)
                << 24u64) | ((b4 as u64) << 32u64) | ((b5 as u64) << 40u64) | ((b6 as u64)
                << 48u64) | ((b7 as u64) << 56u64),
    ;
    n
}

/// The header of a frame whose payload is `n` bytes long.
pub fn frame_header(n: u64) -> (h: [u8; 8])
    ensures
        h@ == le_bytes(n),
        le_value(h@) == n,
{
    let h: [u8; 8] = [
        (n & 0xff) as u8,
        ((n >> 8u64) & 0xff) as u8,
        ((n >> 16u64) & 0xff) as u8,
        ((n >> 24u64) & 0xff) as u8,
        ((n >> 32u64) & 0xff) as u8,
        ((n >> 40u64) & 0xff) as u8,
        ((n >> 48u64) & 0xff) as u8,
        ((n >> 56u64) & 0xff) as u8,
    ];
    proof {
        assert(h@ =~= le_bytes(n));
        lemma_le_roundtrip(n);
    }
    h
}

/// The bytes of one frame carrying `payload`.
pub open spec fn frame_of(payload: Seq<u8>) -> Seq<u8> {
    le_bytes(payload.len() as u64) + payload
}

/// Encodes one frame carrying `payload`.
pub fn encode_frame(payload: &[u8]) -> (out: Vec<u8>)
    ensures
        out@ == frame_of(payload@),
{
    let header = frame_header(payload.len() as u64);
    let mut out: Vec<u8> = Vec::new();
    let mut i: usize = 0;
    while i < 8
        invariant
            i <= 8,
            out@ == header@.take(i as int),
        decreases 8 - i,
    {
        out.push(header[i]);
        proof {
            assert(header@.take(i + 1) =~= header@.take(i as int).push(header@[i as int]));
        }
        i = i + 1;
    }
    let mut j: usize = 0;
    while j < payload.len()
        invariant
            j <= payload@.len(),
            out@ == header@ + payload@.take(j as int),
        decreases payload@.len() - j,
    {
        out.push(payload[j]);
        proof {
            assert(payload@.take(j + 1) =~= payload@.take(j as int).push(payload@[j as int]));
        }
        j = j + 1;
    }
    proof {
        assert(header@.take(8) =~= header@);
        assert(payload@.take(j as int) =~= payload@);
    }
    out
}

/// The outcome of looking for one frame at the start of a buffer.
#[derive(Debug)]
pub enum FrameDecode {
    /// The buffer does not hold a whole frame yet.
    Incomplete,
    /// A whole frame: its payload and how many bytes it took.
    Frame { payload: Vec<u8>, consumed: usize },
}

/// Whether `buf` starts with a whole frame.
pub open spec fn holds_frame(buf: Seq<u8>) -> bool {
    buf.len() >= 8 && buf.len() - 8 >= le_value(buf.take(8))
}

/// Reads one frame from the start of `buf`.
pub fn decode_frame(buf: &[u8]) -> (r: FrameDecode)
    ensures
        holds_frame(buf@) ==> (r matches FrameDecode::Frame { payload, consumed } && consumed == 8
            + le_value(buf@.take(8)) && payload@ == buf@.subrange(8, consumed as int)),
        !holds_frame(buf@) ==> r is Incomplete,
{
    if buf.len() < 8 {
        return FrameDecode::Incomplete;
    }
    let header: [u8; 8] = [buf[0], buf[1], buf[2], buf[3], buf[4], buf[5], buf[6], buf[7]];
    proof {
        assert(header@ =~= buf@.take(8));
    }
    let n = frame_length(header);
    let available = (buf.len() - 8) as u64;
    if available < n {
        return FrameDecode::Incomplete;
    }
    let n = n as usize;
    let mut payload: Vec<u8> = Vec::new();
    let mut i: usize = 0;
    while i < n
        invariant
            i <= n,
            8 + n <= buf@.len(),
            buf@.len() == buf.len(),
            payload@ == buf@.subrange(8, 8 + i as int),
        decreases n - i,
    {
        payload.push(buf[8 + i]);
        proof {
            assert(buf@.subrange(8, 8 + i + 1) =~= buf@.subrange(8, 8 + i as int).push(
                buf@[8 + i as int],
            ));
        }
        i = i + 1;
    }
    FrameDecode::Frame { payload, consumed: 8 + n }
}

/// A frame reads back as the payload it was made from, whatever follows it
/// in the buffer.
pub proof fn frame_roundtrip(payload: Seq<u8>, rest: Seq<u8>)
    requires
        payload.len() <= u64::MAX,
    ensures
        holds_frame(frame_of(payload) + rest),
        le_value((frame_of(payload) + rest).take(8)) == payload.len(),
        (frame_of(payload) + rest).subrange(8, 8 + payload.len() as int) == payload,
{
    lemma_le_roundtrip(payload.len() as u64);
    let buf = frame_of(payload) + rest;
    assert(buf.take(8) =~= le_bytes(payload.len() as u64));
    assert(buf.subrange(8, 8 + payload.len() as int) =~= payload);
}

/// Checks the setup frame that opens a stream.
pub fn check_setup_frame(received: [u8; 8], expected: [u8; 8]) -> (r: Result<(), FramingError>)
    ensures
        received@ == expected@ <==> r is Ok,
        r matches Err(e) ==> (e matches FramingError::InvalidSetupFrame(a, b) && a@ == received@
            && b@ == expected@),
{
    let mut i: usize = 0;
    while i < 8
        invariant
            i <= 8,
            received@.take(i as int) == expected@.take(i as int),
        decreases 8 - i,
    {
        if received[i] != expected[i] {
            proof {
                assert(received@[i as int] != expected@[i as int]);
            }
            return Err(FramingError::InvalidSetupFrame(received, expected));
        }
        proof {
            assert(received@.take(i + 1) =~= received@.take(i as int).push(received@[i as int]));
            assert(expected@.take(i + 1) =~= expected@.take(i as int).push(expected@[i as int]));
        }
        i = i + 1;
    }
    proof {
        assert(received@.take(8) =~= received@);
        assert(expected@.take(8) =~= expected@);
    }
    Ok(())
}

/// The streams that a connection opens, each named by its setup frame.
#[derive(Clone, Copy, PartialEq, Eq, Structural, Debug)]
pub enum StreamKind {
    Heartbeat,
    ConfigurationUp,
    ConfigurationDown,
    Calibration,
    AppUp,
    AppDown,
}

/// The setup frame of each stream: "heartbee", "configur", "confetti",
/// "calibrat", "app_up__" and "app_down".
pub open spec fn spec_stream_id(k: StreamKind) -> Seq<u8> {
    match k {
        StreamKind::Heartbeat => seq![104u8, 101, 97, 114, 116, 98, 101, 101],
        StreamKind::ConfigurationUp => seq![99u8, 111, 110, 102, 105, 103, 117, 114],
        StreamKind::ConfigurationDown => seq![99u8, 111, 110, 102, 101, 116, 116, 105],
        StreamKind::Calibration => seq![99u8, 97, 108, 105, 98, 114, 97, 116],
        StreamKind::AppUp => seq![97u8, 112, 112, 95, 117, 112, 95, 95],
        StreamKind::AppDown => seq![97u8, 112, 112, 95, 100, 111, 119, 110],
    }
}

impl StreamKind {
    /// The setup frame of the stream.
    pub fn id(&self) -> (r: [u8; 8])
        ensures
            r@ == spec_stream_id(*self),
    {
        let r: [u8; 8] = match self {
            StreamKind::Heartbeat => [104u8, 101, 97, 114, 116, 98, 101, 101],
            StreamKind::ConfigurationUp => [99u8, 111, 110, 102, 105, 103, 117, 114],
            StreamKind::ConfigurationDown => [99u8, 111, 110, 102, 101, 116, 116, 105],
            StreamKind::Calibration => [99u8, 97, 108, 105, 98, 114, 97, 116],
            StreamKind::AppUp => [97u8, 112, 112, 95, 117, 112, 95, 95],
            StreamKind::AppDown => [97u8, 112, 112, 95, 100, 111, 119, 110],
        };
        proof {
            assert(r@ =~= spec_stream_id(*self));
        }
        r
    }
}

/// No two streams share a setup frame, so a stream cannot be mistaken for
/// another.
pub proof fn stream_ids_distinct(a: StreamKind, b: StreamKind)
    requires
        a != b,
    ensures
        spec_stream_id(a) != spec_stream_id(b),
{
    let sa = spec_stream_id(a);
    let sb = spec_stream_id(b);
    if sa == sb {
        assert(sa[0] == sb[0] && sa[3] == sb[3] && sa[4] == sb[4] && sa[5] == sb[5]);
    }
}

} // verus!
