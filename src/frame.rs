//! Length-prefixed frames: `[length : u32 big-endian][payload : length bytes]`.

use vstd::prelude::*;
use std::sync::Arc;

verus! {

/// The largest payload a frame may carry: 1 MiB.
pub const MAX_PAYLOAD_BYTES: usize = 1048576;

#[verifier::external_type_specification]
#[verifier::external_body]
pub struct ExIoError(std::io::Error);

/// Why a frame could not be read.
#[derive(Debug)]
pub enum FrameError {
    Io(std::io::Error),
    Disconnected,
    PayloadTooLarge(usize, usize),
    Protocol(String),
}

/// The four big-endian bytes of `n`.
pub open spec fn be32(n: u32) -> Seq<u8> {
    seq![
        ((n >> 24u32) & 0xffu32) as u8,
        ((n >> 16u32) & 0xffu32) as u8,
        ((n >> 8u32) & 0xffu32) as u8,
        (n & 0xffu32) as u8,
    ]
}

/// The integer whose big-endian bytes are `b[0..4]`.
pub open spec fn from_be32(b: Seq<u8>) -> u32
    recommends
        b.len() >= 4,
{
    ((b[0] as u32) << 24u32) | ((b[1] as u32) << 16u32) | ((b[2] as u32) << 8u32) | (b[3] as u32)
}

/// The eight big-endian bytes of `n`.
pub open spec fn be64(n: u64) -> Seq<u8> {
    seq![
        ((n >> 56u64) & 0xffu64) as u8,
        ((n >> 48u64) & 0xffu64) as u8,
        ((n >> 40u64) & 0xffu64) as u8,
        ((n >> 32u64) & 0xffu64) as u8,
        ((n >> 24u64) & 0xffu64) as u8,
        ((n >> 16u64) & 0xffu64) as u8,
        ((n >> 8u64) & 0xffu64) as u8,
        (n & 0xffu64) as u8,
    ]
}

/// The integer whose big-endian bytes are `b[0..8]`.
pub open spec fn from_be64(b: Seq<u8>) -> u64
    recommends
        b.len() >= 8,
{
    ((b[0] as u64) << 56u64) | ((b[1] as u64) << 48u64) | ((b[2] as u64) << 40u64) | ((
    b[3] as u64) << 32u64) | ((b[4] as u64) << 24u64) | ((b[5] as u64) << 16u64) | ((
    b[6] as u64) << 8u64) | (b[7] as u64)
}

/// Appends the big-endian bytes of `n` to `out`.
pub fn put_u32(out: &mut Vec<u8>, n: u32)
    ensures
        final(out)@ == old(out)@ + be32(n),
{
    out.push(((n >> 24u32) & 0xffu32) as u8);
    out.push(((n >> 16u32) & 0xffu32) as u8);
    out.push(((n >> 8u32) & 0xffu32) as u8);
    out.push((n & 0xffu32) as u8);
    assert(final(out)@ =~= old(out)@ + be32(n));
}

/// Appends the big-endian bytes of `n` to `out`.
pub fn put_u64(out: &mut Vec<u8>, n: u64)
    ensures
        final(out)@ == old(out)@ + be64(n),
{
    out.push(((n >> 56u64) & 0xffu64) as u8);
    out.push(((n >> 48u64) & 0xffu64) as u8);
    out.push(((n >> 40u64) & 0xffu64) as u8);
    out.push(((n >> 32u64) & 0xffu64) as u8);
    out.push(((n >> 24u64) & 0xffu64) as u8);
    out.push(((n >> 16u64) & 0xffu64) as u8);
    out.push(((n >> 8u64) & 0xffu64) as u8);
    out.push((n & 0xffu64) as u8);
    assert(final(out)@ =~= old(out)@ + be64(n));
}

/// Reads the big-endian integer at the start of `b`.
pub fn get_u32(b: &[u8]) -> (r: u32)
    requires
        b@.len() >= 4,
    ensures
        r == from_be32(b@),
{
    ((b[0] as u32) << 24u32) | ((b[1] as u32) << 16u32) | ((b[2] as u32) << 8u32) | (b[3] as u32)
}

/// Reads the big-endian integer at the start of `b`.
pub fn get_u64(b: &[u8]) -> (r: u64)
    requires
        b@.len() >= 8,
    ensures
        r == from_be64(b@),
{
    ((b[0] as u64) << 56u64) | ((b[1] as u64) << 48u64) | ((b[2] as u64) << 40u64) | ((
    b[3] as u64) << 32u64) | ((b[4] as u64) << 24u64) | ((b[5] as u64) << 16u64) | ((
    b[6] as u64) << 8u64) | (b[7] as u64)
}

/// One frame's payload, without its length prefix.
#[derive(Debug, Clone)]
pub struct Frame {
    pub payload: Vec<u8>,
}

impl Frame {
    /// The size of the frame on the wire: the prefix and the payload.
    pub fn total_len(&self) -> (r: usize)
        requires
            self.payload@.len() + 4 <= usize::MAX,
        ensures
            r == 4 + self.payload@.len(),
    {
        4 + self.payload.len()
    }

    /// A shared frame holding `payload`.
    pub fn new_arc(payload: Vec<u8>) -> (r: Arc<Frame>)
        ensures
            r.payload@ == payload@,
    {
        Arc::new(Frame { payload })
    }
}

/// The reading side of a connection: turns a length prefix into the size of
/// the payload that follows.
pub struct Reader;

impl Reader {
    /// The payload length that `prefix` announces, refused above
    /// `MAX_PAYLOAD_BYTES`. A length of 0 is an empty frame.
    pub fn payload_length(prefix: [u8; 4]) -> (r: Result<usize, FrameError>)
        ensures
            from_be32(prefix@) as int <= MAX_PAYLOAD_BYTES ==> r == Ok::<usize, FrameError>(
                from_be32(prefix@) as usize,
            ),
            from_be32(prefix@) as int > MAX_PAYLOAD_BYTES ==> match r {
                Err(FrameError::PayloadTooLarge(n, m)) => n == from_be32(prefix@) as usize && m
                    == MAX_PAYLOAD_BYTES,
                _ => false,
            },
    {
        let length = get_u32(prefix.as_slice()) as usize;
        if length > MAX_PAYLOAD_BYTES {
            return Err(FrameError::PayloadTooLarge(length, MAX_PAYLOAD_BYTES));
        }
        Ok(length)
    }
}

/// The writing side of a connection: puts the length prefix before a payload.
pub struct Writer;

impl Writer {
    /// The bytes that carry `frame` on the wire: its length, then its payload.
    pub fn wire_bytes(frame: &Frame) -> (r: Vec<u8>)
        requires
            frame.payload@.len() <= u32::MAX,
        ensures
            r@ == be32(frame.payload@.len() as u32) + frame.payload@,
    {
        let mut out: Vec<u8> = Vec::new();
        put_u32(&mut out, frame.payload.len() as u32);
        let mut i: usize = 0;
        while i < frame.payload.len()
            invariant
                i <= frame.payload@.len(),
                out@ == be32(frame.payload@.len() as u32) + frame.payload@.subrange(0, i as int),
            decreases frame.payload@.len() - i,
        {
            out.push(frame.payload[i]);
            i = i + 1;
            assert(out@ =~= be32(frame.payload@.len() as u32) + frame.payload@.subrange(0, i as int));
        }
        assert(frame.payload@.subrange(0, i as int) =~= frame.payload@);
        out
    }
}

} // verus!
