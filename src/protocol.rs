//! Messages and their envelope: `[type_id : u8][body]`, carried as the payload
//! of one frame.

use vstd::prelude::*;
use crate::frame::{be64, from_be64, get_u64, put_u64, FrameError};
use crate::operation::OperationKind;

verus! {

pub const MSG_TYPE_OPERATION: u8 = 1;

pub const MSG_TYPE_SYNC_DOCUMENT: u8 = 2;

pub const MSG_TYPE_PING: u8 = 3;

pub const MSG_TYPE_PONG: u8 = 4;

/// An edit as a client sends it.
#[derive(Clone, Debug)]
pub struct OperationProto {
    pub op_id: u64,
    pub kind: Option<OperationKind>,
    pub doc_id: String,
    pub client_id: String,
    pub client_version: u64,
    pub server_version: u64,
    pub new_content: String,
}

/// A full snapshot of the document.
#[derive(Clone, Debug, PartialEq)]
pub struct SyncDocumentProto {
    pub doc_id: String,
    pub content: String,
    pub version: u64,
}

/// Server-to-client and client-to-server messages.
#[derive(Clone, Debug)]
pub enum ServerMessage {
    Operation(OperationProto),
    SyncDocument(SyncDocumentProto),
    Ping(u64),
    Pong(u64),
}

impl ServerMessage {
    pub fn get_message_type_id(&self) -> (r: u8)
        ensures
            r == match self {
                ServerMessage::Operation(_) => MSG_TYPE_OPERATION,
                ServerMessage::SyncDocument(_) => MSG_TYPE_SYNC_DOCUMENT,
                ServerMessage::Ping(_) => MSG_TYPE_PING,
                ServerMessage::Pong(_) => MSG_TYPE_PONG,
            },
    {
        match self {
            ServerMessage::Operation(_) => MSG_TYPE_OPERATION,
            ServerMessage::SyncDocument(_) => MSG_TYPE_SYNC_DOCUMENT,
            ServerMessage::Ping(_) => MSG_TYPE_PING,
            ServerMessage::Pong(_) => MSG_TYPE_PONG,
        }
    }
}

/// A message with its body as bytes: operation and snapshot bodies are kept
/// in their schema encoding, heartbeat bodies are decoded.
#[derive(Clone, Debug, PartialEq, Eq)]
pub enum Envelope {
    Operation(Vec<u8>),
    SyncDocument(Vec<u8>),
    Ping(u64),
    Pong(u64),
}

/// The type byte and body of an envelope.
pub open spec fn envelope_parts(e: Envelope) -> (u8, Seq<u8>) {
    match e {
        Envelope::Operation(b) => (MSG_TYPE_OPERATION, b@),
        Envelope::SyncDocument(b) => (MSG_TYPE_SYNC_DOCUMENT, b@),
        Envelope::Ping(s) => (MSG_TYPE_PING, be64(s)),
        Envelope::Pong(s) => (MSG_TYPE_PONG, be64(s)),
    }
}

/// The encoded form of a message of type `t` with body `body`.
pub open spec fn envelope_bytes(t: u8, body: Seq<u8>) -> Seq<u8> {
    seq![t] + body
}

/// What decoding `bytes` gives: `None` where they are empty, carry an
/// unknown type, or a heartbeat body shorter than 8 bytes.
pub open spec fn decode_model(bytes: Seq<u8>) -> Option<(u8, Seq<u8>)> {
    if bytes.len() < 1 {
        None
    } else {
        let t = bytes[0];
        let body = bytes.subrange(1, bytes.len() as int);
        if t == MSG_TYPE_OPERATION || t == MSG_TYPE_SYNC_DOCUMENT {
            Some((t, body))
        } else if t == MSG_TYPE_PING || t == MSG_TYPE_PONG {
            if body.len() < 8 {
                None
            } else {
                Some((t, be64(from_be64(body))))
            }
        } else {
            None
        }
    }
}

/// Decoding an encoded envelope gives back its type and body.
pub proof fn lemma_envelope_round_trip(e: Envelope)
    ensures
        decode_model(envelope_bytes(envelope_parts(e).0, envelope_parts(e).1)) == Some(
            envelope_parts(e),
        ),
{
    let (t, body) = envelope_parts(e);
    let bytes = envelope_bytes(t, body);
    assert(bytes[0] == t);
    assert(bytes.subrange(1, bytes.len() as int) =~= body);
    match e {
        Envelope::Ping(s) | Envelope::Pong(s) => {
            lemma_be64_round_trip(s);
        },
        _ => {},
    }
}

/// Reading back the big-endian bytes of `n` gives `n`.
pub proof fn lemma_be64_round_trip(n: u64)
    ensures
        from_be64(be64(n)) == n,
{
    let b = be64(n);
    let (b0, b1, b2, b3, b4, b5, b6, b7) = (b[0], b[1], b[2], b[3], b[4], b[5], b[6], b[7]);
    assert(b0 == ((n >> 56u64) & 0xffu64) as u8 && b1 == ((n >> 48u64) & 0xffu64) as u8 && b2
        == ((n >> 40u64) & 0xffu64) as u8 && b3 == ((n >> 32u64) & 0xffu64) as u8 && b4 == ((n
        >> 24u64) & 0xffu64) as u8 && b5 == ((n >> 16u64) & 0xffu64) as u8 && b6 == ((n >> 8u64)
        & 0xffu64) as u8 && b7 == (n & 0xffu64) as u8);
    assert(((b0 as u64) << 56u64) | ((b1 as u64) << 48u64) | ((b2 as u64) << 40u64) | ((
    b3 as u64) << 32u64) | ((b4 as u64) << 24u64) | ((b5 as u64) << 16u64) | ((b6 as u64)
        << 8u64) | (b7 as u64) == n) by (bit_vector)
        requires
            b0 == ((n >> 56u64) & 0xffu64) as u8,
            b1 == ((n >> 48u64) & 0xffu64) as u8,
            b2 == ((n >> 40u64) & 0xffu64) as u8,
            b3 == ((n >> 32u64) & 0xffu64) as u8,
            b4 == ((n >> 24u64) & 0xffu64) as u8,
            b5 == ((n >> 16u64) & 0xffu64) as u8,
            b6 == ((n >> 8u64) & 0xffu64) as u8,
            b7 == (n & 0xffu64) as u8,
    ;
}

fn copy_bytes(out: &mut Vec<u8>, b: &[u8], from: usize)
    requires
        from <= b@.len(),
    ensures
        final(out)@ == old(out)@ + b@.subrange(from as int, b@.len() as int),
{
    let mut i = from;
    while i < b.len()
        invariant
            from <= i <= b@.len(),
            out@ == old(out)@ + b@.subrange(from as int, i as int),
        decreases b@.len() - i,
    {
        out.push(b[i]);
        i = i + 1;
        assert(out@ =~= old(out)@ + b@.subrange(from as int, i as int));
    }
}

impl Envelope {
    /// The type byte, then the body.
    pub fn encode(&self) -> (r: Vec<u8>)
        ensures
            r@ == envelope_bytes(envelope_parts(*self).0, envelope_parts(*self).1),
    {
        let mut out: Vec<u8> = Vec::new();
        match self {
            Envelope::Operation(b) | Envelope::SyncDocument(b) => {
                let t = if matches!(self, Envelope::Operation(_)) {
                    MSG_TYPE_OPERATION
                } else {
                    MSG_TYPE_SYNC_DOCUMENT
                };
                out.push(t);
                copy_bytes(&mut out, b.as_slice(), 0);
                assert(b@.subrange(0, b@.len() as int) =~= b@);
            },
            Envelope::Ping(s) | Envelope::Pong(s) => {
                let t = if matches!(self, Envelope::Ping(_)) {
                    MSG_TYPE_PING
                } else {
                    MSG_TYPE_PONG
                };
                out.push(t);
                put_u64(&mut out, *s);
            },
        }
        assert(out@ =~= envelope_bytes(envelope_parts(*self).0, envelope_parts(*self).1));
        out
    }

    /// Reads an envelope from a frame's payload; heartbeat bodies are read
    /// from their first 8 bytes.
    pub fn decode(frame_bytes: &[u8]) -> (r: Result<Envelope, FrameError>)
        ensures
            match decode_model(frame_bytes@) {
                Some(p) => r is Ok && envelope_parts(r->Ok_0) == p,
                None => r is Err && r->Err_0 is Protocol,
            },
    {
        if frame_bytes.len() < 1 {
            return Err(FrameError::Protocol(String::from_str("message without a type")));
        }
        let type_id = frame_bytes[0];
        if type_id == MSG_TYPE_OPERATION || type_id == MSG_TYPE_SYNC_DOCUMENT {
            let mut body: Vec<u8> = Vec::new();
            copy_bytes(&mut body, frame_bytes, 1);
            if type_id == MSG_TYPE_OPERATION {
                Ok(Envelope::Operation(body))
            } else {
                Ok(Envelope::SyncDocument(body))
            }
        } else if type_id == MSG_TYPE_PING || type_id == MSG_TYPE_PONG {
            if frame_bytes.len() < 9 {
                return Err(FrameError::Protocol(String::from_str("heartbeat body too short")));
            }
            let mut body: Vec<u8> = Vec::new();
            copy_bytes(&mut body, frame_bytes, 1);
            let seq = get_u64(body.as_slice());
            if type_id == MSG_TYPE_PING {
                Ok(Envelope::Ping(seq))
            } else {
                Ok(Envelope::Pong(seq))
            }
        } else {
            Err(FrameError::Protocol(String::from_str("unknown message type")))
        }
    }
}

} // verus!
