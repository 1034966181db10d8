//! Framing of agent messages: a 4-byte big-endian length, then that many
//! bytes of JSON.

use vstd::prelude::*;
use crate::error::prefixed;
use crate::numbers::{decimal_string, decimal_text};
use crate::text::push_str;

verus! {

/// Largest payload accepted (16 MiB), against malformed length prefixes.
pub const MAX_MESSAGE_SIZE: u32 = 16 * 1024 * 1024;

/// Errors of the agent wire protocol.
#[derive(Debug, PartialEq, Eq)]
pub enum TransportError {
    /// An I/O failure; holds its message.
    Io(String),
    /// A JSON failure; holds its message.
    Json(String),
    /// A length prefix above `MAX_MESSAGE_SIZE`.
    MessageTooLarge(u32),
    /// The peer closed the connection before a new message began.
    ConnectionClosed,
}

/// The message of a transport error.
pub open spec fn transport_error_text(e: TransportError) -> Seq<char> {
    match e {
        TransportError::Io(m) => "i/o error: "@ + m@,
        TransportError::Json(m) => "json error: "@ + m@,
        TransportError::MessageTooLarge(n) =>
            "message too large: "@ + decimal_text(n as nat) + " bytes (max 16777216)"@,
        TransportError::ConnectionClosed => "connection closed"@,
    }
}

impl TransportError {
    /// The human-readable message.
    pub fn message(&self) -> (s: String)
        ensures
            s@ == transport_error_text(*self),
    {
        match self {
            TransportError::Io(m) => prefixed("i/o error: ", m.as_str()),
            TransportError::Json(m) => prefixed("json error: ", m.as_str()),
            TransportError::MessageTooLarge(n) => {
                let mut s = "message too large: ".to_owned();
                push_str(&mut s, decimal_string(*n as u64).as_str());
                push_str(&mut s, " bytes (max 16777216)");
                s
            },
            TransportError::ConnectionClosed => "connection closed".to_owned(),
        }
    }
}

/// The four bytes of `n`, most significant first.
pub open spec fn be_bytes(n: u32) -> Seq<u8> {
    seq![(n >> 24u32) as u8, (n >> 16u32) as u8, (n >> 8u32) as u8, n as u8]
}

/// The number whose big-endian bytes are `b0 b1 b2 b3`.
pub open spec fn be_value(b0: u8, b1: u8, b2: u8, b3: u8) -> u32 {
    ((b0 as u32) << 24u32) | ((b1 as u32) << 16u32) | ((b2 as u32) << 8u32) | (b3 as u32)
}

/// The frame of a payload: its length as 32 bits in big-endian order, then
/// the payload.
pub open spec fn spec_frame(payload: Seq<u8>) -> Seq<u8> {
    be_bytes(payload.len() as u32) + payload
}

/// The length a too-large payload is reported with: its own, or the
/// largest 32-bit number when it does not fit in 32 bits.
pub open spec fn reported_length(len: nat) -> u32 {
    if len > u32::MAX { u32::MAX } else { len as u32 }
}

/// The frame of a payload within `MAX_MESSAGE_SIZE`; a larger payload is
/// refused with `MessageTooLarge`, as a reader refuses its prefix.
pub open spec fn spec_encode_frame(payload: Seq<u8>) -> Result<Seq<u8>, TransportError> {
    if payload.len() > MAX_MESSAGE_SIZE {
        Err(TransportError::MessageTooLarge(reported_length(payload.len())))
    } else {
        Ok(spec_frame(payload))
    }
}

/// Frames a payload for the wire; a payload above `MAX_MESSAGE_SIZE` is
/// refused with `MessageTooLarge`.
pub fn encode_frame(payload: &[u8]) -> (r: Result<Vec<u8>, TransportError>)
    ensures
        match spec_encode_frame(payload@) {
            Ok(f) => r matches Ok(v) && v@ == f,
            Err(e) => r == Err::<Vec<u8>, TransportError>(e),
        },
{
    if payload.len() > MAX_MESSAGE_SIZE as usize {
        let n: u32 = if payload.len() > u32::MAX as usize { u32::MAX } else { payload.len() as u32 };
        return Err(TransportError::MessageTooLarge(n));
    }
    let n = payload.len() as u32;
    let mut out: Vec<u8> = Vec::new();
    out.push((n >> 24u32) as u8);
    out.push((n >> 16u32) as u8);
    out.push((n >> 8u32) as u8);
    out.push(n as u8);
    let mut i: usize = 0;
    while i < payload.len()
        invariant
            i <= payload@.len(),
            n == payload@.len() as u32,
            out@ == be_bytes(n) + payload@.subrange(0, i as int),
        decreases payload@.len() - i,
    {
        out.push(payload[i]);
        assert(payload@.subrange(0, i + 1) =~= payload@.subrange(0, i as int).push(payload@[i as int]));
        i = i + 1;
    }
    assert(payload@.subrange(0, payload@.len() as int) =~= payload@);
    Ok(out)
}

/// The payload length announced by a 4-byte prefix, if it is within
/// `MAX_MESSAGE_SIZE`.
pub open spec fn spec_frame_length(prefix: Seq<u8>) -> Result<u32, TransportError> {
    let n = be_value(prefix[0], prefix[1], prefix[2], prefix[3]);
    if n > MAX_MESSAGE_SIZE {
        Err(TransportError::MessageTooLarge(n))
    } else {
        Ok(n)
    }
}

/// Reads the length prefix of a frame; a length above `MAX_MESSAGE_SIZE` is
/// refused with `MessageTooLarge`.
pub fn frame_length(prefix: &[u8; 4]) -> (r: Result<u32, TransportError>)
    ensures
        r == spec_frame_length(prefix@),
{
    let n: u32 = ((prefix[0] as u32) << 24u32) | ((prefix[1] as u32) << 16u32) | ((prefix[2] as u32) << 8u32)
        | (prefix[3] as u32);
    if n > MAX_MESSAGE_SIZE {
        Err(TransportError::MessageTooLarge(n))
    } else {
        Ok(n)
    }
}

/// The error for a failed read: running out of input before a length prefix
/// means the peer closed the connection; any other failure is an I/O error.
pub fn read_failure(in_prefix: bool, unexpected_eof: bool, message: String) -> (e: TransportError)
    ensures
        in_prefix && unexpected_eof ==> e == TransportError::ConnectionClosed,
        !(in_prefix && unexpected_eof) ==> e == TransportError::Io(message),
{
    if in_prefix && unexpected_eof {
        TransportError::ConnectionClosed
    } else {
        TransportError::Io(message)
    }
}

/// Every frame that can be written can be read back: its prefix gives the
/// payload's length and the payload follows it.
pub proof fn law_frame_roundtrip(payload: Seq<u8>, frame: Seq<u8>)
    requires
        spec_encode_frame(payload) == Ok::<Seq<u8>, TransportError>(frame),
    ensures
        spec_frame_length(frame.take(4)) == Ok::<u32, TransportError>(payload.len() as u32),
        frame.skip(4) == payload,
{
    let n = payload.len() as u32;
    let f = spec_frame(payload);
    assert(f.take(4) =~= be_bytes(n));
    assert(f.skip(4) =~= payload);
    assert(be_value((n >> 24u32) as u8, (n >> 16u32) as u8, (n >> 8u32) as u8, n as u8) == n) by (bit_vector);
}

} // verus!
