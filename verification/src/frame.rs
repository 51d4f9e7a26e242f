//! The frame encoder: builds the outbound wire frame for a payload.
//!
//! A frame is one length byte followed by exactly that many payload bytes.
//! The length byte caps a payload at [`MAX_PAYLOAD_LEN`] bytes; oversized
//! payloads are rejected at this boundary rather than aborting the caller.

use vstd::prelude::*;

verus! {

/// The largest payload a frame may carry. One byte is reserved for the
/// length prefix, and the whole frame must fit the parser's buffer of 255
/// bytes, so a payload holds at most 254 bytes.
pub const MAX_PAYLOAD_LEN: usize = 254;

/// Why a message or payload could not be turned into a wire frame.
#[derive(Clone, Copy, Debug, PartialEq, Eq, Structural)]
pub enum EncodeError {
    /// The encoded payload would not fit behind a one-byte length prefix
    /// within the frame limit of [`MAX_PAYLOAD_LEN`] bytes.
    Oversized,
}

/// The wire frame that carries `payload`: its length as one byte, then the
/// payload bytes themselves.
pub open spec fn spec_frame_bytes(payload: Seq<u8>) -> Seq<u8> {
    seq![payload.len() as u8] + payload
}

/// The payload carried by a wire frame: everything after the length byte.
pub open spec fn spec_strip_length(frame: Seq<u8>) -> Seq<u8> {
    frame.drop_first()
}

/// Stripping the length byte from the frame built for a payload gives that
/// payload back.
pub proof fn lemma_frame_strip_length(payload: Seq<u8>)
    ensures
        spec_strip_length(spec_frame_bytes(payload)) == payload,
{
    assert(spec_strip_length(spec_frame_bytes(payload)) =~= payload);
}

/// Builds the outbound wire frame for an already encoded payload:
/// `[payload.len() as one byte][payload bytes]`.
///
/// A payload longer than [`MAX_PAYLOAD_LEN`] is rejected. The empty payload
/// is excluded by precondition: a length byte of zero would be read by the
/// receiving parser as "no frame in progress", so every message schema
/// guarantees at least one payload byte.
pub fn encode_frame(payload: &[u8]) -> (r: Result<Vec<u8>, EncodeError>)
    requires
        payload@.len() >= 1,
    ensures
        r is Ok <==> payload@.len() <= MAX_PAYLOAD_LEN,
        r matches Ok(f) ==> f@ == spec_frame_bytes(payload@),
        r matches Err(e) ==> e == EncodeError::Oversized,
{
    if payload.len() > MAX_PAYLOAD_LEN {
        return Err(EncodeError::Oversized);
    }
    let mut frame: Vec<u8> = Vec::with_capacity(payload.len() + 1);
    frame.push(payload.len() as u8);
    let mut i: usize = 0;
    while i < payload.len()
        invariant
            i <= payload@.len(),
            payload@.len() <= MAX_PAYLOAD_LEN,
            frame@ == seq![payload@.len() as u8] + payload@.take(i as int),
        decreases payload@.len() - i,
    {
        frame.push(payload[i]);
        assert(frame@ =~= seq![payload@.len() as u8] + payload@.take(i + 1));
        i = i + 1;
    }
    assert(frame@ =~= spec_frame_bytes(payload@));
    Ok(frame)
}

} // verus!
