//! The message codec: a compact binary encoding for the closed set of
//! message variants exchanged between the host controller ("client") and
//! the device ("arduino").
//!
//! Every variant encodes as its tag byte (assigned by declaration order,
//! starting at zero) followed by its fields in declaration order: a boolean
//! as exactly one byte, a text value as a one-byte length prefix followed
//! by that many UTF-8 code units. The same rules drive decoding, which
//! fails with [`DecodeError::UnknownTag`] on a tag with no matching
//! variant, [`DecodeError::Truncated`] when fewer bytes are present than
//! the field layout requires, and [`DecodeError::InvalidUtf8`] when a text
//! field's bytes are not valid UTF-8.

use vstd::prelude::*;
use vstd::utf8::decode_utf8;
use vstd::utf8::encode_utf8;
use vstd::utf8::encode_utf8_decode_utf8;
use vstd::utf8::encode_utf8_valid_utf8;
use vstd::utf8::valid_utf8;
use vstd::string::StrSliceExecFns;
use crate::frame::EncodeError;
use crate::frame::MAX_PAYLOAD_LEN;
use crate::frame::lemma_frame_strip_length;
use crate::frame::spec_frame_bytes;
use crate::frame::spec_strip_length;

verus! {

/// Tag byte of [`ClientToArduinoMessage::SetLed`], the first declared
/// variant of its direction.
pub const TAG_SET_LED: u8 = 0;

/// Tag byte of [`ArduinoToClientMessage::Print`], the first declared
/// variant of its direction.
pub const TAG_PRINT: u8 = 0;

/// Why a payload could not be decoded into a message.
#[derive(Clone, Copy, Debug, PartialEq, Eq, Structural)]
pub enum DecodeError {
    /// The payload's tag byte matches no declared variant.
    UnknownTag,
    /// The payload holds fewer bytes than its tag's field layout requires.
    Truncated,
    /// A text field's bytes are not valid UTF-8.
    InvalidUtf8,
}

/// A command sent from the host controller to the device.
#[derive(Clone, Debug, PartialEq, Eq, Structural)]
pub enum ClientToArduinoMessage {
    /// Drive the device's LED output line high (`true`) or low (`false`).
    SetLed(bool),
}

/// A report sent from the device to the host controller.
#[derive(Clone, Debug)]
pub enum ArduinoToClientMessage {
    /// A line of text for the host to log.
    Print(String),
}

/// A message that can be encoded into payload bytes for the wire.
///
/// Implementors fix, as the spec function [`Encodable::spec_payload`], the
/// exact byte sequence a value encodes to; `encode` must produce those
/// bytes whenever they fit a frame and must reject the value otherwise.
pub trait Encodable {
    /// The payload bytes this message encodes to.
    spec fn spec_payload(&self) -> Seq<u8>;

    /// Encodes the message into payload bytes, rejecting it when the
    /// payload would not fit a frame.
    fn encode(&self) -> (r: Result<Vec<u8>, EncodeError>)
        ensures
            r is Ok <==> 1 <= self.spec_payload().len() <= MAX_PAYLOAD_LEN,
            r matches Ok(p) ==> p@ == self.spec_payload(),
            r matches Err(e) ==> e == EncodeError::Oversized,
    ;
}

/// The payload a [`ClientToArduinoMessage`] encodes to: the variant's tag
/// byte, then the boolean as one byte.
pub open spec fn spec_set_led_payload(m: ClientToArduinoMessage) -> Seq<u8> {
    match m {
        ClientToArduinoMessage::SetLed(value) => seq![
            TAG_SET_LED,
            if value {
                1u8
            } else {
                0u8
            },
        ],
    }
}

/// The result of decoding a payload as a [`ClientToArduinoMessage`].
///
/// A boolean field reads any nonzero byte as `true`; the encoder itself
/// only ever emits `0` or `1`.
pub open spec fn spec_decode_client(payload: Seq<u8>) -> Result<
    ClientToArduinoMessage,
    DecodeError,
> {
    if payload.len() == 0 {
        Err(DecodeError::Truncated)
    } else if payload[0] != TAG_SET_LED {
        Err(DecodeError::UnknownTag)
    } else if payload.len() < 2 {
        Err(DecodeError::Truncated)
    } else {
        Ok(ClientToArduinoMessage::SetLed(payload[1] != 0))
    }
}

impl Encodable for ClientToArduinoMessage {
    open spec fn spec_payload(&self) -> Seq<u8> {
        spec_set_led_payload(*self)
    }

    /// Encodes the command; two bytes always fit a frame, so this never
    /// fails.
    fn encode(&self) -> (r: Result<Vec<u8>, EncodeError>)
        ensures
            r is Ok,
    {
        match self {
            ClientToArduinoMessage::SetLed(value) => {
                let mut payload: Vec<u8> = Vec::with_capacity(2);
                payload.push(TAG_SET_LED);
                payload.push(if *value { 1 } else { 0 });
                assert(payload@ =~= self.spec_payload());
                Ok(payload)
            },
        }
    }
}

impl ClientToArduinoMessage {
    /// Decodes a payload into a command: the tag byte, then the boolean
    /// field as one byte.
    pub fn decode(payload: &[u8]) -> (r: Result<ClientToArduinoMessage, DecodeError>)
        ensures
            r == spec_decode_client(payload@),
    {
        if payload.len() == 0 {
            Err(DecodeError::Truncated)
        } else if payload[0] != TAG_SET_LED {
            Err(DecodeError::UnknownTag)
        } else if payload.len() < 2 {
            Err(DecodeError::Truncated)
        } else {
            Ok(ClientToArduinoMessage::SetLed(payload[1] != 0))
        }
    }
}

/// Round trip for commands: stripping the length byte from the frame
/// built for an encoded command, and decoding what is left, gives the
/// command back.
pub proof fn lemma_round_trip_set_led(m: ClientToArduinoMessage)
    ensures
        spec_decode_client(spec_strip_length(spec_frame_bytes(m.spec_payload())))
            == Ok::<ClientToArduinoMessage, DecodeError>(m),
{
    lemma_frame_strip_length(m.spec_payload());
}

/// The payload an [`ArduinoToClientMessage::Print`] with text `text`
/// encodes to: the variant's tag byte, the text's UTF-8 length as one
/// byte, then the UTF-8 code units themselves.
pub open spec fn spec_print_payload(text: Seq<char>) -> Seq<u8> {
    seq![TAG_PRINT, encode_utf8(text).len() as u8] + encode_utf8(text)
}

/// Whether a payload has the shape of an encoded `Print`: the right tag
/// and at least as many bytes as its length prefix declares.
pub open spec fn spec_print_shape_ok(payload: Seq<u8>) -> bool {
    &&& payload.len() >= 2
    &&& payload[0] == TAG_PRINT
    &&& payload.len() >= 2 + payload[1]
}

/// The text field's bytes within a payload of `Print` shape: the bytes the
/// length prefix declares, after the tag and the prefix.
pub open spec fn spec_print_text_bytes(payload: Seq<u8>) -> Seq<u8> {
    payload.subrange(2, 2 + payload[1] as int)
}

/// The error decoding a payload as an [`ArduinoToClientMessage`] reports
/// when it fails.
pub open spec fn spec_print_decode_err(payload: Seq<u8>) -> DecodeError {
    if payload.len() == 0 {
        DecodeError::Truncated
    } else if payload[0] != TAG_PRINT {
        DecodeError::UnknownTag
    } else if payload.len() < 2 || payload.len() < 2 + payload[1] {
        DecodeError::Truncated
    } else {
        DecodeError::InvalidUtf8
    }
}

/// What decoding a payload as an [`ArduinoToClientMessage`] returns:
/// success exactly on payloads of `Print` shape whose text bytes are valid
/// UTF-8, the decoded text exactly those bytes' characters, and otherwise
/// the error [`spec_print_decode_err`] names.
pub open spec fn print_decode_post(
    payload: Seq<u8>,
    r: Result<ArduinoToClientMessage, DecodeError>,
) -> bool {
    &&& (r is Ok <==> spec_print_shape_ok(payload) && valid_utf8(spec_print_text_bytes(payload)))
    &&& (r matches Ok(m) ==> m matches ArduinoToClientMessage::Print(text) && text@ == decode_utf8(
        spec_print_text_bytes(payload),
    ))
    &&& (r matches Err(e) ==> e == spec_print_decode_err(payload))
}

/// Relies on `String::from_utf8`: it succeeds exactly when the bytes are a
/// valid UTF-8 encoding, and then returns the string of the characters
/// those bytes encode.
#[verifier::external_body]
fn string_from_utf8(bytes: Vec<u8>) -> (r: Option<String>)
    ensures
        r is Some <==> valid_utf8(bytes@),
        r matches Some(text) ==> text@ == decode_utf8(bytes@),
{
    String::from_utf8(bytes).ok()
}

impl Encodable for ArduinoToClientMessage {
    open spec fn spec_payload(&self) -> Seq<u8> {
        match self {
            ArduinoToClientMessage::Print(text) => spec_print_payload(text@),
        }
    }

    /// Encodes the report: tag byte, one-byte UTF-8 length, UTF-8 code
    /// units. Text whose encoding would overflow the frame is rejected.
    fn encode(&self) -> (r: Result<Vec<u8>, EncodeError>) {
        match self {
            ArduinoToClientMessage::Print(text) => {
                let bytes = text.as_str().as_bytes_vec();
                if bytes.len() > MAX_PAYLOAD_LEN - 2 {
                    return Err(EncodeError::Oversized);
                }
                let mut payload: Vec<u8> = Vec::with_capacity(bytes.len() + 2);
                payload.push(TAG_PRINT);
                payload.push(bytes.len() as u8);
                let mut i: usize = 0;
                while i < bytes.len()
                    invariant
                        i <= bytes@.len(),
                        bytes@.len() <= MAX_PAYLOAD_LEN - 2,
                        payload@ == seq![TAG_PRINT, bytes@.len() as u8] + bytes@.take(i as int),
                    decreases bytes@.len() - i,
                {
                    payload.push(bytes[i]);
                    assert(payload@ =~= seq![TAG_PRINT, bytes@.len() as u8] + bytes@.take(i + 1));
                    i = i + 1;
                }
                assert(payload@ =~= self.spec_payload());
                Ok(payload)
            },
        }
    }
}

impl ArduinoToClientMessage {
    /// Decodes a payload into a report: the tag byte, then the text field
    /// as a one-byte length prefix followed by that many UTF-8 code units.
    /// Bytes after the declared text length are ignored.
    pub fn decode(payload: &[u8]) -> (r: Result<ArduinoToClientMessage, DecodeError>)
        ensures
            print_decode_post(payload@, r),
    {
        if payload.len() == 0 {
            return Err(DecodeError::Truncated);
        }
        if payload[0] != TAG_PRINT {
            return Err(DecodeError::UnknownTag);
        }
        if payload.len() < 2 {
            return Err(DecodeError::Truncated);
        }
        let n = payload[1] as usize;
        if payload.len() - 2 < n {
            return Err(DecodeError::Truncated);
        }
        let mut bytes: Vec<u8> = Vec::with_capacity(n);
        let mut i: usize = 0;
        while i < n
            invariant
                i <= n,
                n <= 255,
                payload@.len() >= 2 + n,
                bytes@ == payload@.subrange(2, 2 + i as int),
            decreases n - i,
        {
            bytes.push(payload[2 + i]);
            assert(bytes@ =~= payload@.subrange(2, 2 + (i + 1) as int));
            i = i + 1;
        }
        assert(bytes@ =~= spec_print_text_bytes(payload@));
        match string_from_utf8(bytes) {
            Some(text) => Ok(ArduinoToClientMessage::Print(text)),
            None => Err(DecodeError::InvalidUtf8),
        }
    }
}

/// Round trip for representable reports: stripping the length byte from
/// the frame built for an encoded report leaves a payload of `Print`
/// shape whose text bytes are valid UTF-8 and decode to the original
/// characters — so decoding it yields `Ok`, and the decoded report's text
/// is the text that was encoded.
pub proof fn lemma_round_trip_print(text: Seq<char>)
    requires
        encode_utf8(text).len() <= MAX_PAYLOAD_LEN - 2,
    ensures
        spec_strip_length(spec_frame_bytes(spec_print_payload(text))) == spec_print_payload(text),
        spec_print_shape_ok(spec_print_payload(text)),
        valid_utf8(spec_print_text_bytes(spec_print_payload(text))),
        decode_utf8(spec_print_text_bytes(spec_print_payload(text))) == text,
{
    broadcast use encode_utf8_valid_utf8, encode_utf8_decode_utf8;

    lemma_frame_strip_length(spec_print_payload(text));
    assert(spec_print_text_bytes(spec_print_payload(text)) =~= encode_utf8(text));
}

} // verus!
