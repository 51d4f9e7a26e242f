//! A verified framing and codec layer for a byte-oriented serial link.
//!
//! Two endpoints — a small device and a host controller — exchange typed
//! messages over a raw serial line. Each message is encoded into a payload
//! of bytes, and each payload travels inside a frame consisting of one
//! length byte followed by that many payload bytes. This crate verifies the
//! three pieces with algorithmic content:
//!
//! - the frame parser ([`MessageHandler`]), an incremental state machine
//!   that is fed one byte at a time and emits each completed payload;
//! - the message codec, which encodes and decodes the closed set of
//!   message variants ([`ClientToArduinoMessage`], [`ArduinoToClientMessage`]);
//! - the frame encoder, which prepends the length byte to a payload.
//!
//! Transport I/O (opening the port, reading and writing bytes) is left to
//! the surrounding application, which drives the verified step functions
//! here with the bytes it receives.

pub mod codec;
pub mod endpoint;
pub mod frame;
pub mod parser;

pub use endpoint::App;
pub use endpoint::on_new_byte;

pub use codec::ArduinoToClientMessage;
pub use codec::ClientToArduinoMessage;
pub use codec::DecodeError;
pub use codec::Encodable;
pub use frame::EncodeError;
pub use frame::encode_frame;
pub use parser::MessageHandler;
