//! The endpoint step functions: what each side of the link decides when
//! the next raw byte arrives.
//!
//! The surrounding application owns the transport. It reads bytes from the
//! wire and hands them, one at a time and in arrival order, to the step
//! function of its side; on a completed frame the step function decodes
//! the payload and hands back the typed message (or the decode failure)
//! for the application to act on.

use vstd::prelude::*;
use crate::codec::ArduinoToClientMessage;
use crate::codec::ClientToArduinoMessage;
use crate::codec::DecodeError;
use crate::codec::print_decode_post;
use crate::codec::spec_decode_client;
use crate::parser::MessageHandler;
use crate::parser::ParserModel;
use crate::parser::idle_model;
use crate::parser::spec_feed;

verus! {

/// The device-side application state: the parser for the host-to-device
/// direction of traffic.
pub struct App {
    message_handler: MessageHandler,
}

impl View for App {
    type V = ParserModel;

    closed spec fn view(&self) -> ParserModel {
        self.message_handler@
    }
}

impl App {
    /// The application's parser is in a reachable state.
    pub closed spec fn wf(&self) -> bool {
        self.message_handler.wf()
    }

    /// A fresh device application with no frame in progress. The caller
    /// configures the hardware (pins, serial peripheral) around it.
    pub fn new() -> (r: App)
        ensures
            r@ == idle_model(),
            r.wf(),
    {
        App { message_handler: MessageHandler::new() }
    }

    /// One step of the device's endpoint loop, driven by the next byte
    /// read from the serial line: feeds the byte to the frame parser and,
    /// when it completes a frame, decodes the payload as a command.
    /// Returns `None` while the frame is still in progress, and otherwise
    /// the decoded command or the reason the payload was dropped.
    pub fn run(&mut self, byte: u8) -> (r: Option<
        Result<ClientToArduinoMessage, DecodeError>,
    >)
        requires
            old(self).wf(),
        ensures
            final(self).wf(),
            final(self)@ == spec_feed(old(self)@, byte).0,
            (match spec_feed(old(self)@, byte).1 {
                Some(payload) => r == Some(spec_decode_client(payload)),
                None => r is None,
            }),
    {
        match self.message_handler.got_byte(byte) {
            Some(payload) => Some(ClientToArduinoMessage::decode(payload.as_slice())),
            None => None,
        }
    }
}

/// One step of the host's receive loop, driven by the next byte read from
/// the serial port: feeds the byte to the host's frame parser and, when it
/// completes a frame, decodes the payload as a device report. Returns
/// `None` while the frame is still in progress, and otherwise the decoded
/// report or the reason the payload was dropped.
pub fn on_new_byte(message_handler: &mut MessageHandler, byte: u8) -> (r: Option<
    Result<ArduinoToClientMessage, DecodeError>,
>)
    requires
        old(message_handler).wf(),
    ensures
        final(message_handler).wf(),
        final(message_handler)@ == spec_feed(old(message_handler)@, byte).0,
        r is Some <==> spec_feed(old(message_handler)@, byte).1 is Some,
        (match spec_feed(old(message_handler)@, byte).1 {
            Some(payload) => r matches Some(res) && print_decode_post(payload, res),
            None => r is None,
        }),
{
    match message_handler.got_byte(byte) {
        Some(payload) => Some(ArduinoToClientMessage::decode(payload.as_slice())),
        None => None,
    }
}

} // verus!
