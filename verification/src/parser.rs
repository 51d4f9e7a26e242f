//! The frame parser: an incremental state machine that reconstructs
//! discrete frames from a stream of bytes delivered one at a time.
//!
//! While no frame is in progress, the next byte is read as the new frame's
//! declared payload length. The following bytes accumulate into a
//! fixed-capacity buffer until that many have arrived, at which point the
//! completed payload is emitted and the parser returns to waiting for a
//! length byte. The abstract behaviour is the pure step function
//! [`spec_feed`]; [`MessageHandler::got_byte`] implements exactly one such
//! step.

use vstd::prelude::*;
use crate::codec::Encodable;
use crate::frame::EncodeError;
use crate::frame::encode_frame;
use crate::frame::spec_frame_bytes;

verus! {

/// The parser's buffer capacity: large enough for any payload a one-byte
/// length prefix can declare.
pub const BUFFER_CAPACITY: usize = 255;

/// The abstract state of a frame parser.
pub struct ParserModel {
    /// The payload length the current frame's length byte declared; zero
    /// doubles as the sentinel "no frame in progress".
    pub expected: nat,
    /// The payload bytes accumulated so far for the current frame.
    pub stored: Seq<u8>,
}

/// The state of a parser with no frame in progress.
pub open spec fn idle_model() -> ParserModel {
    ParserModel { expected: 0, stored: Seq::empty() }
}

/// A parser state the parser can actually be in: nothing is stored while
/// idle, and a frame in progress still waits for at least one byte.
pub open spec fn model_wf(s: ParserModel) -> bool {
    if s.expected == 0 {
        s.stored.len() == 0
    } else {
        s.stored.len() < s.expected && s.expected <= BUFFER_CAPACITY
    }
}

/// One step of the parser: the next state, and the completed payload if
/// this byte finished a frame.
///
/// Idle (`expected == 0`): the byte is the new frame's declared payload
/// length; note that a zero byte leaves the parser idle, so a zero-length
/// payload is unrepresentable on the wire. Accumulating with more than one
/// byte missing: the byte is stored. Accumulating with exactly one byte
/// missing: the byte completes the payload, which is emitted, and the
/// parser returns to idle.
pub open spec fn spec_feed(s: ParserModel, byte: u8) -> (ParserModel, Option<Seq<u8>>) {
    if s.expected == 0 {
        (ParserModel { expected: byte as nat, stored: Seq::empty() }, None)
    } else if s.stored.len() + 1 < s.expected {
        (ParserModel { expected: s.expected, stored: s.stored.push(byte) }, None)
    } else {
        (idle_model(), Some(s.stored.push(byte)))
    }
}

/// The result of feeding a whole byte sequence, one byte at a time, from a
/// given state: the final state, and every completed payload in order of
/// completion.
pub open spec fn spec_feed_all(s: ParserModel, bytes: Seq<u8>) -> (ParserModel, Seq<Seq<u8>>)
    decreases bytes.len(),
{
    if bytes.len() == 0 {
        (s, Seq::empty())
    } else {
        let (mid, out) = spec_feed(s, bytes[0]);
        let (end, outs) = spec_feed_all(mid, bytes.drop_first());
        (
            end,
            match out {
                Some(payload) => seq![payload] + outs,
                None => outs,
            },
        )
    }
}

/// Feeding bytes in chunks is the same as feeding them one at a time: a
/// byte sequence split at any boundary, fed as two pieces, ends in the
/// same state and completes the same payloads in the same order as the
/// whole sequence fed at once.
pub proof fn lemma_feed_all_split(s: ParserModel, bytes: Seq<u8>, k: int)
    requires
        0 <= k <= bytes.len(),
    ensures
        spec_feed_all(s, bytes).0 == spec_feed_all(spec_feed_all(s, bytes.take(k)).0, bytes.skip(k)).0,
        spec_feed_all(s, bytes).1 == spec_feed_all(s, bytes.take(k)).1 + spec_feed_all(
            spec_feed_all(s, bytes.take(k)).0,
            bytes.skip(k),
        ).1,
    decreases k,
{
    if k == 0 {
        assert(bytes.take(0) =~= Seq::<u8>::empty());
        assert(bytes.skip(0) =~= bytes);
        assert(spec_feed_all(s, bytes).1 =~= Seq::<Seq<u8>>::empty() + spec_feed_all(s, bytes).1);
    } else {
        let (mid, out) = spec_feed(s, bytes[0]);
        let rest = bytes.drop_first();
        assert(bytes.take(k)[0] == bytes[0]);
        assert(bytes.take(k).drop_first() =~= rest.take(k - 1));
        assert(bytes.skip(k) =~= rest.skip(k - 1));
        lemma_feed_all_split(mid, rest, k - 1);
        match out {
            Some(payload) => {
                assert(seq![payload] + spec_feed_all(mid, rest).1 =~= (seq![payload]
                    + spec_feed_all(mid, rest.take(k - 1)).1) + spec_feed_all(
                    spec_feed_all(mid, rest.take(k - 1)).0,
                    rest.skip(k - 1),
                ).1);
            },
            None => {},
        }
    }
}

/// Feeding the remaining bytes of a frame in progress completes exactly
/// that frame's payload and returns the parser to idle.
proof fn lemma_feed_rest(s: ParserModel, rest: Seq<u8>)
    requires
        s.expected > 0,
        s.stored.len() + rest.len() == s.expected,
        rest.len() >= 1,
    ensures
        spec_feed_all(s, rest) == (idle_model(), seq![s.stored + rest]),
    decreases rest.len(),
{
    if rest.len() == 1 {
        reveal_with_fuel(spec_feed_all, 2);
        assert(s.stored.push(rest[0]) =~= s.stored + rest);
        assert(seq![s.stored + rest] + Seq::<Seq<u8>>::empty() =~= seq![s.stored + rest]);
    } else {
        let mid = ParserModel { expected: s.expected, stored: s.stored.push(rest[0]) };
        lemma_feed_rest(mid, rest.drop_first());
        assert(mid.stored + rest.drop_first() =~= s.stored + rest);
    }
}

/// Parsing a whole frame: feeding a frame's bytes — its length byte, then
/// its payload — to an idle parser completes exactly that payload and
/// leaves the parser idle again, ready for the next frame.
pub proof fn lemma_frame_feed(payload: Seq<u8>)
    requires
        1 <= payload.len() <= BUFFER_CAPACITY,
    ensures
        spec_feed_all(idle_model(), spec_frame_bytes(payload)) == (idle_model(), seq![payload]),
{
    let frame = spec_frame_bytes(payload);
    let (mid, out) = spec_feed(idle_model(), frame[0]);
    assert(frame.drop_first() =~= payload);
    lemma_feed_rest(mid, payload);
    assert(mid.stored + payload =~= payload);
}

/// A spurious byte ahead of well-formed traffic corrupts a bounded prefix
/// of it: the parser reads the noise byte as a length, swallows that many
/// of the following bytes as one garbage payload, and is then idle again,
/// parsing the rest of the stream in sync. If the swallowed bytes are
/// exactly the stream's first frame, exactly one frame is lost.
pub proof fn lemma_desync_bounded(noise: u8, bytes: Seq<u8>)
    requires
        noise >= 1,
        noise <= bytes.len(),
    ensures
        spec_feed_all(idle_model(), seq![noise] + bytes).0 == spec_feed_all(
            idle_model(),
            bytes.skip(noise as int),
        ).0,
        spec_feed_all(idle_model(), seq![noise] + bytes).1 == seq![bytes.take(noise as int)]
            + spec_feed_all(idle_model(), bytes.skip(noise as int)).1,
{
    let stream = seq![noise] + bytes;
    lemma_feed_all_split(idle_model(), stream, noise as int + 1);
    let head = stream.take(noise as int + 1);
    assert(head =~= seq![noise] + bytes.take(noise as int));
    assert(stream.skip(noise as int + 1) =~= bytes.skip(noise as int));
    let (mid, out) = spec_feed(idle_model(), noise);
    assert(head.drop_first() =~= bytes.take(noise as int));
    lemma_feed_rest(mid, bytes.take(noise as int));
    assert(mid.stored + bytes.take(noise as int) =~= bytes.take(noise as int));
    assert(seq![bytes.take(noise as int)] + Seq::<Seq<u8>>::empty() =~= seq![
        bytes.take(noise as int),
    ]);
}

/// The frame parser for one direction of traffic. It owns a fixed-capacity
/// buffer and is fed one byte per call, in arrival order; its abstract
/// state is a [`ParserModel`].
#[derive(Debug)]
pub struct MessageHandler {
    message: [u8; BUFFER_CAPACITY],
    next_index: u8,
    len: u8,
}

impl View for MessageHandler {
    type V = ParserModel;

    closed spec fn view(&self) -> ParserModel {
        ParserModel {
            expected: self.len as nat,
            stored: self.message@.take(self.next_index as int),
        }
    }
}

impl MessageHandler {
    /// The handler's representation matches a reachable parser state.
    pub open spec fn wf(&self) -> bool {
        model_wf(self@)
    }

    /// A fresh parser with no frame in progress.
    pub fn new() -> (r: MessageHandler)
        ensures
            r@ == idle_model(),
            r.wf(),
    {
        let r = MessageHandler { message: [0; BUFFER_CAPACITY], next_index: 0, len: 0 };
        assert(r@.stored =~= Seq::<u8>::empty());
        r
    }

    /// Feeds the next raw byte from the wire: one step of [`spec_feed`].
    /// Returns the completed payload when this byte finishes a frame, and
    /// `None` otherwise.
    ///
    /// There is no timeout or resynchronization: a frame that never
    /// completes holds partial state indefinitely, and a spurious byte on
    /// the line desynchronizes framing until the lengths happen to
    /// realign (see [`lemma_desync_bounded`]).
    pub fn got_byte(&mut self, byte: u8) -> (r: Option<Vec<u8>>)
        requires
            old(self).wf(),
        ensures
            final(self).wf(),
            final(self)@ == spec_feed(old(self)@, byte).0,
            r is Some <==> spec_feed(old(self)@, byte).1 is Some,
            r matches Some(payload) ==> spec_feed(old(self)@, byte).1 == Some(payload@),
    {
        if self.len == 0 {
            // Idle: the byte declares the next frame's payload length.
            self.len = byte;
            assert(final(self)@.stored =~= Seq::<u8>::empty());
            None
        } else if self.next_index < self.len - 1 {
            // Accumulating: store the byte, more are still missing.
            self.message[self.next_index as usize] = byte;
            self.next_index = self.next_index + 1;
            assert(final(self)@.stored =~= old(self)@.stored.push(byte));
            None
        } else {
            // Final byte: store it and emit the completed payload.
            self.message[self.next_index as usize] = byte;
            let n = self.len as usize;
            let ghost snapshot = self.message@;
            let mut payload: Vec<u8> = Vec::with_capacity(n);
            let mut i: usize = 0;
            while i < n
                invariant
                    i <= n,
                    n <= BUFFER_CAPACITY,
                    self.message@ == snapshot,
                    payload@ == snapshot.take(i as int),
                decreases n - i,
            {
                payload.push(self.message[i]);
                assert(payload@ =~= snapshot.take(i + 1));
                i = i + 1;
            }
            self.len = 0;
            self.next_index = 0;
            assert(final(self)@.stored =~= Seq::<u8>::empty());
            assert(payload@ =~= old(self)@.stored.push(byte));
            Some(payload)
        }
    }

    /// Encodes a message and wraps it in its wire frame, ready to send:
    /// the payload's length as one byte, then the payload bytes. Fails
    /// exactly when the message's payload would not fit a frame.
    pub fn create_message<T: Encodable>(message: T) -> (r: Result<Vec<u8>, EncodeError>)
        ensures
            r is Ok <==> 1 <= message.spec_payload().len() <= crate::frame::MAX_PAYLOAD_LEN,
            r matches Ok(f) ==> f@ == spec_frame_bytes(message.spec_payload()),
            r matches Err(e) ==> e == EncodeError::Oversized,
    {
        match message.encode() {
            Ok(payload) => encode_frame(payload.as_slice()),
            Err(e) => Err(e),
        }
    }
}

} // verus!
