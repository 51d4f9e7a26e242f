use serial_codec::ArduinoToClientMessage;
use serial_codec::ClientToArduinoMessage;
use serial_codec::DecodeError;
use serial_codec::Encodable;
use serial_codec::EncodeError;
use serial_codec::MessageHandler;
use serial_codec::encode_frame;

fn feed_all(handler: &mut MessageHandler, bytes: &[u8]) -> Vec<Vec<u8>> {
    let mut payloads = Vec::new();
    for byte in bytes {
        if let Some(payload) = handler.got_byte(*byte) {
            payloads.push(payload);
        }
    }
    payloads
}

#[test]
fn scenario_set_output() {
    // SetLed(true): payload = [tag 0, bool byte 1], frame = [length 2, 0, 1].
    let message = ClientToArduinoMessage::SetLed(true);
    let payload = message.encode().unwrap();
    assert_eq!(payload, vec![0x00, 0x01]);

    let frame = MessageHandler::create_message(message).unwrap();
    assert_eq!(frame, vec![0x02, 0x00, 0x01]);

    let mut handler = MessageHandler::new();
    assert_eq!(handler.got_byte(0x02), None);
    assert_eq!(handler.got_byte(0x00), None);
    let completed = handler.got_byte(0x01).expect("frame should complete");
    assert_eq!(completed, vec![0x00, 0x01]);

    let decoded = ClientToArduinoMessage::decode(&completed).unwrap();
    assert_eq!(decoded, ClientToArduinoMessage::SetLed(true));
}

#[test]
fn scenario_print_hi() {
    // Print("hi"): payload = [tag 0, text length 2, 'h', 'i'],
    // frame = [length 4, 0, 2, 0x68, 0x69].
    let message = ArduinoToClientMessage::Print(String::from("hi"));
    let payload = message.encode().unwrap();
    assert_eq!(payload, vec![0x00, 0x02, 0x68, 0x69]);

    let frame = MessageHandler::create_message(message).unwrap();
    assert_eq!(frame, vec![0x04, 0x00, 0x02, 0x68, 0x69]);
}

#[test]
fn round_trip_set_led() {
    for value in [false, true] {
        let frame = MessageHandler::create_message(ClientToArduinoMessage::SetLed(value)).unwrap();
        let decoded = ClientToArduinoMessage::decode(&frame[1..]).unwrap();
        assert_eq!(decoded, ClientToArduinoMessage::SetLed(value));
    }
}

#[test]
fn round_trip_print_multibyte() {
    // Text with two- and three-byte UTF-8 code points.
    let text = "héllo ☃!";
    let frame = MessageHandler::create_message(ArduinoToClientMessage::Print(String::from(text)))
        .unwrap();
    let mut handler = MessageHandler::new();
    let payloads = feed_all(&mut handler, &frame);
    assert_eq!(payloads.len(), 1);
    match ArduinoToClientMessage::decode(&payloads[0]).unwrap() {
        ArduinoToClientMessage::Print(decoded) => assert_eq!(decoded, text),
    }
}

#[test]
fn minimum_frame() {
    // A length byte of 1 and a single payload byte complete a frame.
    let mut handler = MessageHandler::new();
    assert_eq!(handler.got_byte(0x01), None);
    assert_eq!(handler.got_byte(0xAB), Some(vec![0xAB]));
}

#[test]
fn maximum_frame() {
    let payload: Vec<u8> = (0..254u16).map(|i| i as u8).collect();
    let frame = encode_frame(&payload).unwrap();
    assert_eq!(frame.len(), 255);
    assert_eq!(frame[0], 254);

    let mut handler = MessageHandler::new();
    let payloads = feed_all(&mut handler, &frame);
    assert_eq!(payloads, vec![payload]);
}

#[test]
fn length_255_unreachable_from_encoder() {
    // The encoder's own limit keeps 255 from ever appearing as a length byte.
    let payload = vec![0u8; 255];
    assert_eq!(encode_frame(&payload), Err(EncodeError::Oversized));
}

#[test]
fn oversized_print_rejected() {
    // Tag and text-length bytes leave room for 252 bytes of text.
    let long = ArduinoToClientMessage::Print("a".repeat(253));
    assert_eq!(
        MessageHandler::create_message(long).unwrap_err(),
        EncodeError::Oversized
    );

    let largest = ArduinoToClientMessage::Print("a".repeat(252));
    let frame = MessageHandler::create_message(largest).unwrap();
    assert_eq!(frame[0], 254);
    assert_eq!(frame.len(), 255);
}

#[test]
fn incremental_feed_equals_split_feed() {
    let mut stream: Vec<u8> = Vec::new();
    stream.extend_from_slice(&MessageHandler::create_message(ClientToArduinoMessage::SetLed(true)).unwrap());
    stream.extend_from_slice(&MessageHandler::create_message(ClientToArduinoMessage::SetLed(false)).unwrap());

    let mut whole = MessageHandler::new();
    let expected = feed_all(&mut whole, &stream);

    // The same bytes split at every boundary, fed as two chunks.
    for split in 0..=stream.len() {
        let mut handler = MessageHandler::new();
        let mut payloads = feed_all(&mut handler, &stream[..split]);
        payloads.extend(feed_all(&mut handler, &stream[split..]));
        assert_eq!(payloads, expected);
    }
}

#[test]
fn desync_loses_one_frame() {
    // A spurious byte equal to the first frame's total size swallows that
    // frame as garbage; the parser is back in sync for the second frame.
    let frame = MessageHandler::create_message(ClientToArduinoMessage::SetLed(true)).unwrap();
    let mut stream: Vec<u8> = vec![0x03];
    stream.extend_from_slice(&frame);
    stream.extend_from_slice(&frame);

    let mut handler = MessageHandler::new();
    let payloads = feed_all(&mut handler, &stream);
    assert_eq!(payloads.len(), 2);
    // The first emitted payload is the swallowed frame, not a real payload:
    // decoding drops it as an unknown tag (its first byte is the length 2).
    assert_eq!(payloads[0], vec![0x02, 0x00, 0x01]);
    assert_eq!(
        ClientToArduinoMessage::decode(&payloads[0]),
        Err(DecodeError::UnknownTag)
    );
    // The second frame survives untouched.
    assert_eq!(
        ClientToArduinoMessage::decode(&payloads[1]),
        Ok(ClientToArduinoMessage::SetLed(true))
    );
}

#[test]
fn unknown_tag_then_parser_ready() {
    let mut handler = MessageHandler::new();
    // A one-byte payload whose tag matches no variant.
    assert_eq!(handler.got_byte(0x01), None);
    let bad = handler.got_byte(0x07).expect("frame should complete");
    assert_eq!(ClientToArduinoMessage::decode(&bad), Err(DecodeError::UnknownTag));
    // The parser is already idle again and parses the next frame.
    let payloads = feed_all(&mut handler, &[0x02, 0x00, 0x01]);
    assert_eq!(payloads, vec![vec![0x00, 0x01]]);
}

#[test]
fn truncated_payloads() {
    assert_eq!(ClientToArduinoMessage::decode(&[]), Err(DecodeError::Truncated));
    assert_eq!(ClientToArduinoMessage::decode(&[0x00]), Err(DecodeError::Truncated));
    assert!(ArduinoToClientMessage::decode(&[]).unwrap_err() == DecodeError::Truncated);
    assert!(ArduinoToClientMessage::decode(&[0x00]).unwrap_err() == DecodeError::Truncated);
    // Length prefix declares three text bytes but only one is present.
    assert!(ArduinoToClientMessage::decode(&[0x00, 0x03, 0x61]).unwrap_err() == DecodeError::Truncated);
}

#[test]
fn invalid_utf8_rejected() {
    let err = ArduinoToClientMessage::decode(&[0x00, 0x02, 0xFF, 0xFE]).unwrap_err();
    assert!(err == DecodeError::InvalidUtf8);
}

#[test]
fn nonzero_bool_byte_reads_as_true() {
    // The decoder is lenient: any nonzero boolean byte means true, though
    // the encoder itself only emits 0 or 1.
    let decoded = ClientToArduinoMessage::decode(&[0x00, 0x02]).unwrap();
    assert_eq!(decoded, ClientToArduinoMessage::SetLed(true));
}

#[test]
fn partial_frame_persists() {
    // No timeout: a frame in progress waits indefinitely for its bytes.
    let mut handler = MessageHandler::new();
    assert_eq!(handler.got_byte(0x03), None);
    assert_eq!(handler.got_byte(0x00), None);
    assert_eq!(handler.got_byte(0x01), None);
    assert_eq!(handler.got_byte(0x02), Some(vec![0x00, 0x01, 0x02]));
}
