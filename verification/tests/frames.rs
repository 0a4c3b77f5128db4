use session_rs::text::to_decimal;
use session_rs::ws::codec::{
    decode_frame, encode_frame, FrameFault, RawFrame, OP_BINARY, OP_CLOSE,
    OP_CONTINUATION, OP_PING, OP_PONG, OP_TEXT,
};
use session_rs::ws::{Assembler, Error, Frame, ReadOutcome, Reply, WebSocket};

fn invalid_frame_text(outcome: &ReadOutcome) -> String {
    match outcome {
        ReadOutcome::Failed(Error::InvalidFrame(m)) => m.clone(),
        other => panic!("expected an invalid frame, got {:?}", other),
    }
}

fn fragment(fin: bool, opcode: u8, payload: &[u8], key: [u8; 4]) -> Vec<u8> {
    let mut bytes = encode_frame(opcode, payload, Some(key));
    if !fin {
        bytes[0] &= 0x7F;
    }
    bytes
}

#[test]
fn decimal_numerals() {
    assert_eq!(to_decimal(0), "0");
    assert_eq!(to_decimal(7), "7");
    assert_eq!(to_decimal(10), "10");
    assert_eq!(to_decimal(4294967295), "4294967295");
    assert_eq!(to_decimal(u64::MAX), "18446744073709551615");
}

#[test]
fn unmasked_text_frame_bytes() {
    let bytes = encode_frame(OP_TEXT, b"Hello", None);
    assert_eq!(bytes, vec![0x81, 0x05, 0x48, 0x65, 0x6c, 0x6c, 0x6f]);
}

#[test]
fn masked_text_frame_bytes() {
    let bytes = encode_frame(OP_TEXT, b"Hello", Some([0x37, 0xfa, 0x21, 0x3d]));
    assert_eq!(
        bytes,
        vec![0x81, 0x85, 0x37, 0xfa, 0x21, 0x3d, 0x7f, 0x9f, 0x4d, 0x51, 0x58]
    );
}

#[test]
fn empty_control_frames() {
    assert_eq!(encode_frame(OP_PING, &[], None), vec![0x89, 0x00]);
    assert_eq!(encode_frame(OP_PONG, &[], None), vec![0x8A, 0x00]);
    assert_eq!(encode_frame(OP_CLOSE, &[], None), vec![0x88, 0x00]);
    assert_eq!(
        encode_frame(OP_CLOSE, &[], Some([1, 2, 3, 4])),
        vec![0x88, 0x80, 1, 2, 3, 4]
    );
}

#[test]
fn length_field_forms() {
    let short = encode_frame(OP_BINARY, &[0u8; 125], None);
    assert_eq!(&short[..2], &[0x82, 125]);
    assert_eq!(short.len(), 2 + 125);

    let medium = encode_frame(OP_BINARY, &[0u8; 126], None);
    assert_eq!(&medium[..4], &[0x82, 126, 0x00, 0x7E]);
    assert_eq!(medium.len(), 4 + 126);

    let widest_medium = encode_frame(OP_BINARY, &vec![0u8; 65535], Some([9, 9, 9, 9]));
    assert_eq!(&widest_medium[..4], &[0x82, 126 | 0x80, 0xFF, 0xFF]);
    assert_eq!(widest_medium.len(), 4 + 4 + 65535);

    let long = encode_frame(OP_BINARY, &vec![0u8; 65536], None);
    assert_eq!(&long[..10], &[0x82, 127, 0, 0, 0, 0, 0, 1, 0, 0]);
    assert_eq!(long.len(), 10 + 65536);

    let longer = encode_frame(OP_BINARY, &vec![7u8; 0x01020304], None);
    assert_eq!(&longer[..10], &[0x82, 127, 0, 0, 0, 0, 1, 2, 3, 4]);
}

#[test]
fn masking_xors_with_the_key() {
    let payload: Vec<u8> = (0..=255u8).collect();
    let key = [0xde, 0xad, 0xbe, 0xef];
    let bytes = encode_frame(OP_BINARY, &payload, Some(key));
    assert_eq!(&bytes[..8], &[0x82, 126 | 0x80, 0x01, 0x00, 0xde, 0xad, 0xbe, 0xef]);
    let body = &bytes[8..];
    assert_eq!(body.len(), 256);
    for (i, b) in body.iter().enumerate() {
        assert_eq!(*b, payload[i] ^ key[i % 4]);
    }
    let (raw, _) = decode_frame(&bytes, true).unwrap().unwrap();
    assert_eq!(raw.payload, payload);
}

#[test]
fn frame_round_trip() {
    let sizes = [0usize, 1, 5, 125, 126, 127, 300, 65535, 65536, 70000];
    for &size in sizes.iter() {
        let payload: Vec<u8> = (0..size).map(|i| (i % 251) as u8).collect();
        for &opcode in [OP_TEXT, OP_BINARY].iter() {
            for key in [None, Some([0x11, 0x22, 0x33, 0x44])] {
                let bytes = encode_frame(opcode, &payload, key);
                let (raw, used) = decode_frame(&bytes, false).unwrap().unwrap();
                assert!(raw.fin);
                assert_eq!(raw.opcode, opcode);
                assert_eq!(raw.payload, payload);
                assert_eq!(used, bytes.len());
            }
        }
    }
}

#[test]
fn decode_waits_for_whole_frame() {
    let bytes = encode_frame(OP_BINARY, &vec![3u8; 300], Some([1, 2, 3, 4]));
    for cut in [0usize, 1, 2, 3, 4, 7, 8, 100, bytes.len() - 1] {
        assert!(decode_frame(&bytes[..cut], true).unwrap().is_none());
    }
    assert!(decode_frame(&bytes, true).unwrap().is_some());
}

#[test]
fn decode_leaves_what_follows() {
    let mut bytes = encode_frame(OP_TEXT, b"one", None);
    let first = bytes.len();
    bytes.extend_from_slice(&encode_frame(OP_TEXT, b"two", None));
    let (raw, used) = decode_frame(&bytes, false).unwrap().unwrap();
    assert_eq!(raw.payload, b"one");
    assert_eq!(used, first);
    let (raw, used) = decode_frame(&bytes[first..], false).unwrap().unwrap();
    assert_eq!(raw.payload, b"two");
    assert_eq!(used, bytes.len() - first);
}

#[test]
fn stream_of_frames_reads_in_order() {
    let payloads: Vec<Vec<u8>> = (0..20u8).map(|i| vec![i; (i as usize) * 13]).collect();
    let mut wire = Vec::new();
    for p in payloads.iter() {
        wire.extend_from_slice(&encode_frame(OP_BINARY, p, Some([p.len() as u8, 1, 2, 3])));
    }
    let mut at = 0;
    for p in payloads.iter() {
        let (raw, used) = decode_frame(&wire[at..], true).unwrap().unwrap();
        assert_eq!(&raw.payload, p);
        at += used;
    }
    assert_eq!(at, wire.len());
}

#[test]
fn fault_texts() {
    assert_eq!(FrameFault::Unmasked.message(), "Received unmasked frame from client");
    assert_eq!(FrameFault::UnknownOpcode(3).message(), "Unknown opcode: 3");
    assert_eq!(FrameFault::UnknownOpcode(15).message(), "Unknown opcode: 15");
    assert_eq!(FrameFault::ControlTooLong.message(), "Control frame payload too long");
    assert_eq!(FrameFault::ControlFragmented.message(), "Fragmented control frame");
    assert_eq!(FrameFault::TooLarge.message(), "Frame too large");
    assert_eq!(FrameFault::UnexpectedContinuation.message(), "Unexpected continuation frame");
    assert_eq!(FrameFault::ExpectedContinuation.message(), "Expected continuation frame");
}

#[test]
fn server_rejects_unmasked_frame() {
    let server = WebSocket::new(1, false);
    let mut assembler = Assembler::new();
    let bytes = encode_frame(OP_TEXT, b"hi", None);
    let step = server.read(&mut assembler, &bytes);
    assert_eq!(invalid_frame_text(&step.outcome), "Received unmasked frame from client");
    assert_eq!(step.reply, Reply::Close);
    assert_eq!(step.consumed, 0);
    match server.read_frame(&bytes) {
        Err(Error::InvalidFrame(m)) => assert_eq!(m, "Received unmasked frame from client"),
        other => panic!("expected an invalid frame, got {:?}", other),
    }
}

#[test]
fn client_frame_decodes_at_server() {
    let client = WebSocket::new(1, true);
    let server = WebSocket::new(2, false);
    let mut assembler = Assembler::new();
    let bytes = client.send("masked on the way");
    assert_eq!(bytes[1] & 0x80, 0x80);
    let step = server.read(&mut assembler, &bytes);
    match step.outcome {
        ReadOutcome::Frame(Frame::Text(s)) => assert_eq!(s, "masked on the way"),
        other => panic!("expected a text, got {:?}", other),
    }
    assert_eq!(step.reply, Reply::Nothing);
    assert_eq!(step.consumed, bytes.len());
}

#[test]
fn server_frame_decodes_at_client() {
    let client = WebSocket::new(1, true);
    let server = WebSocket::new(2, false);
    let mut assembler = Assembler::new();
    let bytes = server.send_bin(&[1, 2, 3]);
    assert_eq!(bytes, vec![0x82, 3, 1, 2, 3]);
    let step = client.read(&mut assembler, &bytes);
    match step.outcome {
        ReadOutcome::Frame(Frame::Binary(b)) => assert_eq!(b, vec![1, 2, 3]),
        other => panic!("expected a binary message, got {:?}", other),
    }
}

#[test]
fn client_takes_masked_frame_too() {
    let client = WebSocket::new(1, true);
    let mut assembler = Assembler::new();
    let bytes = encode_frame(OP_TEXT, b"lenient", Some([5, 6, 7, 8]));
    let step = client.read(&mut assembler, &bytes);
    match step.outcome {
        ReadOutcome::Frame(Frame::Text(s)) => assert_eq!(s, "lenient"),
        other => panic!("expected a text, got {:?}", other),
    }
}

#[test]
fn bad_masking() {
    // A frame with the mask bit clear, as a server sends it: the client takes it,
    // a server-role connection refuses it and answers with a close frame.
    let bytes = vec![0x81, 0x02, b'o', b'k'];
    let client = WebSocket::new(1, true);
    let mut assembler = Assembler::new();
    let step = client.read(&mut assembler, &bytes);
    match step.outcome {
        ReadOutcome::Frame(Frame::Text(s)) => assert_eq!(s, "ok"),
        other => panic!("expected a text, got {:?}", other),
    }
    let server = WebSocket::new(2, false);
    let mut assembler = Assembler::new();
    let step = server.read(&mut assembler, &bytes);
    assert!(matches!(step.outcome, ReadOutcome::Failed(Error::InvalidFrame(_))));
    assert_eq!(step.reply, Reply::Close);
    assert_eq!(server.reply_bytes(step.reply), Some(vec![0x88, 0x00]));
}

#[test]
fn sends_emit_one_final_frame() {
    let server = WebSocket::new(9, false);
    assert_eq!(server.send("a"), vec![0x81, 1, b'a']);
    assert_eq!(server.send_bin(&[0xFF]), vec![0x82, 1, 0xFF]);
    assert_eq!(server.send_ping(), vec![0x89, 0]);
    assert_eq!(server.send_pong(), vec![0x8A, 0]);
    assert_eq!(server.close(), vec![0x88, 0]);
    assert_eq!(server.reply_bytes(Reply::Nothing), None);
    assert_eq!(server.reply_bytes(Reply::Pong), Some(vec![0x8A, 0]));

    let client = WebSocket::new(9, true);
    let ping = client.send_ping();
    assert_eq!(ping.len(), 6);
    assert_eq!(&ping[..2], &[0x89, 0x80]);
    let text = client.send("abc");
    assert_eq!(text.len(), 2 + 4 + 3);
    let key = [text[2], text[3], text[4], text[5]];
    assert_eq!(text, encode_frame(OP_TEXT, b"abc", Some(key)));
}

#[test]
fn control_frames_between_messages() {
    let server = WebSocket::new(1, false);
    let key = [1, 2, 3, 4];
    let mut assembler = Assembler::new();

    let step = server.read(&mut assembler, &encode_frame(OP_PING, &[], Some(key)));
    assert!(matches!(step.outcome, ReadOutcome::Frame(Frame::Ping)));
    assert_eq!(step.reply, Reply::Pong);

    let step = server.read(&mut assembler, &encode_frame(OP_PONG, &[], Some(key)));
    assert!(matches!(step.outcome, ReadOutcome::Frame(Frame::Pong)));
    assert_eq!(step.reply, Reply::Nothing);

    let step = server.read(&mut assembler, &encode_frame(OP_CLOSE, &[], Some(key)));
    assert!(matches!(step.outcome, ReadOutcome::Frame(Frame::Close)));
    assert_eq!(step.reply, Reply::Close);
}

#[test]
fn control_frame_rules() {
    let server = WebSocket::new(1, false);
    let key = [1, 2, 3, 4];

    let mut assembler = Assembler::new();
    let long = encode_frame(OP_PING, &[0u8; 126], Some(key));
    let step = server.read(&mut assembler, &long);
    assert_eq!(invalid_frame_text(&step.outcome), "Control frame payload too long");
    assert_eq!(step.reply, Reply::Close);

    let widest = encode_frame(OP_PING, &[0u8; 125], Some(key));
    let step = server.read(&mut assembler, &widest);
    assert!(matches!(step.outcome, ReadOutcome::Frame(Frame::Ping)));

    let split = fragment(false, OP_PING, &[], key);
    let step = server.read(&mut assembler, &split);
    assert_eq!(invalid_frame_text(&step.outcome), "Fragmented control frame");
    assert_eq!(step.reply, Reply::Close);
}

#[test]
fn unknown_opcode_is_refused() {
    let server = WebSocket::new(1, false);
    let mut assembler = Assembler::new();
    let bytes = encode_frame(0x3, b"x", Some([1, 2, 3, 4]));
    let step = server.read(&mut assembler, &bytes);
    assert_eq!(invalid_frame_text(&step.outcome), "Unknown opcode: 3");
    assert_eq!(step.reply, Reply::Close);

    let bytes = encode_frame(0xB, b"", Some([1, 2, 3, 4]));
    match decode_frame(&bytes, true) {
        Err(Error::InvalidFrame(m)) => assert_eq!(m, "Unknown opcode: 11"),
        other => panic!("expected an invalid frame, got {:?}", other),
    }
}

#[test]
fn fragmentation_is_transparent() {
    let server = WebSocket::new(1, false);
    let key = [0xA, 0xB, 0xC, 0xD];
    let message = "a message that travels in pieces";
    let bytes = message.as_bytes();

    let mut whole = Assembler::new();
    let step = server.read(&mut whole, &encode_frame(OP_TEXT, bytes, Some(key)));
    let sent_whole = match step.outcome {
        ReadOutcome::Frame(Frame::Text(s)) => s,
        other => panic!("expected a text, got {:?}", other),
    };

    for pieces in 1..=bytes.len() {
        let size = (bytes.len() + pieces - 1) / pieces;
        let chunks: Vec<&[u8]> = bytes.chunks(size).collect();
        let mut assembler = Assembler::new();
        let mut delivered = None;
        for (i, chunk) in chunks.iter().enumerate() {
            let opcode = if i == 0 { OP_TEXT } else { OP_CONTINUATION };
            let fin = i == chunks.len() - 1;
            let frame = fragment(fin, opcode, chunk, key);
            let step = server.read(&mut assembler, &frame);
            assert_eq!(step.consumed, frame.len());
            assert_eq!(step.reply, Reply::Nothing);
            if fin {
                delivered = Some(step.outcome);
            } else {
                assert!(matches!(step.outcome, ReadOutcome::Continue));
                assert!(assembler.in_progress());
            }
        }
        assert!(!assembler.in_progress());
        match delivered {
            Some(ReadOutcome::Frame(Frame::Text(s))) => assert_eq!(s, sent_whole),
            other => panic!("expected a text, got {:?}", other),
        }
    }
    assert_eq!(sent_whole, message);
}

#[test]
fn binary_fragments_join() {
    let mut assembler = Assembler::new();
    let (outcome, reply) =
        assembler.accept(RawFrame { fin: false, opcode: OP_BINARY, payload: vec![1, 2] });
    assert!(matches!(outcome, ReadOutcome::Continue));
    assert_eq!(reply, Reply::Nothing);
    let (outcome, _) =
        assembler.accept(RawFrame { fin: false, opcode: OP_CONTINUATION, payload: vec![] });
    assert!(matches!(outcome, ReadOutcome::Continue));
    let (outcome, _) =
        assembler.accept(RawFrame { fin: true, opcode: OP_CONTINUATION, payload: vec![3] });
    match outcome {
        ReadOutcome::Frame(Frame::Binary(b)) => assert_eq!(b, vec![1, 2, 3]),
        other => panic!("expected a binary message, got {:?}", other),
    }
}

#[test]
fn control_frames_inside_a_message() {
    let mut assembler = Assembler::new();
    let (outcome, _) =
        assembler.accept(RawFrame { fin: false, opcode: OP_TEXT, payload: b"he".to_vec() });
    assert!(matches!(outcome, ReadOutcome::Continue));

    let (outcome, reply) =
        assembler.accept(RawFrame { fin: true, opcode: OP_PING, payload: vec![] });
    assert!(matches!(outcome, ReadOutcome::Continue));
    assert_eq!(reply, Reply::Pong);

    let (outcome, reply) =
        assembler.accept(RawFrame { fin: true, opcode: OP_PONG, payload: vec![] });
    assert!(matches!(outcome, ReadOutcome::Continue));
    assert_eq!(reply, Reply::Nothing);

    let (outcome, reply) =
        assembler.accept(RawFrame { fin: true, opcode: OP_CLOSE, payload: vec![] });
    assert!(matches!(outcome, ReadOutcome::Continue));
    assert_eq!(reply, Reply::Close);

    let (outcome, reply) =
        assembler.accept(RawFrame { fin: true, opcode: OP_CONTINUATION, payload: b"y".to_vec() });
    match outcome {
        ReadOutcome::Frame(Frame::Text(s)) => assert_eq!(s, "hey"),
        other => panic!("expected a text, got {:?}", other),
    }
    assert_eq!(reply, Reply::Nothing);
}

#[test]
fn frames_out_of_place() {
    let mut assembler = Assembler::new();
    let (outcome, reply) =
        assembler.accept(RawFrame { fin: true, opcode: OP_CONTINUATION, payload: vec![1] });
    assert_eq!(invalid_frame_text(&outcome), "Unexpected continuation frame");
    assert_eq!(reply, Reply::Close);

    let (outcome, _) =
        assembler.accept(RawFrame { fin: false, opcode: OP_TEXT, payload: b"a".to_vec() });
    assert!(matches!(outcome, ReadOutcome::Continue));
    let (outcome, reply) =
        assembler.accept(RawFrame { fin: true, opcode: OP_BINARY, payload: vec![2] });
    assert_eq!(invalid_frame_text(&outcome), "Expected continuation frame");
    assert_eq!(reply, Reply::Close);
    assert!(!assembler.in_progress());

    let (outcome, reply) = assembler.accept(RawFrame { fin: true, opcode: 7, payload: vec![] });
    assert_eq!(invalid_frame_text(&outcome), "Unknown opcode: 7");
    assert_eq!(reply, Reply::Close);
}

#[test]
fn text_must_be_utf8() {
    let server = WebSocket::new(1, false);
    let mut assembler = Assembler::new();
    let bytes = encode_frame(OP_TEXT, &[0xC3, 0x28], Some([1, 2, 3, 4]));
    let step = server.read(&mut assembler, &bytes);
    assert!(matches!(step.outcome, ReadOutcome::Failed(Error::Utf8(_))));
    assert_eq!(step.reply, Reply::Nothing);
    assert_eq!(step.consumed, bytes.len());

    let bytes = encode_frame(OP_BINARY, &[0xC3, 0x28], Some([1, 2, 3, 4]));
    let step = server.read(&mut assembler, &bytes);
    assert!(matches!(step.outcome, ReadOutcome::Frame(Frame::Binary(_))));

    let text = "grüße, 世界";
    let bytes = encode_frame(OP_TEXT, text.as_bytes(), Some([1, 2, 3, 4]));
    let step = server.read(&mut assembler, &bytes);
    match step.outcome {
        ReadOutcome::Frame(Frame::Text(s)) => assert_eq!(s, text),
        other => panic!("expected a text, got {:?}", other),
    }
}

#[test]
fn read_asks_for_more() {
    let server = WebSocket::new(1, false);
    let mut assembler = Assembler::new();
    let bytes = encode_frame(OP_TEXT, b"partial", Some([1, 2, 3, 4]));
    let step = server.read(&mut assembler, &bytes[..5]);
    assert!(matches!(step.outcome, ReadOutcome::NeedMore));
    assert_eq!(step.consumed, 0);
    assert_eq!(step.reply, Reply::Nothing);
    let step = server.read(&mut assembler, &[]);
    assert!(matches!(step.outcome, ReadOutcome::NeedMore));
}

#[test]
fn connections_compare_by_identity() {
    let a = WebSocket::new(42, true);
    let b = WebSocket::new(42, false);
    let c = WebSocket::new(43, true);
    assert!(a == b);
    assert!(a != c);
    assert_eq!(a.id(), 42);
    assert!(a.mask_payload());
    assert!(!b.mask_payload());
}
