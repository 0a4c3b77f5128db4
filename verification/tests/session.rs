use session_rs::session::{select, Inbound, KeepAlive, Published, Session};
use session_rs::ws::codec::{encode_frame, OP_PING, OP_TEXT};
use session_rs::ws::Reply;
use session_rs::wire::{check_json, WireMessage};
use session_rs::ws::{Assembler, Frame, ReadOutcome, WebSocket};
use session_rs::{Error, GenericMethod, Method, RecvError};
use std::collections::HashSet;

fn pair() -> (Session, Session) {
    (
        Session::from_ws(WebSocket::new(1, true)),
        Session::from_ws(WebSocket::new(2, false)),
    )
}

/// Carries the bytes of one frame from one end to the other and returns the text it held.
fn deliver(to: &Session, assembler: &mut Assembler, bytes: &[u8]) -> Frame {
    let step = to.ws().read(assembler, bytes);
    assert_eq!(step.consumed, bytes.len());
    match step.outcome {
        ReadOutcome::Frame(frame) => frame,
        other => panic!("expected a frame, got {:?}", other),
    }
}

fn text_of(frame: &Frame) -> &str {
    match frame {
        Frame::Text(s) => s,
        other => panic!("expected a text, got {:?}", other),
    }
}

fn json_text_error(res: Result<WireMessage, Error>) -> String {
    match res {
        Err(Error::Json(m)) => m,
        other => panic!("expected a JSON error, got {:?}", other),
    }
}

#[test]
fn generic_method_name() {
    assert_eq!(GenericMethod::name(), "generic_do_not_use");
}

#[test]
fn errors_convert() {
    assert!(matches!(
        Error::from(session_rs::ws::Error::ConnectionClosed),
        Error::WebSocket(session_rs::ws::Error::ConnectionClosed)
    ));
    assert!(matches!(Error::from(RecvError::Lagged(3)), Error::RecvError(RecvError::Lagged(3))));
    assert!(matches!(Error::from(RecvError::Closed), Error::RecvError(RecvError::Closed)));
    let io = std::io::Error::new(std::io::ErrorKind::BrokenPipe, "gone");
    assert!(matches!(Error::from(io), Error::Io(e) if e.kind() == std::io::ErrorKind::BrokenPipe));
}

#[test]
fn wire_texts() {
    let request = WireMessage::Request {
        id: 1,
        method: "data".to_string(),
        data: "\"hello\"".to_string(),
    };
    assert_eq!(
        request.encode().unwrap(),
        r#"{"type":"request","id":1,"method":"data","data":"hello"}"#
    );
    let response = WireMessage::Response { id: 4294967295, result: "{\"a\":[1,2]}".to_string() };
    assert_eq!(
        response.encode().unwrap(),
        r#"{"type":"response","id":4294967295,"result":{"a":[1,2]}}"#
    );
    let error = WireMessage::Error { id: 1, error: "\"Invalid data\"".to_string() };
    assert_eq!(error.encode().unwrap(), r#"{"type":"error","id":1,"error":"Invalid data"}"#);
    let notification =
        WireMessage::Notification { method: "tick".to_string(), data: "null".to_string() };
    assert_eq!(
        notification.encode().unwrap(),
        r#"{"type":"notification","method":"tick","data":null}"#
    );
}

#[test]
fn method_names_are_written_as_json_strings() {
    let request = WireMessage::Request {
        id: 7,
        method: "say \"hi\"\n".to_string(),
        data: "0".to_string(),
    };
    let text = request.encode().unwrap();
    assert_eq!(text, r#"{"type":"request","id":7,"method":"say \"hi\"\n","data":0}"#);
    match WireMessage::decode(&text).unwrap() {
        WireMessage::Request { id, method, data } => {
            assert_eq!(id, 7);
            assert_eq!(method, "say \"hi\"\n");
            assert_eq!(data, "0");
        }
        other => panic!("expected a request, got {:?}", other),
    }
}

#[test]
fn payload_must_be_json() {
    assert!(check_json("\"text\"").is_ok());
    assert!(check_json("{\"a\": [1, 2, {\"b\": null}]}").is_ok());
    assert!(matches!(check_json("hello"), Err(Error::Json(_))));
    assert!(matches!(check_json(""), Err(Error::Json(_))));
    assert!(matches!(check_json("1 2"), Err(Error::Json(_))));
    let bad = WireMessage::Response { id: 1, result: "{oops".to_string() };
    assert!(matches!(bad.encode(), Err(Error::Json(_))));
    let bad = WireMessage::Request { id: 1, method: "m".to_string(), data: "".to_string() };
    assert!(matches!(bad.encode(), Err(Error::Json(_))));
}

#[test]
fn wire_messages_are_read_back() {
    match WireMessage::decode(r#"{"type":"request","id":1,"method":"data","data":"hello"}"#)
        .unwrap()
    {
        WireMessage::Request { id, method, data } => {
            assert_eq!(id, 1);
            assert_eq!(method, "data");
            assert_eq!(data, "\"hello\"");
        }
        other => panic!("expected a request, got {:?}", other),
    }
    match WireMessage::decode(r#"{ "result": {"b": 2, "a": [1, true]}, "id": 9, "type": "response" }"#)
        .unwrap()
    {
        WireMessage::Response { id, result } => {
            assert_eq!(id, 9);
            assert_eq!(result, r#"{"a":[1,true],"b":2}"#);
        }
        other => panic!("expected a response, got {:?}", other),
    }
    match WireMessage::decode(r#"{"type":"error","id":2,"error":"Invalid data"}"#).unwrap() {
        WireMessage::Error { id, error } => {
            assert_eq!(id, 2);
            assert_eq!(error, "\"Invalid data\"");
        }
        other => panic!("expected an error, got {:?}", other),
    }
    match WireMessage::decode(r#"{"type":"notification","method":"tick","data":null,"extra":1}"#)
        .unwrap()
    {
        WireMessage::Notification { method, data } => {
            assert_eq!(method, "tick");
            assert_eq!(data, "null");
        }
        other => panic!("expected a notification, got {:?}", other),
    }
}

#[test]
fn texts_that_are_no_messages() {
    assert!(!json_text_error(WireMessage::decode("not json")).is_empty());
    assert!(!json_text_error(WireMessage::decode("")).is_empty());
    let cases = [
        r#"[1,2,3]"#,
        r#"{"id":1,"method":"m","data":1}"#,
        r#"{"type":"Request","id":1,"method":"m","data":1}"#,
        r#"{"type":"call","id":1,"method":"m","data":1}"#,
        r#"{"type":7,"id":1,"method":"m","data":1}"#,
        r#"{"type":"request","method":"m","data":1}"#,
        r#"{"type":"request","id":"1","method":"m","data":1}"#,
        r#"{"type":"request","id":-1,"method":"m","data":1}"#,
        r#"{"type":"request","id":1.5,"method":"m","data":1}"#,
        r#"{"type":"request","id":4294967296,"method":"m","data":1}"#,
        r#"{"type":"request","id":1,"data":1}"#,
        r#"{"type":"request","id":1,"method":5,"data":1}"#,
        r#"{"type":"request","id":1,"method":"m"}"#,
        r#"{"type":"response","id":1}"#,
        r#"{"type":"response","result":1}"#,
        r#"{"type":"error","id":1,"result":1}"#,
        r#"{"type":"notification","data":1}"#,
        r#"{"type":"notification","method":"m"}"#,
    ];
    for case in cases.iter() {
        assert_eq!(
            json_text_error(WireMessage::decode(case)),
            "not a message of the protocol",
            "{}",
            case
        );
    }
    assert!(WireMessage::decode(r#"{"type":"request","id":4294967295,"method":"m","data":1}"#)
        .is_ok());
    assert!(WireMessage::decode(r#"{"type":"request","id":0,"method":"m","data":null}"#).is_ok());
}

#[test]
fn request_ids_count_from_one() {
    let mut session = Session::new(WebSocket::new(5, false));
    assert_eq!(session.next_id(), 1);
    assert_eq!(session.next_id(), 2);
    let (id, _) = session.request("m", "null").unwrap();
    assert_eq!(id, 3);
    assert!(session.request("m", "not json").is_err());
    assert_eq!(session.next_id(), 5);
}

#[test]
fn text_echo() {
    let (mut client, mut server) = pair();
    let slot = server.on_request("data");
    let mut at_server = Assembler::new();
    let mut at_client = Assembler::new();

    let (id, bytes) = client.request("data", "\"Hello from client\"").unwrap();
    assert_eq!(id, 1);
    let frame = deliver(&server, &mut at_server, &bytes);
    assert_eq!(
        text_of(&frame),
        r#"{"type":"request","id":1,"method":"data","data":"Hello from client"}"#
    );
    let (call_id, data) = match server.read_t(&frame) {
        Inbound::Call { slot: s, id, data } => {
            assert_eq!(s, slot);
            (id, data)
        }
        other => panic!("expected a call, got {:?}", other),
    };
    assert_eq!(call_id, 1);
    assert_eq!(data, "\"Hello from client\"");

    let reply = server.answer(call_id, Some((false, "\"Hello from server\""))).unwrap().unwrap();
    assert_eq!(
        reply[2..].to_vec(),
        br#"{"type":"response","id":1,"result":"Hello from server"}"#.to_vec()
    );
    let frame = deliver(&client, &mut at_client, &reply);
    match client.read_t(&frame) {
        Inbound::Reply(p) => {
            assert!(p.answers(id));
            assert!(!p.is_error);
            assert_eq!(p.payload, "\"Hello from server\"");
        }
        other => panic!("expected a reply, got {:?}", other),
    }
}

#[test]
fn error_reply() {
    let (mut client, mut server) = pair();
    server.on_request("data");
    let mut at_server = Assembler::new();
    let mut at_client = Assembler::new();

    client.request("data", "\"Hello from client\"").unwrap();
    let (id, bytes) = client.request("data", "\"invalid_data\"").unwrap();
    assert_eq!(id, 2);
    let frame = deliver(&server, &mut at_server, &bytes);
    let call_id = match server.read_t(&frame) {
        Inbound::Call { id, data, .. } => {
            assert_eq!(data, "\"invalid_data\"");
            id
        }
        other => panic!("expected a call, got {:?}", other),
    };
    let reply = server.answer(call_id, Some((true, "\"Invalid data\""))).unwrap().unwrap();
    let frame = deliver(&client, &mut at_client, &reply);
    assert_eq!(text_of(&frame), r#"{"type":"error","id":2,"error":"Invalid data"}"#);
    match client.read_t(&frame) {
        Inbound::Reply(p) => {
            assert_eq!(p.id, 2);
            assert!(p.is_error);
            assert_eq!(p.payload, "\"Invalid data\"");
        }
        other => panic!("expected a reply, got {:?}", other),
    }
}

#[test]
fn out_of_order_responses() {
    let (mut client, server) = pair();
    let mut at_client = Assembler::new();
    let (first, _) = client.request("data", "\"one\"").unwrap();
    let (second, _) = client.request("data", "\"two\"").unwrap();
    assert_eq!((first, second), (1, 2));

    let mut published = Vec::new();
    for (id, value) in [(second, "\"for two\""), (first, "\"for one\"")] {
        let bytes = server.respond(id, value).unwrap();
        let frame = deliver(&client, &mut at_client, &bytes);
        match client.read_t(&frame) {
            Inbound::Reply(p) => published.push(p),
            other => panic!("expected a reply, got {:?}", other),
        }
    }
    let k = select(&published, first).unwrap();
    assert_eq!(k, 1);
    assert_eq!(published[k].payload, "\"for one\"");
    let k = select(&published, second).unwrap();
    assert_eq!(k, 0);
    assert_eq!(published[k].payload, "\"for two\"");
    assert_eq!(select(&published, 3), None);
    assert_eq!(select(&[], 1), None);
}

#[test]
fn select_takes_the_first_match() {
    let reply = |id: u32, payload: &str| Published {
        id,
        is_error: false,
        payload: payload.to_string(),
    };
    let published = vec![reply(5, "a"), reply(7, "b"), reply(5, "c"), reply(9, "d")];
    assert_eq!(select(&published, 5), Some(0));
    assert_eq!(select(&published, 7), Some(1));
    assert_eq!(select(&published, 9), Some(3));
    assert_eq!(select(&published, 6), None);
}

#[test]
fn handler_that_returns_nothing_sends_nothing() {
    let (_, server) = pair();
    assert!(server.answer(1, None).unwrap().is_none());
    assert!(matches!(server.answer(1, Some((false, "oops"))), Err(Error::Json(_))));
}

#[test]
fn registering_twice_keeps_the_slot() {
    let mut session = Session::new(WebSocket::new(1, false));
    assert_eq!(session.handler("a"), None);
    assert_eq!(session.on_request("a"), 0);
    assert_eq!(session.on_request("b"), 1);
    assert_eq!(session.on_request("a"), 0);
    assert_eq!(session.on_request("c"), 2);
    assert_eq!(session.handler("a"), Some(0));
    assert_eq!(session.handler("b"), Some(1));
    assert_eq!(session.handler("c"), Some(2));
    assert_eq!(session.handler("d"), None);
    assert_eq!(session.handler("A"), None);
}

#[test]
fn requests_for_unknown_methods_are_ignored() {
    let mut session = Session::new(WebSocket::new(1, false));
    session.on_request("known");
    let frame =
        Frame::Text(r#"{"type":"request","id":1,"method":"unknown","data":1}"#.to_string());
    assert!(matches!(session.read_t(&frame), Inbound::Ignored));
    let frame = Frame::Text(r#"{"type":"request","id":1,"method":"known","data":1}"#.to_string());
    assert!(matches!(session.read_t(&frame), Inbound::Call { slot: 0, id: 1, .. }));
}

#[test]
fn notifications_are_handed_on() {
    let (client, mut server) = pair();
    let mut at_server = Assembler::new();
    let bytes = client.notify("tick", "[1,2]").unwrap();
    let frame = deliver(&server, &mut at_server, &bytes);
    assert_eq!(text_of(&frame), r#"{"type":"notification","method":"tick","data":[1,2]}"#);
    match server.read_t(&frame) {
        Inbound::Notification { method, data } => {
            assert_eq!(method, "tick");
            assert_eq!(data, "[1,2]");
        }
        other => panic!("expected a notification, got {:?}", other),
    }
    assert!(matches!(client.notify("tick", "[1,"), Err(Error::Json(_))));
}

#[test]
fn other_frames() {
    let mut session = Session::new(WebSocket::new(1, false));
    assert!(matches!(session.read_t(&Frame::Binary(vec![1, 2])), Inbound::Ignored));
    assert!(matches!(session.read_t(&Frame::Ping), Inbound::Ignored));
    assert!(matches!(session.read_t(&Frame::Pong), Inbound::Pong));
    match session.read_t(&Frame::Text("not json".to_string())) {
        Inbound::Dropped(Error::Json(m)) => assert!(!m.is_empty()),
        other => panic!("expected a dropped frame, got {:?}", other),
    }
    match session.read_t(&Frame::Text("{}".to_string())) {
        Inbound::Dropped(Error::Json(m)) => assert_eq!(m, "not a message of the protocol"),
        other => panic!("expected a dropped frame, got {:?}", other),
    }
    assert!(!session.is_closed());
}

#[test]
fn raw_sends() {
    let server = Session::new(WebSocket::new(1, false));
    assert_eq!(server.send("hi"), vec![0x81, 2, b'h', b'i']);
    assert_eq!(server.send_bin(&[9]), vec![0x82, 1, 9]);
    assert_eq!(server.send_close(), vec![0x88, 0]);
    assert_eq!(server.send_ping(), vec![0x89, 0]);
    assert_eq!(server.send_pong(), vec![0x8A, 0]);
    let client = Session::new(WebSocket::new(1, true));
    assert_eq!(client.send_close().len(), 6);
}

#[test]
fn close_hook_fires_once() {
    let mut session = Session::new(WebSocket::new(1, false));
    session.on_close();
    let (frame, fire) = session.close();
    assert_eq!(frame, vec![0x88, 0]);
    assert!(fire);
    assert!(session.is_closed());

    let (frame, fire) = session.close();
    assert_eq!(frame, vec![0x88, 0]);
    assert!(!fire);
    assert!(matches!(session.read_t(&Frame::Close), Inbound::Closed { fire_hook: false }));
    assert!(matches!(
        session.read_failed(session_rs::ws::Error::ConnectionClosed),
        Inbound::Closed { fire_hook: false }
    ));
    assert!(matches!(session.pong_wait(false), KeepAlive::Expired { fire_hook: false, .. }));
    session.on_close();
    assert!(!session.close().1);
}

#[test]
fn close_without_hook_fires_nothing() {
    let mut session = Session::new(WebSocket::new(1, false));
    assert!(!session.close().1);
    session.on_close();
    assert!(!session.close().1);
}

#[test]
fn peer_close_fires_the_hook() {
    let mut session = Session::new(WebSocket::new(1, false));
    session.on_close();
    session.on_close();
    assert!(matches!(session.read_t(&Frame::Close), Inbound::Closed { fire_hook: true }));
    assert!(session.is_closed());
    assert!(!session.close().1);
}

#[test]
fn failed_reads() {
    let mut session = Session::new(WebSocket::new(1, false));
    session.on_close();
    let bad = String::from_utf8(vec![0xC3, 0x28]).unwrap_err();
    match session.read_failed(session_rs::ws::Error::Utf8(bad)) {
        Inbound::Dropped(Error::WebSocket(session_rs::ws::Error::Utf8(_))) => {}
        other => panic!("expected a dropped frame, got {:?}", other),
    }
    assert!(!session.is_closed());
    let fault = session_rs::ws::Error::InvalidFrame("Unknown opcode: 3".to_string());
    assert!(matches!(session.read_failed(fault), Inbound::Closed { fire_hook: true }));
    assert!(session.is_closed());
    let io = std::io::Error::new(std::io::ErrorKind::UnexpectedEof, "eof");
    assert!(matches!(
        session.read_failed(session_rs::ws::Error::Io(io)),
        Inbound::Closed { fire_hook: false }
    ));
}

#[test]
fn keepalive_timeout() {
    let mut session = Session::new(WebSocket::new(1, false));
    session.on_close();
    assert!(matches!(session.pong_wait(true), KeepAlive::Continue));
    assert!(!session.is_closed());
    match session.pong_wait(false) {
        KeepAlive::Expired { close, fire_hook } => {
            assert_eq!(close, vec![0x88, 0]);
            assert!(fire_hook);
        }
        other => panic!("expected the deadline to pass, got {:?}", other),
    }
    assert!(session.is_closed());
    assert!(matches!(session.pong_wait(false), KeepAlive::Expired { fire_hook: false, .. }));
    assert!(matches!(
        session.read_failed(session_rs::ws::Error::ConnectionClosed),
        Inbound::Closed { fire_hook: false }
    ));
    let mut assembler = Assembler::new();
    let late = encode_frame(OP_TEXT, b"late", Some([1, 2, 3, 4]));
    let received = session.receive(&mut assembler, &late);
    assert!(matches!(received.inbound, Some(Inbound::Closed { fire_hook: false })));
    assert_eq!(received.consumed, 0);
    assert_eq!(received.reply, Reply::Nothing);
}

#[test]
fn receive_reads_frame_by_frame() {
    let mut server = Session::new(WebSocket::new(1, false));
    server.on_request("data");
    server.on_close();
    let mut assembler = Assembler::new();
    let key = [9, 8, 7, 6];
    let text = br#"{"type":"request","id":3,"method":"data","data":[1]}"#;
    let mut input = encode_frame(OP_PING, &[], Some(key));
    input.extend_from_slice(&encode_frame(OP_TEXT, text, Some(key)));
    input.extend_from_slice(&encode_frame(OP_TEXT, &[0xC3, 0x28], Some(key)));
    input.extend_from_slice(&encode_frame(OP_TEXT, b"{}", Some(key)));
    input.extend_from_slice(&encode_frame(0x5, b"", Some(key)));

    let received = server.receive(&mut assembler, &input[..3]);
    assert!(received.inbound.is_none());
    assert_eq!(received.consumed, 0);

    let received = server.receive(&mut assembler, &input);
    assert!(matches!(received.inbound, Some(Inbound::Ignored)));
    assert_eq!(received.reply, Reply::Pong);
    assert_eq!(received.consumed, 6);
    let mut at = received.consumed;

    let received = server.receive(&mut assembler, &input[at..]);
    match received.inbound {
        Some(Inbound::Call { slot, id, data }) => {
            assert_eq!((slot, id), (0, 3));
            assert_eq!(data, "[1]");
        }
        other => panic!("expected a call, got {:?}", other),
    }
    assert_eq!(received.reply, Reply::Nothing);
    at += received.consumed;

    let received = server.receive(&mut assembler, &input[at..]);
    assert!(matches!(
        received.inbound,
        Some(Inbound::Dropped(Error::WebSocket(session_rs::ws::Error::Utf8(_))))
    ));
    at += received.consumed;

    let received = server.receive(&mut assembler, &input[at..]);
    assert!(matches!(received.inbound, Some(Inbound::Dropped(Error::Json(_)))));
    assert!(!server.is_closed());
    at += received.consumed;

    let received = server.receive(&mut assembler, &input[at..]);
    assert!(matches!(received.inbound, Some(Inbound::Closed { fire_hook: true })));
    assert_eq!(received.reply, Reply::Close);
    assert!(server.is_closed());

    let received = server.receive(&mut assembler, &input);
    assert!(matches!(received.inbound, Some(Inbound::Closed { fire_hook: false })));
    assert_eq!(received.reply, Reply::Nothing);
}

#[test]
fn sessions_compare_and_hash_by_identity() {
    let mut a = Session::new(WebSocket::new(7, true));
    let b = Session::new(WebSocket::new(7, false));
    let c = Session::new(WebSocket::new(8, true));
    a.on_request("m");
    assert!(a == b);
    assert!(a != c);
    let mut set = HashSet::new();
    set.insert(a.ws());
    assert!(set.contains(&b.ws()));
    assert!(!set.contains(&c.ws()));
    let mut sessions = HashSet::new();
    sessions.insert(a);
    assert!(sessions.contains(&b));
    assert!(!sessions.contains(&c));
}
