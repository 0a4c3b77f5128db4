use session_rs::handshake::{
    accept_key, handle_websocket_handshake, ClientHandshake, Handshake, Refusal,
};
use session_rs::session::Session;
use session_rs::ws::Error;

const SAMPLE_KEY: &str = "dGhlIHNhbXBsZSBub25jZQ==";
const SAMPLE_ACCEPT: &str = "s3pPLMBiTxaQ9kYGzzhZRbK+xOo=";

fn upgrade_request(extra: &str) -> Vec<u8> {
    format!(
        "GET /chat HTTP/1.1\r\nHost: server.example.com\r\nUpgrade: websocket\r\nConnection: Upgrade\r\nSec-WebSocket-Key: {}\r\nSec-WebSocket-Version: 13\r\n{}\r\n",
        SAMPLE_KEY, extra
    )
    .into_bytes()
}

fn refusal_text(res: Result<Handshake, Error>) -> String {
    match res {
        Err(Error::HandshakeFailed(m)) => m,
        other => panic!("expected a refusal, got {:?}", other),
    }
}

#[test]
fn accept_key_of_the_sample_nonce() {
    assert_eq!(accept_key(SAMPLE_KEY.as_bytes()), SAMPLE_ACCEPT);
    assert_eq!(accept_key(b""), "Kfh9QIsMVZcl6xEPYxPHzW8SZ8w=");
}

#[test]
fn health_check() {
    let answer = handle_websocket_handshake(b"HEAD / HTTP/1.1\r\n\r\n").unwrap();
    assert!(matches!(answer, Handshake::HealthCheck));
    assert!(!answer.is_upgrade());
    assert_eq!(
        answer.response().unwrap(),
        b"HTTP/1.1 200 OK\r\nContent-Length: 0\r\n\r\n".to_vec()
    );
    let (answer, session) = Session::handshake(b"HEAD / HTTP/1.1\r\n\r\n").unwrap();
    assert!(matches!(answer, Handshake::HealthCheck));
    assert!(session.is_none());
}

#[test]
fn health_check_needs_only_the_request_line() {
    let answer = handle_websocket_handshake(b"HEAD /health HTTP/1.1\r\n").unwrap();
    assert!(matches!(answer, Handshake::HealthCheck));
}

#[test]
fn plain_get_is_answered_with_ok() {
    let answer =
        handle_websocket_handshake(b"GET / HTTP/1.1\r\nHost: example.com\r\n\r\n").unwrap();
    assert!(matches!(answer, Handshake::PlainHttp));
    assert_eq!(
        answer.response().unwrap(),
        b"HTTP/1.1 200 OK\r\nContent-Length: 2\r\n\r\nOK".to_vec()
    );

    let other = b"GET / HTTP/1.1\r\nUpgrade: h2c\r\nConnection: Upgrade\r\n\r\n";
    assert!(matches!(handle_websocket_handshake(other).unwrap(), Handshake::PlainHttp));
}

#[test]
fn upgrade_is_answered_with_the_digest() {
    let request = upgrade_request("");
    let answer = handle_websocket_handshake(&request).unwrap();
    match &answer {
        Handshake::Upgrade { accept, consumed } => {
            assert_eq!(accept, SAMPLE_ACCEPT);
            assert_eq!(*consumed, request.len());
        }
        other => panic!("expected an upgrade, got {:?}", other),
    }
    assert!(answer.is_upgrade());
    assert_eq!(
        answer.response().unwrap(),
        format!(
            "HTTP/1.1 101 Switching Protocols\r\nUpgrade: websocket\r\nConnection: Upgrade\r\nSec-WebSocket-Accept: {}\r\n\r\n",
            SAMPLE_ACCEPT
        )
        .into_bytes()
    );
}

#[test]
fn upgrade_leaves_what_follows_the_request() {
    let mut request = upgrade_request("");
    let head = request.len();
    request.extend_from_slice(&[0x81, 0x80, 1, 2, 3, 4]);
    match handle_websocket_handshake(&request).unwrap() {
        Handshake::Upgrade { consumed, .. } => assert_eq!(consumed, head),
        other => panic!("expected an upgrade, got {:?}", other),
    }
}

#[test]
fn request_is_read_as_it_arrives() {
    let request = upgrade_request("");
    for cut in 0..request.len() {
        let answer = handle_websocket_handshake(&request[..cut]).unwrap();
        assert!(matches!(answer, Handshake::NeedMore), "at {}", cut);
        assert!(answer.response().is_none());
    }
}

#[test]
fn header_names_ignore_case_and_values_are_trimmed() {
    let request = format!(
        "GET / HTTP/1.1\r\nUPGRADE:   WebSocket  \r\nconnection: keep-alive, UPGRADE\r\n  sec-websocket-KEY  :\t{}\t\r\nSec-WebSocket-Version:13\r\n\r\n",
        SAMPLE_KEY
    );
    match handle_websocket_handshake(request.as_bytes()).unwrap() {
        Handshake::Upgrade { accept, .. } => assert_eq!(accept, SAMPLE_ACCEPT),
        other => panic!("expected an upgrade, got {:?}", other),
    }
}

#[test]
fn last_header_of_a_name_counts() {
    let request = format!(
        "GET / HTTP/1.1\r\nUpgrade: websocket\r\nConnection: Upgrade\r\nSec-WebSocket-Key: first\r\nSec-WebSocket-Key: {}\r\n\r\n",
        SAMPLE_KEY
    );
    match handle_websocket_handshake(request.as_bytes()).unwrap() {
        Handshake::Upgrade { accept, .. } => assert_eq!(accept, SAMPLE_ACCEPT),
        other => panic!("expected an upgrade, got {:?}", other),
    }
    let request = "GET / HTTP/1.1\r\nUpgrade: websocket\r\nUpgrade: none\r\n\r\n";
    assert!(matches!(
        handle_websocket_handshake(request.as_bytes()).unwrap(),
        Handshake::PlainHttp
    ));
}

#[test]
fn version_may_be_absent() {
    let request = format!(
        "GET / HTTP/1.1\r\nUpgrade: websocket\r\nConnection: Upgrade\r\nSec-WebSocket-Key: {}\r\n\r\n",
        SAMPLE_KEY
    );
    assert!(handle_websocket_handshake(request.as_bytes()).unwrap().is_upgrade());
}

#[test]
fn refusals() {
    assert_eq!(
        refusal_text(handle_websocket_handshake(b"POST / HTTP/1.1\r\n\r\n")),
        "Invalid HTTP method"
    );
    assert_eq!(
        refusal_text(handle_websocket_handshake(
            b"GET / HTTP/1.1\r\nUpgrade: websocket\r\nConnection: Upgrade\r\n\r\n"
        )),
        "Missing Sec-WebSocket-Key"
    );
    let request = format!(
        "GET / HTTP/1.1\r\nUpgrade: websocket\r\nConnection: Upgrade\r\nSec-WebSocket-Key: {}\r\nSec-WebSocket-Version: 8\r\n\r\n",
        SAMPLE_KEY
    );
    assert_eq!(
        refusal_text(handle_websocket_handshake(request.as_bytes())),
        "Unsupported Sec-WebSocket-Version"
    );
    let request = format!(
        "GET / HTTP/1.1\r\nUpgrade: websocket\r\nConnection: keep-alive\r\nSec-WebSocket-Key: {}\r\n\r\n",
        SAMPLE_KEY
    );
    assert_eq!(
        refusal_text(handle_websocket_handshake(request.as_bytes())),
        "Missing or invalid Connection header"
    );
    let request = format!(
        "GET / HTTP/1.1\r\nUpgrade: websocket\r\nSec-WebSocket-Key: {}\r\n\r\n",
        SAMPLE_KEY
    );
    assert_eq!(
        refusal_text(handle_websocket_handshake(request.as_bytes())),
        "Missing or invalid Connection header"
    );
}

#[test]
fn refusal_texts() {
    assert_eq!(Refusal::InvalidMethod.message(), "Invalid HTTP method");
    assert_eq!(Refusal::MissingKey.message(), "Missing Sec-WebSocket-Key");
    assert_eq!(Refusal::UnsupportedVersion.message(), "Unsupported Sec-WebSocket-Version");
    assert_eq!(Refusal::BadConnection.message(), "Missing or invalid Connection header");
    assert_eq!(Refusal::NotSwitching.message(), "Expected 101 Switching Protocols");
    assert_eq!(Refusal::AcceptMismatch.message(), "Sec-WebSocket-Accept mismatch");
    assert!(matches!(
        Refusal::AcceptMismatch.into_error(),
        Error::HandshakeFailed(m) if m == "Sec-WebSocket-Accept mismatch"
    ));
}

#[test]
fn server_session_sends_unmasked() {
    let (answer, session) = Session::handshake(&upgrade_request("")).unwrap();
    assert!(answer.is_upgrade());
    let session = session.unwrap();
    assert!(!session.ws().mask_payload());
    assert!(!session.is_closed());
    assert_eq!(session.send("x"), vec![0x81, 1, b'x']);
}

#[test]
fn server_handshake_failure_surfaces() {
    match Session::handshake(b"DELETE / HTTP/1.1\r\n\r\n") {
        Err(session_rs::Error::WebSocket(Error::HandshakeFailed(m))) => {
            assert_eq!(m, "Invalid HTTP method")
        }
        other => panic!("expected a refusal, got {:?}", other),
    }
}

#[test]
fn client_key_is_the_base64_of_the_nonce() {
    let nonce: [u8; 16] = [0, 1, 2, 3, 4, 5, 6, 7, 8, 9, 10, 11, 12, 13, 14, 15];
    let hs = ClientHandshake::with_nonce(&nonce);
    assert_eq!(hs.key(), "AAECAwQFBgcICQoLDA0ODw==");
    let hs = ClientHandshake::with_nonce(b"the sample nonce");
    assert_eq!(hs.key(), SAMPLE_KEY);
}

#[test]
fn fresh_client_keys() {
    let a = ClientHandshake::new();
    let b = ClientHandshake::new();
    assert_eq!(a.key().len(), 24);
    assert!(a.key().ends_with("=="));
    assert_ne!(a.key(), b.key());
}

#[test]
fn client_request_bytes() {
    let hs = ClientHandshake::with_nonce(b"the sample nonce");
    assert_eq!(
        hs.request("server.example.com:8080", "/chat"),
        format!(
            "GET /chat HTTP/1.1\r\nHost: server.example.com:8080\r\nUpgrade: websocket\r\nConnection: Upgrade\r\nSec-WebSocket-Key: {}\r\nSec-WebSocket-Version: 13\r\n\r\n",
            SAMPLE_KEY
        )
        .into_bytes()
    );
}

#[test]
fn client_accepts_the_right_digest() {
    let hs = ClientHandshake::with_nonce(b"the sample nonce");
    let response = format!(
        "HTTP/1.1 101 Switching Protocols\r\nUpgrade: websocket\r\nConnection: Upgrade\r\nSec-WebSocket-Accept: {}\r\n\r\n",
        SAMPLE_ACCEPT
    );
    assert_eq!(hs.verify(response.as_bytes()).unwrap(), Some(response.len()));

    let mut with_frame = response.clone().into_bytes();
    with_frame.extend_from_slice(&[0x81, 0x00]);
    assert_eq!(hs.verify(&with_frame).unwrap(), Some(response.len()));

    let relaxed = format!(
        "HTTP/1.1 101 Switching Protocols\nsec-websocket-ACCEPT:   {}  \n \r\n",
        SAMPLE_ACCEPT
    );
    assert_eq!(hs.verify(relaxed.as_bytes()).unwrap(), Some(relaxed.len()));
}

#[test]
fn client_refuses_anything_else() {
    let hs = ClientHandshake::with_nonce(b"the sample nonce");
    let wrong = "HTTP/1.1 101 Switching Protocols\r\nSec-WebSocket-Accept: AAAAAAAAAAAAAAAAAAAAAAAAAAA=\r\n\r\n";
    match hs.verify(wrong.as_bytes()) {
        Err(Error::HandshakeFailed(m)) => assert_eq!(m, "Sec-WebSocket-Accept mismatch"),
        other => panic!("expected a refusal, got {:?}", other),
    }
    let missing = "HTTP/1.1 101 Switching Protocols\r\nUpgrade: websocket\r\n\r\n";
    match hs.verify(missing.as_bytes()) {
        Err(Error::HandshakeFailed(m)) => assert_eq!(m, "Sec-WebSocket-Accept mismatch"),
        other => panic!("expected a refusal, got {:?}", other),
    }
    let not_switching = "HTTP/1.1 200 OK\r\nContent-Length: 2\r\n\r\nOK";
    match hs.verify(not_switching.as_bytes()) {
        Err(Error::HandshakeFailed(m)) => assert_eq!(m, "Expected 101 Switching Protocols"),
        other => panic!("expected a refusal, got {:?}", other),
    }
    let spaced_name = format!(
        "HTTP/1.1 101 Switching Protocols\r\n Sec-WebSocket-Accept: {}\r\n\r\n",
        SAMPLE_ACCEPT
    );
    assert!(hs.verify(spaced_name.as_bytes()).is_err());
}

#[test]
fn client_reads_the_answer_as_it_arrives() {
    let hs = ClientHandshake::with_nonce(b"the sample nonce");
    let response = format!(
        "HTTP/1.1 101 Switching Protocols\r\nUpgrade: websocket\r\nConnection: Upgrade\r\nSec-WebSocket-Accept: {}\r\n\r\n",
        SAMPLE_ACCEPT
    );
    for cut in 0..response.len() {
        assert_eq!(hs.verify(&response.as_bytes()[..cut]).unwrap(), None, "at {}", cut);
    }
}

#[test]
fn handshake_round_trip() {
    for _ in 0..16 {
        let (client, request) = Session::connect("localhost:9000", "/rpc");
        let (answer, server) = Session::handshake(&request).unwrap();
        let server = server.expect("the server upgrades");
        let response = answer.response().unwrap();
        match &answer {
            Handshake::Upgrade { accept, consumed } => {
                assert_eq!(*consumed, request.len());
                assert_eq!(accept, &accept_key(client.key().as_bytes()));
            }
            other => panic!("expected an upgrade, got {:?}", other),
        }
        let (session, used) = Session::connected(&client, &response).unwrap().unwrap();
        assert_eq!(used, response.len());
        assert!(session.ws().mask_payload());
        assert!(!server.ws().mask_payload());

        let other = ClientHandshake::new();
        assert!(Session::connected(&other, &response).is_err());
    }
}
