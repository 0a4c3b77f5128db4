//! The opening handshake: an HTTP/1.1 upgrade, read and written as bytes.
//!
//! The server's side takes the request as far as it has arrived and says
//! how to answer it; the client's side writes the request and judges the
//! answer. Header names are compared without regard to the case of
//! letters, values are trimmed, and of a header that comes twice the last
//! one counts.

use crate::ascii::{
    contains_ignore_case, contains_text, eq_ignore_case, equals_ignore_case, find_byte,
    first_index, has_prefix, lemma_first_index, starts_with, trim, trim_end, trimmed, trimmed_end,
};
use crate::hash::{base64_encode, base64_text, is_base64_char, sha1, sha1_digest};
use crate::random::random_nonce;
use crate::text::bytes_equal;
use crate::ws::Error;
use vstd::prelude::*;
use vstd::slice::slice_subrange;
use vstd::utf8::*;

verus! {

/// The constant that the accept digest is salted with.
pub const WS_GUID: &'static str = "258EAFA5-E914-47DA-95CA-C5AB0DC85B11";

/// The line feed that ends every line.
pub const LF: u8 = 10;

/// The colon between a header's name and its value.
pub const COLON: u8 = 58;

/// The `Sec-WebSocket-Accept` value that answers the key `key`: the base64
/// text of the SHA-1 digest of the key followed by the GUID.
pub open spec fn accept_for(key: Seq<u8>) -> Seq<char> {
    base64_text(sha1_digest(key + encode_utf8(WS_GUID@)))
}

/// Appends `bytes` to `out`.
pub fn append_bytes(out: &mut Vec<u8>, bytes: &[u8])
    ensures
        final(out)@ == old(out)@ + bytes@,
{
    let n: usize = bytes.len();
    let mut i: usize = 0;
    while i < n
        invariant
            n == bytes@.len(),
            i <= n,
            out@ =~= old(out)@ + bytes@.subrange(0, i as int),
        decreases n - i,
    {
        out.push(bytes[i]);
        i = i + 1;
    }
    assert(bytes@.subrange(0, n as int) =~= bytes@);
}

/// Computes the `Sec-WebSocket-Accept` value that answers `key`.
pub fn accept_key(key: &[u8]) -> (accept: String)
    ensures
        accept@ == accept_for(key@),
        forall|i: int| 0 <= i < accept@.len() ==> is_base64_char(#[trigger] accept@[i]),
{
    let mut salted: Vec<u8> = Vec::new();
    append_bytes(&mut salted, key);
    append_bytes(&mut salted, WS_GUID.as_bytes());
    assert(salted@ =~= key@ + encode_utf8(WS_GUID@));
    let digest = sha1(salted.as_slice());
    base64_encode(digest.as_slice())
}

/// Whether a line ends the header block. The server takes only the bare
/// `\r\n`; the client takes any line of nothing but white space.
pub open spec fn is_blank(line: Seq<u8>, strict: bool) -> bool {
    if strict {
        line == seq![13u8, 10u8]
    } else {
        trim_end(line).len() == 0
    }
}

/// The index just past the blank line that ends the header block which
/// starts at `from`; `None` while that line has not arrived.
pub open spec fn block_end(s: Seq<u8>, from: int, strict: bool) -> Option<int>
    decreases s.len() - from,
{
    if from < 0 {
        None
    } else {
        match first_index(s, from, LF) {
            None => None,
            Some(p) => {
                proof {
                    lemma_first_index(s, from, LF);
                }
                if is_blank(s.subrange(from, p + 1), strict) {
                    Some(p + 1)
                } else {
                    block_end(s, p + 1, strict)
                }
            },
        }
    }
}

/// The value that a header line gives to `name`: the line has a colon, what
/// stands before the first colon is `name` but for the case of letters
/// (trimmed first, if `trim_name`), and the value is what follows the
/// colon, trimmed.
pub open spec fn field_of(line: Seq<u8>, name: Seq<u8>, trim_name: bool) -> Option<Seq<u8>> {
    match first_index(line, 0, COLON) {
        None => None,
        Some(c) => {
            let written = line.subrange(0, c);
            if eq_ignore_case(
                if trim_name {
                    trim(written)
                } else {
                    written
                },
                name,
            ) {
                Some(trim(line.subrange(c + 1, line.len() as int)))
            } else {
                None
            }
        },
    }
}

/// The value of the header `name` among the lines from `from` up to `end`,
/// with `found` for the lines before: the last line that gives `name` a
/// value decides.
pub open spec fn lookup(
    s: Seq<u8>,
    from: int,
    end: int,
    name: Seq<u8>,
    trim_name: bool,
    found: Option<Seq<u8>>,
) -> Option<Seq<u8>>
    decreases end - from,
{
    if from < 0 || from >= end {
        found
    } else {
        match first_index(s, from, LF) {
            None => found,
            Some(p) => {
                proof {
                    lemma_first_index(s, from, LF);
                }
                if p >= end {
                    found
                } else {
                    match field_of(s.subrange(from, p + 1), name, trim_name) {
                        Some(v) => lookup(s, p + 1, end, name, trim_name, Some(v)),
                        None => lookup(s, p + 1, end, name, trim_name, found),
                    }
                }
            },
        }
    }
}

/// The value of the header `name` in the block of lines from `from` up to
/// `end`.
pub open spec fn header(s: Seq<u8>, from: int, end: int, name: Seq<char>, trim_name: bool) -> Option<
    Seq<u8>,
> {
    lookup(s, from, end, encode_utf8(name), trim_name, None)
}

/// Finds the end of the header block that starts at `from`.
pub fn find_block_end(input: &[u8], from: usize, strict: bool) -> (res: Option<usize>)
    requires
        from <= input@.len(),
    ensures
        match res {
            Some(e) => block_end(input@, from as int, strict) == Some(e as int) && from < e
                <= input@.len(),
            None => block_end(input@, from as int, strict) is None,
        },
{
    let n: usize = input.len();
    let mut at: usize = from;
    loop
        invariant
            n == input@.len(),
            from <= at <= input@.len(),
            block_end(input@, from as int, strict) == block_end(input@, at as int, strict),
        decreases input@.len() - at,
    {
        proof {
            lemma_first_index(input@, at as int, LF);
        }
        match find_byte(input, at, LF) {
            None => {
                return None;
            },
            Some(p) => {
                let line = slice_subrange(input, at, p + 1);
                let blank = if strict {
                    line.len() == 2 && line[0] == 13 && line[1] == 10
                } else {
                    trimmed_end(line).len() == 0
                };
                proof {
                    if strict && blank {
                        assert(line@ =~= seq![13u8, 10u8]);
                    }
                }
                if blank {
                    return Some(p + 1);
                }
                at = p + 1;
            },
        }
    }
}

/// Reads the value that a header line gives to `name`.
pub fn read_field<'a>(line: &'a [u8], name: &[u8], trim_name: bool) -> (res: Option<&'a [u8]>)
    ensures
        match res {
            Some(r) => field_of(line@, name@, trim_name) == Some(r@),
            None => field_of(line@, name@, trim_name) is None,
        },
{
    let n: usize = line.len();
    match find_byte(line, 0, COLON) {
        None => None,
        Some(c) => {
            let written = slice_subrange(line, 0, c);
            let matches = if trim_name {
                equals_ignore_case(trimmed(written), name)
            } else {
                equals_ignore_case(written, name)
            };
            if matches {
                Some(trimmed(slice_subrange(line, c + 1, n)))
            } else {
                None
            }
        },
    }
}

/// Looks the header `name` up in the block of lines from `from` up to
/// `end`.
pub fn find_header<'a>(
    input: &'a [u8],
    from: usize,
    end: usize,
    name: &str,
    trim_name: bool,
) -> (res: Option<&'a [u8]>)
    requires
        from <= end <= input@.len(),
    ensures
        match res {
            Some(r) => header(input@, from as int, end as int, name@, trim_name) == Some(r@),
            None => header(input@, from as int, end as int, name@, trim_name) is None,
        },
{
    let n: usize = input.len();
    let wanted = name.as_bytes();
    let mut found: Option<&'a [u8]> = None;
    let mut at: usize = from;
    loop
        invariant
            n == input@.len(),
            from <= at <= input@.len(),
            end <= input@.len(),
            wanted@ == encode_utf8(name@),
            header(input@, from as int, end as int, name@, trim_name) == lookup(
                input@,
                at as int,
                end as int,
                wanted@,
                trim_name,
                match found {
                    Some(r) => Some(r@),
                    None => None,
                },
            ),
        decreases input@.len() - at,
    {
        if at >= end {
            return found;
        }
        proof {
            lemma_first_index(input@, at as int, LF);
        }
        match find_byte(input, at, LF) {
            None => {
                return found;
            },
            Some(p) => {
                if p >= end {
                    return found;
                }
                match read_field(slice_subrange(input, at, p + 1), wanted, trim_name) {
                    Some(v) => {
                        found = Some(v);
                    },
                    None => {},
                }
                at = p + 1;
            },
        }
    }
}

/// Why a handshake was refused.
#[derive(Debug, Clone, Copy, PartialEq, Eq, Structural)]
pub enum Refusal {
    /// The request is neither `HEAD` nor `GET`.
    InvalidMethod,
    /// The upgrade request names no `Sec-WebSocket-Key`.
    MissingKey,
    /// The upgrade request names a `Sec-WebSocket-Version` other than 13.
    UnsupportedVersion,
    /// The upgrade request has no `Connection` header that says `upgrade`.
    BadConnection,
    /// The server did not answer `HTTP/1.1 101`.
    NotSwitching,
    /// The server's `Sec-WebSocket-Accept` is not the digest of the key.
    AcceptMismatch,
}

impl Refusal {
    /// The text that reports the refusal.
    pub open spec fn text(self) -> Seq<char> {
        match self {
            Refusal::InvalidMethod => "Invalid HTTP method"@,
            Refusal::MissingKey => "Missing Sec-WebSocket-Key"@,
            Refusal::UnsupportedVersion => "Unsupported Sec-WebSocket-Version"@,
            Refusal::BadConnection => "Missing or invalid Connection header"@,
            Refusal::NotSwitching => "Expected 101 Switching Protocols"@,
            Refusal::AcceptMismatch => "Sec-WebSocket-Accept mismatch"@,
        }
    }

    /// The text that reports the refusal, as a string.
    pub fn message(&self) -> (s: String)
        ensures
            s@ == self.text(),
    {
        match self {
            Refusal::InvalidMethod => String::from_str("Invalid HTTP method"),
            Refusal::MissingKey => String::from_str("Missing Sec-WebSocket-Key"),
            Refusal::UnsupportedVersion => String::from_str("Unsupported Sec-WebSocket-Version"),
            Refusal::BadConnection => String::from_str("Missing or invalid Connection header"),
            Refusal::NotSwitching => String::from_str("Expected 101 Switching Protocols"),
            Refusal::AcceptMismatch => String::from_str("Sec-WebSocket-Accept mismatch"),
        }
    }

    /// The error that reports the refusal.
    pub fn into_error(self) -> (e: Error)
        ensures
            e matches Error::HandshakeFailed(m) && m@ == self.text(),
    {
        Error::HandshakeFailed(self.message())
    }
}

/// How the server answers what has arrived of a request.
pub enum ServerAnswer {
    /// The request is not all there yet.
    NeedMore,
    /// A `HEAD` request: a health check, answered with an empty 200.
    HealthCheck,
    /// A `GET` that asks for no WebSocket: answered with a plain 200.
    PlainHttp,
    /// An upgrade request with the key `key`, `consumed` bytes long.
    Upgrade { key: Seq<u8>, consumed: nat },
    /// A request that is refused.
    Refused(Refusal),
}

/// Judges an upgrade request whose header block runs from `from` to `end`.
pub open spec fn judge_upgrade(s: Seq<u8>, from: int, end: int) -> ServerAnswer {
    let upgrade = header(s, from, end, "upgrade"@, true);
    let key = header(s, from, end, "sec-websocket-key"@, true);
    let version = header(s, from, end, "sec-websocket-version"@, true);
    let connection = header(s, from, end, "connection"@, true);
    if !(upgrade matches Some(u) && eq_ignore_case(u, encode_utf8("websocket"@))) {
        ServerAnswer::PlainHttp
    } else if key is None {
        ServerAnswer::Refused(Refusal::MissingKey)
    } else if version matches Some(v) && v != encode_utf8("13"@) {
        ServerAnswer::Refused(Refusal::UnsupportedVersion)
    } else if !(connection matches Some(c) && contains_ignore_case(c, encode_utf8("upgrade"@))) {
        ServerAnswer::Refused(Refusal::BadConnection)
    } else {
        ServerAnswer::Upgrade { key: key->0, consumed: end as nat }
    }
}

/// The server's answer to the request bytes `s`.
///
/// The request line decides first: `HEAD` is a health check and anything
/// but `GET` is refused, both as soon as the line is there. A `GET` is
/// judged by its headers once the blank line has come.
pub open spec fn server_answer(s: Seq<u8>) -> ServerAnswer {
    match first_index(s, 0, LF) {
        None => ServerAnswer::NeedMore,
        Some(p) => {
            let request_line = trim_end(s.subrange(0, p + 1));
            if starts_with(request_line, encode_utf8("HEAD"@)) {
                ServerAnswer::HealthCheck
            } else if !starts_with(request_line, encode_utf8("GET"@)) {
                ServerAnswer::Refused(Refusal::InvalidMethod)
            } else {
                match block_end(s, p + 1, true) {
                    None => ServerAnswer::NeedMore,
                    Some(end) => judge_upgrade(s, p + 1, end),
                }
            }
        },
    }
}

/// The two bytes that end a line: carriage return, line feed.
pub open spec fn crlf() -> Seq<u8> {
    seq![13u8, 10u8]
}

/// A header line: the name, a colon and a space, the value, and the end of
/// the line.
pub open spec fn header_line(name: Seq<char>, value: Seq<u8>) -> Seq<u8> {
    encode_utf8(name) + seq![58u8, 32u8] + value + crlf()
}

/// Appends the end of a line to `out`.
fn push_crlf(out: &mut Vec<u8>)
    ensures
        final(out)@ == old(out)@ + crlf(),
{
    out.push(13);
    out.push(10);
    assert(out@ =~= old(out)@ + crlf());
}

/// Appends a header line to `out`.
fn push_header(out: &mut Vec<u8>, name: &str, value: &[u8])
    ensures
        final(out)@ == old(out)@ + header_line(name@, value@),
{
    append_bytes(out, name.as_bytes());
    out.push(58);
    out.push(32);
    append_bytes(out, value);
    push_crlf(out);
    assert(out@ =~= old(out)@ + header_line(name@, value@));
}

/// The answer to a health check.
pub open spec fn health_response() -> Seq<u8> {
    encode_utf8("HTTP/1.1 200 OK\r\nContent-Length: 0\r\n\r\n"@)
}

/// The answer to a request that asks for no WebSocket.
pub open spec fn plain_response() -> Seq<u8> {
    encode_utf8("HTTP/1.1 200 OK\r\nContent-Length: 2\r\n\r\nOK"@)
}

/// The answer that switches protocols, with the accept value `accept`: the
/// status line, three header lines and a blank line.
pub open spec fn upgrade_response(accept: Seq<char>) -> Seq<u8> {
    encode_utf8("HTTP/1.1 101 Switching Protocols"@) + crlf() + header_line(
        "Upgrade"@,
        encode_utf8("websocket"@),
    ) + header_line("Connection"@, encode_utf8("Upgrade"@)) + header_line(
        "Sec-WebSocket-Accept"@,
        encode_utf8(accept),
    ) + crlf()
}

/// The server's side of the handshake, as far as it can be decided.
#[derive(Debug)]
pub enum Handshake {
    /// The request is not all there yet: read more and ask again.
    NeedMore,
    /// A health check: send the response and close.
    HealthCheck,
    /// Plain HTTP: send the response and close.
    PlainHttp,
    /// An upgrade: send the response; the connection is open from byte
    /// `consumed` of the input on.
    Upgrade { accept: String, consumed: usize },
}

/// Whether `res` reports what `answer` describes.
pub open spec fn answers(res: Result<Handshake, Error>, answer: ServerAnswer) -> bool {
    match answer {
        ServerAnswer::NeedMore => res matches Ok(Handshake::NeedMore),
        ServerAnswer::HealthCheck => res matches Ok(Handshake::HealthCheck),
        ServerAnswer::PlainHttp => res matches Ok(Handshake::PlainHttp),
        ServerAnswer::Upgrade { key, consumed } => res matches Ok(
            Handshake::Upgrade { accept, consumed: n },
        ) && accept@ == accept_for(key) && n == consumed,
        ServerAnswer::Refused(refusal) => res matches Err(Error::HandshakeFailed(m)) && m@
            == refusal.text(),
    }
}

impl Handshake {
    /// The bytes that answer the request; none while more is needed.
    pub open spec fn response_spec(self) -> Option<Seq<u8>> {
        match self {
            Handshake::NeedMore => None,
            Handshake::HealthCheck => Some(health_response()),
            Handshake::PlainHttp => Some(plain_response()),
            Handshake::Upgrade { accept, consumed } => Some(upgrade_response(accept@)),
        }
    }

    /// The bytes to send in answer to the request.
    pub fn response(&self) -> (out: Option<Vec<u8>>)
        ensures
            match self.response_spec() {
                Some(bytes) => out matches Some(v) && v@ == bytes,
                None => out is None,
            },
    {
        match self {
            Handshake::NeedMore => None,
            Handshake::HealthCheck => {
                let mut out: Vec<u8> = Vec::new();
                append_bytes(&mut out, "HTTP/1.1 200 OK\r\nContent-Length: 0\r\n\r\n".as_bytes());
                Some(out)
            },
            Handshake::PlainHttp => {
                let mut out: Vec<u8> = Vec::new();
                append_bytes(
                    &mut out,
                    "HTTP/1.1 200 OK\r\nContent-Length: 2\r\n\r\nOK".as_bytes(),
                );
                Some(out)
            },
            Handshake::Upgrade { accept, consumed } => {
                let mut out: Vec<u8> = Vec::new();
                append_bytes(&mut out, "HTTP/1.1 101 Switching Protocols".as_bytes());
                push_crlf(&mut out);
                push_header(&mut out, "Upgrade", "websocket".as_bytes());
                push_header(&mut out, "Connection", "Upgrade".as_bytes());
                push_header(&mut out, "Sec-WebSocket-Accept", accept.as_str().as_bytes());
                push_crlf(&mut out);
                Some(out)
            },
        }
    }

    /// Whether the connection is a WebSocket from here on.
    pub fn is_upgrade(&self) -> (b: bool)
        ensures
            b == (self is Upgrade),
    {
        match self {
            Handshake::Upgrade { .. } => true,
            _ => false,
        }
    }
}

/// Reads an HTTP request as far as it has arrived and says how the server
/// answers it.
pub fn handle_websocket_handshake(input: &[u8]) -> (res: Result<Handshake, Error>)
    ensures
        answers(res, server_answer(input@)),
{
    let n: usize = input.len();
    let p = match find_byte(input, 0, LF) {
        None => {
            return Ok(Handshake::NeedMore);
        },
        Some(p) => p,
    };
    let request_line = trimmed_end(slice_subrange(input, 0, p + 1));
    if has_prefix(request_line, "HEAD".as_bytes()) {
        return Ok(Handshake::HealthCheck);
    }
    if !has_prefix(request_line, "GET".as_bytes()) {
        return Err(Refusal::InvalidMethod.into_error());
    }
    let from: usize = p + 1;
    let end = match find_block_end(input, from, true) {
        None => {
            return Ok(Handshake::NeedMore);
        },
        Some(end) => end,
    };
    let upgrade = find_header(input, from, end, "upgrade", true);
    let key = find_header(input, from, end, "sec-websocket-key", true);
    let version = find_header(input, from, end, "sec-websocket-version", true);
    let connection = find_header(input, from, end, "connection", true);
    let wants_websocket = match upgrade {
        Some(u) => equals_ignore_case(u, "websocket".as_bytes()),
        None => false,
    };
    if !wants_websocket {
        return Ok(Handshake::PlainHttp);
    }
    let key = match key {
        None => {
            return Err(Refusal::MissingKey.into_error());
        },
        Some(key) => key,
    };
    match version {
        Some(v) => {
            if !bytes_equal(v, "13".as_bytes()) {
                return Err(Refusal::UnsupportedVersion.into_error());
            }
        },
        None => {},
    }
    let upgrades = match connection {
        Some(c) => contains_text(c, "upgrade".as_bytes()),
        None => false,
    };
    if !upgrades {
        return Err(Refusal::BadConnection.into_error());
    }
    Ok(Handshake::Upgrade { accept: accept_key(key), consumed: end })
}

/// The upgrade request for `path` at the host `addr`, with the key `key`:
/// the request line, five header lines and a blank line.
pub open spec fn client_request(path: Seq<char>, addr: Seq<char>, key: Seq<char>) -> Seq<u8> {
    encode_utf8("GET "@) + encode_utf8(path) + encode_utf8(" HTTP/1.1"@) + crlf() + header_line(
        "Host"@,
        encode_utf8(addr),
    ) + header_line("Upgrade"@, encode_utf8("websocket"@)) + header_line(
        "Connection"@,
        encode_utf8("Upgrade"@),
    ) + header_line("Sec-WebSocket-Key"@, encode_utf8(key)) + header_line(
        "Sec-WebSocket-Version"@,
        encode_utf8("13"@),
    ) + crlf()
}

/// How the client judges what has arrived of the server's answer.
pub enum ClientAnswer {
    /// The answer is not all there yet.
    NeedMore,
    /// The server switched protocols and proved that it read the key; the
    /// answer is `consumed` bytes long.
    Accepted { consumed: nat },
    /// The answer is refused.
    Refused(Refusal),
}

/// The client's judgement of the answer bytes `s`, where `expected` is the
/// accept value that its key calls for.
///
/// The status line must begin with `HTTP/1.1 101`; once the blank line has
/// come, the last `Sec-WebSocket-Accept` header must hold exactly
/// `expected`.
pub open spec fn client_answer(s: Seq<u8>, expected: Seq<u8>) -> ClientAnswer {
    match first_index(s, 0, LF) {
        None => ClientAnswer::NeedMore,
        Some(p) => {
            if !starts_with(s.subrange(0, p + 1), encode_utf8("HTTP/1.1 101"@)) {
                ClientAnswer::Refused(Refusal::NotSwitching)
            } else {
                match block_end(s, p + 1, false) {
                    None => ClientAnswer::NeedMore,
                    Some(end) => if header(s, p + 1, end, "sec-websocket-accept"@, false) == Some(
                        expected,
                    ) {
                        ClientAnswer::Accepted { consumed: end as nat }
                    } else {
                        ClientAnswer::Refused(Refusal::AcceptMismatch)
                    },
                }
            }
        },
    }
}

/// Whether `res` reports what `answer` describes.
pub open spec fn judged(res: Result<Option<usize>, Error>, answer: ClientAnswer) -> bool {
    match answer {
        ClientAnswer::NeedMore => res matches Ok(None),
        ClientAnswer::Accepted { consumed } => res matches Ok(Some(n)) && n == consumed,
        ClientAnswer::Refused(refusal) => res matches Err(Error::HandshakeFailed(m)) && m@
            == refusal.text(),
    }
}

/// Whether `text` is made of the characters of base64.
pub open spec fn is_base64(text: Seq<char>) -> bool {
    forall|i: int| 0 <= i < text.len() ==> is_base64_char(#[trigger] text[i])
}

/// The client's side of the handshake: the key it sent and the accept
/// value that the key calls for, by which it judges the server's answer.
#[derive(Debug)]
pub struct ClientHandshake {
    key: String,
    expected: String,
}

impl ClientHandshake {
    /// The `Sec-WebSocket-Key` of this handshake.
    pub closed spec fn key_text(&self) -> Seq<char> {
        self.key@
    }

    /// The accept value that the client waits for.
    pub closed spec fn expected(&self) -> Seq<char> {
        self.expected@
    }

    /// The key is base64 text, and the accept value that the client waits
    /// for is the one that the key calls for, base64 text as well.
    pub open spec fn wf(&self) -> bool {
        &&& is_base64(self.key_text())
        &&& self.expected() == accept_for(encode_utf8(self.key_text()))
        &&& is_base64(self.expected())
    }

    /// A handshake whose key is the base64 text of `nonce`.
    pub fn with_nonce(nonce: &[u8; 16]) -> (hs: ClientHandshake)
        ensures
            hs.key_text() == base64_text(nonce@),
            hs.wf(),
    {
        let key = base64_encode(nonce.as_slice());
        let expected = accept_key(key.as_str().as_bytes());
        ClientHandshake { key, expected }
    }

    /// A handshake with a fresh random key: the base64 text of sixteen
    /// random bytes.
    pub fn new() -> (hs: ClientHandshake)
        ensures
            exists|nonce: Seq<u8>|
                nonce.len() == 16 && hs.key_text() == #[trigger] base64_text(nonce),
            hs.wf(),
    {
        let nonce = random_nonce();
        let hs = ClientHandshake::with_nonce(&nonce);
        assert(nonce@.len() == 16 && hs.key_text() == base64_text(nonce@));
        hs
    }

    /// The `Sec-WebSocket-Key` of this handshake.
    pub fn key(&self) -> (key: &str)
        ensures
            key@ == self.key_text(),
    {
        self.key.as_str()
    }

    /// The upgrade request to send: `GET` of `path` at the host `addr`.
    pub fn request(&self, addr: &str, path: &str) -> (out: Vec<u8>)
        ensures
            out@ == client_request(path@, addr@, self.key_text()),
    {
        let mut out: Vec<u8> = Vec::new();
        append_bytes(&mut out, "GET ".as_bytes());
        append_bytes(&mut out, path.as_bytes());
        append_bytes(&mut out, " HTTP/1.1".as_bytes());
        push_crlf(&mut out);
        push_header(&mut out, "Host", addr.as_bytes());
        push_header(&mut out, "Upgrade", "websocket".as_bytes());
        push_header(&mut out, "Connection", "Upgrade".as_bytes());
        push_header(&mut out, "Sec-WebSocket-Key", self.key.as_str().as_bytes());
        push_header(&mut out, "Sec-WebSocket-Version", "13".as_bytes());
        push_crlf(&mut out);
        out
    }

    /// Judges the server's answer as far as it has arrived.
    ///
    /// `Ok(None)` asks for more bytes; `Ok(Some(n))` accepts, and the
    /// connection is open from byte `n` of the input on.
    pub fn verify(&self, input: &[u8]) -> (res: Result<Option<usize>, Error>)
        ensures
            judged(res, client_answer(input@, encode_utf8(self.expected()))),
    {
        let n: usize = input.len();
        let p = match find_byte(input, 0, LF) {
            None => {
                return Ok(None);
            },
            Some(p) => p,
        };
        if !has_prefix(slice_subrange(input, 0, p + 1), "HTTP/1.1 101".as_bytes()) {
            return Err(Refusal::NotSwitching.into_error());
        }
        let from: usize = p + 1;
        let end = match find_block_end(input, from, false) {
            None => {
                return Ok(None);
            },
            Some(end) => end,
        };
        let accepted = match find_header(input, from, end, "sec-websocket-accept", false) {
            Some(v) => bytes_equal(v, self.expected.as_str().as_bytes()),
            None => false,
        };
        if accepted {
            Ok(Some(end))
        } else {
            Err(Refusal::AcceptMismatch.into_error())
        }
    }
}

} // verus!
