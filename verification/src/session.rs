//! The session: request ids, the registry of methods, the dispatch of what
//! comes in, and the one-shot close hook.
//!
//! A session decides and the caller acts. Handlers and the close hook are
//! the caller's closures: the session hands out the slot under which a
//! handler is kept and says when the hook is to fire.

use crate::handshake::{
    answers, handle_websocket_handshake, judged, client_answer, client_request, server_answer,
    ClientHandshake, Handshake,
};
use crate::random::random_id;
use crate::text::str_equal;
use crate::wire::{wire_decode, wire_text, WireMessage, WireView};
use crate::ws::codec::{OP_BINARY, OP_CLOSE, OP_PING, OP_PONG, OP_TEXT};
use crate::ws::{Assembled, Assembler, Frame, FrameView, Partial, ReadOutcome, Reply, WebSocket};
use crate::Error;
use vstd::prelude::*;
use vstd::utf8::*;

verus! {

/// A reply as it is handed to the callers that wait: the id it answers,
/// whether it is an error, and its payload as JSON text.
#[derive(Debug, Clone)]
pub struct Published {
    pub id: u32,
    pub is_error: bool,
    pub payload: String,
}

/// The mathematical value of a [`Published`].
pub struct PublishedView {
    pub id: u32,
    pub is_error: bool,
    pub payload: Seq<char>,
}

impl View for Published {
    type V = PublishedView;

    open spec fn view(&self) -> PublishedView {
        PublishedView { id: self.id, is_error: self.is_error, payload: self.payload@ }
    }
}

/// The index of the first reply at or after `from` that answers the
/// request `own`.
pub open spec fn match_from(published: Seq<PublishedView>, own: u32, from: int) -> Option<int>
    decreases published.len() - from,
{
    if from < 0 || from >= published.len() {
        None
    } else if published[from].id == own {
        Some(from)
    } else {
        match_from(published, own, from + 1)
    }
}

/// The reply that the caller of the request `own` takes from what is
/// published: the first that bears its id. Those before it are passed
/// over.
pub open spec fn first_match(published: Seq<PublishedView>, own: u32) -> Option<int> {
    match_from(published, own, 0)
}

impl Published {
    /// Whether this reply answers the request made under `id`.
    pub fn answers(&self, id: u32) -> (b: bool)
        ensures
            b == (self@.id == id),
    {
        self.id == id
    }
}

/// Picks from what is published the reply for the caller of the request
/// `own`.
pub fn select(published: &[Published], own: u32) -> (res: Option<usize>)
    ensures
        match res {
            Some(k) => first_match(published@.map_values(|p: Published| p@), own) == Some(
                k as int,
            ) && k < published@.len(),
            None => first_match(published@.map_values(|p: Published| p@), own) is None,
        },
{
    let ghost views = published@.map_values(|p: Published| p@);
    let n: usize = published.len();
    let mut i: usize = 0;
    while i < n
        invariant
            n == published@.len(),
            views == published@.map_values(|p: Published| p@),
            i <= n,
            first_match(views, own) == match_from(views, own, i as int),
        decreases n - i,
    {
        assert(views[i as int] == published@[i as int]@);
        if published[i].answers(own) {
            return Some(i);
        }
        i = i + 1;
    }
    None
}

/// What an inbound frame asks of the receiver.
#[derive(Debug)]
pub enum Inbound {
    /// A request for a registered method: run the handler kept under
    /// `slot` and answer under `id`.
    Call { slot: usize, id: u32, data: String },
    /// A reply: hand it to the callers that wait.
    Reply(Published),
    /// A notification, for whoever listens.
    Notification { method: String, data: String },
    /// A pong: tell the keepalive timer.
    Pong,
    /// The session has ended: fire the close hook if `fire_hook`, and stop.
    Closed { fire_hook: bool },
    /// Nothing to do.
    Ignored,
    /// The frame was dropped for the reason given; go on.
    Dropped(Error),
}

/// The mathematical value of an [`Inbound`], the reason of a drop left out.
pub enum InboundView {
    Call { slot: int, id: u32, data: Seq<char> },
    Reply(PublishedView),
    Notification { method: Seq<char>, data: Seq<char> },
    Pong,
    Closed { fire_hook: bool },
    Ignored,
    Dropped,
}

impl View for Inbound {
    type V = InboundView;

    open spec fn view(&self) -> InboundView {
        match self {
            Inbound::Call { slot, id, data } => InboundView::Call {
                slot: *slot as int,
                id: *id,
                data: data@,
            },
            Inbound::Reply(p) => InboundView::Reply(p@),
            Inbound::Notification { method, data } => InboundView::Notification {
                method: method@,
                data: data@,
            },
            Inbound::Pong => InboundView::Pong,
            Inbound::Closed { fire_hook } => InboundView::Closed { fire_hook: *fire_hook },
            Inbound::Ignored => InboundView::Ignored,
            Inbound::Dropped(_) => InboundView::Dropped,
        }
    }
}

/// What the keepalive timer does after waiting for a pong.
#[derive(Debug)]
pub enum KeepAlive {
    /// The pong came in time: wait for the next tick.
    Continue,
    /// The deadline passed: send `close`, fire the close hook if
    /// `fire_hook`, and stop.
    Expired { close: Vec<u8>, fire_hook: bool },
}

/// The state of a session.
pub struct SessionView {
    /// The connection the session runs on.
    pub ws: WebSocket,
    /// The id of the latest request; 0 before the first.
    pub last_id: u32,
    /// The names of the registered methods; the index is the slot.
    pub methods: Seq<Seq<char>>,
    /// Whether a close hook is registered.
    pub hook: bool,
    /// Whether the session has ended.
    pub closed: bool,
}

/// The id that follows `id`: one more, and 0 after 2^32 - 1.
pub open spec fn id_after(id: u32, steps: nat) -> u32 {
    ((id + steps) % 0x1_0000_0000) as u32
}

/// The first slot at or after `from` that holds `name`.
pub open spec fn slot_from(methods: Seq<Seq<char>>, name: Seq<char>, from: int) -> Option<int>
    decreases methods.len() - from,
{
    if from < 0 || from >= methods.len() {
        None
    } else if methods[from] == name {
        Some(from)
    } else {
        slot_from(methods, name, from + 1)
    }
}

/// The slot under which `name` is registered.
pub open spec fn slot_of(methods: Seq<Seq<char>>, name: Seq<char>) -> Option<int> {
    slot_from(methods, name, 0)
}

/// The registry after `name` has been registered: unchanged if the name
/// was there, else longer by that name.
pub open spec fn registered(methods: Seq<Seq<char>>, name: Seq<char>) -> Seq<Seq<char>> {
    if slot_of(methods, name) is Some {
        methods
    } else {
        methods.push(name)
    }
}

/// No name is registered twice.
pub open spec fn distinct(methods: Seq<Seq<char>>) -> bool {
    forall|i: int, j: int| 0 <= i < j < methods.len() ==> methods[i] != methods[j]
}

/// Registering keeps the names distinct.
pub proof fn lemma_registered_distinct(methods: Seq<Seq<char>>, name: Seq<char>)
    requires
        distinct(methods),
    ensures
        distinct(registered(methods, name)),
{
    lemma_slot_from(methods, name, 0);
}

/// What `slot_from` finds holds the name, nothing before it does, and
/// `None` means the name is nowhere from `from` on.
pub proof fn lemma_slot_from(methods: Seq<Seq<char>>, name: Seq<char>, from: int)
    requires
        0 <= from,
    ensures
        match slot_from(methods, name, from) {
            Some(i) => from <= i < methods.len() && methods[i] == name && forall|j: int|
                from <= j < i ==> methods[j] != name,
            None => forall|j: int| from <= j < methods.len() ==> methods[j] != name,
        },
    decreases methods.len() - from,
{
    if from < methods.len() && methods[from] != name {
        lemma_slot_from(methods, name, from + 1);
    }
}

/// The end of a session: it is closed from now on, and the hook fires if
/// one is registered and the session was still open.
pub open spec fn shut(s: SessionView) -> (SessionView, bool) {
    (SessionView { closed: true, ..s }, s.hook && !s.closed)
}

/// What a message means to the receiver of a session with the methods
/// `methods`.
pub open spec fn dispatch(methods: Seq<Seq<char>>, message: WireView) -> InboundView {
    match message {
        WireView::Request { id, method, data } => match slot_of(methods, method) {
            Some(slot) => InboundView::Call { slot, id, data },
            None => InboundView::Ignored,
        },
        WireView::Response { id, result } => InboundView::Reply(
            PublishedView { id, is_error: false, payload: result },
        ),
        WireView::Error { id, error } => InboundView::Reply(
            PublishedView { id, is_error: true, payload: error },
        ),
        WireView::Notification { method, data } => InboundView::Notification { method, data },
    }
}

/// The state after an inbound frame and what the frame asks of the
/// receiver.
///
/// A text is read as a message and dispatched; a text that is no message
/// is dropped. A pong is passed on to the keepalive timer, a close frame
/// ends the session, and binary messages and pings ask for nothing.
pub open spec fn inbound(s: SessionView, frame: FrameView) -> (SessionView, InboundView) {
    match frame {
        FrameView::Text(text) => match wire_decode(text) {
            Some(message) => (s, dispatch(s.methods, message)),
            None => (s, InboundView::Dropped),
        },
        FrameView::Binary(_) => (s, InboundView::Ignored),
        FrameView::Ping => (s, InboundView::Ignored),
        FrameView::Pong => (s, InboundView::Pong),
        FrameView::Close => (shut(s).0, InboundView::Closed { fire_hook: shut(s).1 }),
    }
}

/// What the receiver learns from the bytes at hand: how many of them are
/// used up, the frame owed to the peer, and what is asked of the receiver;
/// `None` where more bytes are needed first.
#[derive(Debug)]
pub struct Received {
    pub consumed: usize,
    pub reply: Reply,
    pub inbound: Option<Inbound>,
}

/// What receiving `input` comes to, with `partial` the message in
/// progress: the state of the session and the message in progress
/// afterwards, the bytes used up, the reply owed, and what is asked of the
/// receiver.
///
/// A session that has ended reads nothing more and says so. Otherwise one
/// frame is read: a message is dispatched, a frame that completes nothing
/// asks for nothing, a text that is not UTF-8 is dropped, and a frame that
/// breaks the protocol ends the session.
pub open spec fn received(s: SessionView, partial: Partial, input: Seq<u8>) -> (
    SessionView,
    Partial,
    nat,
    Reply,
    Option<InboundView>,
) {
    if s.closed {
        (s, partial, 0, Reply::Nothing, Some(InboundView::Closed { fire_hook: false }))
    } else {
        let (next, outcome, reply, consumed) = s.ws.read_spec(partial, input);
        match outcome {
            None => (s, next, consumed, reply, None),
            Some(Assembled::Pending) => (s, next, consumed, reply, Some(InboundView::Ignored)),
            Some(Assembled::Message(frame)) => (
                inbound(s, frame).0,
                next,
                consumed,
                reply,
                Some(inbound(s, frame).1),
            ),
            Some(Assembled::BadUtf8) => (s, next, consumed, reply, Some(InboundView::Dropped)),
            Some(Assembled::Violation(_)) => (
                shut(s).0,
                next,
                consumed,
                reply,
                Some(InboundView::Closed { fire_hook: shut(s).1 }),
            ),
        }
    }
}

/// One end of an RPC session over a WebSocket connection.
#[derive(Debug)]
pub struct Session {
    ws: WebSocket,
    last_id: u32,
    methods: Vec<String>,
    hook: bool,
    closed: bool,
}

impl View for Session {
    type V = SessionView;

    closed spec fn view(&self) -> SessionView {
        SessionView {
            ws: self.ws,
            last_id: self.last_id,
            methods: Seq::new(self.methods@.len(), |i: int| self.methods@[i]@),
            hook: self.hook,
            closed: self.closed,
        }
    }
}

impl PartialEq for Session {
    fn eq(&self, other: &Self) -> (res: bool) {
        self.ws.id() == other.ws.id()
    }
}

impl vstd::std_specs::cmp::PartialEqSpecImpl for Session {
    open spec fn obeys_eq_spec() -> bool {
        true
    }

    open spec fn eq_spec(&self, other: &Self) -> bool {
        self@.ws.id() == other@.ws.id()
    }
}

impl Eq for Session {

}

impl std::hash::Hash for Session {
    /// `Hash::hash` of `u64`: feeds the identity of the connection, and
    /// nothing else, to the hasher.
    #[verifier::external_body]
    fn hash<H: std::hash::Hasher>(&self, state: &mut H) {
        self.ws.id().hash(state)
    }
}

impl Session {
    /// No method is registered twice.
    pub open spec fn wf(&self) -> bool {
        distinct(self@.methods)
    }

    /// A session on the connection `ws`: no request made, no method
    /// registered, no hook, open.
    pub fn from_ws(ws: WebSocket) -> (s: Session)
        ensures
            s@ == (SessionView {
                ws,
                last_id: 0,
                methods: Seq::empty(),
                hook: false,
                closed: false,
            }),
            s.wf(),
    {
        let s = Session { ws, last_id: 0, methods: Vec::new(), hook: false, closed: false };
        assert(s@.methods =~= Seq::empty());
        s
    }

    /// A session on the connection `ws`.
    pub fn new(ws: WebSocket) -> (s: Session)
        ensures
            s@ == (SessionView {
                ws,
                last_id: 0,
                methods: Seq::empty(),
                hook: false,
                closed: false,
            }),
            s.wf(),
    {
        Session::from_ws(ws)
    }

    /// The connection the session runs on.
    pub fn ws(&self) -> (ws: WebSocket)
        ensures
            ws == self@.ws,
    {
        self.ws
    }

    /// Whether the session has ended.
    pub fn is_closed(&self) -> (b: bool)
        ensures
            b == self@.closed,
    {
        self.closed
    }

    /// The server's side of the opening handshake: reads the request as far
    /// as it has arrived, says how to answer it, and on an upgrade opens a
    /// session that sends unmasked, under a fresh identity.
    pub fn handshake(input: &[u8]) -> (res: Result<(Handshake, Option<Session>), Error>)
        ensures
            match res {
                Ok((answer, session)) => answers(Ok(answer), server_answer(input@)) && match session {
                    Some(s) => answer is Upgrade && s@ == (SessionView {
                        ws: s@.ws,
                        last_id: 0,
                        methods: Seq::empty(),
                        hook: false,
                        closed: false,
                    }) && !s@.ws.mask_payload(),
                    None => !(answer is Upgrade),
                },
                Err(Error::WebSocket(e)) => answers(Err(e), server_answer(input@)),
                Err(_) => false,
            },
    {
        match handle_websocket_handshake(input) {
            Ok(answer) => {
                if answer.is_upgrade() {
                    let ws = WebSocket::new(random_id(), false);
                    Ok((answer, Some(Session::from_ws(ws))))
                } else {
                    Ok((answer, None))
                }
            },
            Err(e) => Err(Error::WebSocket(e)),
        }
    }

    /// The client's side of the opening handshake, first half: a fresh key
    /// and the request to send for `path` at the host `addr`.
    pub fn connect(addr: &str, path: &str) -> (res: (ClientHandshake, Vec<u8>))
        ensures
            res.0.wf(),
            res.1@ == client_request(path@, addr@, res.0.key_text()),
    {
        let hs = ClientHandshake::new();
        let request = hs.request(addr, path);
        (hs, request)
    }

    /// The client's side of the opening handshake, second half: judges the
    /// server's answer as far as it has arrived and, once it is accepted,
    /// opens a session that masks what it sends, under a fresh identity.
    ///
    /// `Ok(None)` asks for more bytes; with `Ok(Some((s, n)))` the
    /// connection is open from byte `n` of the input on.
    pub fn connected(handshake: &ClientHandshake, input: &[u8]) -> (res: Result<
        Option<(Session, usize)>,
        Error,
    >)
        ensures
            match res {
                Ok(Some((s, n))) => judged(
                    Ok(Some(n)),
                    client_answer(input@, encode_utf8(handshake.expected())),
                ) && s@ == (SessionView {
                    ws: s@.ws,
                    last_id: 0,
                    methods: Seq::empty(),
                    hook: false,
                    closed: false,
                }) && s@.ws.mask_payload(),
                Ok(None) => judged(
                    Ok(None),
                    client_answer(input@, encode_utf8(handshake.expected())),
                ),
                Err(Error::WebSocket(e)) => judged(
                    Err(e),
                    client_answer(input@, encode_utf8(handshake.expected())),
                ),
                Err(_) => false,
            },
    {
        match handshake.verify(input) {
            Ok(Some(n)) => {
                let ws = WebSocket::new(random_id(), true);
                Ok(Some((Session::from_ws(ws), n)))
            },
            Ok(None) => Ok(None),
            Err(e) => Err(Error::WebSocket(e)),
        }
    }

    /// Takes the next request id: one more than the last, 0 after
    /// 2^32 - 1. The first id of a session is 1.
    pub fn next_id(&mut self) -> (id: u32)
        ensures
            id == id_after(old(self)@.last_id, 1),
            final(self)@ == (SessionView { last_id: id, ..old(self)@ }),
    {
        let id: u32 = if self.last_id == 0xFFFF_FFFF {
            0
        } else {
            self.last_id + 1
        };
        self.last_id = id;
        assert(self@.methods =~= old(self)@.methods);
        id
    }

    /// The frame that carries `message`.
    fn send_message(&self, message: &WireMessage) -> (res: Result<Vec<u8>, Error>)
        ensures
            match wire_text(message@) {
                Some(text) => res matches Ok(out) && self@.ws.emits(
                    out@,
                    OP_TEXT,
                    encode_utf8(text),
                ),
                None => res matches Err(Error::Json(_)),
            },
    {
        match message.encode() {
            Ok(text) => Ok(self.ws.send(text.as_str())),
            Err(e) => Err(e),
        }
    }

    /// Starts a call of `method` with the payload `data`, a JSON text:
    /// takes the next id and builds the frame that carries the request.
    ///
    /// The id is taken even where the request cannot be written, which is
    /// where `data` is not JSON or the method's name cannot be written.
    pub fn request(&mut self, method: &str, data: &str) -> (res: Result<(u32, Vec<u8>), Error>)
        ensures
            final(self)@ == (SessionView {
                last_id: id_after(old(self)@.last_id, 1),
                ..old(self)@
            }),
            match wire_text(
                WireView::Request {
                    id: id_after(old(self)@.last_id, 1),
                    method: method@,
                    data: data@,
                },
            ) {
                Some(text) => res matches Ok((id, out)) && id == id_after(old(self)@.last_id, 1)
                    && old(self)@.ws.emits(out@, OP_TEXT, encode_utf8(text)),
                None => res matches Err(Error::Json(_)),
            },
    {
        let id = self.next_id();
        let message = WireMessage::Request {
            id,
            method: String::from_str(method),
            data: String::from_str(data),
        };
        match self.send_message(&message) {
            Ok(out) => Ok((id, out)),
            Err(e) => Err(e),
        }
    }

    /// The frame that carries a notification of `method` with the payload
    /// `data`, a JSON text.
    pub fn notify(&self, method: &str, data: &str) -> (res: Result<Vec<u8>, Error>)
        ensures
            match wire_text(WireView::Notification { method: method@, data: data@ }) {
                Some(text) => res matches Ok(out) && self@.ws.emits(
                    out@,
                    OP_TEXT,
                    encode_utf8(text),
                ),
                None => res matches Err(Error::Json(_)),
            },
    {
        let message = WireMessage::Notification {
            method: String::from_str(method),
            data: String::from_str(data),
        };
        self.send_message(&message)
    }

    /// The frame that answers the call made under `id` with the result
    /// `value`, a JSON text.
    pub fn respond(&self, id: u32, value: &str) -> (res: Result<Vec<u8>, Error>)
        ensures
            match wire_text(WireView::Response { id, result: value@ }) {
                Some(text) => res matches Ok(out) && self@.ws.emits(
                    out@,
                    OP_TEXT,
                    encode_utf8(text),
                ),
                None => res matches Err(Error::Json(_)),
            },
    {
        let message = WireMessage::Response { id, result: String::from_str(value) };
        self.send_message(&message)
    }

    /// The frame that answers the call made under `id` with the error
    /// `value`, a JSON text.
    pub fn respond_error(&self, id: u32, value: &str) -> (res: Result<Vec<u8>, Error>)
        ensures
            match wire_text(WireView::Error { id, error: value@ }) {
                Some(text) => res matches Ok(out) && self@.ws.emits(
                    out@,
                    OP_TEXT,
                    encode_utf8(text),
                ),
                None => res matches Err(Error::Json(_)),
            },
    {
        let message = WireMessage::Error { id, error: String::from_str(value) };
        self.send_message(&message)
    }

    /// The frame that answers the call made under `id` with what its
    /// handler returned: a result, an error, or, where the handler returned
    /// nothing, no frame at all.
    pub fn answer(&self, id: u32, outcome: Option<(bool, &str)>) -> (res: Result<
        Option<Vec<u8>>,
        Error,
    >)
        ensures
            match outcome {
                None => res matches Ok(None),
                Some((is_error, value)) => match wire_text(
                    if is_error {
                        WireView::Error { id, error: value@ }
                    } else {
                        WireView::Response { id, result: value@ }
                    },
                ) {
                    Some(text) => res matches Ok(Some(out)) && self@.ws.emits(
                        out@,
                        OP_TEXT,
                        encode_utf8(text),
                    ),
                    None => res matches Err(Error::Json(_)),
                },
            },
    {
        match outcome {
            None => Ok(None),
            Some((is_error, value)) => {
                let sent = if is_error {
                    self.respond_error(id, value)
                } else {
                    self.respond(id, value)
                };
                match sent {
                    Ok(out) => Ok(Some(out)),
                    Err(e) => Err(e),
                }
            },
        }
    }

    /// The frame that carries `text` as a text message.
    pub fn send(&self, text: &str) -> (out: Vec<u8>)
        ensures
            self@.ws.emits(out@, OP_TEXT, encode_utf8(text@)),
    {
        self.ws.send(text)
    }

    /// The frame that carries `payload` as a binary message.
    pub fn send_bin(&self, payload: &[u8]) -> (out: Vec<u8>)
        ensures
            self@.ws.emits(out@, OP_BINARY, payload@),
    {
        self.ws.send_bin(payload)
    }

    /// A close frame.
    pub fn send_close(&self) -> (out: Vec<u8>)
        ensures
            self@.ws.emits(out@, OP_CLOSE, Seq::empty()),
    {
        self.ws.close()
    }

    /// A ping frame.
    pub fn send_ping(&self) -> (out: Vec<u8>)
        ensures
            self@.ws.emits(out@, OP_PING, Seq::empty()),
    {
        self.ws.send_ping()
    }

    /// A pong frame.
    pub fn send_pong(&self) -> (out: Vec<u8>)
        ensures
            self@.ws.emits(out@, OP_PONG, Seq::empty()),
    {
        self.ws.send_pong()
    }

    /// The slot under which `name` is registered.
    pub fn handler(&self, name: &str) -> (slot: Option<usize>)
        ensures
            match slot {
                Some(i) => slot_of(self@.methods, name@) == Some(i as int) && i
                    < self@.methods.len(),
                None => slot_of(self@.methods, name@) is None,
            },
    {
        let n: usize = self.methods.len();
        let mut i: usize = 0;
        while i < n
            invariant
                n == self.methods@.len(),
                n == self@.methods.len(),
                i <= n,
                slot_of(self@.methods, name@) == slot_from(self@.methods, name@, i as int),
            decreases n - i,
        {
            assert(self@.methods[i as int] == self.methods@[i as int]@);
            if str_equal(self.methods[i].as_str(), name) {
                return Some(i);
            }
            i = i + 1;
        }
        None
    }

    /// Registers a handler for the method `name` and returns the slot to
    /// keep it under. A name that is registered already keeps its slot:
    /// the new handler takes the place of the old one.
    pub fn on_request(&mut self, name: &str) -> (slot: usize)
        ensures
            final(self)@ == (SessionView {
                methods: registered(old(self)@.methods, name@),
                ..old(self)@
            }),
            slot_of(final(self)@.methods, name@) == Some(slot as int),
            slot < final(self)@.methods.len(),
            old(self).wf() ==> final(self).wf(),
    {
        proof {
            if old(self).wf() {
                lemma_registered_distinct(old(self)@.methods, name@);
            }
        }
        match self.handler(name) {
            Some(slot) => {
                assert(self@.methods =~= registered(old(self)@.methods, name@));
                slot
            },
            None => {
                let slot: usize = self.methods.len();
                proof {
                    lemma_slot_from(old(self)@.methods, name@, 0);
                }
                self.methods.push(String::from_str(name));
                assert(self@.methods =~= old(self)@.methods.push(name@));
                proof {
                    let after = self@.methods;
                    lemma_slot_from(after, name@, 0);
                    assert(after[slot as int] == name@);
                    assert(forall|j: int| 0 <= j < slot ==> after[j] == old(self)@.methods[j]);
                }
                slot
            },
        }
    }

    /// Registers the close hook. Registering again replaces it.
    pub fn on_close(&mut self)
        ensures
            final(self)@ == (SessionView { hook: true, ..old(self)@ }),
    {
        self.hook = true;
        assert(self@.methods =~= old(self)@.methods);
    }

    /// Ends the session and says whether the close hook is to fire.
    fn shut_down(&mut self) -> (fire_hook: bool)
        ensures
            final(self)@ == shut(old(self)@).0,
            fire_hook == shut(old(self)@).1,
    {
        let fire_hook = self.hook && !self.closed;
        self.closed = true;
        assert(self@.methods =~= old(self)@.methods);
        fire_hook
    }

    /// Closes the session: the close frame to send, and whether the close
    /// hook is to fire.
    pub fn close(&mut self) -> (res: (Vec<u8>, bool))
        ensures
            final(self)@ == shut(old(self)@).0,
            old(self)@.ws.emits(res.0@, OP_CLOSE, Seq::empty()),
            res.1 == shut(old(self)@).1,
    {
        let frame = self.ws.close();
        let fire_hook = self.shut_down();
        (frame, fire_hook)
    }

    /// Takes a frame that the connection handed over and says what it asks
    /// of the receiver.
    pub fn read_t(&mut self, frame: &Frame) -> (res: Inbound)
        ensures
            final(self)@ == inbound(old(self)@, frame@).0,
            res@ == inbound(old(self)@, frame@).1,
            res matches Inbound::Dropped(e) ==> e is Json,
    {
        match frame {
            Frame::Text(text) => match WireMessage::decode(text.as_str()) {
                Ok(WireMessage::Request { id, method, data }) => match self.handler(
                    method.as_str(),
                ) {
                    Some(slot) => Inbound::Call { slot, id, data },
                    None => Inbound::Ignored,
                },
                Ok(WireMessage::Response { id, result }) => Inbound::Reply(
                    Published { id, is_error: false, payload: result },
                ),
                Ok(WireMessage::Error { id, error }) => Inbound::Reply(
                    Published { id, is_error: true, payload: error },
                ),
                Ok(WireMessage::Notification { method, data }) => Inbound::Notification {
                    method,
                    data,
                },
                Err(e) => Inbound::Dropped(e),
            },
            Frame::Binary(_) => Inbound::Ignored,
            Frame::Ping => Inbound::Ignored,
            Frame::Pong => Inbound::Pong,
            Frame::Close => {
                let fire_hook = self.shut_down();
                Inbound::Closed { fire_hook }
            },
        }
    }

    /// Takes a failure of the connection's read and says what it asks of
    /// the receiver: a text that is not UTF-8 is dropped, anything else
    /// ends the session.
    pub fn read_failed(&mut self, error: crate::ws::Error) -> (res: Inbound)
        ensures
            error is Utf8 ==> final(self)@ == old(self)@ && res == Inbound::Dropped(
                Error::WebSocket(error),
            ),
            !(error is Utf8) ==> final(self)@ == shut(old(self)@).0 && res@ == (
            InboundView::Closed { fire_hook: shut(old(self)@).1 }),
    {
        match error {
            crate::ws::Error::Utf8(e) => Inbound::Dropped(
                Error::WebSocket(crate::ws::Error::Utf8(e)),
            ),
            _ => {
                let fire_hook = self.shut_down();
                Inbound::Closed { fire_hook }
            },
        }
    }

    /// Reads the next frame from the front of `input` and says what it asks
    /// of the receiver; `assembler` holds the message in progress.
    pub fn receive(&mut self, assembler: &mut Assembler, input: &[u8]) -> (res: Received)
        ensures
            final(self)@ == received(old(self)@, old(assembler)@, input@).0,
            final(assembler)@ == received(old(self)@, old(assembler)@, input@).1,
            res.consumed == received(old(self)@, old(assembler)@, input@).2,
            res.reply == received(old(self)@, old(assembler)@, input@).3,
            match received(old(self)@, old(assembler)@, input@).4 {
                Some(asked) => res.inbound matches Some(i) && i@ == asked,
                None => res.inbound is None,
            },
    {
        if self.closed {
            return Received {
                consumed: 0,
                reply: Reply::Nothing,
                inbound: Some(Inbound::Closed { fire_hook: false }),
            };
        }
        let step = self.ws.read(assembler, input);
        let inbound = match step.outcome {
            ReadOutcome::NeedMore => None,
            ReadOutcome::Continue => Some(Inbound::Ignored),
            ReadOutcome::Frame(frame) => Some(self.read_t(&frame)),
            ReadOutcome::Failed(error) => Some(self.read_failed(error)),
        };
        Received { consumed: step.consumed, reply: step.reply, inbound }
    }

    /// What the keepalive timer does after it has waited for the pong to
    /// its ping: go on if the pong came, else close the session.
    pub fn pong_wait(&mut self, pong_received: bool) -> (res: KeepAlive)
        ensures
            pong_received ==> final(self)@ == old(self)@ && res is Continue,
            !pong_received ==> final(self)@ == shut(old(self)@).0 && (res matches KeepAlive::Expired {
                close,
                fire_hook,
            } && old(self)@.ws.emits(close@, OP_CLOSE, Seq::empty()) && fire_hook == shut(
                old(self)@,
            ).1),
    {
        if pong_received {
            KeepAlive::Continue
        } else {
            let (close, fire_hook) = self.close();
            KeepAlive::Expired { close, fire_hook }
        }
    }
}

} // verus!
