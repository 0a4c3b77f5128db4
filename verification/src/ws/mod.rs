//! The WebSocket transport layer: frames, the connection's role, reassembly.
//!
//! Nothing here touches a socket. Sending returns the bytes to write;
//! reading takes the bytes that have arrived and says what they amount to.

pub mod codec;
pub mod error;
pub mod laws;

pub use error::{Error, Result};

use crate::random::random_mask_key;
use crate::text::string_from_utf8;
use codec::{
    decode_frame, decoded, encode_frame, frame_bytes, is_control, is_data, parse_frame,
    FrameFault, Parsed, RawFrame, OP_BINARY, OP_CLOSE, OP_CONTINUATION, OP_PING, OP_PONG, OP_TEXT,
};
use vstd::prelude::*;
use vstd::utf8::*;

verus! {

/// A message as the application sees it: a whole text or binary message, or
/// one of the three control frames.
#[derive(Debug, Clone)]
pub enum Frame {
    Text(String),
    Binary(Vec<u8>),
    Ping,
    Pong,
    Close,
}

/// The mathematical value of a [`Frame`].
pub enum FrameView {
    Text(Seq<char>),
    Binary(Seq<u8>),
    Ping,
    Pong,
    Close,
}

impl View for Frame {
    type V = FrameView;

    open spec fn view(&self) -> FrameView {
        match self {
            Frame::Text(s) => FrameView::Text(s@),
            Frame::Binary(b) => FrameView::Binary(b@),
            Frame::Ping => FrameView::Ping,
            Frame::Pong => FrameView::Pong,
            Frame::Close => FrameView::Close,
        }
    }
}

/// The frame a connection owes its peer after reading something.
#[derive(Debug, Clone, Copy, PartialEq, Eq, Structural)]
pub enum Reply {
    /// Nothing is owed.
    Nothing,
    /// A pong, in answer to a ping.
    Pong,
    /// A close frame: the peer asked to close, or broke the protocol.
    Close,
}

/// What one frame means to the message being put together.
pub enum Assembled {
    /// Nothing to hand over yet.
    Pending,
    /// A whole message, or a control frame that arrived between messages.
    Message(FrameView),
    /// A whole text message whose bytes are not UTF-8.
    BadUtf8,
    /// The frame does not fit the sequence.
    Violation(FrameFault),
}

/// A message in progress: the opcode of its first frame and the payload
/// gathered so far. `None` between messages.
pub type Partial = Option<(u8, Seq<u8>)>;

/// The value of a message whose frames have all arrived.
pub open spec fn completed(opcode: u8, payload: Seq<u8>) -> Assembled {
    if opcode == OP_TEXT {
        if valid_utf8(payload) {
            Assembled::Message(FrameView::Text(decode_utf8(payload)))
        } else {
            Assembled::BadUtf8
        }
    } else {
        Assembled::Message(FrameView::Binary(payload))
    }
}

/// The state after one frame, what the frame amounts to, and what is owed
/// to the peer.
///
/// A control frame between messages is handed over as it is; inside a
/// fragmented message it is answered and otherwise passed over. A data
/// frame starts a message, a continuation frame extends one, and the frame
/// with FIN completes it. Anything out of place is a violation, answered
/// with a close frame, and drops the message in progress.
pub open spec fn assemble(partial: Partial, fin: bool, opcode: u8, payload: Seq<u8>) -> (
    Partial,
    Assembled,
    Reply,
) {
    if is_control(opcode) {
        let reply = if opcode == OP_PING {
            Reply::Pong
        } else if opcode == OP_CLOSE {
            Reply::Close
        } else {
            Reply::Nothing
        };
        let frame = if opcode == OP_PING {
            FrameView::Ping
        } else if opcode == OP_CLOSE {
            FrameView::Close
        } else {
            FrameView::Pong
        };
        match partial {
            None => (partial, Assembled::Message(frame), reply),
            Some(_) => (partial, Assembled::Pending, reply),
        }
    } else if is_data(opcode) {
        match partial {
            Some(_) => (
                None,
                Assembled::Violation(FrameFault::ExpectedContinuation),
                Reply::Close,
            ),
            None => if fin {
                (None, completed(opcode, payload), Reply::Nothing)
            } else {
                (Some((opcode, payload)), Assembled::Pending, Reply::Nothing)
            },
        }
    } else if opcode == OP_CONTINUATION {
        match partial {
            None => (
                None,
                Assembled::Violation(FrameFault::UnexpectedContinuation),
                Reply::Close,
            ),
            Some((first, gathered)) => if fin {
                (None, completed(first, gathered + payload), Reply::Nothing)
            } else {
                (Some((first, gathered + payload)), Assembled::Pending, Reply::Nothing)
            },
        }
    } else {
        (None, Assembled::Violation(FrameFault::UnknownOpcode(opcode)), Reply::Close)
    }
}

/// What a read came to.
#[derive(Debug)]
pub enum ReadOutcome {
    /// The bytes at hand do not hold a whole frame: read more and ask again.
    NeedMore,
    /// A frame was taken and nothing is to be handed over: ask again.
    Continue,
    /// The next message.
    Frame(Frame),
    /// The read failed.
    Failed(Error),
}

/// The result of one read: what it came to, what is owed to the peer, and
/// how many bytes of the input it used up.
#[derive(Debug)]
pub struct ReadStep {
    pub outcome: ReadOutcome,
    pub reply: Reply,
    pub consumed: usize,
}

/// Whether `outcome` reports what `assembled` describes.
pub open spec fn reports(outcome: ReadOutcome, assembled: Assembled) -> bool {
    match assembled {
        Assembled::Pending => outcome is Continue,
        Assembled::Message(frame) => outcome matches ReadOutcome::Frame(f) && f@ == frame,
        Assembled::BadUtf8 => outcome matches ReadOutcome::Failed(Error::Utf8(_)),
        Assembled::Violation(fault) => outcome matches ReadOutcome::Failed(Error::InvalidFrame(m))
            && m@ == fault.text(),
    }
}

/// The reading side's memory between frames: the fragmented message that is
/// being put together, if any.
#[derive(Debug)]
pub struct Assembler {
    opcode: Option<u8>,
    buffer: Vec<u8>,
}

impl View for Assembler {
    type V = Partial;

    closed spec fn view(&self) -> Partial {
        match self.opcode {
            Some(opcode) => Some((opcode, self.buffer@)),
            None => None,
        }
    }
}

impl Assembler {
    /// An assembler with no message in progress.
    pub fn new() -> (a: Assembler)
        ensures
            a@ is None,
    {
        Assembler { opcode: None, buffer: Vec::new() }
    }

    /// Whether a fragmented message is in progress.
    pub fn in_progress(&self) -> (b: bool)
        ensures
            b == (self@ is Some),
    {
        self.opcode.is_some()
    }

    /// Turns the bytes of a whole message into the frame to hand over.
    fn complete(opcode: u8, payload: Vec<u8>) -> (outcome: ReadOutcome)
        ensures
            reports(outcome, completed(opcode, payload@)),
    {
        if opcode == OP_TEXT {
            let ghost bytes = payload@;
            match string_from_utf8(payload) {
                Ok(s) => {
                    proof {
                        encode_utf8_decode_utf8(s@);
                    }
                    ReadOutcome::Frame(Frame::Text(s))
                },
                Err(e) => ReadOutcome::Failed(Error::Utf8(e)),
            }
        } else {
            ReadOutcome::Frame(Frame::Binary(payload))
        }
    }

    /// Takes one frame and says what it amounts to and what is owed to the
    /// peer.
    pub fn accept(&mut self, frame: RawFrame) -> (res: (ReadOutcome, Reply))
        ensures
            final(self)@ == assemble(old(self)@, frame.fin, frame.opcode, frame.payload@).0,
            reports(res.0, assemble(old(self)@, frame.fin, frame.opcode, frame.payload@).1),
            res.1 == assemble(old(self)@, frame.fin, frame.opcode, frame.payload@).2,
    {
        let RawFrame { fin, opcode, payload } = frame;
        let mut payload = payload;
        let idle: bool = self.opcode.is_none();
        if opcode == OP_PING || opcode == OP_PONG || opcode == OP_CLOSE {
            let reply = if opcode == OP_PING {
                Reply::Pong
            } else if opcode == OP_CLOSE {
                Reply::Close
            } else {
                Reply::Nothing
            };
            if idle {
                let f = if opcode == OP_PING {
                    Frame::Ping
                } else if opcode == OP_CLOSE {
                    Frame::Close
                } else {
                    Frame::Pong
                };
                (ReadOutcome::Frame(f), reply)
            } else {
                (ReadOutcome::Continue, reply)
            }
        } else if opcode == OP_TEXT || opcode == OP_BINARY {
            if !idle {
                self.opcode = None;
                self.buffer = Vec::new();
                (ReadOutcome::Failed(FrameFault::ExpectedContinuation.into_error()), Reply::Close)
            } else if fin {
                (Self::complete(opcode, payload), Reply::Nothing)
            } else {
                self.opcode = Some(opcode);
                self.buffer = payload;
                (ReadOutcome::Continue, Reply::Nothing)
            }
        } else if opcode == OP_CONTINUATION {
            match self.opcode {
                None => (
                    ReadOutcome::Failed(FrameFault::UnexpectedContinuation.into_error()),
                    Reply::Close,
                ),
                Some(first) => {
                    self.buffer.append(&mut payload);
                    if fin {
                        let mut whole: Vec<u8> = Vec::new();
                        whole.append(&mut self.buffer);
                        self.opcode = None;
                        (Self::complete(first, whole), Reply::Nothing)
                    } else {
                        (ReadOutcome::Continue, Reply::Nothing)
                    }
                },
            }
        } else {
            self.opcode = None;
            self.buffer = Vec::new();
            (ReadOutcome::Failed(FrameFault::UnknownOpcode(opcode).into_error()), Reply::Close)
        }
    }
}

/// One end of a WebSocket connection: its identity and its role.
///
/// A client masks what it sends and takes frames masked or not; a server
/// sends unmasked and refuses frames that come without a mask.
#[derive(Debug, Clone, Copy)]
pub struct WebSocket {
    id: u64,
    mask_payload: bool,
}

impl PartialEq for WebSocket {
    fn eq(&self, other: &Self) -> (res: bool) {
        self.id == other.id
    }
}

impl vstd::std_specs::cmp::PartialEqSpecImpl for WebSocket {
    open spec fn obeys_eq_spec() -> bool {
        true
    }

    open spec fn eq_spec(&self, other: &Self) -> bool {
        self.id() == other.id()
    }
}

impl Eq for WebSocket {

}

impl std::hash::Hash for WebSocket {
    /// `Hash::hash` of `u64`: feeds the identity, and nothing else, to the
    /// hasher.
    #[verifier::external_body]
    fn hash<H: std::hash::Hasher>(&self, state: &mut H) {
        self.id.hash(state)
    }
}

impl WebSocket {
    /// The identity chosen when the connection was made.
    pub closed spec fn spec_id(&self) -> u64 {
        self.id
    }

    /// Whether this end masks what it sends.
    pub closed spec fn spec_mask_payload(&self) -> bool {
        self.mask_payload
    }

    /// A connection end with the given identity; `mask_payload` is true on
    /// the client's side.
    pub fn new(id: u64, mask_payload: bool) -> (ws: WebSocket)
        ensures
            ws.id() == id,
            ws.mask_payload() == mask_payload,
    {
        WebSocket { id, mask_payload }
    }

    /// The identity chosen when the connection was made.
    #[verifier::when_used_as_spec(spec_id)]
    pub fn id(&self) -> (id: u64)
        ensures
            id == self.id(),
    {
        self.id
    }

    /// Whether this end masks what it sends.
    #[verifier::when_used_as_spec(spec_mask_payload)]
    pub fn mask_payload(&self) -> (b: bool)
        ensures
            b == self.mask_payload(),
    {
        self.mask_payload
    }

    /// Whether `out` is one final frame of this end that carries `payload`
    /// under `opcode`: masked with some four-byte key on the client's side,
    /// unmasked on the server's.
    pub open spec fn emits(&self, out: Seq<u8>, opcode: u8, payload: Seq<u8>) -> bool {
        if self.mask_payload() {
            exists|key: Seq<u8>| key.len() == 4 && out == #[trigger] frame_bytes(
                opcode,
                payload,
                Some(key),
            )
        } else {
            out == frame_bytes(opcode, payload, None)
        }
    }

    fn send_frame(&self, opcode: u8, payload: &[u8]) -> (out: Vec<u8>)
        ensures
            self.emits(out@, opcode, payload@),
    {
        if self.mask_payload {
            let key = random_mask_key();
            let out = encode_frame(opcode, payload, Some(key));
            assert(key@.len() == 4 && out@ == frame_bytes(opcode, payload@, Some(key@)));
            out
        } else {
            encode_frame(opcode, payload, None)
        }
    }

    /// The frame that carries `msg` as a text message.
    pub fn send(&self, msg: &str) -> (out: Vec<u8>)
        ensures
            self.emits(out@, OP_TEXT, encode_utf8(msg@)),
    {
        self.send_frame(OP_TEXT, msg.as_bytes())
    }

    /// The frame that carries `payload` as a binary message.
    pub fn send_bin(&self, payload: &[u8]) -> (out: Vec<u8>)
        ensures
            self.emits(out@, OP_BINARY, payload@),
    {
        self.send_frame(OP_BINARY, payload)
    }

    /// A ping frame without payload.
    pub fn send_ping(&self) -> (out: Vec<u8>)
        ensures
            self.emits(out@, OP_PING, Seq::empty()),
    {
        let empty: Vec<u8> = Vec::new();
        self.send_frame(OP_PING, empty.as_slice())
    }

    /// A pong frame without payload.
    pub fn send_pong(&self) -> (out: Vec<u8>)
        ensures
            self.emits(out@, OP_PONG, Seq::empty()),
    {
        let empty: Vec<u8> = Vec::new();
        self.send_frame(OP_PONG, empty.as_slice())
    }

    /// A close frame without payload.
    pub fn close(&self) -> (out: Vec<u8>)
        ensures
            self.emits(out@, OP_CLOSE, Seq::empty()),
    {
        let empty: Vec<u8> = Vec::new();
        self.send_frame(OP_CLOSE, empty.as_slice())
    }

    /// The bytes of the frame this end owes its peer, none where nothing is
    /// owed.
    pub fn reply_bytes(&self, reply: Reply) -> (out: Option<Vec<u8>>)
        ensures
            match reply {
                Reply::Nothing => out is None,
                Reply::Pong => out matches Some(b) && self.emits(b@, OP_PONG, Seq::empty()),
                Reply::Close => out matches Some(b) && self.emits(b@, OP_CLOSE, Seq::empty()),
            },
    {
        match reply {
            Reply::Nothing => None,
            Reply::Pong => Some(self.send_pong()),
            Reply::Close => Some(self.close()),
        }
    }

    /// Reads one frame from the front of `input`, as this end's role has it:
    /// a server refuses a frame without a mask.
    ///
    /// `Ok(None)` asks for more bytes; `Ok(Some(..))` is the frame and the
    /// number of bytes it took.
    pub fn read_frame(&self, input: &[u8]) -> (res: Result<Option<(RawFrame, usize)>>)
        ensures
            decoded(res, parse_frame(input@, !self.mask_payload())),
    {
        decode_frame(input, !self.mask_payload)
    }

    /// What reading `input` with `partial` in progress comes to: the state
    /// afterwards, the outcome, the reply owed and the bytes used up.
    ///
    /// A frame that breaks the framing rules fails the read, is answered
    /// with a close frame and drops the message in progress.
    pub open spec fn read_spec(&self, partial: Partial, input: Seq<u8>) -> (
        Partial,
        Option<Assembled>,
        Reply,
        nat,
    ) {
        match parse_frame(input, !self.mask_payload()) {
            Parsed::Incomplete => (partial, None, Reply::Nothing, 0),
            Parsed::Invalid(fault) => (None, Some(Assembled::Violation(fault)), Reply::Close, 0),
            Parsed::Complete { fin, opcode, payload, consumed } => {
                let (next, assembled, reply) = assemble(partial, fin, opcode, payload);
                (next, Some(assembled), reply, consumed)
            },
        }
    }

    /// Takes the next frame from the front of `input` and says what it
    /// amounts to: a message to hand over, nothing yet, or a failure; with
    /// it the reply owed to the peer and the number of bytes used up.
    pub fn read(&self, assembler: &mut Assembler, input: &[u8]) -> (step: ReadStep)
        ensures
            final(assembler)@ == self.read_spec(old(assembler)@, input@).0,
            match self.read_spec(old(assembler)@, input@).1 {
                None => step.outcome is NeedMore,
                Some(assembled) => reports(step.outcome, assembled),
            },
            step.reply == self.read_spec(old(assembler)@, input@).2,
            step.consumed == self.read_spec(old(assembler)@, input@).3,
    {
        match decode_frame(input, !self.mask_payload) {
            Ok(None) => ReadStep { outcome: ReadOutcome::NeedMore, reply: Reply::Nothing, consumed: 0 },
            Ok(Some((frame, consumed))) => {
                let (outcome, reply) = assembler.accept(frame);
                ReadStep { outcome, reply, consumed }
            },
            Err(e) => {
                assembler.opcode = None;
                assembler.buffer = Vec::new();
                ReadStep { outcome: ReadOutcome::Failed(e), reply: Reply::Close, consumed: 0 }
            },
        }
    }
}

} // verus!
