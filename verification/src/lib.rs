//! A sans-I/O core for session-oriented RPC over WebSocket.
//!
//! The crate holds the protocol logic only: it turns values into the bytes
//! that go on the wire and bytes from the wire into values and decisions.
//! Sockets, timers and tasks belong to the caller.

pub mod ascii;
pub mod handshake;
pub mod handshake_laws;
pub mod hash;
pub mod json;
pub mod laws;
pub mod lines;
pub mod random;
pub mod session;
pub mod text;
pub mod wire;
pub mod ws;

use vstd::prelude::*;

verus! {

pub type Result<T> = std::result::Result<T, Error>;

/// Why a caller that waits for a reply was cut off from the replies.
#[derive(Debug, Clone, Copy, PartialEq, Eq, Structural)]
pub enum RecvError {
    /// Nothing will be published any more.
    Closed,
    /// The caller fell behind and this many replies passed it by.
    Lagged(u64),
}

/// Everything that can go wrong in a session.
#[derive(Debug)]
pub enum Error {
    /// The transport layer failed.
    WebSocket(ws::Error),
    /// A text is not JSON, or not the JSON that was called for; the words
    /// say what is wrong with it.
    Json(String),
    /// The transport failed.
    Io(std::io::Error),
    /// A caller was cut off from the replies.
    RecvError(RecvError),
}

impl From<ws::Error> for Error {
    fn from(value: ws::Error) -> (e: Error) {
        Error::WebSocket(value)
    }
}

impl vstd::std_specs::convert::FromSpecImpl<ws::Error> for Error {
    open spec fn obeys_from_spec() -> bool {
        true
    }

    open spec fn from_spec(value: ws::Error) -> Error {
        Error::WebSocket(value)
    }
}

impl From<std::io::Error> for Error {
    fn from(value: std::io::Error) -> (e: Error) {
        Error::Io(value)
    }
}

impl vstd::std_specs::convert::FromSpecImpl<std::io::Error> for Error {
    open spec fn obeys_from_spec() -> bool {
        true
    }

    open spec fn from_spec(value: std::io::Error) -> Error {
        Error::Io(value)
    }
}

impl From<RecvError> for Error {
    fn from(value: RecvError) -> (e: Error) {
        Error::RecvError(value)
    }
}

impl vstd::std_specs::convert::FromSpecImpl<RecvError> for Error {
    open spec fn obeys_from_spec() -> bool {
        true
    }

    open spec fn from_spec(value: RecvError) -> Error {
        Error::RecvError(value)
    }
}

/// An RPC method: the name under which requests for it travel and under
/// which its handler is registered.
pub trait Method {
    /// The method's name.
    spec fn spec_name() -> Seq<char>;

    /// The method's name.
    fn name() -> (name: &'static str)
        ensures
            name@ == Self::spec_name(),
    ;
}

/// The method of callers that handle raw JSON themselves.
pub struct GenericMethod;

impl Method for GenericMethod {
    open spec fn spec_name() -> Seq<char> {
        "generic_do_not_use"@
    }

    fn name() -> (name: &'static str) {
        "generic_do_not_use"
    }
}

} // verus!
