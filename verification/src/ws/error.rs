//! Errors of the transport layer.

use std::string::FromUtf8Error;
use vstd::prelude::*;

verus! {

/// An I/O fault of the underlying transport; carried through, never read.
#[verifier::external_type_specification]
#[verifier::external_body]
pub struct ExIoError(std::io::Error);

pub type Result<T> = std::result::Result<T, Error>;

/// Everything that can go wrong on a connection.
#[derive(Debug)]
pub enum Error {
    /// The transport failed.
    Io(std::io::Error),
    /// The peer broke the framing rules; the text says how.
    InvalidFrame(String),
    /// The opening handshake was rejected; the text says why.
    HandshakeFailed(String),
    /// A text message did not hold UTF-8.
    Utf8(FromUtf8Error),
    /// The connection has ended.
    ConnectionClosed,
}

} // verus!
