//! The random values the protocol asks for. Nothing is promised of any of
//! them: whoever calls these proves what it needs for every value.

use vstd::prelude::*;

verus! {

/// `rand::random`, for the four bytes of a masking key.
#[verifier::external_body]
pub(crate) fn random_mask_key() -> [u8; 4] {
    rand::random()
}

/// `rand::random`, for the sixteen bytes of a handshake nonce.
#[verifier::external_body]
pub(crate) fn random_nonce() -> [u8; 16] {
    rand::random()
}

/// `rand::random`, for the identity of a connection.
#[verifier::external_body]
pub(crate) fn random_id() -> u64 {
    rand::random()
}

} // verus!
