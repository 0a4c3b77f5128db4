//! SHA-1 and base64, as the opening handshake needs them.
//!
//! Both are computed by outside crates. What they return is named here, so
//! that contracts can say which digest and which text they mean.

use base64::Engine;
use sha1::{Digest, Sha1};
use vstd::prelude::*;

verus! {

/// The SHA-1 digest of `data`.
pub uninterp spec fn sha1_digest(data: Seq<u8>) -> Seq<u8>;

/// The base64 text of `data`: standard alphabet, padded.
pub uninterp spec fn base64_text(data: Seq<u8>) -> Seq<char>;

/// The characters that base64 text is made of: letters, digits, `+`, `/`
/// and the padding `=`.
pub open spec fn is_base64_char(c: char) -> bool {
    ('A' <= c && c <= 'Z') || ('a' <= c && c <= 'z') || ('0' <= c && c <= '9') || c == '+' || c
        == '/' || c == '='
}

/// `sha1::Sha1::digest`: the SHA-1 digest of `data`, twenty bytes long.
#[verifier::external_body]
pub(crate) fn sha1(data: &[u8]) -> (out: Vec<u8>)
    ensures
        out@ == sha1_digest(data@),
        out@.len() == 20,
{
    Sha1::digest(data).to_vec()
}

/// `base64::Engine::encode` of the `STANDARD` engine: the padded base64
/// text of `data`, which holds no character outside the standard alphabet
/// and the padding. The crate panics where the length of the text would
/// not fit a `usize`.
#[verifier::external_body]
pub(crate) fn base64_encode(data: &[u8]) -> (out: String)
    requires
        (data@.len() / 3) * 4 + 4 <= usize::MAX,
    ensures
        out@ == base64_text(data@),
        forall|i: int| 0 <= i < out@.len() ==> is_base64_char(#[trigger] out@[i]),
{
    base64::engine::general_purpose::STANDARD.encode(data)
}

} // verus!
