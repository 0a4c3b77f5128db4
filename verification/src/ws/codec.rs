//! The wire format of a single WebSocket frame.
//!
//! A frame is a lead byte (FIN and opcode), a length field of one, three or
//! nine bytes whose top bit says whether a masking key follows, the four-byte
//! key if so, and the payload, XOR-ed with the key when there is one.

use super::error::Error;
use crate::text::{decimal, to_decimal};
use vstd::prelude::*;

verus! {

/// The opcode of a frame that continues a fragmented message.
pub const OP_CONTINUATION: u8 = 0x0;

/// The opcode of a text message.
pub const OP_TEXT: u8 = 0x1;

/// The opcode of a binary message.
pub const OP_BINARY: u8 = 0x2;

/// The opcode of a close frame.
pub const OP_CLOSE: u8 = 0x8;

/// The opcode of a ping.
pub const OP_PING: u8 = 0x9;

/// The opcode of a pong.
pub const OP_PONG: u8 = 0xA;

/// The longest payload a control frame may carry.
pub const MAX_CONTROL_PAYLOAD: u64 = 125;

/// Whether `opcode` is that of a control frame: close, ping or pong.
pub open spec fn is_control(opcode: u8) -> bool {
    opcode == OP_CLOSE || opcode == OP_PING || opcode == OP_PONG
}

/// Whether `opcode` is that of a message: text or binary.
pub open spec fn is_data(opcode: u8) -> bool {
    opcode == OP_TEXT || opcode == OP_BINARY
}

/// Whether `opcode` is one of the six that are defined.
pub open spec fn is_known(opcode: u8) -> bool {
    opcode == OP_CONTINUATION || is_data(opcode) || is_control(opcode)
}

/// The payload `payload` XOR-ed with the four-byte `key`, byte `i` with key
/// byte `i mod 4`.
pub open spec fn masked(payload: Seq<u8>, key: Seq<u8>) -> Seq<u8> {
    Seq::new(payload.len(), |i: int| payload[i] ^ key[i % 4])
}

/// `n` as two bytes, most significant first.
pub open spec fn be16(n: nat) -> Seq<u8> {
    seq![((n / 0x100) % 0x100) as u8, (n % 0x100) as u8]
}

/// `n` as eight bytes, most significant first.
pub open spec fn be64(n: nat) -> Seq<u8> {
    let q1 = n / 0x100;
    let q2 = q1 / 0x100;
    let q3 = q2 / 0x100;
    let q4 = q3 / 0x100;
    let q5 = q4 / 0x100;
    let q6 = q5 / 0x100;
    let q7 = q6 / 0x100;
    seq![
        (q7 % 0x100) as u8,
        (q6 % 0x100) as u8,
        (q5 % 0x100) as u8,
        (q4 % 0x100) as u8,
        (q3 % 0x100) as u8,
        (q2 % 0x100) as u8,
        (q1 % 0x100) as u8,
        (n % 0x100) as u8,
    ]
}

/// The number that the bytes `b[at]`, `b[at + 1]` spell, most significant
/// first.
pub open spec fn be16_at(b: Seq<u8>, at: int) -> nat {
    (b[at] as nat) * 0x100 + (b[at + 1] as nat)
}

/// The number that the eight bytes from `b[at]` on spell, most significant
/// first.
pub open spec fn be64_at(b: Seq<u8>, at: int) -> nat {
    let v1 = (b[at] as nat) * 0x100 + (b[at + 1] as nat);
    let v2 = v1 * 0x100 + (b[at + 2] as nat);
    let v3 = v2 * 0x100 + (b[at + 3] as nat);
    let v4 = v3 * 0x100 + (b[at + 4] as nat);
    let v5 = v4 * 0x100 + (b[at + 5] as nat);
    let v6 = v5 * 0x100 + (b[at + 6] as nat);
    v6 * 0x100 + (b[at + 7] as nat)
}

/// The length field for a payload of `len` bytes: the shortest of the three
/// forms that holds `len`, with the top bit of its first byte set when the
/// frame is masked.
pub open spec fn length_field(len: nat, is_masked: bool) -> Seq<u8> {
    let bit: nat = if is_masked {
        128
    } else {
        0
    };
    if len < 126 {
        seq![(len + bit) as u8]
    } else if len <= 0xFFFF {
        seq![(126 + bit) as u8] + be16(len)
    } else {
        seq![(127 + bit) as u8] + be64(len)
    }
}

/// Everything of a final frame that precedes its payload.
pub open spec fn frame_header(opcode: u8, len: nat, key: Option<Seq<u8>>) -> Seq<u8> {
    seq![0x80u8 | opcode] + length_field(len, key is Some) + match key {
        Some(k) => k,
        None => Seq::empty(),
    }
}

/// The bytes of the final frame that carries `payload` under `opcode`,
/// masked with `key` when there is one.
pub open spec fn frame_bytes(opcode: u8, payload: Seq<u8>, key: Option<Seq<u8>>) -> Seq<u8> {
    frame_header(opcode, payload.len(), key) + match key {
        Some(k) => masked(payload, k),
        None => payload,
    }
}

/// A masking key as a sequence of its four bytes.
pub open spec fn key_seq(key: Option<[u8; 4]>) -> Option<Seq<u8>> {
    match key {
        Some(k) => Some(k@),
        None => None,
    }
}

/// The ways in which a frame can break the framing rules.
#[derive(Debug, Clone, Copy)]
pub enum FrameFault {
    /// A frame without a mask reached a connection that requires one.
    Unmasked,
    /// The opcode is none of the six that are defined.
    UnknownOpcode(u8),
    /// A control frame announces more than 125 bytes of payload.
    ControlTooLong,
    /// A control frame has its FIN bit clear.
    ControlFragmented,
    /// The frame cannot be held in memory on this machine.
    TooLarge,
    /// A continuation frame came while no message was in progress.
    UnexpectedContinuation,
    /// A new data frame came while a fragmented message was in progress.
    ExpectedContinuation,
}

impl FrameFault {
    /// The text that reports the fault.
    pub open spec fn text(self) -> Seq<char> {
        match self {
            FrameFault::Unmasked => "Received unmasked frame from client"@,
            FrameFault::UnknownOpcode(opcode) => "Unknown opcode: "@ + decimal(opcode as nat),
            FrameFault::ControlTooLong => "Control frame payload too long"@,
            FrameFault::ControlFragmented => "Fragmented control frame"@,
            FrameFault::TooLarge => "Frame too large"@,
            FrameFault::UnexpectedContinuation => "Unexpected continuation frame"@,
            FrameFault::ExpectedContinuation => "Expected continuation frame"@,
        }
    }

    /// The text that reports the fault, as a string.
    pub fn message(&self) -> (s: String)
        ensures
            s@ == self.text(),
    {
        match self {
            FrameFault::Unmasked => String::from_str("Received unmasked frame from client"),
            FrameFault::UnknownOpcode(opcode) => {
                let mut s = String::from_str("Unknown opcode: ");
                let digits = to_decimal(*opcode as u64);
                s.append(digits.as_str());
                s
            },
            FrameFault::ControlTooLong => String::from_str("Control frame payload too long"),
            FrameFault::ControlFragmented => String::from_str("Fragmented control frame"),
            FrameFault::TooLarge => String::from_str("Frame too large"),
            FrameFault::UnexpectedContinuation => String::from_str(
                "Unexpected continuation frame",
            ),
            FrameFault::ExpectedContinuation => String::from_str("Expected continuation frame"),
        }
    }

    /// The error that reports the fault.
    pub fn into_error(self) -> (e: Error)
        ensures
            e matches Error::InvalidFrame(m) && m@ == self.text(),
    {
        Error::InvalidFrame(self.message())
    }
}

/// What the front of a byte stream holds.
pub enum Parsed {
    /// Not yet a whole frame: more bytes are needed.
    Incomplete,
    /// A frame that breaks the rules.
    Invalid(FrameFault),
    /// A whole frame, `consumed` bytes long, with its payload unmasked.
    Complete { fin: bool, opcode: u8, payload: Seq<u8>, consumed: nat },
}

/// The number of bytes that follow the first length byte as part of the
/// length field.
pub open spec fn extended_len(b1: u8) -> nat {
    if b1 % 128 == 126 {
        2
    } else if b1 % 128 == 127 {
        8
    } else {
        0
    }
}

/// The payload length that a header announces; `input` holds the whole
/// length field.
pub open spec fn announced_len(input: Seq<u8>) -> nat {
    if input[1] % 128 == 126 {
        be16_at(input, 2)
    } else if input[1] % 128 == 127 {
        be64_at(input, 2)
    } else {
        (input[1] % 128) as nat
    }
}

/// Reads one frame from the front of `input`.
///
/// The checks run in this order, each as soon as the bytes it needs are
/// there: the mask bit (where `must_mask`), the opcode, the two rules on
/// control frames, and whether the frame fits this machine's memory.
pub open spec fn parse_frame(input: Seq<u8>, must_mask: bool) -> Parsed {
    if input.len() < 2 {
        Parsed::Incomplete
    } else if input.len() < 2 + extended_len(input[1]) {
        Parsed::Incomplete
    } else {
        let fin = input[0] >= 128;
        let opcode = input[0] % 16;
        let is_masked = input[1] >= 128;
        let len = announced_len(input);
        let head = 2 + extended_len(input[1]) + if is_masked {
            4nat
        } else {
            0nat
        };
        if must_mask && !is_masked {
            Parsed::Invalid(FrameFault::Unmasked)
        } else if !is_known(opcode) {
            Parsed::Invalid(FrameFault::UnknownOpcode(opcode))
        } else if is_control(opcode) && len > MAX_CONTROL_PAYLOAD {
            Parsed::Invalid(FrameFault::ControlTooLong)
        } else if is_control(opcode) && !fin {
            Parsed::Invalid(FrameFault::ControlFragmented)
        } else if head + len > usize::MAX {
            Parsed::Invalid(FrameFault::TooLarge)
        } else if input.len() < head + len {
            Parsed::Incomplete
        } else {
            let body = input.subrange(head as int, (head + len) as int);
            Parsed::Complete {
                fin,
                opcode,
                payload: if is_masked {
                    masked(body, input.subrange(head - 4, head as int))
                } else {
                    body
                },
                consumed: head + len,
            }
        }
    }
}

/// One frame as it came off the wire, its payload unmasked.
#[derive(Debug, Clone)]
pub struct RawFrame {
    pub fin: bool,
    pub opcode: u8,
    pub payload: Vec<u8>,
}

/// Appends `n` as two bytes, most significant first.
fn push_be16(out: &mut Vec<u8>, n: u16)
    ensures
        final(out)@ == old(out)@ + be16(n as nat),
{
    out.push((n / 0x100) as u8);
    out.push((n % 0x100) as u8);
    assert(out@ =~= old(out)@ + be16(n as nat));
}

/// Appends `n` as eight bytes, most significant first.
fn push_be64(out: &mut Vec<u8>, n: u64)
    ensures
        final(out)@ == old(out)@ + be64(n as nat),
{
    let q1: u64 = n / 0x100;
    let q2: u64 = q1 / 0x100;
    let q3: u64 = q2 / 0x100;
    let q4: u64 = q3 / 0x100;
    let q5: u64 = q4 / 0x100;
    let q6: u64 = q5 / 0x100;
    let q7: u64 = q6 / 0x100;
    out.push((q7 % 0x100) as u8);
    out.push((q6 % 0x100) as u8);
    out.push((q5 % 0x100) as u8);
    out.push((q4 % 0x100) as u8);
    out.push((q3 % 0x100) as u8);
    out.push((q2 % 0x100) as u8);
    out.push((q1 % 0x100) as u8);
    out.push((n % 0x100) as u8);
    assert(out@ =~= old(out)@ + be64(n as nat));
}

/// Builds the final frame that carries `payload` under `opcode`, masked with
/// `key` when there is one.
pub fn encode_frame(opcode: u8, payload: &[u8], key: Option<[u8; 4]>) -> (out: Vec<u8>)
    ensures
        out@ == frame_bytes(opcode, payload@, key_seq(key)),
{
    let len: usize = payload.len();
    let bit: u8 = if key.is_some() {
        0x80
    } else {
        0x00
    };
    let mut out: Vec<u8> = Vec::new();
    out.push(0x80u8 | opcode);
    if len < 126 {
        let short: u8 = len as u8;
        assert(short | bit == short + bit) by (bit_vector)
            requires
                short < 126,
                bit == 0x80u8 || bit == 0u8,
        ;
        out.push(short | bit);
    } else if len <= 0xFFFF {
        assert(126u8 | bit == 126 + bit) by (bit_vector)
            requires
                bit == 0x80u8 || bit == 0u8,
        ;
        out.push(126u8 | bit);
        push_be16(&mut out, len as u16);
    } else {
        assert(127u8 | bit == 127 + bit) by (bit_vector)
            requires
                bit == 0x80u8 || bit == 0u8,
        ;
        out.push(127u8 | bit);
        push_be64(&mut out, len as u64);
    }
    assert(out@ =~= seq![0x80u8 | opcode] + length_field(len as nat, key is Some));
    match key {
        Some(k) => {
            out.push(k[0]);
            out.push(k[1]);
            out.push(k[2]);
            out.push(k[3]);
            assert(out@ =~= frame_header(opcode, len as nat, key_seq(key)));
            let mut i: usize = 0;
            while i < len
                invariant
                    i <= len,
                    len == payload@.len(),
                    out@ =~= frame_header(opcode, len as nat, key_seq(key)) + masked(
                        payload@,
                        k@,
                    ).subrange(0, i as int),
                decreases len - i,
            {
                out.push(payload[i] ^ k[i % 4]);
                i = i + 1;
            }
            assert(masked(payload@, k@).subrange(0, len as int) =~= masked(payload@, k@));
        },
        None => {
            assert(out@ =~= frame_header(opcode, len as nat, key_seq(key)));
            let mut i: usize = 0;
            while i < len
                invariant
                    i <= len,
                    len == payload@.len(),
                    out@ =~= frame_header(opcode, len as nat, key_seq(key)) + payload@.subrange(
                        0,
                        i as int,
                    ),
                decreases len - i,
            {
                out.push(payload[i]);
                i = i + 1;
            }
            assert(payload@.subrange(0, len as int) =~= payload@);
        },
    }
    out
}

/// Reads the two bytes at `at` as a number, most significant first.
fn read_be16(input: &[u8], at: usize) -> (n: u64)
    requires
        at + 2 <= input@.len(),
    ensures
        n == be16_at(input@, at as int),
{
    (input[at] as u64) * 0x100 + (input[at + 1] as u64)
}

/// Reads the eight bytes at `at` as a number, most significant first.
fn read_be64(input: &[u8], at: usize) -> (n: u64)
    requires
        at + 8 <= input@.len(),
    ensures
        n == be64_at(input@, at as int),
{
    let v1: u64 = (input[at] as u64) * 0x100 + (input[at + 1] as u64);
    let v2: u64 = v1 * 0x100 + (input[at + 2] as u64);
    let v3: u64 = v2 * 0x100 + (input[at + 3] as u64);
    let v4: u64 = v3 * 0x100 + (input[at + 4] as u64);
    let v5: u64 = v4 * 0x100 + (input[at + 5] as u64);
    let v6: u64 = v5 * 0x100 + (input[at + 6] as u64);
    v6 * 0x100 + (input[at + 7] as u64)
}

/// Whether `opcode` is one of the six that are defined.
pub fn opcode_is_known(opcode: u8) -> (b: bool)
    ensures
        b == is_known(opcode),
{
    opcode == OP_CONTINUATION || opcode == OP_TEXT || opcode == OP_BINARY || opcode == OP_CLOSE
        || opcode == OP_PING || opcode == OP_PONG
}

/// Whether `opcode` is that of a control frame.
pub fn opcode_is_control(opcode: u8) -> (b: bool)
    ensures
        b == is_control(opcode),
{
    opcode == OP_CLOSE || opcode == OP_PING || opcode == OP_PONG
}

/// Whether `res` reports what `parsed` describes.
pub open spec fn decoded(res: Result<Option<(RawFrame, usize)>, Error>, parsed: Parsed) -> bool {
    match parsed {
        Parsed::Incomplete => res == Ok::<Option<(RawFrame, usize)>, Error>(None),
        Parsed::Invalid(fault) => res matches Err(Error::InvalidFrame(m)) && m@ == fault.text(),
        Parsed::Complete { fin, opcode, payload, consumed } => res matches Ok(Some((raw, n)))
            && raw.fin == fin && raw.opcode == opcode && raw.payload@ == payload && n == consumed,
    }
}

/// Reads one frame from the front of `input`.
///
/// `Ok(None)` asks for more bytes; `Ok(Some(..))` is the frame and the
/// number of bytes it took; an error is a broken rule, named in its text.
/// With `must_mask` a frame without a masking key is refused.
pub fn decode_frame(input: &[u8], must_mask: bool) -> (res: Result<Option<(RawFrame, usize)>, Error>)
    ensures
        decoded(res, parse_frame(input@, must_mask)),
{
    let n: usize = input.len();
    if n < 2 {
        return Ok(None);
    }
    let b0: u8 = input[0];
    let b1: u8 = input[1];
    let fin: bool = b0 & 0x80 != 0;
    let opcode: u8 = b0 & 0x0F;
    let is_masked: bool = b1 & 0x80 != 0;
    let len7: u8 = b1 & 0x7F;
    assert((b0 & 0x80 != 0) == (b0 >= 128)) by (bit_vector);
    assert(b0 & 0x0F == b0 % 16) by (bit_vector);
    assert((b1 & 0x80 != 0) == (b1 >= 128)) by (bit_vector);
    assert(b1 & 0x7F == b1 % 128) by (bit_vector);
    let ext: usize = if len7 == 126 {
        2
    } else if len7 == 127 {
        8
    } else {
        0
    };
    if n < 2 + ext {
        return Ok(None);
    }
    let len: u64 = if len7 == 126 {
        read_be16(input, 2)
    } else if len7 == 127 {
        read_be64(input, 2)
    } else {
        len7 as u64
    };
    if must_mask && !is_masked {
        return Err(FrameFault::Unmasked.into_error());
    }
    if !opcode_is_known(opcode) {
        return Err(FrameFault::UnknownOpcode(opcode).into_error());
    }
    if opcode_is_control(opcode) && len > MAX_CONTROL_PAYLOAD {
        return Err(FrameFault::ControlTooLong.into_error());
    }
    if opcode_is_control(opcode) && !fin {
        return Err(FrameFault::ControlFragmented.into_error());
    }
    let head: usize = 2 + ext + if is_masked {
        4
    } else {
        0
    };
    if len > (usize::MAX - head) as u64 {
        return Err(FrameFault::TooLarge.into_error());
    }
    let total: usize = head + len as usize;
    if n < total {
        return Ok(None);
    }
    let ghost body = input@.subrange(head as int, total as int);
    let mut payload: Vec<u8> = Vec::new();
    let mut i: usize = head;
    if is_masked {
        let ghost key = input@.subrange(head - 4, head as int);
        while i < total
            invariant
                4 <= head <= i <= total <= n,
                n == input@.len(),
                body == input@.subrange(head as int, total as int),
                key == input@.subrange(head - 4, head as int),
                payload@ =~= masked(body, key).subrange(0, i - head),
            decreases total - i,
        {
            payload.push(input[i] ^ input[head - 4 + (i - head) % 4]);
            i = i + 1;
        }
        assert(masked(body, key).subrange(0, total - head) =~= masked(body, key));
    } else {
        while i < total
            invariant
                head <= i <= total <= n,
                n == input@.len(),
                body == input@.subrange(head as int, total as int),
                payload@ =~= body.subrange(0, i - head),
            decreases total - i,
        {
            payload.push(input[i]);
            i = i + 1;
        }
        assert(body.subrange(0, total - head) =~= body);
    }
    Ok(Some((RawFrame { fin, opcode, payload }, total)))
}

/// Masking twice with one key gives the payload back.
pub proof fn lemma_mask_involution(payload: Seq<u8>, key: Seq<u8>)
    ensures
        masked(masked(payload, key), key) == payload,
{
    assert forall|i: int| 0 <= i < payload.len() implies masked(masked(payload, key), key)[i]
        == payload[i] by {
        let a = payload[i];
        let b = key[i % 4];
        assert((a ^ b) ^ b == a) by (bit_vector);
    }
    assert(masked(masked(payload, key), key) =~= payload);
}

/// Two bytes written most significant first read back as the number.
pub proof fn lemma_be16_round_trip(n: nat, b: Seq<u8>, at: int)
    requires
        n <= 0xFFFF,
        0 <= at,
        at + 2 <= b.len(),
        b.subrange(at, at + 2) == be16(n),
    ensures
        be16_at(b, at) == n,
{
    assert(b[at] == b.subrange(at, at + 2)[0]);
    assert(b[at + 1] == b.subrange(at, at + 2)[1]);
}

/// Eight bytes written most significant first read back as the number.
pub proof fn lemma_be64_round_trip(n: nat, b: Seq<u8>, at: int)
    requires
        n <= 0xFFFF_FFFF_FFFF_FFFF,
        0 <= at,
        at + 8 <= b.len(),
        b.subrange(at, at + 8) == be64(n),
    ensures
        be64_at(b, at) == n,
{
    let w = b.subrange(at, at + 8);
    assert(b[at] == w[0]);
    assert(b[at + 1] == w[1]);
    assert(b[at + 2] == w[2]);
    assert(b[at + 3] == w[3]);
    assert(b[at + 4] == w[4]);
    assert(b[at + 5] == w[5]);
    assert(b[at + 6] == w[6]);
    assert(b[at + 7] == w[7]);
}

/// Whether a frame with this opcode, payload and key is one that a peer in
/// the given role takes: a known opcode, at most 125 bytes under a control
/// opcode, a four-byte key where there is one, a key where one is required,
/// and a size that this machine can hold.
pub open spec fn acceptable_frame(
    opcode: u8,
    payload: Seq<u8>,
    key: Option<Seq<u8>>,
    must_mask: bool,
) -> bool {
    &&& is_known(opcode)
    &&& is_control(opcode) ==> payload.len() <= MAX_CONTROL_PAYLOAD
    &&& key matches Some(k) ==> k.len() == 4
    &&& must_mask ==> key is Some
    &&& payload.len() + 14 <= usize::MAX
}

/// A length field that stands at index 1 of `input` reads back as the
/// length and the mask bit it was written with.
proof fn lemma_length_field_reads_back(len: nat, is_masked: bool, input: Seq<u8>)
    requires
        len <= 0xFFFF_FFFF_FFFF_FFFF,
        1 + length_field(len, is_masked).len() <= input.len(),
        input.subrange(1, 1 + length_field(len, is_masked).len() as int) == length_field(
            len,
            is_masked,
        ),
    ensures
        (input[1] >= 128) == is_masked,
        1 + extended_len(input[1]) == length_field(len, is_masked).len(),
        announced_len(input) == len,
{
    let lf = length_field(len, is_masked);
    let w = input.subrange(1, 1 + lf.len() as int);
    assert(input[1] == w[0]);
    if len < 126 {
    } else if len <= 0xFFFF {
        assert(input.subrange(2, 4) =~= be16(len)) by {
            assert(input[2] == w[1]);
            assert(input[3] == w[2]);
        }
        lemma_be16_round_trip(len, input, 2);
    } else {
        assert(input.subrange(2, 10) =~= be64(len)) by {
            assert(input[2] == w[1]);
            assert(input[3] == w[2]);
            assert(input[4] == w[3]);
            assert(input[5] == w[4]);
            assert(input[6] == w[5]);
            assert(input[7] == w[6]);
            assert(input[8] == w[7]);
            assert(input[9] == w[8]);
        }
        lemma_be64_round_trip(len, input, 2);
    }
}

/// Decoding undoes encoding: a frame built by `frame_bytes`, followed by
/// whatever comes next on the stream, parses as one final frame with the
/// same opcode and payload, and takes exactly the bytes of that frame.
pub proof fn lemma_frame_round_trip(
    opcode: u8,
    payload: Seq<u8>,
    key: Option<Seq<u8>>,
    rest: Seq<u8>,
    must_mask: bool,
)
    requires
        acceptable_frame(opcode, payload, key, must_mask),
    ensures
        parse_frame(frame_bytes(opcode, payload, key) + rest, must_mask) == (Parsed::Complete {
            fin: true,
            opcode,
            payload,
            consumed: frame_bytes(opcode, payload, key).len(),
        }),
{
    let len = payload.len();
    let is_masked = key is Some;
    let lf = length_field(len, is_masked);
    let kb: Seq<u8> = match key {
        Some(k) => k,
        None => Seq::empty(),
    };
    let body: Seq<u8> = match key {
        Some(k) => masked(payload, k),
        None => payload,
    };
    let frame = frame_bytes(opcode, payload, key);
    let input = frame + rest;
    let lead = 0x80u8 | opcode;
    assert(lead >= 128 && lead % 16 == opcode) by (bit_vector)
        requires
            lead == 0x80u8 | opcode,
            opcode < 16,
    ;
    assert(frame =~= seq![lead] + lf + kb + body);
    assert(frame.len() == 1 + lf.len() + kb.len() + len);
    assert(input[0] == lead);
    assert(input.subrange(1, 1 + lf.len() as int) =~= lf);
    lemma_length_field_reads_back(len, is_masked, input);
    let head = 1 + lf.len() + kb.len();
    assert(input.subrange(head as int, (head + len) as int) =~= body);
    match key {
        Some(k) => {
            assert(input.subrange(head - 4, head as int) =~= k);
            lemma_mask_involution(payload, k);
        },
        None => {},
    }
}

} // verus!
