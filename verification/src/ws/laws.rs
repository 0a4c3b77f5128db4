//! What holds of the transport layer as a whole.

use super::codec::{
    acceptable_frame, extended_len, frame_bytes, is_data, lemma_frame_round_trip, parse_frame,
    FrameFault, Parsed, OP_BINARY, OP_CLOSE, OP_CONTINUATION, OP_PING, OP_PONG, OP_TEXT,
};
use super::{assemble, completed, Assembled, FrameView, Partial, Reply, WebSocket};
use vstd::prelude::*;
use vstd::utf8::*;

verus! {

/// The chunks of a message put end to end.
pub open spec fn joined(chunks: Seq<Seq<u8>>) -> Seq<u8>
    decreases chunks.len(),
{
    if chunks.len() == 0 {
        Seq::empty()
    } else {
        joined(chunks.drop_last()) + chunks.last()
    }
}

/// Frame `i` of a message sent in pieces: FIN, opcode and payload. The
/// first frame carries the message's opcode, the others are continuation
/// frames, and the last has FIN set.
pub open spec fn fragment(opcode: u8, chunks: Seq<Seq<u8>>, i: int) -> (bool, u8, Seq<u8>) {
    (
        i == chunks.len() - 1,
        if i == 0 {
            opcode
        } else {
            OP_CONTINUATION
        },
        chunks[i],
    )
}

/// The message in progress after the first `k` frames of a message sent in
/// pieces have been taken, starting between messages.
pub open spec fn after_fragments(opcode: u8, chunks: Seq<Seq<u8>>, k: nat) -> Partial
    decreases k,
{
    if k == 0 {
        None
    } else {
        let f = fragment(opcode, chunks, k - 1);
        assemble(after_fragments(opcode, chunks, (k - 1) as nat), f.0, f.1, f.2).0
    }
}

/// What frame `k` of a message sent in pieces comes to, the frames before
/// it having been taken.
pub open spec fn fragment_step(opcode: u8, chunks: Seq<Seq<u8>>, k: int) -> (
    Partial,
    Assembled,
    Reply,
) {
    let f = fragment(opcode, chunks, k);
    assemble(after_fragments(opcode, chunks, k as nat), f.0, f.1, f.2)
}

proof fn lemma_after_fragments(opcode: u8, chunks: Seq<Seq<u8>>, k: nat)
    requires
        is_data(opcode),
        1 <= k < chunks.len(),
    ensures
        after_fragments(opcode, chunks, k) == Some((opcode, joined(chunks.take(k as int)))),
    decreases k,
{
    let f = fragment(opcode, chunks, k - 1);
    if k == 1 {
        assert(after_fragments(opcode, chunks, 0) is None);
        assert(chunks.take(1).drop_last() =~= Seq::<Seq<u8>>::empty());
        assert(joined(chunks.take(1).drop_last()) =~= Seq::<u8>::empty());
        assert(joined(chunks.take(1)) =~= chunks[0]);
    } else {
        lemma_after_fragments(opcode, chunks, (k - 1) as nat);
        assert(chunks.take(k as int).drop_last() =~= chunks.take(k - 1));
        assert(chunks.take(k as int).last() == chunks[k - 1]);
    }
}

/// Fragmentation is transparent: of a text or binary message sent in any
/// number of pieces, every frame but the last hands nothing over and owes
/// no reply, and the last hands over exactly what the message would have
/// come to had it been sent in one frame.
pub proof fn lemma_fragmentation_transparent(opcode: u8, chunks: Seq<Seq<u8>>)
    requires
        is_data(opcode),
        chunks.len() >= 1,
    ensures
        forall|k: int|
            0 <= k < chunks.len() - 1 ==> (#[trigger] fragment_step(opcode, chunks, k)).1
                == Assembled::Pending && fragment_step(opcode, chunks, k).2 == Reply::Nothing,
        fragment_step(opcode, chunks, chunks.len() - 1) == assemble(
            None,
            true,
            opcode,
            joined(chunks),
        ),
        assemble(None, true, opcode, joined(chunks)) == (
            None::<(u8, Seq<u8>)>,
            completed(opcode, joined(chunks)),
            Reply::Nothing,
        ),
{
    assert forall|k: int| 0 <= k < chunks.len() - 1 implies (#[trigger] fragment_step(
        opcode,
        chunks,
        k,
    )).1 == Assembled::Pending && fragment_step(opcode, chunks, k).2 == Reply::Nothing by {
        if k >= 1 {
            lemma_after_fragments(opcode, chunks, k as nat);
        }
    }
    let last = chunks.len() - 1;
    assert(chunks.drop_last() =~= chunks.take(last));
    if last >= 1 {
        lemma_after_fragments(opcode, chunks, last as nat);
    } else {
        assert(joined(chunks.drop_last()) =~= Seq::<u8>::empty());
        assert(joined(chunks) =~= chunks[0]);
    }
}

/// A server refuses what comes without a mask: once the length field of a
/// frame with the mask bit clear is there, the read fails as an invalid
/// frame, owes the peer a close frame and takes nothing.
pub proof fn lemma_server_rejects_unmasked(ws: WebSocket, partial: Partial, input: Seq<u8>)
    requires
        !ws.mask_payload(),
        input.len() >= 2,
        input.len() >= 2 + extended_len(input[1]),
        input[1] < 128,
    ensures
        parse_frame(input, true) == Parsed::Invalid(FrameFault::Unmasked),
        ws.read_spec(partial, input) == (
            None::<(u8, Seq<u8>)>,
            Some(Assembled::Violation(FrameFault::Unmasked)),
            Reply::Close,
            0nat,
        ),
{
}

/// What one end sends, the other end reads: a frame that `sender` emits
/// parses at a peer of the opposite role as one final frame with the same
/// opcode and payload, whatever follows it on the stream.
pub proof fn lemma_sent_frame_is_read(
    sender: WebSocket,
    receiver: WebSocket,
    out: Seq<u8>,
    opcode: u8,
    payload: Seq<u8>,
    rest: Seq<u8>,
)
    requires
        sender.mask_payload() != receiver.mask_payload(),
        sender.emits(out, opcode, payload),
        acceptable_frame(opcode, payload, None, false),
    ensures
        parse_frame(out + rest, !receiver.mask_payload()) == (Parsed::Complete {
            fin: true,
            opcode,
            payload,
            consumed: out.len(),
        }),
{
    if sender.mask_payload() {
        let key = choose|key: Seq<u8>|
            key.len() == 4 && out == #[trigger] frame_bytes(opcode, payload, Some(key));
        lemma_frame_round_trip(opcode, payload, Some(key), rest, true);
    } else {
        lemma_frame_round_trip(opcode, payload, None, rest, false);
    }
}

/// The opcode and payload under which a message goes on the wire.
pub open spec fn wire_form(frame: FrameView) -> (u8, Seq<u8>) {
    match frame {
        FrameView::Text(s) => (OP_TEXT, encode_utf8(s)),
        FrameView::Binary(b) => (OP_BINARY, b),
        FrameView::Ping => (OP_PING, Seq::empty()),
        FrameView::Pong => (OP_PONG, Seq::empty()),
        FrameView::Close => (OP_CLOSE, Seq::empty()),
    }
}

/// The reply that a message draws from the end that reads it.
pub open spec fn reply_to(frame: FrameView) -> Reply {
    match frame {
        FrameView::Ping => Reply::Pong,
        FrameView::Close => Reply::Close,
        _ => Reply::Nothing,
    }
}

/// A message survives the wire: what one end sends as a message, the other
/// end, reading between messages, hands over as that same message, using
/// up exactly the bytes of the frame.
pub proof fn lemma_message_round_trip(
    sender: WebSocket,
    receiver: WebSocket,
    frame: FrameView,
    out: Seq<u8>,
    rest: Seq<u8>,
)
    requires
        sender.mask_payload() != receiver.mask_payload(),
        sender.emits(out, wire_form(frame).0, wire_form(frame).1),
        wire_form(frame).1.len() + 14 <= usize::MAX,
    ensures
        receiver.read_spec(None, out + rest) == (
            None::<(u8, Seq<u8>)>,
            Some(Assembled::Message(frame)),
            reply_to(frame),
            out.len(),
        ),
{
    let (opcode, payload) = wire_form(frame);
    lemma_sent_frame_is_read(sender, receiver, out, opcode, payload, rest);
    match frame {
        FrameView::Text(s) => {
            encode_utf8_valid_utf8(s);
            encode_utf8_decode_utf8(s);
        },
        _ => {},
    }
}

/// One frame of a stream: opcode, payload and masking key.
pub type Sent = (u8, Seq<u8>, Option<Seq<u8>>);

/// The bytes of a stream made of whole frames, one after another.
pub open spec fn wire(frames: Seq<Sent>) -> Seq<u8>
    decreases frames.len(),
{
    if frames.len() == 0 {
        Seq::empty()
    } else {
        frame_bytes(frames[0].0, frames[0].1, frames[0].2) + wire(frames.drop_first())
    }
}

/// A stream made of whole frames reads back frame by frame, in the order in
/// which the frames were put on it: at the point where frame `i` begins,
/// the parser finds frame `i`, with its opcode and payload, and what is
/// left after it is the stream of the frames that follow.
pub proof fn lemma_stream_reads_in_order(frames: Seq<Sent>, i: int, must_mask: bool)
    requires
        0 <= i < frames.len(),
        forall|j: int|
            0 <= j < frames.len() ==> acceptable_frame(
                (#[trigger] frames[j]).0,
                frames[j].1,
                frames[j].2,
                must_mask,
            ),
    ensures
        parse_frame(wire(frames.skip(i)), must_mask) == (Parsed::Complete {
            fin: true,
            opcode: frames[i].0,
            payload: frames[i].1,
            consumed: frame_bytes(frames[i].0, frames[i].1, frames[i].2).len(),
        }),
        wire(frames.skip(i)).skip(
            frame_bytes(frames[i].0, frames[i].1, frames[i].2).len() as int,
        ) == wire(frames.skip(i + 1)),
{
    let tail = frames.skip(i);
    let first = frame_bytes(frames[i].0, frames[i].1, frames[i].2);
    assert(tail[0] == frames[i]);
    assert(tail.drop_first() =~= frames.skip(i + 1));
    assert(wire(tail) == first + wire(frames.skip(i + 1)));
    lemma_frame_round_trip(frames[i].0, frames[i].1, frames[i].2, wire(frames.skip(i + 1)), must_mask);
    assert((first + wire(frames.skip(i + 1))).skip(first.len() as int) =~= wire(
        frames.skip(i + 1),
    ));
}

} // verus!
