//! What holds of a session as a whole.

use crate::session::{
    first_match, id_after, inbound, match_from, received, registered, shut, InboundView,
    PublishedView, SessionView,
};
use crate::ws::{FrameView, Partial};
use vstd::prelude::*;

verus! {

/// Taking ids one after another is the same as stepping once by their
/// number.
pub proof fn lemma_id_steps(id: u32, a: nat, b: nat)
    ensures
        id_after(id_after(id, a), b) == id_after(id, a + b),
{
    let m = 0x1_0000_0000int;
    let x = (id + a) as int;
    vstd::arithmetic::div_mod::lemma_add_mod_noop_right(b as int, x, m);
    assert(((x % m) + b) % m == (b + (x % m)) % m);
    assert((b + x) % m == (id + (a + b)) % m);
}

/// No two requests in flight share an id: of the ids taken after `id`, the
/// `i`-th and the `j`-th differ as long as fewer than 2^32 lie between
/// them.
pub proof fn lemma_ids_distinct(id: u32, i: nat, j: nat)
    requires
        i < j,
        j - i < 0x1_0000_0000,
    ensures
        id_after(id, i) != id_after(id, j),
{
    let m = 0x1_0000_0000int;
    let x = (id + i) as int;
    let d = (j - i) as int;
    assert((x % m) != ((x + d) % m)) by (nonlinear_arith)
        requires
            m > 0,
            0 < d < m,
    ;
}

/// What `match_from` finds bears the id, nothing before it does, and
/// `None` means no reply from `from` on bears it.
pub proof fn lemma_match_from(published: Seq<PublishedView>, own: u32, from: int)
    requires
        0 <= from,
    ensures
        match match_from(published, own, from) {
            Some(k) => from <= k < published.len() && published[k].id == own && forall|j: int|
                from <= j < k ==> published[j].id != own,
            None => forall|j: int| from <= j < published.len() ==> published[j].id != own,
        },
    decreases published.len() - from,
{
    if from < published.len() && published[from].id != own {
        lemma_match_from(published, own, from + 1);
    }
}

/// Replies find their callers, in whatever order they come: where the
/// reply at index `k` is the only one that bears the id `own`, the caller
/// of `own` takes exactly that reply, whatever else is published before
/// and after it.
pub proof fn lemma_reply_reaches_its_caller(published: Seq<PublishedView>, own: u32, k: int)
    requires
        0 <= k < published.len(),
        published[k].id == own,
        forall|j: int| 0 <= j < published.len() && j != k ==> published[j].id != own,
    ensures
        first_match(published, own) == Some(k),
{
    lemma_match_from(published, own, 0);
}

/// A caller takes no reply but its own, and two callers with different ids
/// never take the same reply.
pub proof fn lemma_callers_do_not_cross(published: Seq<PublishedView>, a: u32, b: u32)
    requires
        a != b,
    ensures
        first_match(published, a) matches Some(i) ==> published[i].id == a,
        first_match(published, b) matches Some(j) ==> published[j].id == b,
        first_match(published, a) is Some && first_match(published, b) is Some ==> first_match(
            published,
            a,
        ) != first_match(published, b),
{
    lemma_match_from(published, a, 0);
    lemma_match_from(published, b, 0);
}

/// What can happen to a session.
pub enum Event {
    /// A close hook is registered (`on_close`).
    HookRegistered,
    /// The session is closed from this end (`close`).
    Close,
    /// A frame comes in (`read_t`).
    Frame(FrameView),
    /// Bytes come in while `partial` is the message in progress
    /// (`receive`).
    Bytes { partial: Partial, input: Seq<u8> },
    /// The connection's read fails (`read_failed`); `utf8` where the
    /// failure is a text that is not UTF-8.
    ReadFailed { utf8: bool },
    /// The keepalive timer has waited for a pong (`pong_wait`); `true`
    /// where the pong came.
    PongWait(bool),
    /// A method is registered (`on_request`).
    MethodRegistered(Seq<char>),
    /// A request id is taken (`next_id`, `request`).
    IdTaken,
}

/// The state after an event, and whether the event fires the close hook.
pub open spec fn after(s: SessionView, event: Event) -> (SessionView, bool) {
    match event {
        Event::HookRegistered => (SessionView { hook: true, ..s }, false),
        Event::Close => shut(s),
        Event::Frame(frame) => (inbound(s, frame).0, frame is Close && shut(s).1),
        Event::Bytes { partial, input } => (
            received(s, partial, input).0,
            received(s, partial, input).4 == Some(InboundView::Closed { fire_hook: true }),
        ),
        Event::ReadFailed { utf8 } => if utf8 {
            (s, false)
        } else {
            shut(s)
        },
        Event::PongWait(pong_received) => if pong_received {
            (s, false)
        } else {
            shut(s)
        },
        Event::MethodRegistered(name) => (
            SessionView { methods: registered(s.methods, name), ..s },
            false,
        ),
        Event::IdTaken => (SessionView { last_id: id_after(s.last_id, 1), ..s }, false),
    }
}

/// How often the close hook fires in the course of `events`, starting from
/// the state `s`.
pub open spec fn fired(s: SessionView, events: Seq<Event>) -> nat
    decreases events.len(),
{
    if events.len() == 0 {
        0
    } else {
        let (next, fires) = after(s, events[0]);
        (if fires {
            1nat
        } else {
            0nat
        }) + fired(next, events.drop_first())
    }
}

/// The state that `events` lead to from `s`.
pub open spec fn state_after(s: SessionView, events: Seq<Event>) -> SessionView
    decreases events.len(),
{
    if events.len() == 0 {
        s
    } else {
        state_after(after(s, events[0]).0, events.drop_first())
    }
}

/// A session that has ended stays ended, and its hook stays silent.
pub proof fn lemma_closed_is_final(s: SessionView, events: Seq<Event>)
    requires
        s.closed,
    ensures
        fired(s, events) == 0,
        state_after(s, events).closed,
    decreases events.len(),
{
    if events.len() > 0 {
        lemma_closed_is_final(after(s, events[0]).0, events.drop_first());
    }
}

/// The close hook fires at most once, whatever happens to the session and
/// however often: closing it again, a close frame after a failed read, a
/// keepalive deadline after either, a hook registered anew.
pub proof fn lemma_close_hook_fires_at_most_once(s: SessionView, events: Seq<Event>)
    ensures
        fired(s, events) <= 1,
    decreases events.len(),
{
    if events.len() > 0 {
        let (next, fires) = after(s, events[0]);
        if fires {
            lemma_closed_is_final(next, events.drop_first());
        } else {
            lemma_close_hook_fires_at_most_once(next, events.drop_first());
        }
    }
}

/// Where a hook is registered and the session is open, the first event
/// that ends the session fires the hook.
pub proof fn lemma_close_hook_fires_on_close(s: SessionView, event: Event)
    requires
        s.hook,
        !s.closed,
        after(s, event).0.closed,
    ensures
        after(s, event).1,
{
}

} // verus!
