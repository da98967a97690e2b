//! The send path of one connection's loop: each scheduling iteration handles
//! exactly one event — an inbound message read or a capture-timer tick — and
//! appends that event's outbound messages before the next event is handled.
//! Frame and control messages therefore interleave on the one transport in
//! send order, never re-ordered; this module states what that discipline
//! guarantees for `Ping`.

use vstd::prelude::*;
use crate::protocol::ServerMessage;

verus! {

/// One scheduling iteration of a session's loop, as seen by the send path.
pub enum LoopEvent {
    /// An inbound `Ping` was read; handling it replies `Pong`.
    PingRead,
    /// Any other iteration — another inbound message or a capture tick —
    /// with the outbound message it produced, if any.
    Other(Option<ServerMessage>),
}

/// What one event puts on the wire, in order.
pub open spec fn event_outputs(e: LoopEvent) -> Seq<ServerMessage> {
    match e {
        LoopEvent::PingRead => seq![ServerMessage::Pong],
        LoopEvent::Other(Some(m)) => seq![m],
        LoopEvent::Other(None) => Seq::empty(),
    }
}

/// The outbound stream of a whole run: each event's outputs appended in the
/// order the events were handled.
pub open spec fn loop_outputs(events: Seq<LoopEvent>) -> Seq<ServerMessage>
    decreases events.len(),
{
    if events.len() == 0 {
        Seq::empty()
    } else {
        event_outputs(events.first()) + loop_outputs(events.drop_first())
    }
}

/// The outbound stream splits at any event boundary: everything sent for the
/// first `i` events precedes everything sent for the rest.
pub proof fn lemma_loop_outputs_split(events: Seq<LoopEvent>, i: int)
    requires
        0 <= i <= events.len(),
    ensures
        loop_outputs(events) == loop_outputs(events.take(i)) + loop_outputs(events.skip(i)),
    decreases i,
{
    if i == 0 {
        assert(events.take(0) =~= Seq::<LoopEvent>::empty());
        assert(events.skip(0) =~= events);
        assert(loop_outputs(events.take(0)) + loop_outputs(events) =~= loop_outputs(events));
    } else {
        let rest = events.drop_first();
        lemma_loop_outputs_split(rest, i - 1);
        assert(events.take(i).first() == events.first());
        assert(events.take(i).drop_first() =~= rest.take(i - 1));
        assert(events.skip(i) =~= rest.skip(i - 1));
        assert(loop_outputs(events) == event_outputs(events.first()) + loop_outputs(rest));
        assert(loop_outputs(events.take(i)) == event_outputs(events.first()) + loop_outputs(
            rest.take(i - 1),
        ));
        assert(loop_outputs(events.take(i)) + loop_outputs(events.skip(i)) =~= event_outputs(
            events.first(),
        ) + (loop_outputs(rest.take(i - 1)) + loop_outputs(rest.skip(i - 1))));
    }
}

/// The send-order law: when event `i` of a run reads a `Ping`, its `Pong`
/// stands in the outbound stream immediately after everything sent for the
/// events before it — so the `Pong` appears no later than the next outbound
/// message after the `Ping` was read, however frames interleave.
pub proof fn lemma_pong_follows_ping(events: Seq<LoopEvent>, i: int)
    requires
        0 <= i < events.len(),
        events[i] == LoopEvent::PingRead,
    ensures
        loop_outputs(events) == loop_outputs(events.take(i)) + seq![ServerMessage::Pong]
            + loop_outputs(events.skip(i + 1)),
        loop_outputs(events)[loop_outputs(events.take(i)).len() as int] == ServerMessage::Pong,
    decreases i,
{
    lemma_loop_outputs_split(events, i);
    let rest = events.skip(i);
    assert(rest.first() == events[i]);
    assert(rest.drop_first() =~= events.skip(i + 1));
    assert(loop_outputs(rest) == seq![ServerMessage::Pong] + loop_outputs(events.skip(i + 1)));
    let pre = loop_outputs(events.take(i));
    assert(loop_outputs(events) =~= pre + seq![ServerMessage::Pong] + loop_outputs(
        events.skip(i + 1),
    ));
    assert((pre + seq![ServerMessage::Pong] + loop_outputs(events.skip(i + 1)))[pre.len() as int]
        == ServerMessage::Pong);
}

} // verus!
