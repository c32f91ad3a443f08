//! Commands sent to the I/O loop and events it emits.
use vstd::prelude::*;

verus! {

/// A lifecycle or data command for the I/O loop, drained from the write
/// queue strictly in send order.
#[derive(Debug)]
pub enum Command {
    /// Append the payload to the outbound write buffer.
    Write(Vec<u8>),
    /// Ask the loop to shut the session down after the current cycle.
    Disconnect,
}

/// Why a session ended.
#[derive(Clone, Copy, Debug, PartialEq, Eq, Structural)]
pub enum CloseReason {
    /// The remote side signalled an orderly end of stream.
    Remote,
    /// The transport returned zero bytes without an end-of-stream signal;
    /// treated as a closure to avoid an empty-read spin.
    Unexpected,
    /// The loop shut down on request or after a fatal fault.
    Local,
}

/// The closure message for each close reason, as the event bridge
/// renders it.
pub open spec fn close_text(r: CloseReason) -> Seq<char> {
    match r {
        CloseReason::Remote => "connection closed by remote"@,
        CloseReason::Unexpected => "connection closed unexpectedly"@,
        CloseReason::Local => "disconnected"@,
    }
}

/// An event produced by the I/O loop for the event bridge.
#[derive(Debug)]
pub enum Event {
    /// Inbound bytes, forwarded verbatim; decoding is the bridge's job.
    Data(Vec<u8>),
    /// A non-fatal or fatal fault, as a message.
    Error(String),
    /// The terminal event: the session is over.  Emitted exactly once.
    Closed(CloseReason),
}

impl Command {
    /// The payload this command appends to the write buffer: the bytes of a
    /// `Write`, nothing for a `Disconnect`.
    pub open spec fn payload(self) -> Seq<u8> {
        match self {
            Command::Write(bytes) => bytes@,
            Command::Disconnect => Seq::empty(),
        }
    }

    /// True when the command asks the loop to stop.
    pub open spec fn is_disconnect(self) -> bool {
        self is Disconnect
    }
}

/// The bytes that a queue of commands would append to the write buffer,
/// in queue order.
pub open spec fn queued_bytes(cmds: Seq<Command>) -> Seq<u8>
    decreases cmds.len(),
{
    if cmds.len() == 0 {
        Seq::empty()
    } else {
        cmds.first().payload() + queued_bytes(cmds.drop_first())
    }
}

/// True when some command in the queue is a `Disconnect`.
pub open spec fn has_disconnect(cmds: Seq<Command>) -> bool {
    exists|i: int| 0 <= i < cmds.len() && (#[trigger] cmds[i]).is_disconnect()
}

/// True when some event of the sequence is `Closed`.
pub open spec fn has_closed(events: Seq<Event>) -> bool {
    exists|i: int| 0 <= i < events.len() && (#[trigger] events[i]) is Closed
}

/// A sequence holds a `Closed` event exactly when it counts one, and
/// never counts a negative number of them.
pub proof fn closed_count_pos(events: Seq<Event>)
    ensures
        closed_count(events) >= 0,
        (closed_count(events) > 0) == has_closed(events),
    decreases events.len(),
{
    if events.len() > 0 {
        closed_count_pos(events.drop_last());
        if events.last() is Closed {
            assert(events[events.len() - 1] is Closed);
        }
        if closed_count(events.drop_last()) > 0 {
            let i = choose|i: int|
                0 <= i < events.drop_last().len() && (#[trigger] events.drop_last()[i]) is Closed;
            assert(events[i] is Closed);
        }
        if has_closed(events) && !(events.last() is Closed) {
            let i = choose|i: int| 0 <= i < events.len() && (#[trigger] events[i]) is Closed;
            assert(events.drop_last()[i] is Closed);
        }
    }
}

/// How many events of the sequence are `Closed`.
pub open spec fn closed_count(events: Seq<Event>) -> int
    decreases events.len(),
{
    if events.len() == 0 {
        0
    } else {
        closed_count(events.drop_last()) + if events.last() is Closed {
            1int
        } else {
            0int
        }
    }
}

/// Appending a non-`Closed` event keeps the `Closed` count; appending a
/// `Closed` event raises it by one.
pub broadcast proof fn closed_count_push(events: Seq<Event>, e: Event)
    ensures
        #[trigger] closed_count(events.push(e)) == closed_count(events) + if e is Closed {
            1int
        } else {
            0int
        },
{
    assert(events.push(e).drop_last() =~= events);
}

} // verus!
