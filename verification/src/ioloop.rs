//! The I/O loop: a bounded-latency polling cycle over the transport.
//!
//! Each cycle drains the write queue without waiting, flushes the write
//! buffer on a fixed cadence, polls for inbound data, and checks the stop
//! flag.  On exit the loop shuts the transport down and guarantees that
//! exactly one `Closed` event ends the event stream.
//!
//! Time is counted in abstract ticks; one cycle advances the clock by
//! [`CYCLE_TICK`], and a flush is attempted at most every
//! [`FLUSH_INTERVAL`] ticks.  Both are tunables, not structural.
use vstd::prelude::*;

use crate::buffer::WriteBuffer;
use crate::mailbox::Mailbox;
use crate::proto::has_disconnect;
use crate::proto::closed_count;
use crate::proto::closed_count_push;
use crate::proto::queued_bytes;
use crate::proto::CloseReason;
use crate::proto::Command;
use crate::proto::Event;
use crate::transport::next_read;
use crate::transport::next_sync;
use crate::transport::next_write;
use crate::transport::ReadOutcome;
use crate::transport::ScriptedTransport;
use crate::transport::SyncOutcome;
use crate::transport::WriteOutcome;
use crate::transport::WriteStep;

verus! {

/// Ticks that must elapse between transport write attempts.
pub const FLUSH_INTERVAL: u64 = 50;

/// Ticks one polling cycle takes.
pub const CYCLE_TICK: u64 = 10;

/// The state the I/O loop carries between cycles.
pub struct LoopState {
    /// Outbound bytes drained from the queue but not yet accepted by the
    /// transport.
    pub buffer: WriteBuffer,
    /// The current tick.
    pub now: u64,
    /// The tick of the last write attempt.
    pub last_flush: u64,
    /// Set by a `Disconnect` command, a dropped sender, or a fatal fault;
    /// the loop exits after the cycle that sets it.
    pub stop: bool,
    /// True once the terminal `Closed` event has been emitted.
    pub closed_sent: bool,
}

impl LoopState {
    /// The clock never runs backwards past the last flush, and a terminal
    /// event is only ever emitted on the way out.
    pub open spec fn wf(&self) -> bool {
        &&& self.last_flush <= self.now
        &&& (self.closed_sent ==> self.stop)
    }

    /// A fresh loop state at tick zero.
    pub fn new() -> (st: LoopState)
        ensures
            st.wf(),
            st.buffer@ == Seq::<u8>::empty(),
            st.now == 0,
            st.last_flush == 0,
            !st.stop,
            !st.closed_sent,
    {
        LoopState {
            buffer: WriteBuffer::new(),
            now: 0,
            last_flush: 0,
            stop: false,
            closed_sent: false,
        }
    }
}

/// True when a write attempt is due: there is something to flush and the
/// cadence interval has elapsed since the last attempt.
pub open spec fn flush_fires(buf: Seq<u8>, now: u64, last_flush: u64) -> bool {
    buf.len() > 0 && now >= last_flush + FLUSH_INTERVAL
}

/// The error events a write step produces: one for a failed write, none
/// otherwise.
pub open spec fn write_error_events(w: WriteStep) -> Seq<Event> {
    match w {
        WriteStep::Failed(msg) => seq![Event::Error(msg)],
        _ => Seq::empty(),
    }
}

/// The error events a sync outcome produces: one for a failed sync, none
/// otherwise.  A sync failure is reported but is not fatal by itself.
pub open spec fn sync_error_events(s: SyncOutcome) -> Seq<Event> {
    match s {
        SyncOutcome::Failed(msg) => seq![Event::Error(msg)],
        SyncOutcome::Done => Seq::empty(),
    }
}

/// The events one flush step appends, given whether it fires and what the
/// transport scripts answer next.
pub open spec fn flush_events(fires: bool, tr: ScriptedTransport) -> Seq<Event> {
    if fires {
        write_error_events(next_write(tr.spec_writes())) + sync_error_events(
            next_sync(tr.spec_syncs()),
        )
    } else {
        Seq::empty()
    }
}

/// The events one read poll appends.
pub open spec fn read_events(r: ReadOutcome) -> Seq<Event> {
    match r {
        ReadOutcome::Data(bytes) => if bytes@.len() > 0 {
            seq![Event::Data(bytes)]
        } else {
            seq![Event::Closed(CloseReason::Unexpected)]
        },
        ReadOutcome::WouldBlock => Seq::empty(),
        ReadOutcome::EndOfStream => seq![Event::Closed(CloseReason::Remote)],
        ReadOutcome::Failed(msg) => seq![Event::Error(msg)],
    }
}

/// True when the read outcome ends the session: an orderly end of stream,
/// or a zero-byte read without one.
pub open spec fn read_closes(r: ReadOutcome) -> bool {
    match r {
        ReadOutcome::Data(bytes) => bytes@.len() == 0,
        ReadOutcome::EndOfStream => true,
        _ => false,
    }
}

/// True when the read outcome is a fatal fault.
pub open spec fn read_fails(r: ReadOutcome) -> bool {
    r is Failed
}

/// Unfolds `has_disconnect` one command at a time, for reasoning about a
/// drain loop.
proof fn has_disconnect_unfold(cmds: Seq<Command>)
    requires
        cmds.len() > 0,
    ensures
        has_disconnect(cmds) == (cmds.first().is_disconnect() || has_disconnect(
            cmds.drop_first(),
        )),
{
    if cmds.first().is_disconnect() {
        assert(has_disconnect(cmds));
    }
    if has_disconnect(cmds.drop_first()) {
        let i = choose|i: int|
            0 <= i < cmds.drop_first().len() && (#[trigger] cmds.drop_first()[i]).is_disconnect();
        assert(cmds[i + 1].is_disconnect());
        assert(has_disconnect(cmds));
    }
    if has_disconnect(cmds) && !cmds.first().is_disconnect() {
        let i = choose|i: int| 0 <= i < cmds.len() && (#[trigger] cmds[i]).is_disconnect();
        assert(cmds.drop_first()[i - 1].is_disconnect());
        assert(has_disconnect(cmds.drop_first()));
    }
}

/// Applies one drained command: a `Write` appends its bytes to the write
/// buffer (nothing is flushed yet), a `Disconnect` raises the stop flag.
pub fn apply_command(st: &mut LoopState, cmd: Command)
    requires
        old(st).wf(),
    ensures
        final(st).wf(),
        final(st).buffer@ == old(st).buffer@ + cmd.payload(),
        final(st).stop == (old(st).stop || cmd.is_disconnect()),
        final(st).now == old(st).now,
        final(st).last_flush == old(st).last_flush,
        final(st).closed_sent == old(st).closed_sent,
{
    match cmd {
        Command::Write(bytes) => {
            st.buffer.append(bytes);
        },
        Command::Disconnect => {
            st.stop = true;
            assert(final(st).buffer@ =~= old(st).buffer@ + cmd.payload());
        },
    }
}

/// Step 1 of a cycle: pops every immediately available command from the
/// write queue, applies each in order, and treats a dropped sending side
/// as an implicit disconnect request.
pub fn drain_commands(st: &mut LoopState, queue: &mut Mailbox<Command>, senders_gone: bool)
    requires
        old(st).wf(),
        old(queue).wf(),
    ensures
        final(st).wf(),
        final(queue).wf(),
        final(queue)@.len() == 0,
        final(queue).spec_bound() == old(queue).spec_bound(),
        final(st).buffer@ == old(st).buffer@ + queued_bytes(old(queue)@),
        final(st).stop == (old(st).stop || senders_gone || has_disconnect(old(queue)@)),
        final(st).now == old(st).now,
        final(st).last_flush == old(st).last_flush,
        final(st).closed_sent == old(st).closed_sent,
{
    loop
        invariant
            st.wf(),
            queue.wf(),
            queue.spec_bound() == old(queue).spec_bound(),
            st.buffer@ + queued_bytes(queue@) == old(st).buffer@ + queued_bytes(old(queue)@),
            (st.stop || has_disconnect(queue@)) == (old(st).stop || has_disconnect(old(queue)@)),
            st.now == old(st).now,
            st.last_flush == old(st).last_flush,
            st.closed_sent == old(st).closed_sent,
        ensures
            queue@.len() == 0,
        decreases queue@.len(),
    {
        let ghost q0 = queue@;
        let ghost buf0 = st.buffer@;
        match queue.recv() {
            None => {
                break ;
            },
            Some(cmd) => {
                proof {
                    has_disconnect_unfold(q0);
                }
                apply_command(st, cmd);
                assert(st.buffer@ + queued_bytes(queue@) =~= buf0 + queued_bytes(q0));
            },
        }
    }
    assert(st.buffer@ =~= st.buffer@ + queued_bytes(queue@));
    if senders_gone {
        st.stop = true;
    }
}

/// Step 2 of a cycle: when a flush is due, offers the whole write buffer
/// to the transport once.  A partial write removes only the accepted bytes
/// from the front; a would-block leaves the buffer untouched for the next
/// interval; any other write error marks the session for shutdown and
/// emits an `Error` event.  After any write attempt the transport is
/// flushed; a sync failure is reported as a non-fatal `Error` event.
pub fn flush_step(st: &mut LoopState, tr: &mut ScriptedTransport, log: &mut Vec<Event>)
    requires
        old(st).wf(),
    ensures
        final(st).wf(),
        final(st).now == old(st).now,
        final(st).closed_sent == old(st).closed_sent,
        final(tr).spec_reads() == old(tr).spec_reads(),
        final(tr).spec_shut() == old(tr).spec_shut(),
        final(log)@ == old(log)@ + flush_events(
            flush_fires(old(st).buffer@, old(st).now, old(st).last_flush),
            *old(tr),
        ),
        final(tr).spec_taken() + final(st).buffer@ == old(tr).spec_taken() + old(st).buffer@,
        old(tr).spec_taken().is_prefix_of(final(tr).spec_taken()),
        !flush_fires(old(st).buffer@, old(st).now, old(st).last_flush) ==> {
            &&& final(st).buffer@ == old(st).buffer@
            &&& final(st).stop == old(st).stop
            &&& final(st).last_flush == old(st).last_flush
            &&& final(tr).spec_writes() == old(tr).spec_writes()
            &&& final(tr).spec_syncs() == old(tr).spec_syncs()
            &&& final(tr).spec_taken() == old(tr).spec_taken()
        },
        flush_fires(old(st).buffer@, old(st).now, old(st).last_flush) ==> {
            &&& final(tr).spec_writes() == if old(tr).spec_writes().len() == 0 {
                old(tr).spec_writes()
            } else {
                old(tr).spec_writes().drop_first()
            }
            &&& final(tr).spec_syncs() == if old(tr).spec_syncs().len() == 0 {
                old(tr).spec_syncs()
            } else {
                old(tr).spec_syncs().drop_first()
            }
            &&& final(st).last_flush == old(st).now
            &&& final(st).stop == (old(st).stop || next_write(old(tr).spec_writes()) is Failed)
            &&& (next_write(old(tr).spec_writes()) matches WriteStep::AcceptUpTo(limit) ==> {
                let n = if (limit as int) <= old(st).buffer@.len() {
                    limit as int
                } else {
                    old(st).buffer@.len() as int
                };
                final(st).buffer@ == old(st).buffer@.skip(n) && final(tr).spec_taken() == old(
                    tr,
                ).spec_taken() + old(st).buffer@.take(n)
            })
            &&& (!(next_write(old(tr).spec_writes()) is AcceptUpTo) ==> final(st).buffer@ == old(
                st,
            ).buffer@ && final(tr).spec_taken() == old(tr).spec_taken())
        },
{
    if !flush_due(st) {
        assert(final(log)@ =~= old(log)@ + flush_events(false, *old(tr)));
        return ;
    }
    let outcome = tr.attempt_write(st.buffer.pending());
    match apply_write_outcome(st, outcome) {
        Some(ev) => {
            log.push(ev);
        },
        None => {},
    }
    let sync = tr.attempt_sync();
    match apply_sync_outcome(sync) {
        Some(ev) => {
            log.push(ev);
        },
        None => {},
    }
    assert(final(log)@ =~= old(log)@ + flush_events(true, *old(tr)));
    assert(final(tr).spec_taken() + final(st).buffer@ =~= old(tr).spec_taken() + old(st).buffer@);
}

/// True when a write attempt is due this cycle; the executable twin of
/// [`flush_fires`], for whoever drives the loop over a real transport.
pub fn flush_due(st: &LoopState) -> (r: bool)
    requires
        st.wf(),
    ensures
        r == flush_fires(st.buffer@, st.now, st.last_flush),
{
    !st.buffer.is_empty() && st.now - st.last_flush >= FLUSH_INTERVAL
}

/// Applies what one write attempt produced: accepted bytes leave the
/// front of the buffer, a would-block leaves it untouched for the next
/// interval, and any other write error marks the session for shutdown and
/// yields the `Error` event to forward.  Call it once per attempt; it
/// also records the attempt's tick for the cadence.
pub fn apply_write_outcome(st: &mut LoopState, outcome: WriteOutcome) -> (ev: Option<Event>)
    requires
        old(st).wf(),
        outcome matches WriteOutcome::Accepted(n) ==> n <= old(st).buffer@.len(),
    ensures
        final(st).wf(),
        final(st).now == old(st).now,
        final(st).last_flush == old(st).now,
        final(st).closed_sent == old(st).closed_sent,
        match outcome {
            WriteOutcome::Accepted(n) => final(st).buffer@ == old(st).buffer@.skip(n as int)
                && final(st).stop == old(st).stop && ev is None,
            WriteOutcome::WouldBlock => final(st).buffer@ == old(st).buffer@ && final(st).stop
                == old(st).stop && ev is None,
            WriteOutcome::Failed(msg) => final(st).buffer@ == old(st).buffer@ && final(st).stop
                && ev == Some(Event::Error(msg)),
        },
{
    st.last_flush = st.now;
    match outcome {
        WriteOutcome::Accepted(n) => {
            st.buffer.consume(n);
            None
        },
        WriteOutcome::WouldBlock => None,
        WriteOutcome::Failed(msg) => {
            st.stop = true;
            Some(Event::Error(msg))
        },
    }
}

/// What the flush-and-sync after a write attempt yields: a failed sync is
/// reported as a non-fatal `Error` event, anything else is silent.
pub fn apply_sync_outcome(outcome: SyncOutcome) -> (ev: Option<Event>)
    ensures
        match outcome {
            SyncOutcome::Done => ev is None,
            SyncOutcome::Failed(msg) => ev == Some(Event::Error(msg)),
        },
{
    match outcome {
        SyncOutcome::Done => None,
        SyncOutcome::Failed(msg) => Some(Event::Error(msg)),
    }
}

/// `closed_count` distributes over concatenation.
pub proof fn closed_count_concat(a: Seq<Event>, b: Seq<Event>)
    ensures
        closed_count(a + b) == closed_count(a) + closed_count(b),
    decreases b.len(),
{
    if b.len() == 0 {
        assert(a + b =~= a);
    } else {
        assert((a + b).drop_last() =~= a + b.drop_last());
        closed_count_concat(a, b.drop_last());
    }
}

/// A flush step never emits a `Closed` event.
pub proof fn flush_events_no_closed(fires: bool, tr: ScriptedTransport)
    ensures
        closed_count(flush_events(fires, tr)) == 0,
{
    let evs = flush_events(fires, tr);
    assert forall|i: int| 0 <= i < evs.len() implies !((#[trigger] evs[i]) is Closed) by {}
    closed_count_all_open(evs);
}

/// A sequence without `Closed` events counts zero of them.
proof fn closed_count_all_open(evs: Seq<Event>)
    requires
        forall|i: int| 0 <= i < evs.len() ==> !((#[trigger] evs[i]) is Closed),
    ensures
        closed_count(evs) == 0,
    decreases evs.len(),
{
    if evs.len() > 0 {
        closed_count_all_open(evs.drop_last());
    }
}

/// A read poll emits a `Closed` event exactly when the outcome closes the
/// session.
pub proof fn read_events_closed(r: ReadOutcome)
    ensures
        closed_count(read_events(r)) == if read_closes(r) {
            1int
        } else {
            0int
        },
{
    let evs = read_events(r);
    assert(closed_count(Seq::<Event>::empty()) == 0);
    if evs.len() > 0 {
        assert(evs.drop_last() =~= Seq::<Event>::empty());
    }
}

/// Step 3 of a cycle: one non-blocking read poll.  Data is forwarded
/// verbatim; an end of stream, or a zero-byte read without one, emits the
/// terminal `Closed` and stops the loop; a would-block emits nothing; any
/// other read error emits an `Error` event and stops the loop.
pub fn read_step(st: &mut LoopState, tr: &mut ScriptedTransport, log: &mut Vec<Event>)
    requires
        old(st).wf(),
        !old(st).closed_sent,
    ensures
        final(st).wf(),
        final(st).buffer@ == old(st).buffer@,
        final(st).now == old(st).now,
        final(st).last_flush == old(st).last_flush,
        final(tr).spec_writes() == old(tr).spec_writes(),
        final(tr).spec_syncs() == old(tr).spec_syncs(),
        final(tr).spec_taken() == old(tr).spec_taken(),
        final(tr).spec_shut() == old(tr).spec_shut(),
        final(tr).spec_reads() == if old(tr).spec_reads().len() == 0 {
            old(tr).spec_reads()
        } else {
            old(tr).spec_reads().drop_first()
        },
        final(log)@ == old(log)@ + read_events(next_read(old(tr).spec_reads())),
        final(st).stop == (old(st).stop || read_closes(next_read(old(tr).spec_reads()))
            || read_fails(next_read(old(tr).spec_reads()))),
        final(st).closed_sent == read_closes(next_read(old(tr).spec_reads())),
{
    let outcome = tr.poll_read();
    let mut evs = apply_read_outcome(st, outcome);
    log.append(&mut evs);
}

/// Applies what one read poll produced, yielding the events to forward:
/// data verbatim; an end of stream, or a zero-byte read without one, the
/// terminal `Closed` and a stop; a would-block nothing; any other read
/// error an `Error` event and a stop.
pub fn apply_read_outcome(st: &mut LoopState, outcome: ReadOutcome) -> (evs: Vec<Event>)
    requires
        old(st).wf(),
        !old(st).closed_sent,
    ensures
        final(st).wf(),
        final(st).buffer@ == old(st).buffer@,
        final(st).now == old(st).now,
        final(st).last_flush == old(st).last_flush,
        evs@ == read_events(outcome),
        final(st).stop == (old(st).stop || read_closes(outcome) || read_fails(outcome)),
        final(st).closed_sent == read_closes(outcome),
{
    let ghost og = outcome;
    let mut evs: Vec<Event> = Vec::new();
    match outcome {
        ReadOutcome::Data(bytes) => {
            if bytes.len() > 0 {
                evs.push(Event::Data(bytes));
            } else {
                evs.push(Event::Closed(CloseReason::Unexpected));
                st.closed_sent = true;
                st.stop = true;
            }
        },
        ReadOutcome::WouldBlock => {
            assert(evs@ =~= read_events(og));
        },
        ReadOutcome::EndOfStream => {
            evs.push(Event::Closed(CloseReason::Remote));
            st.closed_sent = true;
            st.stop = true;
        },
        ReadOutcome::Failed(msg) => {
            evs.push(Event::Error(msg));
            st.stop = true;
        },
    }
    evs
}

/// On the way out of the loop: raises the stop flag and emits the
/// terminal `Closed` if none has gone out yet, so the event stream always
/// ends with exactly one.
pub fn terminal_close(st: &mut LoopState) -> (ev: Option<Event>)
    requires
        old(st).wf(),
    ensures
        final(st).wf(),
        final(st).buffer@ == old(st).buffer@,
        final(st).now == old(st).now,
        final(st).last_flush == old(st).last_flush,
        final(st).stop,
        final(st).closed_sent,
        old(st).closed_sent ==> ev is None,
        !old(st).closed_sent ==> ev == Some(Event::Closed(CloseReason::Local)),
{
    st.stop = true;
    if st.closed_sent {
        None
    } else {
        st.closed_sent = true;
        Some(Event::Closed(CloseReason::Local))
    }
}

/// Moves the clock one cycle forward.  At the far end of the 64-bit tick
/// range it pins instead of wrapping, which keeps the cadence sound for
/// an unverified driver with no headroom check.
pub fn advance_clock(st: &mut LoopState)
    requires
        old(st).wf(),
    ensures
        final(st).wf(),
        final(st).buffer@ == old(st).buffer@,
        final(st).last_flush == old(st).last_flush,
        final(st).stop == old(st).stop,
        final(st).closed_sent == old(st).closed_sent,
        final(st).now == if old(st).now + CYCLE_TICK <= u64::MAX {
            (old(st).now + CYCLE_TICK) as u64
        } else {
            u64::MAX
        },
{
    if st.now <= u64::MAX - CYCLE_TICK {
        st.now = st.now + CYCLE_TICK;
    } else {
        st.now = u64::MAX;
    }
}

/// True when a flush will fire this cycle, judged after the queue has been
/// drained into the buffer.
pub open spec fn cycle_fires(st: LoopState, q: Seq<Command>) -> bool {
    flush_fires(st.buffer@ + queued_bytes(q), st.now, st.last_flush)
}

/// A spec-level image of everything one loop run touches: the loop's own
/// fields, the transport's scripts, the bytes the transport has taken,
/// its shutdown flag, and the event log.  [`run_image`] folds the polling
/// cycle over such an image, which lets [`run_loop`] promise its entire
/// outcome as one equation.
#[verifier::ext_equal]
pub struct LoopImage {
    /// The write buffer's bytes.
    pub buffer: Seq<u8>,
    /// The clock, in ticks.
    pub now: int,
    /// The tick of the last write attempt.
    pub last_flush: int,
    /// The stop flag.
    pub stop: bool,
    /// Whether the terminal `Closed` has been emitted.
    pub closed_sent: bool,
    /// The read outcomes not yet played.
    pub reads: Seq<ReadOutcome>,
    /// The write steps not yet consumed.
    pub writes: Seq<WriteStep>,
    /// The sync outcomes not yet consumed.
    pub syncs: Seq<SyncOutcome>,
    /// Every byte the transport accepted, in order.
    pub taken: Seq<u8>,
    /// Whether the transport has been shut down.
    pub shut: bool,
    /// The events emitted so far.
    pub log: Seq<Event>,
}

/// The image of the live loop state, transport and event log.
pub open spec fn loop_image(st: LoopState, tr: ScriptedTransport, log: Seq<Event>) -> LoopImage {
    LoopImage {
        buffer: st.buffer@,
        now: st.now as int,
        last_flush: st.last_flush as int,
        stop: st.stop,
        closed_sent: st.closed_sent,
        reads: tr.spec_reads(),
        writes: tr.spec_writes(),
        syncs: tr.spec_syncs(),
        taken: tr.spec_taken(),
        shut: tr.spec_shut(),
        log: log,
    }
}

/// One polling cycle in the spec world: drain the queue, flush on the
/// cadence, poll for inbound data, advance the clock one tick.
pub open spec fn cycle_image(im: LoopImage, q: Seq<Command>, senders_gone: bool) -> LoopImage {
    let buffer1 = im.buffer + queued_bytes(q);
    let stop1 = im.stop || senders_gone || has_disconnect(q);
    let fires = buffer1.len() > 0 && im.now >= im.last_flush + FLUSH_INTERVAL;
    let w = next_write(im.writes);
    let accepted = if fires {
        match w {
            WriteStep::AcceptUpTo(limit) => if (limit as int) <= buffer1.len() {
                limit as int
            } else {
                buffer1.len() as int
            },
            _ => 0,
        }
    } else {
        0
    };
    let r = next_read(im.reads);
    LoopImage {
        buffer: buffer1.skip(accepted),
        now: im.now + CYCLE_TICK,
        last_flush: if fires {
            im.now
        } else {
            im.last_flush
        },
        stop: stop1 || (fires && w is Failed) || read_closes(r) || read_fails(r),
        closed_sent: read_closes(r),
        reads: if im.reads.len() > 0 {
            im.reads.drop_first()
        } else {
            im.reads
        },
        writes: if fires && im.writes.len() > 0 {
            im.writes.drop_first()
        } else {
            im.writes
        },
        syncs: if fires && im.syncs.len() > 0 {
            im.syncs.drop_first()
        } else {
            im.syncs
        },
        taken: im.taken + buffer1.take(accepted),
        shut: im.shut,
        log: im.log + (if fires {
            write_error_events(w) + sync_error_events(next_sync(im.syncs))
        } else {
            Seq::empty()
        }) + read_events(r),
    }
}

/// The whole run in the spec world: at most `cycles` cycles, stopping
/// early once the stop flag is set.  The queue is drained by the first
/// cycle and stays empty after it.
pub open spec fn run_image(im: LoopImage, q: Seq<Command>, senders_gone: bool, cycles: nat) -> LoopImage
    decreases cycles,
{
    if cycles == 0 || im.stop {
        im
    } else {
        run_image(cycle_image(im, q, senders_gone), Seq::empty(), senders_gone, (cycles - 1) as nat)
    }
}

/// The exit path in the spec world: when the loop stopped, an orderly
/// transport shutdown, and the terminal `Closed` if none went out yet.
pub open spec fn finish_image(im: LoopImage) -> LoopImage {
    if im.stop {
        LoopImage {
            shut: true,
            closed_sent: true,
            log: if im.closed_sent {
                im.log
            } else {
                im.log.push(Event::Closed(CloseReason::Local))
            },
            ..im
        }
    } else {
        im
    }
}

/// One full polling cycle: drain, flush on cadence, poll, then advance the
/// clock by one tick.  The stop flag is checked by the caller after the
/// cycle, so outstanding writes get one opportunity to flush before
/// shutdown.
pub fn run_cycle(
    st: &mut LoopState,
    queue: &mut Mailbox<Command>,
    senders_gone: bool,
    tr: &mut ScriptedTransport,
    log: &mut Vec<Event>,
)
    requires
        old(st).wf(),
        old(queue).wf(),
        !old(st).closed_sent,
        old(st).now + CYCLE_TICK <= u64::MAX,
    ensures
        final(st).wf(),
        final(queue).wf(),
        final(queue)@.len() == 0,
        final(queue).spec_bound() == old(queue).spec_bound(),
        final(st).now == old(st).now + CYCLE_TICK,
        final(tr).spec_shut() == old(tr).spec_shut(),
        final(tr).spec_taken() + final(st).buffer@ == old(tr).spec_taken() + old(st).buffer@
            + queued_bytes(old(queue)@),
        old(tr).spec_taken().is_prefix_of(final(tr).spec_taken()),
        final(log)@ == old(log)@ + flush_events(cycle_fires(*old(st), old(queue)@), *old(tr))
            + read_events(next_read(old(tr).spec_reads())),
        final(st).stop == (old(st).stop || senders_gone || has_disconnect(old(queue)@) || (
        cycle_fires(*old(st), old(queue)@) && next_write(old(tr).spec_writes()) is Failed)
            || read_closes(next_read(old(tr).spec_reads())) || read_fails(
            next_read(old(tr).spec_reads()),
        )),
        final(st).closed_sent == read_closes(next_read(old(tr).spec_reads())),
        closed_count(final(log)@) == closed_count(old(log)@) + if final(st).closed_sent {
            1int
        } else {
            0int
        },
        final(tr).spec_reads() == old(tr).spec_reads() || (old(tr).spec_reads().len() > 0
            && final(tr).spec_reads() == old(tr).spec_reads().drop_first()),
        final(tr).spec_writes() == old(tr).spec_writes() || (old(tr).spec_writes().len() > 0
            && final(tr).spec_writes() == old(tr).spec_writes().drop_first()),
        final(tr).spec_syncs() == old(tr).spec_syncs() || (old(tr).spec_syncs().len() > 0
            && final(tr).spec_syncs() == old(tr).spec_syncs().drop_first()),
        !(next_write(old(tr).spec_writes()) is AcceptUpTo) ==> final(tr).spec_taken() == old(
            tr,
        ).spec_taken() && final(st).buffer@ == old(st).buffer@ + queued_bytes(old(queue)@),
        loop_image(*final(st), *final(tr), final(log)@) == cycle_image(
            loop_image(*old(st), *old(tr), old(log)@),
            old(queue)@,
            senders_gone,
        ),
{
    drain_commands(st, queue, senders_gone);
    flush_step(st, tr, log);
    read_step(st, tr, log);
    st.now = st.now + CYCLE_TICK;
    proof {
        assert(loop_image(*final(st), *final(tr), final(log)@) =~= cycle_image(
            loop_image(*old(st), *old(tr), old(log)@),
            old(queue)@,
            senders_gone,
        ));
        assert(final(log)@ =~= old(log)@ + flush_events(cycle_fires(*old(st), old(queue)@), *old(
            tr,
        )) + read_events(next_read(old(tr).spec_reads())));
        assert(final(tr).spec_taken() + final(st).buffer@ =~= old(tr).spec_taken() + old(
            st,
        ).buffer@ + queued_bytes(old(queue)@));
        closed_count_concat(
            old(log)@,
            flush_events(cycle_fires(*old(st), old(queue)@), *old(tr)),
        );
        closed_count_concat(
            old(log)@ + flush_events(cycle_fires(*old(st), old(queue)@), *old(tr)),
            read_events(next_read(old(tr).spec_reads())),
        );
        flush_events_no_closed(cycle_fires(*old(st), old(queue)@), *old(tr));
        read_events_closed(next_read(old(tr).spec_reads()));
    }
}

/// True when the scripts ahead answer would-block to every read and write
/// and no sync fails: N such cycles must leave the loop alive, polling,
/// and silent.
pub open spec fn quiet_scripts(tr: ScriptedTransport) -> bool {
    &&& forall|i: int|
        0 <= i < tr.spec_reads().len() ==> (#[trigger] tr.spec_reads()[i]) is WouldBlock
    &&& forall|i: int|
        0 <= i < tr.spec_writes().len() ==> (#[trigger] tr.spec_writes()[i]) is WouldBlock
    &&& forall|i: int| 0 <= i < tr.spec_syncs().len() ==> (#[trigger] tr.spec_syncs()[i]) is Done
}

/// Prefixes chain: a prefix of a prefix is a prefix of the whole.
proof fn prefix_trans(a: Seq<u8>, b: Seq<u8>, c: Seq<u8>)
    requires
        a.is_prefix_of(b),
        b.is_prefix_of(c),
    ensures
        a.is_prefix_of(c),
{
    assert(a =~= c.subrange(0, a.len() as int));
}

/// Consuming at most the next step from each script keeps the scripts
/// quiet.
proof fn quiet_scripts_step(before: ScriptedTransport, after: ScriptedTransport)
    requires
        quiet_scripts(before),
        after.spec_reads() == before.spec_reads() || (before.spec_reads().len() > 0
            && after.spec_reads() == before.spec_reads().drop_first()),
        after.spec_writes() == before.spec_writes() || (before.spec_writes().len() > 0
            && after.spec_writes() == before.spec_writes().drop_first()),
        after.spec_syncs() == before.spec_syncs() || (before.spec_syncs().len() > 0
            && after.spec_syncs() == before.spec_syncs().drop_first()),
    ensures
        quiet_scripts(after),
{
    if before.spec_reads().len() > 0 && after.spec_reads() == before.spec_reads().drop_first() {
        assert forall|i: int|
            0 <= i < after.spec_reads().len() implies (
        #[trigger] after.spec_reads()[i]) is WouldBlock by {
            assert(after.spec_reads()[i] == before.spec_reads()[i + 1]);
        }
    }
    if before.spec_writes().len() > 0 && after.spec_writes()
        == before.spec_writes().drop_first() {
        assert forall|i: int|
            0 <= i < after.spec_writes().len() implies (
        #[trigger] after.spec_writes()[i]) is WouldBlock by {
            assert(after.spec_writes()[i] == before.spec_writes()[i + 1]);
        }
    }
    if before.spec_syncs().len() > 0 && after.spec_syncs() == before.spec_syncs().drop_first() {
        assert forall|i: int|
            0 <= i < after.spec_syncs().len() implies (#[trigger] after.spec_syncs()[i]) is Done by {
            assert(after.spec_syncs()[i] == before.spec_syncs()[i + 1]);
        }
    }
}

/// Runs the I/O loop for at most `cycles` polling cycles, exiting early
/// once the stop flag is set.  The whole outcome — final state, scripts
/// consumed, bytes taken, shutdown flag and event log — equals
/// [`finish_image`] of [`run_image`]: one equation pins everything the
/// loop did.  In particular: on exit the transport is shut down in an
/// orderly way and exactly one `Closed` event has ended the log; a
/// disconnect command or a dropped sending side stops the loop; when the
/// budget runs out first the loop is still alive and no `Closed` has
/// been emitted.  Bytes the transport accepted, bytes still buffered,
/// and bytes still queued always add up, in order, to everything that
/// was enqueued: writes are never reordered or dropped.
pub fn run_loop(
    st: &mut LoopState,
    queue: &mut Mailbox<Command>,
    senders_gone: bool,
    tr: &mut ScriptedTransport,
    log: &mut Vec<Event>,
    cycles: usize,
)
    requires
        old(st).wf(),
        old(queue).wf(),
        !old(st).closed_sent,
        !old(st).stop,
        old(st).now + cycles * CYCLE_TICK <= u64::MAX,
    ensures
        final(st).wf(),
        final(queue).wf(),
        final(queue).spec_bound() == old(queue).spec_bound(),
        cycles > 0 ==> final(queue)@.len() == 0,
        final(st).now <= old(st).now + cycles * CYCLE_TICK,
        final(st).stop || final(st).now == old(st).now + cycles * CYCLE_TICK,
        final(tr).spec_taken() + final(st).buffer@ + queued_bytes(final(queue)@) == old(
            tr,
        ).spec_taken() + old(st).buffer@ + queued_bytes(old(queue)@),
        old(tr).spec_taken().is_prefix_of(final(tr).spec_taken()),
        final(st).stop == final(st).closed_sent,
        closed_count(final(log)@) == closed_count(old(log)@) + if final(st).closed_sent {
            1int
        } else {
            0int
        },
        final(st).stop ==> final(tr).spec_shut(),
        !final(st).stop ==> final(tr).spec_shut() == old(tr).spec_shut(),
        final(st).closed_sent ==> final(log)@.len() > old(log)@.len()
            && final(log)@.last() is Closed,
        cycles > 0 && (senders_gone || has_disconnect(old(queue)@)) ==> final(st).stop,
        cycles > 0 && read_closes(next_read(old(tr).spec_reads())) ==> final(st).closed_sent,
        loop_image(*final(st), *final(tr), final(log)@) == finish_image(
            run_image(
                loop_image(*old(st), *old(tr), old(log)@),
                old(queue)@,
                senders_gone,
                cycles as nat,
            ),
        ),
        old(queue)@.len() == 0 && !senders_gone && quiet_scripts(*old(tr)) ==> {
            &&& final(log)@ == old(log)@
            &&& !final(st).stop
            &&& final(st).buffer@ == old(st).buffer@
            &&& final(tr).spec_taken() == old(tr).spec_taken()
            &&& final(st).now == old(st).now + cycles * CYCLE_TICK
        },
{
    let ghost quiet = old(queue)@.len() == 0 && !senders_gone && quiet_scripts(*old(tr));
    let mut i: usize = 0;
    while i < cycles && !st.stop
        invariant
            st.wf(),
            queue.wf(),
            queue.spec_bound() == old(queue).spec_bound(),
            i <= cycles,
            i > 0 ==> queue@.len() == 0,
            i == 0 ==> queue@ == old(queue)@ && st.buffer@ == old(st).buffer@ && !st.stop
                && tr.spec_reads() == old(tr).spec_reads(),
            st.now == old(st).now + i * CYCLE_TICK,
            old(st).now + cycles * CYCLE_TICK <= u64::MAX,
            st.closed_sent ==> st.stop,
            tr.spec_taken() + st.buffer@ + queued_bytes(queue@) == old(tr).spec_taken() + old(
                st,
            ).buffer@ + queued_bytes(old(queue)@),
            old(tr).spec_taken().is_prefix_of(tr.spec_taken()),
            tr.spec_shut() == old(tr).spec_shut(),
            closed_count(log@) == closed_count(old(log)@) + if st.closed_sent {
                1int
            } else {
                0int
            },
            log@.len() >= old(log)@.len(),
            st.closed_sent ==> log@.len() > old(log)@.len() && log@.last() is Closed,
            i > 0 && (senders_gone || has_disconnect(old(queue)@)) ==> st.stop,
            i > 0 && read_closes(next_read(old(tr).spec_reads())) ==> st.closed_sent,
            run_image(loop_image(*st, *tr, log@), queue@, senders_gone, (cycles - i) as nat)
                == run_image(
                loop_image(*old(st), *old(tr), old(log)@),
                old(queue)@,
                senders_gone,
                cycles as nat,
            ),
            quiet == (old(queue)@.len() == 0 && !senders_gone && quiet_scripts(*old(tr))),
            quiet ==> {
                &&& log@ == old(log)@
                &&& !st.stop
                &&& st.buffer@ == old(st).buffer@
                &&& tr.spec_taken() == old(tr).spec_taken()
                &&& queue@.len() == 0
                &&& quiet_scripts(*tr)
            },
        decreases cycles - i,
    {
        let ghost st0 = *st;
        let ghost tr0 = *tr;
        let ghost q0 = queue@;
        let ghost log0 = log@;
        let ghost cur0 = loop_image(st0, tr0, log0);
        let ghost left0 = (cycles - i) as nat;
        run_cycle(st, queue, senders_gone, tr, log);
        proof {
            assert(tr.spec_taken() + st.buffer@ + queued_bytes(queue@) =~= tr.spec_taken()
                + st.buffer@);
            prefix_trans(old(tr).spec_taken(), tr0.spec_taken(), tr.spec_taken());
            assert(queue@ =~= Seq::<Command>::empty());
            assert(run_image(cur0, q0, senders_gone, left0) == run_image(
                cycle_image(cur0, q0, senders_gone),
                Seq::empty(),
                senders_gone,
                (left0 - 1) as nat,
            ));
            assert(loop_image(*st, *tr, log@) == cycle_image(cur0, q0, senders_gone));
            if st.closed_sent {
                let nr = next_read(tr0.spec_reads());
                assert(read_events(nr).len() == 1 && read_events(nr).last() is Closed);
                assert(log@ == log0 + flush_events(cycle_fires(st0, q0), tr0) + read_events(nr));
                assert(log@.last() == read_events(nr).last());
            }
            if quiet {
                quiet_scripts_step(tr0, *tr);
                assert(log@ =~= log0);
                assert(st.buffer@ =~= old(st).buffer@ + queued_bytes(q0));
                assert(st.buffer@ =~= old(st).buffer@);
            }
        }
        i = i + 1;
    }
    let ghost pre_finish = loop_image(*st, *tr, log@);
    proof {
        assert(pre_finish == run_image(
            loop_image(*old(st), *old(tr), old(log)@),
            old(queue)@,
            senders_gone,
            cycles as nat,
        ));
    }
    if st.stop {
        tr.shutdown();
        match terminal_close(st) {
            Some(ev) => {
                let ghost logb = log@;
                let ghost evg = ev;
                log.push(ev);
                proof {
                    closed_count_push(logb, evg);
                }
            },
            None => {},
        }
        proof {
            assert(loop_image(*st, *tr, log@) =~= finish_image(pre_finish));
        }
    } else {
        proof {
            assert(finish_image(pre_finish) == pre_finish);
        }
    }
}

} // verus!
