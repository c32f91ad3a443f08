//! The event bridge: turns raw loop events into consumer notifications.
//!
//! The bridge consumes events in order until it processes a `Closed`, then
//! stops.  Inbound bytes are decoded strictly to text; a chunk that ends
//! inside a multi-byte character keeps its unfinished tail buffered and
//! re-attempts the decode when more bytes arrive, so a read boundary never
//! corrupts text.  Bytes that can never decode are reported as a decode
//! fault rather than silently substituted, and what remains of that chunk
//! is dropped.  On the terminal event the bridge retires the session
//! registry entry, idempotently, and reports the closure.
use vstd::prelude::*;
use vstd::utf8::decode_utf8;
use vstd::utf8::decode_utf8_split;
use vstd::utf8::is_char_boundary;
use vstd::utf8::is_char_boundary_iff_not_is_continuation_byte;
use vstd::utf8::is_char_boundary_start_end_of_seq;
use vstd::utf8::valid_utf8;
use vstd::utf8::valid_utf8_concat;

use crate::proto::close_text;
use crate::proto::has_closed;
use crate::proto::CloseReason;
use crate::proto::Event;
use crate::registry::SessionRegistry;
use crate::textscan::incomplete_tail;
use crate::textscan::scan_utf8;
use crate::textscan::undecodable;

verus! {

/// A consumer-facing notification.
#[derive(Debug)]
pub enum Notification {
    /// Decoded inbound text.
    Output(String),
    /// A non-fatal fault, forwarded as its message.
    Fault(String),
    /// Inbound bytes could not decode to text and were dropped.
    DecodeFault,
    /// The session is over; no further notification follows for it.
    Closed(String),
}

/// True when the notification is decoded text equal to `text`.
pub open spec fn is_output_of(n: Notification, text: Seq<char>) -> bool {
    match n {
        Notification::Output(s) => s@ == text,
        _ => false,
    }
}

/// True when the notification reports a closure with message `text`.
pub open spec fn is_closed_of(n: Notification, text: Seq<char>) -> bool {
    match n {
        Notification::Closed(s) => s@ == text,
        _ => false,
    }
}

/// True when some notification in the batch is a decode fault.
pub open spec fn has_fault(out: Seq<Notification>) -> bool {
    exists|i: int| 0 <= i < out.len() && (#[trigger] out[i]) is DecodeFault
}

/// The text of a notification batch: every `Output` payload, in order.
pub open spec fn output_text(out: Seq<Notification>) -> Seq<char>
    decreases out.len(),
{
    if out.len() == 0 {
        Seq::empty()
    } else {
        output_text(out.drop_last()) + match out.last() {
            Notification::Output(s) => s@,
            _ => Seq::empty(),
        }
    }
}

/// What processing one `Data` payload does to the pending tail and the
/// notification batch.
///
/// Without a fault: some prefix of the accumulated bytes is valid text and
/// is emitted as one `Output` (none when the prefix is empty); what
/// remains is an unfinished tail, kept pending for the next chunk.  With a
/// fault: the accumulated bytes split into a valid prefix, emitted the
/// same way, and an undecodable remainder that no later input could mend;
/// a `DecodeFault` ends the batch and the remainder is dropped.
pub open spec fn data_result(
    pending0: Seq<u8>,
    data: Seq<u8>,
    pending1: Seq<u8>,
    out: Seq<Notification>,
) -> bool {
    let all = pending0 + data;
    &&& (!has_fault(out) ==> {
        let k = all.len() - pending1.len();
        &&& pending1.len() <= all.len()
        &&& all.subrange(k, all.len() as int) == pending1
        &&& valid_utf8(all.subrange(0, k))
        &&& (pending1.len() == 0 || incomplete_tail(pending1))
        &&& out.len() == (if k > 0 {
            1int
        } else {
            0int
        })
        &&& (k > 0 ==> is_output_of(out[0], decode_utf8(all.subrange(0, k))))
    })
    &&& (has_fault(out) ==> {
        &&& pending1.len() == 0
        &&& exists|k: int|
            {
                &&& 0 <= k <= all.len()
                &&& valid_utf8(all.subrange(0, k))
                &&& undecodable(all.subrange(k, all.len() as int))
                &&& out.len() == (if k > 0 {
                    2int
                } else {
                    1int
                })
                &&& (k > 0 ==> is_output_of(out[0], decode_utf8(all.subrange(0, k))))
                &&& out.last() is DecodeFault
            }
    })
}

/// Relies on `String::from_utf8`: on bytes that are valid UTF-8 it
/// returns the string holding exactly those bytes, that is, their
/// decoding.
#[verifier::external_body]
fn string_from_utf8(bytes: Vec<u8>) -> (r: String)
    requires
        valid_utf8(bytes@),
    ensures
        r@ == decode_utf8(bytes@),
{
    match String::from_utf8(bytes) {
        Ok(s) => s,
        Err(_) => String::new(),
    }
}

/// Copies `v[from..to]` into a fresh vector.
fn copy_range(v: &Vec<u8>, from: usize, to: usize) -> (r: Vec<u8>)
    requires
        from <= to <= v@.len(),
    ensures
        r@ == v@.subrange(from as int, to as int),
{
    let mut r: Vec<u8> = Vec::new();
    let mut i: usize = from;
    while i < to
        invariant
            from <= i <= to <= v@.len(),
            r@ == v@.subrange(from as int, i as int),
        decreases to - i,
    {
        r.push(v[i]);
        assert(r@ =~= v@.subrange(from as int, i + 1));
        i = i + 1;
    }
    r
}

/// The closure message for each close reason.
pub fn render_close(reason: CloseReason) -> (s: String)
    ensures
        s@ == close_text(reason),
{
    match reason {
        CloseReason::Remote => "connection closed by remote".to_owned(),
        CloseReason::Unexpected => "connection closed unexpectedly".to_owned(),
        CloseReason::Local => "disconnected".to_owned(),
    }
}

/// The bridge's state: the unfinished byte tail held between `Data`
/// events, and whether the terminal event has been processed.
pub struct EventBridge {
    pending: Vec<u8>,
    done: bool,
}

impl EventBridge {
    /// The bytes held back until more input arrives.
    pub closed spec fn spec_pending(&self) -> Seq<u8> {
        self.pending@
    }

    /// True once a `Closed` event has been processed.
    pub closed spec fn spec_done(&self) -> bool {
        self.done
    }

    /// Whatever is held back is the shape of an unfinished character.
    pub open spec fn wf(&self) -> bool {
        self.spec_pending().len() == 0 || incomplete_tail(self.spec_pending())
    }

    /// A fresh bridge: nothing pending, still consuming.
    pub fn new() -> (b: EventBridge)
        ensures
            b.wf(),
            b.spec_pending() == Seq::<u8>::empty(),
            !b.spec_done(),
    {
        EventBridge { pending: Vec::new(), done: false }
    }

    /// Decodes one `Data` payload appended to the pending tail; see
    /// [`data_result`] for exactly what comes out.
    fn handle_data(&mut self, data: Vec<u8>) -> (out: Vec<Notification>)
        requires
            old(self).wf(),
            !old(self).spec_done(),
        ensures
            final(self).wf(),
            !final(self).spec_done(),
            data_result(old(self).spec_pending(), data@, final(self).spec_pending(), out@),
    {
        let mut data = data;
        self.pending.append(&mut data);
        let ghost all = self.pending@;
        let (k, clean) = scan_utf8(self.pending.as_slice());
        let mut out: Vec<Notification> = Vec::new();
        if k > 0 {
            let head = copy_range(&self.pending, 0, k);
            let text = string_from_utf8(head);
            out.push(Notification::Output(text));
        }
        if clean {
            let rest = copy_range(&self.pending, k, self.pending.len());
            self.pending = rest;
            proof {
                assert(!has_fault(out@));
                assert(all.subrange(all.len() - self.pending@.len(), all.len() as int)
                    =~= self.pending@);
            }
        } else {
            out.push(Notification::DecodeFault);
            self.pending = Vec::new();
            proof {
                assert(out@.last() is DecodeFault);
                assert(has_fault(out@));
                let kk = k as int;
                assert(0 <= kk <= all.len() && valid_utf8(all.subrange(0, kk)) && undecodable(
                    all.subrange(kk, all.len() as int),
                ) && out@.len() == (if kk > 0 {
                    2int
                } else {
                    1int
                }) && (kk > 0 ==> is_output_of(out@[0], decode_utf8(all.subrange(0, kk))))
                    && out@.last() is DecodeFault);
            }
        }
        out
    }

    /// Processes one event.  After the terminal event has been seen,
    /// further events are ignored: the bridge has stopped consuming.
    ///
    /// `Data` decodes as [`data_result`] describes; `Error` forwards the
    /// message as a non-fatal fault; `Closed` reports any unfinished tail
    /// as a decode fault, emits the closure notification, clears the
    /// registry entry if it still refers to this session, and stops.
    pub fn process_event(
        &mut self,
        reg: &mut SessionRegistry,
        session: u64,
        ev: Event,
    ) -> (out: Vec<Notification>)
        requires
            old(self).wf(),
            old(reg).wf(),
        ensures
            final(self).wf(),
            final(reg).wf(),
            final(reg).spec_next() == old(reg).spec_next(),
            old(self).spec_done() ==> out@.len() == 0 && *final(self) == *old(self) && *final(reg)
                == *old(reg),
            !old(self).spec_done() ==> match ev {
                Event::Data(bytes) => {
                    &&& data_result(
                        old(self).spec_pending(),
                        bytes@,
                        final(self).spec_pending(),
                        out@,
                    )
                    &&& !final(self).spec_done()
                    &&& *final(reg) == *old(reg)
                },
                Event::Error(msg) => {
                    &&& out@ =~= seq![Notification::Fault(msg)]
                    &&& !final(self).spec_done()
                    &&& final(self).spec_pending() == old(self).spec_pending()
                    &&& *final(reg) == *old(reg)
                },
                Event::Closed(reason) => {
                    &&& final(self).spec_done()
                    &&& final(self).spec_pending().len() == 0
                    &&& out@.len() == (if old(self).spec_pending().len() > 0 {
                        2int
                    } else {
                        1int
                    })
                    &&& (old(self).spec_pending().len() > 0 ==> out@[0] is DecodeFault)
                    &&& is_closed_of(out@.last(), close_text(reason))
                    &&& (old(reg).spec_active() == Some(session)
                        ==> final(reg).spec_active() is None)
                    &&& (old(reg).spec_active() != Some(session) ==> final(reg).spec_active()
                        == old(reg).spec_active())
                },
            },
    {
        if self.done {
            return Vec::new();
        }
        match ev {
            Event::Data(bytes) => self.handle_data(bytes),
            Event::Error(msg) => {
                let mut out: Vec<Notification> = Vec::new();
                out.push(Notification::Fault(msg));
                out
            },
            Event::Closed(reason) => {
                let mut out: Vec<Notification> = Vec::new();
                if self.pending.len() > 0 {
                    out.push(Notification::DecodeFault);
                    self.pending = Vec::new();
                }
                out.push(Notification::Closed(render_close(reason)));
                self.done = true;
                reg.clear_if(session);
                out
            },
        }
    }
}

/// How many notifications of the batch report a closure.
pub open spec fn closed_note_count(out: Seq<Notification>) -> int
    decreases out.len(),
{
    if out.len() == 0 {
        0
    } else {
        closed_note_count(out.drop_last()) + if out.last() is Closed {
            1int
        } else {
            0int
        }
    }
}

/// `closed_note_count` distributes over concatenation.
pub proof fn closed_note_count_concat(a: Seq<Notification>, b: Seq<Notification>)
    ensures
        closed_note_count(a + b) == closed_note_count(a) + closed_note_count(b),
    decreases b.len(),
{
    if b.len() == 0 {
        assert(a + b =~= a);
    } else {
        assert((a + b).drop_last() =~= a + b.drop_last());
        closed_note_count_concat(a, b.drop_last());
    }
}

/// A batch without closure notifications counts none.
proof fn closed_note_count_all_open(out: Seq<Notification>)
    requires
        forall|i: int| 0 <= i < out.len() ==> !((#[trigger] out[i]) is Closed),
    ensures
        closed_note_count(out) == 0,
    decreases out.len(),
{
    if out.len() > 0 {
        closed_note_count_all_open(out.drop_last());
    }
}

/// A `Data` event never produces a closure notification.
proof fn data_result_no_closed(
    pending0: Seq<u8>,
    data: Seq<u8>,
    pending1: Seq<u8>,
    out: Seq<Notification>,
)
    requires
        data_result(pending0, data, pending1, out),
    ensures
        closed_note_count(out) == 0,
{
    assert forall|i: int| 0 <= i < out.len() implies !((#[trigger] out[i]) is Closed) by {
        if has_fault(out) {
            let k = choose|k: int|
                {
                    &&& 0 <= k <= (pending0 + data).len()
                    &&& valid_utf8((pending0 + data).subrange(0, k))
                    &&& undecodable(
                        (pending0 + data).subrange(k, (pending0 + data).len() as int),
                    )
                    &&& out.len() == (if k > 0 {
                        2int
                    } else {
                        1int
                    })
                    &&& (k > 0 ==> is_output_of(out[0], decode_utf8((pending0 + data).subrange(0, k))))
                    &&& out.last() is DecodeFault
                };
            assert(out.len() <= 2);
            if i == out.len() - 1 {
                assert(out[i] is DecodeFault);
            } else {
                assert(i == 0 && out.len() == 2);
                assert(is_output_of(out[0], decode_utf8((pending0 + data).subrange(0, k))));
            }
        } else {
            let all = pending0 + data;
            let k = all.len() - pending1.len();
            assert(out.len() <= 1);
            assert(is_output_of(out[0], decode_utf8(all.subrange(0, k))));
        }
    }
    closed_note_count_all_open(out);
}

/// What feeding a whole event stream to the bridge yields, head first:
/// each `Data` batch as [`data_result`] describes, each `Error` one
/// `Fault` carrying its message, in stream order; the first `Closed` is
/// terminal — any unfinished tail is reported as a decode fault, then the
/// closure notification carries that reason's text — and whatever follows
/// it is ignored.
pub open spec fn pump_result(
    pending0: Seq<u8>,
    events: Seq<Event>,
    pending1: Seq<u8>,
    out: Seq<Notification>,
    done: bool,
) -> bool
    decreases events.len(),
{
    if events.len() == 0 {
        &&& out.len() == 0
        &&& pending1 == pending0
        &&& !done
    } else {
        match events.first() {
            Event::Data(bytes) => exists|mid: Seq<u8>, k: int|
                {
                    &&& 0 <= k <= out.len()
                    &&& #[trigger] data_result(pending0, bytes@, mid, out.take(k))
                    &&& pump_result(mid, events.drop_first(), pending1, out.skip(k), done)
                },
            Event::Error(msg) => {
                &&& out.len() >= 1
                &&& out.first() == Notification::Fault(msg)
                &&& pump_result(pending0, events.drop_first(), pending1, out.drop_first(), done)
            },
            Event::Closed(reason) => {
                &&& done
                &&& pending1.len() == 0
                &&& out.len() == (if pending0.len() > 0 {
                    2int
                } else {
                    1int
                })
                &&& (pending0.len() > 0 ==> out[0] is DecodeFault)
                &&& is_closed_of(out.last(), close_text(reason))
            },
        }
    }
}

/// Batches compose: what a stream prefix yields, followed by what the
/// remainder yields from the leftover tail, is what the whole stream
/// yields.
pub proof fn pump_result_concat(
    p0: Seq<u8>,
    evs1: Seq<Event>,
    mid: Seq<u8>,
    o1: Seq<Notification>,
    evs2: Seq<Event>,
    p1: Seq<u8>,
    o2: Seq<Notification>,
    done: bool,
)
    requires
        pump_result(p0, evs1, mid, o1, false),
        pump_result(mid, evs2, p1, o2, done),
    ensures
        pump_result(p0, evs1 + evs2, p1, o1 + o2, done),
    decreases evs1.len(),
{
    if evs1.len() == 0 {
        assert(evs1 + evs2 =~= evs2);
        assert(o1 + o2 =~= o2);
    } else {
        assert((evs1 + evs2).first() == evs1.first());
        assert((evs1 + evs2).drop_first() =~= evs1.drop_first() + evs2);
        match evs1.first() {
            Event::Data(bytes) => {
                let (m1, k) = choose|m1: Seq<u8>, k: int|
                    {
                        &&& 0 <= k <= o1.len()
                        &&& #[trigger] data_result(p0, bytes@, m1, o1.take(k))
                        &&& pump_result(m1, evs1.drop_first(), mid, o1.skip(k), false)
                    };
                pump_result_concat(m1, evs1.drop_first(), mid, o1.skip(k), evs2, p1, o2, done);
                assert((o1 + o2).take(k) =~= o1.take(k));
                assert((o1 + o2).skip(k) =~= o1.skip(k) + o2);
                assert(data_result(p0, bytes@, m1, (o1 + o2).take(k)));
                assert(pump_result(m1, (evs1 + evs2).drop_first(), p1, (o1 + o2).skip(k), done));
                assert(pump_result(p0, evs1 + evs2, p1, o1 + o2, done));
            },
            Event::Error(msg) => {
                pump_result_concat(p0, evs1.drop_first(), mid, o1.drop_first(), evs2, p1, o2, done);
                assert((o1 + o2).first() == o1.first());
                assert((o1 + o2).drop_first() =~= o1.drop_first() + o2);
                assert(pump_result(p0, (evs1 + evs2).drop_first(), p1, (o1 + o2).drop_first(), done));
                assert(pump_result(p0, evs1 + evs2, p1, o1 + o2, done));
            },
            Event::Closed(reason) => {
                assert(false);
            },
        }
    }
}

/// A stream already closed ignores whatever is appended after it.
proof fn pump_result_push(
    p0: Seq<u8>,
    evs: Seq<Event>,
    p1: Seq<u8>,
    o: Seq<Notification>,
    e: Event,
)
    requires
        pump_result(p0, evs, p1, o, true),
    ensures
        pump_result(p0, evs.push(e), p1, o, true),
    decreases evs.len(),
{
    assert(evs.len() > 0);
    assert(evs.push(e).first() == evs.first());
    assert(evs.push(e).drop_first() =~= evs.drop_first().push(e));
    match evs.first() {
        Event::Data(bytes) => {
            let (m1, k) = choose|m1: Seq<u8>, k: int|
                {
                    &&& 0 <= k <= o.len()
                    &&& #[trigger] data_result(p0, bytes@, m1, o.take(k))
                    &&& pump_result(m1, evs.drop_first(), p1, o.skip(k), true)
                };
            pump_result_push(m1, evs.drop_first(), p1, o.skip(k), e);
            assert(pump_result(m1, evs.push(e).drop_first(), p1, o.skip(k), true));
            assert(pump_result(p0, evs.push(e), p1, o, true));
        },
        Event::Error(msg) => {
            pump_result_push(p0, evs.drop_first(), p1, o.drop_first(), e);
            assert(pump_result(p0, evs.push(e).drop_first(), p1, o.drop_first(), true));
            assert(pump_result(p0, evs.push(e), p1, o, true));
        },
        Event::Closed(reason) => {
            assert(pump_result(p0, evs.push(e), p1, o, true));
        },
    }
}

/// Unfolds `has_closed` across one more event.
proof fn has_closed_extend(events: Seq<Event>, j: int)
    requires
        0 <= j < events.len(),
    ensures
        has_closed(events.take(j + 1)) == (has_closed(events.take(j)) || events[j] is Closed),
{
    if has_closed(events.take(j)) {
        let i = choose|i: int|
            0 <= i < events.take(j).len() && (#[trigger] events.take(j)[i]) is Closed;
        assert(events.take(j + 1)[i] is Closed);
    }
    if events[j] is Closed {
        assert(events.take(j + 1)[j] is Closed);
    }
    if has_closed(events.take(j + 1)) {
        let i = choose|i: int|
            0 <= i < events.take(j + 1).len() && (#[trigger] events.take(j + 1)[i]) is Closed;
        if i < j {
            assert(events.take(j)[i] is Closed);
        } else {
            assert(events[j] is Closed);
        }
    }
}

/// Feeds a whole event stream through the bridge, in order, gathering the
/// notifications.  The batch is pinned by [`pump_result`]: each `Data`
/// event's decode, each `Error` event's fault, then the first `Closed` as
/// the terminal batch, with anything after it ignored.  So exactly one
/// closure notification comes out, it comes last, it carries the close
/// reason's text, and the registry entry is retired if it still refers to
/// this session — all exactly when the stream holds a `Closed` event, as
/// a finished I/O loop guarantees.
pub fn pump_events(
    bridge: &mut EventBridge,
    reg: &mut SessionRegistry,
    session: u64,
    events: Vec<Event>,
) -> (out: Vec<Notification>)
    requires
        old(bridge).wf(),
        old(reg).wf(),
        !old(bridge).spec_done(),
    ensures
        final(bridge).wf(),
        final(reg).wf(),
        final(reg).spec_next() == old(reg).spec_next(),
        final(bridge).spec_done() == has_closed(events@),
        closed_note_count(out@) == if final(bridge).spec_done() {
            1int
        } else {
            0int
        },
        final(bridge).spec_done() ==> out@.len() > 0 && out@.last() is Closed,
        final(reg).spec_active() == if has_closed(events@) && old(reg).spec_active() == Some(
            session,
        ) {
            Option::<u64>::None
        } else {
            old(reg).spec_active()
        },
        pump_result(
            old(bridge).spec_pending(),
            events@,
            final(bridge).spec_pending(),
            out@,
            final(bridge).spec_done(),
        ),
{
    let ghost ev0 = events@;
    let mut events = events;
    let n0: usize = events.len();
    assert(ev0.len() == n0);
    let mut out: Vec<Notification> = Vec::new();
    let mut j: usize = 0;
    while events.len() > 0
        invariant
            bridge.wf(),
            reg.wf(),
            reg.spec_next() == old(reg).spec_next(),
            j <= ev0.len(),
            ev0.len() <= usize::MAX,
            events@ == ev0.skip(j as int),
            bridge.spec_done() == has_closed(ev0.take(j as int)),
            closed_note_count(out@) == if bridge.spec_done() {
                1int
            } else {
                0int
            },
            bridge.spec_done() ==> out@.len() > 0 && out@.last() is Closed,
            reg.spec_active() == if bridge.spec_done() && old(reg).spec_active() == Some(
                session,
            ) {
                Option::<u64>::None
            } else {
                old(reg).spec_active()
            },
            pump_result(
                old(bridge).spec_pending(),
                ev0.take(j as int),
                bridge.spec_pending(),
                out@,
                bridge.spec_done(),
            ),
        decreases events@.len(),
    {
        assert(j < ev0.len());
        let ev = events.remove(0);
        assert(events@ =~= ev0.skip(j + 1));
        assert(ev0.skip(j as int)[0] == ev0[j as int]);
        let ghost evg = ev;
        let ghost outpre = out@;
        let ghost donepre = bridge.spec_done();
        let ghost pending0 = bridge.spec_pending();
        let mut step = bridge.process_event(reg, session, ev);
        let ghost stepv = step@;
        out.append(&mut step);
        proof {
            assert(out@ == outpre + stepv);
            closed_note_count_concat(outpre, stepv);
            has_closed_extend(ev0, j as int);
            assert(evg == ev0[j as int]);
            assert(seq![evg].first() == evg);
            assert(seq![evg].drop_first() =~= Seq::<Event>::empty());
            assert(ev0.take(j as int).push(evg) =~= ev0.take(j + 1));
            assert(ev0.take(j as int) + seq![evg] =~= ev0.take(j + 1));
            if !donepre {
                match evg {
                    Event::Data(bytes) => {
                        data_result_no_closed(pending0, bytes@, bridge.spec_pending(), stepv);
                        assert(pump_result(
                            bridge.spec_pending(),
                            Seq::<Event>::empty(),
                            bridge.spec_pending(),
                            Seq::<Notification>::empty(),
                            false,
                        ));
                        let kk = stepv.len() as int;
                        assert(stepv.take(kk) =~= stepv);
                        assert(stepv.skip(kk) =~= Seq::<Notification>::empty());
                        assert(data_result(pending0, bytes@, bridge.spec_pending(), stepv.take(kk)));
                        assert(pump_result(
                            bridge.spec_pending(),
                            seq![evg].drop_first(),
                            bridge.spec_pending(),
                            stepv.skip(kk),
                            false,
                        ));
                        assert(pump_result(pending0, seq![evg], bridge.spec_pending(), stepv, false));
                    },
                    Event::Error(msg) => {
                        closed_note_count_all_open(stepv);
                        assert(pump_result(
                            pending0,
                            Seq::<Event>::empty(),
                            pending0,
                            Seq::<Notification>::empty(),
                            false,
                        ));
                        assert(stepv.first() == Notification::Fault(msg));
                        assert(stepv.drop_first() =~= Seq::<Notification>::empty());
                        assert(pump_result(
                            pending0,
                            seq![evg].drop_first(),
                            pending0,
                            stepv.drop_first(),
                            false,
                        ));
                        assert(pump_result(pending0, seq![evg], bridge.spec_pending(), stepv, false));
                    },
                    Event::Closed(reason) => {
                        assert(stepv.last() is Closed);
                        assert(closed_note_count(stepv.drop_last()) == 0) by {
                            closed_note_count_all_open(stepv.drop_last());
                        }
                        assert(closed_note_count(stepv) == 1);
                        assert(out@.last() == stepv.last());
                        assert(pump_result(pending0, seq![evg], bridge.spec_pending(), stepv, true));
                    },
                }
                pump_result_concat(
                    old(bridge).spec_pending(),
                    ev0.take(j as int),
                    pending0,
                    outpre,
                    seq![evg],
                    bridge.spec_pending(),
                    stepv,
                    bridge.spec_done(),
                );
            } else {
                assert(stepv.len() == 0);
                assert(out@ =~= outpre);
                pump_result_push(
                    old(bridge).spec_pending(),
                    ev0.take(j as int),
                    bridge.spec_pending(),
                    outpre,
                    evg,
                );
            }
        }
        j = j + 1;
    }
    assert(ev0.take(ev0.len() as int) =~= ev0);
    out
}

/// Decoding distributes over a clean split: text decoded from two valid
/// chunks, one after the other, is the text of the chunks joined.  This
/// is why buffering an unfinished tail and re-attempting the decode once
/// more bytes arrive cannot corrupt or reorder text.
pub proof fn decode_utf8_concat(b1: Seq<u8>, b2: Seq<u8>)
    requires
        valid_utf8(b1),
        valid_utf8(b2),
    ensures
        valid_utf8(b1 + b2),
        decode_utf8(b1 + b2) == decode_utf8(b1) + decode_utf8(b2),
{
    valid_utf8_concat(b1, b2);
    let whole = b1 + b2;
    let mid = b1.len() as int;
    if b2.len() == 0 {
        assert(whole =~= b1);
        is_char_boundary_start_end_of_seq(whole);
    } else {
        assert(whole[mid] == b2[0]);
        assert(!vstd::utf8::is_continuation_byte(b2[0]));
        is_char_boundary_iff_not_is_continuation_byte(whole, mid);
    }
    assert(is_char_boundary(whole, mid));
    decode_utf8_split(whole, mid);
    assert(whole.subrange(0, mid) =~= b1);
    assert(whole.subrange(mid, whole.len() as int) =~= b2);
}

/// Feeding a byte stream to the bridge split in two `Data` events yields
/// the same text as feeding it whole: if the second batch leaves nothing
/// pending and neither batch faulted, the concatenated `Output` text of
/// the two batches is exactly the decoding of the concatenated bytes.
pub proof fn lemma_split_data_same_text(
    x1: Seq<u8>,
    x2: Seq<u8>,
    p1: Seq<u8>,
    out1: Seq<Notification>,
    p2: Seq<u8>,
    out2: Seq<Notification>,
)
    requires
        data_result(Seq::empty(), x1, p1, out1),
        data_result(p1, x2, p2, out2),
        !has_fault(out1),
        !has_fault(out2),
        p2.len() == 0,
    ensures
        valid_utf8(x1 + x2),
        output_text(out1) + output_text(out2) == decode_utf8(x1 + x2),
{
    let all1 = Seq::<u8>::empty() + x1;
    assert(all1 =~= x1);
    let k1 = x1.len() - p1.len();
    let all2 = p1 + x2;
    let k2 = all2.len() as int;
    assert(all2.subrange(0, k2) =~= all2);
    assert(x1 + x2 =~= x1.subrange(0, k1) + all2);
    decode_utf8_concat(x1.subrange(0, k1), all2);
    assert(output_text(out1) == decode_utf8(x1.subrange(0, k1))) by {
        if k1 > 0 {
            output_text_single(out1, decode_utf8(x1.subrange(0, k1)));
        } else {
            assert(x1.subrange(0, 0) =~= Seq::<u8>::empty());
            assert(decode_utf8(x1.subrange(0, k1)) =~= Seq::<char>::empty());
        }
    }
    assert(output_text(out2) == decode_utf8(all2)) by {
        if k2 > 0 {
            output_text_single(out2, decode_utf8(all2.subrange(0, k2)));
            assert(decode_utf8(all2.subrange(0, k2)) == decode_utf8(all2));
        } else {
            assert(all2 =~= Seq::<u8>::empty());
            assert(decode_utf8(all2) =~= Seq::<char>::empty());
        }
    }
}

/// A batch of one `Output` notification carries exactly its text; an
/// empty batch carries none.
proof fn output_text_single(out: Seq<Notification>, text: Seq<char>)
    requires
        out.len() == 1,
        is_output_of(out[0], text),
    ensures
        output_text(out) == text,
{
    assert(out.drop_last() =~= Seq::<Notification>::empty());
    assert(output_text(out.drop_last()) =~= Seq::<char>::empty());
    assert(output_text(out) =~= text);
}

} // verus!
